//! The script emitter: an ordered list of comments and commands, rendered
//! once into the text of a POSIX shell script.

use std::collections::VecDeque;
use vstd::prelude::*;
use vstd::string::*;
use crate::chain::{Block, BlockView};
use crate::encoding::{all_encodable, block_bytes, serialize_block};
use crate::text::{lower_hex, to_lower_hex};
use crate::scenario::RpcAuth;

verus! {

/// How many characters stand before the first newline of a text, or in
/// the whole text if it has none.
pub open spec fn first_line_len(text: Seq<char>) -> nat
    decreases text.len(),
{
    if text.len() == 0 || text[0] == '\n' {
        0
    } else {
        1 + first_line_len(text.drop_first())
    }
}

/// A line without the carriage return that ended it, if one did.
pub open spec fn without_carriage_return(line: Seq<char>) -> Seq<char> {
    if line.len() > 0 && line.last() == '\r' {
        line.drop_last()
    } else {
        line
    }
}

/// The lines of a text, without their line endings. A line ends at a
/// newline, or at a carriage return that a newline follows; what stands
/// after the last newline is a line too, unless it is empty.
pub open spec fn text_lines(text: Seq<char>) -> Seq<Seq<char>>
    decreases text.len(),
{
    let n = first_line_len(text);
    if text.len() == 0 {
        Seq::<Seq<char>>::empty()
    } else if n >= text.len() {
        seq![text]
    } else {
        seq![without_carriage_return(text.take(n as int))] + text_lines(text.skip(n as int + 1))
    }
}

/// The JSON text of an object whose members are the string-valued
/// `members` and one list of strings under `list_name`.
pub uninterp spec fn json_object_text(
    members: Seq<(Seq<char>, Seq<char>)>,
    list_name: Seq<char>,
    list: Seq<Seq<char>>,
) -> Seq<char>;

/// One item of a script, as the renderer sees it.
pub ghost enum ItemView {
    /// Free text, which may span several lines.
    Comment(Seq<char>),
    /// A program's name and its arguments.
    Command(Seq<char>, Seq<Seq<char>>),
}

/// Each line marked as a comment, the lines joined by newlines.
pub open spec fn marked_lines(lines: Seq<Seq<char>>) -> Seq<char>
    decreases lines.len(),
{
    if lines.len() == 0 {
        Seq::<char>::empty()
    } else if lines.len() == 1 {
        "# "@ + lines[0]
    } else {
        marked_lines(lines.drop_last()) + "\n"@ + "# "@ + lines.last()
    }
}

/// Each word preceded by one space.
pub open spec fn spaced(words: Seq<Seq<char>>) -> Seq<char>
    decreases words.len(),
{
    if words.len() == 0 {
        Seq::<char>::empty()
    } else {
        spaced(words.drop_last()) + " "@ + words.last()
    }
}

/// The text of one item: a comment with every line marked, or a command's
/// name and arguments separated by single spaces.
pub open spec fn item_text(item: ItemView) -> Seq<char> {
    match item {
        ItemView::Comment(text) => marked_lines(text_lines(text)),
        ItemView::Command(command, args) => command + spaced(args),
    }
}

/// What follows the `i`-th item: a blank line, unless the item is the last
/// one or a comment that a command follows; then only a newline.
pub open spec fn separator(items: Seq<ItemView>, i: int) -> Seq<char> {
    if i + 1 >= items.len() {
        "\n"@
    } else if items[i] is Comment && items[i + 1] is Command {
        "\n"@
    } else {
        "\n\n"@
    }
}

/// The text of the first `n` items, each followed by its separator.
pub open spec fn rendered_prefix(items: Seq<ItemView>, n: nat) -> Seq<char>
    decreases n,
{
    if n == 0 {
        Seq::<char>::empty()
    } else {
        rendered_prefix(items, (n - 1) as nat) + item_text(items[n - 1]) + separator(items, n - 1)
    }
}

/// The text of a whole script.
pub open spec fn rendered(items: Seq<ItemView>) -> Seq<char> {
    rendered_prefix(items, items.len())
}

/// The arguments of the `curl` invocation that sends one JSON-RPC request
/// to the node at `rpc_addr`.
pub open spec fn curl_args(
    rpc_addr: Seq<char>,
    rpc_user: Seq<char>,
    rpc_pass: Seq<char>,
    method: Seq<char>,
    params: Seq<Seq<char>>,
) -> Seq<Seq<char>> {
    seq![
        "'"@ + rpc_addr + "'"@,
        "-H"@,
        "'Content-Type: application/json'"@,
        "--user"@,
        "'"@ + rpc_user + ":"@ + rpc_pass + "'"@,
        "--data-binary"@,
        "'"@ + json_object_text(
            seq![("jsonrpc"@, "2.0"@), ("id"@, "bip347-enforcer-test"@), ("method"@, method)],
            "params"@,
            params,
        ) + "'"@,
    ]
}

/// The command that submits `block` to the node at `rpc_addr`.
pub open spec fn submit_command(
    rpc_addr: Seq<char>,
    rpc_user: Seq<char>,
    rpc_pass: Seq<char>,
    block: BlockView,
) -> ItemView {
    ItemView::Command(
        "curl"@,
        curl_args(rpc_addr, rpc_user, rpc_pass, "submitblock"@, seq![lower_hex(block_bytes(block))]),
    )
}

/// A text that is not empty and holds no newline is one line.
pub proof fn lemma_single_line(text: Seq<char>)
    requires
        text.len() > 0,
        forall|i: int| 0 <= i < text.len() ==> text[i] != '\n',
    ensures
        text_lines(text) == seq![text],
        marked_lines(text_lines(text)) == "# "@ + text,
{
    lemma_first_line_ends_at(text, text.len() as int);
}

/// Two one-line comments followed by a command render as the first
/// comment, a blank line, the second comment, the command on the very next
/// line, and one newline at the end.
pub proof fn lemma_two_comments_then_a_command(
    first: Seq<char>,
    second: Seq<char>,
    command: Seq<char>,
    args: Seq<Seq<char>>,
)
    requires
        first.len() > 0,
        second.len() > 0,
        forall|i: int| 0 <= i < first.len() ==> first[i] != '\n',
        forall|i: int| 0 <= i < second.len() ==> second[i] != '\n',
    ensures
        rendered(
            seq![
                ItemView::Comment(first),
                ItemView::Comment(second),
                ItemView::Command(command, args),
            ],
        ) == "# "@ + first + "\n\n"@ + "# "@ + second + "\n"@ + command + spaced(args) + "\n"@,
{
    let items = seq![
        ItemView::Comment(first),
        ItemView::Comment(second),
        ItemView::Command(command, args),
    ];
    lemma_single_line(first);
    lemma_single_line(second);
    reveal_with_fuel(rendered_prefix, 4);
    assert(separator(items, 0) == "\n\n"@);
    assert(separator(items, 1) == "\n"@);
    assert(separator(items, 2) == "\n"@);
    assert(rendered_prefix(items, 0) =~= Seq::<char>::empty());
    assert(rendered_prefix(items, 1) =~= "# "@ + first + "\n\n"@);
    assert(rendered_prefix(items, 2) =~= "# "@ + first + "\n\n"@ + "# "@ + second + "\n"@);
    assert(rendered(items) =~= "# "@ + first + "\n\n"@ + "# "@ + second + "\n"@ + command + spaced(
        args,
    ) + "\n"@);
}

/// A script that ends in a command ends in that command's text and one
/// newline, with no blank line before the end.
pub proof fn lemma_script_ends_with_its_last_command(items: Seq<ItemView>)
    requires
        items.len() > 0,
        items.last() is Command,
    ensures
        rendered(items) == rendered_prefix(items, (items.len() - 1) as nat) + item_text(
            items.last(),
        ) + "\n"@,
{
}

/// The first line of a text ends where its first newline stands.
pub proof fn lemma_first_line_ends_at(text: Seq<char>, k: int)
    requires
        0 <= k <= text.len(),
        forall|i: int| 0 <= i < k ==> text[i] != '\n',
        k < text.len() ==> text[k] == '\n',
    ensures
        first_line_len(text) == k,
    decreases k,
{
    if k > 0 {
        let rest = text.drop_first();
        assert forall|i: int| 0 <= i < k - 1 implies rest[i] != '\n' by {
            assert(rest[i] == text[i + 1]);
        }
        if k < text.len() {
            assert(rest[k - 1] == text[k]);
        }
        lemma_first_line_ends_at(rest, k - 1);
    }
}

/// Splits a text into its lines.
fn split_lines(text: &str) -> (lines: Vec<String>)
    ensures
        lines.deep_view() == text_lines(text@),
{
    let n = text.unicode_len();
    let mut lines: Vec<String> = Vec::new();
    let mut start: usize = 0;
    let mut i: usize = 0;
    assert(text@.skip(0) =~= text@);
    assert(lines.deep_view() + text_lines(text@.skip(0)) =~= text_lines(text@));
    while i < n
        invariant
            start <= i <= n,
            n == text@.len(),
            forall|j: int| start <= j < i ==> text@[j] != '\n',
            lines.deep_view() + text_lines(text@.skip(start as int)) == text_lines(text@),
        decreases n - i,
    {
        if text.get_char(i) == '\n' {
            let ends_in_return = i > start && text.get_char(i - 1) == '\r';
            let end: usize = if ends_in_return {
                i - 1
            } else {
                i
            };
            let line = String::from_str(text.substring_char(start, end));
            let ghost before = lines.deep_view();
            lines.push(line);
            proof {
                let rest = text@.skip(start as int);
                let k = i - start;
                assert forall|j: int| 0 <= j < k implies rest[j] != '\n' by {
                    assert(rest[j] == text@[start + j]);
                }
                assert(rest[k] == text@[i as int]);
                lemma_first_line_ends_at(rest, k);
                assert(rest.take(k) =~= text@.subrange(start as int, i as int));
                assert(rest.skip(k + 1) =~= text@.skip(i + 1));
                assert(without_carriage_return(rest.take(k)) =~= text@.subrange(
                    start as int,
                    end as int,
                ));
                assert(lines.deep_view() =~= before + seq![
                    text@.subrange(start as int, end as int),
                ]);
                assert(lines.deep_view() + text_lines(text@.skip(i + 1)) =~= before + text_lines(
                    rest,
                ));
            }
            start = i + 1;
        }
        i += 1;
    }
    if start < n {
        let line = String::from_str(text.substring_char(start, n));
        let ghost before = lines.deep_view();
        lines.push(line);
        proof {
            let rest = text@.skip(start as int);
            assert forall|j: int| 0 <= j < rest.len() implies rest[j] != '\n' by {
                assert(rest[j] == text@[start + j]);
            }
            lemma_first_line_ends_at(rest, rest.len() as int);
            assert(rest =~= text@.subrange(start as int, n as int));
            assert(lines.deep_view() =~= before + seq![rest]);
        }
    } else {
        assert(text@.skip(start as int) =~= Seq::<char>::empty());
        assert(lines.deep_view() + Seq::<Seq<char>>::empty() =~= lines.deep_view());
    }
    lines
}

/// Writes a JSON object of string members and one list of strings.
///
/// Calls `serde_json::to_string` on the `serde_json::Value` that holds
/// `members`, inserted in their order, and then `list` under `list_name`;
/// the contract only names the text.
#[verifier::external_body]
fn json_object(members: &Vec<(String, String)>, list_name: &str, list: &Vec<String>) -> (text:
    String)
    ensures
        text@ == json_object_text(members.deep_view(), list_name@, list.deep_view()),
{
    let mut object = serde_json::Map::new();
    for (name, value) in members {
        object.insert(name.clone(), serde_json::Value::from(value.as_str()));
    }
    object.insert(list_name.to_owned(), serde_json::Value::from(list.clone()));
    serde_json::to_string(&serde_json::Value::Object(object)).unwrap_or_default()
}

#[derive(Debug)]
struct Command {
    command: String,
    args: Vec<String>,
}

#[derive(Debug)]
struct Comment(String);

#[derive(Debug)]
enum ScriptItem {
    Command(Command),
    Comment(Comment),
}

/// What the renderer sees of a stored item.
spec fn item_view(item: ScriptItem) -> ItemView {
    match item {
        ScriptItem::Command(command) => ItemView::Command(command.command@, command.args.deep_view()),
        ScriptItem::Comment(comment) => ItemView::Comment(comment.0@),
    }
}

/// Collects the comments and commands of a script in the order given, and
/// renders them once.
#[derive(Debug)]
pub struct OutputPosixScriptBuilder {
    rpc_addr: String,
    rpc_auth: RpcAuth,
    script: VecDeque<ScriptItem>,
}

impl View for OutputPosixScriptBuilder {
    type V = Seq<ItemView>;

    closed spec fn view(&self) -> Seq<ItemView> {
        Seq::new(self.script@.len(), |i: int| item_view(self.script@[i]))
    }
}

impl OutputPosixScriptBuilder {
    /// The address of the node that the script's requests go to.
    pub closed spec fn rpc_addr(&self) -> Seq<char> {
        self.rpc_addr@
    }

    /// The user that the script's requests authenticate as.
    pub closed spec fn rpc_user(&self) -> Seq<char> {
        self.rpc_auth.rpc_user@
    }

    /// The password that the script's requests authenticate with.
    pub closed spec fn rpc_pass(&self) -> Seq<char> {
        self.rpc_auth.rpc_pass@
    }

    /// Whether `after` speaks to the same node with the same credentials.
    pub open spec fn same_node(&self, after: &Self) -> bool {
        &&& after.rpc_addr() == self.rpc_addr()
        &&& after.rpc_user() == self.rpc_user()
        &&& after.rpc_pass() == self.rpc_pass()
    }

    /// An empty script for the node at `rpc_addr`.
    pub fn new(rpc_addr: String, rpc_auth: RpcAuth) -> (builder: Self)
        ensures
            builder@ == Seq::<ItemView>::empty(),
            builder.rpc_addr() == rpc_addr@,
            builder.rpc_user() == rpc_auth.rpc_user@,
            builder.rpc_pass() == rpc_auth.rpc_pass@,
    {
        let builder = Self { rpc_addr, rpc_auth, script: VecDeque::new() };
        assert(builder@ =~= Seq::<ItemView>::empty());
        builder
    }

    /// Appends a command.
    pub fn command(&mut self, command: &str, args: Vec<String>)
        ensures
            final(self)@ == old(self)@.push(ItemView::Command(command@, args.deep_view())),
            old(self).same_node(final(self)),
    {
        let ghost before = self@;
        self.script.push_back(
            ScriptItem::Command(Command { command: String::from_str(command), args }),
        );
        assert(self@ =~= before.push(ItemView::Command(command@, args.deep_view())));
    }

    /// Appends a comment.
    pub fn comment(&mut self, comment: &str)
        ensures
            final(self)@ == old(self)@.push(ItemView::Comment(comment@)),
            old(self).same_node(final(self)),
    {
        let ghost before = self@;
        self.script.push_back(ScriptItem::Comment(Comment(String::from_str(comment))));
        assert(self@ =~= before.push(ItemView::Comment(comment@)));
    }

    /// Renders the script: every item's text, a blank line after each item
    /// but the last and a comment that a command follows, and one newline
    /// at the end.
    pub fn finalize(self) -> (text: String)
        ensures
            text@ == rendered(self@),
    {
        let mut res = String::new();
        let n = self.script.len();
        let mut i: usize = 0;
        while i < n
            invariant
                i <= n,
                n == self.script@.len(),
                res@ == rendered_prefix(self@, i as nat),
            decreases n - i,
        {
            let ghost before = res@;
            let next_is_comment = i + 1 < n && is_comment(&self.script[i + 1]);
            match &self.script[i] {
                ScriptItem::Comment(comment) => {
                    let text = render_comment(comment.0.as_str());
                    res.append(text.as_str());
                    if next_is_comment {
                        res.append("\n\n");
                    } else {
                        res.append("\n");
                    }
                },
                ScriptItem::Command(command) => {
                    let text = render_command(command);
                    res.append(text.as_str());
                    if i + 1 < n {
                        res.append("\n\n");
                    } else {
                        res.append("\n");
                    }
                },
            }
            assert(res@ == before + item_text(self@[i as int]) + separator(self@, i as int));
            i += 1;
        }
        res
    }

    /// Use curl to send an RPC request to the node
    pub fn curl_rpc(&mut self, method: &str, params: Vec<String>)
        ensures
            final(self)@ == old(self)@.push(
                ItemView::Command(
                    "curl"@,
                    curl_args(
                        old(self).rpc_addr(),
                        old(self).rpc_user(),
                        old(self).rpc_pass(),
                        method@,
                        params.deep_view(),
                    ),
                ),
            ),
            old(self).same_node(final(self)),
    {
        let mut members: Vec<(String, String)> = Vec::new();
        members.push((String::from_str("jsonrpc"), String::from_str("2.0")));
        members.push((String::from_str("id"), String::from_str("bip347-enforcer-test")));
        members.push((String::from_str("method"), String::from_str(method)));
        assert(members.deep_view() =~= seq![
            ("jsonrpc"@, "2.0"@),
            ("id"@, "bip347-enforcer-test"@),
            ("method"@, method@),
        ]);
        let request = json_object(&members, "params", &params);
        let mut endpoint = String::from_str("'");
        endpoint.append(self.rpc_addr.as_str());
        endpoint.append("'");
        let mut credentials = String::from_str("'");
        credentials.append(self.rpc_auth.rpc_user.as_str());
        credentials.append(":");
        credentials.append(self.rpc_auth.rpc_pass.as_str());
        credentials.append("'");
        let mut data = String::from_str("'");
        data.append(request.as_str());
        data.append("'");
        let mut args: Vec<String> = Vec::new();
        args.push(endpoint);
        args.push(String::from_str("-H"));
        args.push(String::from_str("'Content-Type: application/json'"));
        args.push(String::from_str("--user"));
        args.push(credentials);
        args.push(String::from_str("--data-binary"));
        args.push(data);
        assert(args.deep_view() =~= curl_args(
            self.rpc_addr(),
            self.rpc_user(),
            self.rpc_pass(),
            method@,
            params.deep_view(),
        ));
        self.command("curl", args);
    }

    /// RPC request for `submitblock`
    ///
    /// Appends the request and says so, unless one of the block's
    /// transactions cannot be encoded: then the script stays as it is.
    pub fn submitblock(&mut self, block: &Block) -> (submitted: bool)
        ensures
            submitted == all_encodable(block@.txdata),
            submitted ==> final(self)@ == old(self)@.push(
                submit_command(
                    old(self).rpc_addr(),
                    old(self).rpc_user(),
                    old(self).rpc_pass(),
                    block@,
                ),
            ),
            !submitted ==> final(self)@ == old(self)@,
            old(self).same_node(final(self)),
    {
        match serialize_block(block) {
            Some(bytes) => {
                let mut params: Vec<String> = Vec::new();
                params.push(to_lower_hex(&bytes));
                assert(params.deep_view() =~= seq![lower_hex(block_bytes(block@))]);
                self.curl_rpc("submitblock", params);
                true
            },
            None => false,
        }
    }
}

/// Whether a stored item is a comment.
fn is_comment(item: &ScriptItem) -> (yes: bool)
    ensures
        yes == (item_view(*item) is Comment),
{
    match item {
        ScriptItem::Comment(_) => true,
        ScriptItem::Command(_) => false,
    }
}

/// Marks every line of a comment.
fn render_comment(text: &str) -> (res: String)
    ensures
        res@ == marked_lines(text_lines(text@)),
{
    let lines = split_lines(text);
    let mut res = String::new();
    let mut i: usize = 0;
    while i < lines.len()
        invariant
            i <= lines.len(),
            res@ == marked_lines(lines.deep_view().take(i as int)),
        decreases lines.len() - i,
    {
        let ghost before = res@;
        if i > 0 {
            res.append("\n");
        }
        res.append("# ");
        res.append(lines[i].as_str());
        proof {
            let done = lines.deep_view().take(i as int);
            let next = lines.deep_view().take(i + 1);
            assert(next.drop_last() =~= done);
            assert(next.last() == lines@[i as int]@);
            if i == 0 {
                assert(before =~= Seq::<char>::empty());
                assert(res@ =~= "# "@ + next[0]);
            } else {
                assert(res@ =~= marked_lines(done) + "\n"@ + "# "@ + next.last());
            }
        }
        i += 1;
    }
    assert(lines.deep_view().take(lines@.len() as int) =~= lines.deep_view());
    res
}

/// Joins a command's name and arguments with single spaces.
fn render_command(command: &Command) -> (res: String)
    ensures
        res@ == command.command@ + spaced(command.args.deep_view()),
{
    let mut res = String::from_str(command.command.as_str());
    let ghost name = res@;
    let mut i: usize = 0;
    assert(spaced(command.args.deep_view().take(0)) =~= Seq::<char>::empty());
    assert(res@ =~= name + spaced(command.args.deep_view().take(0)));
    while i < command.args.len()
        invariant
            i <= command.args.len(),
            name == command.command@,
            res@ == name + spaced(command.args.deep_view().take(i as int)),
        decreases command.args.len() - i,
    {
        res.append(" ");
        res.append(command.args[i].as_str());
        proof {
            let done = command.args.deep_view().take(i as int);
            let next = command.args.deep_view().take(i + 1);
            assert(next.drop_last() =~= done);
            assert(next.last() == command.args@[i as int]@);
            assert(res@ =~= name + (spaced(done) + " "@ + next.last()));
        }
        i += 1;
    }
    assert(command.args.deep_view().take(command.args@.len() as int) =~= command.args.deep_view());
    res
}

} // verus!
