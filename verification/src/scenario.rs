//! The scenario model: which invalid conditions each generated block carries.

use vstd::prelude::*;
use vstd::string::*;
use crate::outside::{parse_flag_objects, parsed_flag_objects};
use crate::text::{decimal_string, decimal_text};

verus! {

/// The chain a scenario is generated for.
#[derive(Clone, Copy, Debug, PartialEq, Eq, Structural)]
pub enum Network {
    Mainnet,
    Testnet,
    Regtest,
}

/// Credentials for the node's RPC server.
#[derive(Clone, Debug)]
pub struct RpcAuth {
    /// Bitcoin node RPC pass
    pub rpc_pass: String,
    /// Bitcoin node RPC user
    pub rpc_user: String,
}

/// The invalid conditions that one generated block carries, one flag per
/// supported kind.
#[derive(Clone, Copy, Debug, PartialEq, Eq, Structural)]
pub struct BlockSpec {
    /// Coinbase output contains duplicate M2 messages
    pub duplicate_m2: bool,
}

impl BlockSpec {
    /// Whether this block needs an M1 message in an earlier block.
    pub open spec fn needs_m1(self) -> bool {
        self.duplicate_m2
    }

    /// How many independent reasons make this block invalid.
    pub open spec fn reasons(self) -> nat {
        if self.duplicate_m2 {
            1
        } else {
            0
        }
    }

    /// The human-readable annotation for the block generated from this spec.
    pub open spec fn comment_text(self) -> Seq<char> {
        "Generate a block with "@ + decimal_text(self.reasons()) + " invalid conditions:"@ + (
        if self.duplicate_m2 {
            "\n- 1 duplicate M2 message in coinbase outputs"@
        } else {
            Seq::<char>::empty()
        })
    }

    /// `true` IFF an M1 message is required in a previous block
    pub fn requires_m1(&self) -> (required: bool)
        ensures
            required == self.needs_m1(),
    {
        self.duplicate_m2
    }

    /// Calculate the number of reasons for which the specified block will be
    /// invalid
    pub fn n_reasons_invalid(&self) -> (n: usize)
        ensures
            n == self.reasons(),
    {
        let mut res: usize = 0;
        if self.duplicate_m2 {
            res += 1;
        }
        res
    }
}

/// An ordered scenario: one [`BlockSpec`] per block to generate.
#[derive(Clone, Debug, PartialEq, Eq)]
pub struct BlocksSpec(pub Vec<BlockSpec>);

impl View for BlocksSpec {
    type V = Seq<BlockSpec>;

    open spec fn view(&self) -> Seq<BlockSpec> {
        self.0@
    }
}

/// Whether any block of the scenario needs an M1 message in an earlier block.
pub open spec fn any_needs_m1(specs: Seq<BlockSpec>) -> bool {
    exists|i: int| 0 <= i < specs.len() && (#[trigger] specs[i]).needs_m1()
}

impl BlocksSpec {
    /// `true` IFF an M1 message is required in a previous block
    pub fn requires_m1(&self) -> (required: bool)
        ensures
            required == any_needs_m1(self@),
    {
        let mut i: usize = 0;
        while i < self.0.len()
            invariant
                i <= self.0.len(),
                forall|j: int| 0 <= j < i ==> !(#[trigger] self.0@[j]).needs_m1(),
            decreases self.0.len() - i,
        {
            if self.0[i].requires_m1() {
                return true;
            }
            i += 1;
        }
        false
    }
}

/// Why a scenario could not be read: where in the input, and what is wrong
/// there.
#[derive(Clone, Debug, PartialEq, Eq)]
pub struct ParseError {
    /// The path, within the input, of what was rejected.
    pub path: String,
    /// What is wrong there.
    pub message: String,
}

impl View for ParseError {
    type V = (Seq<char>, Seq<char>);

    open spec fn view(&self) -> (Seq<char>, Seq<char>) {
        (self.path@, self.message@)
    }
}

/// The fields of one object of the input: names and flags.
pub type Fields = Seq<(Seq<char>, bool)>;

/// Whether a block condition has a field of this name.
pub open spec fn is_known_field(name: Seq<char>) -> bool {
    name == "duplicate_m2"@
}

/// The name of the first field that no block condition has, if any.
pub open spec fn first_unknown_field(fields: Fields) -> Option<Seq<char>>
    decreases fields.len(),
{
    if fields.len() == 0 {
        None
    } else if !is_known_field(fields[0].0) {
        Some(fields[0].0)
    } else {
        first_unknown_field(fields.drop_first())
    }
}

/// The flag that `fields` give to `name`: the one of the last field of
/// that name, or `false` where there is none.
pub open spec fn flag_value(fields: Fields, name: Seq<char>) -> bool
    decreases fields.len(),
{
    if fields.len() == 0 {
        false
    } else if fields.last().0 == name {
        fields.last().1
    } else {
        flag_value(fields.drop_last(), name)
    }
}

/// The block condition that `fields` describe.
pub open spec fn block_spec_of(fields: Fields) -> BlockSpec {
    BlockSpec { duplicate_m2: flag_value(fields, "duplicate_m2"@) }
}

/// The error for the field `name` of the object at `index`, which no
/// block condition has.
pub open spec fn unknown_field_error(index: nat, name: Seq<char>) -> (Seq<char>, Seq<char>) {
    (
        "["@ + decimal_text(index) + "]."@ + name,
        "unknown field `"@ + name + "`, expected `duplicate_m2`"@,
    )
}

/// The first object from `from` on that has an unknown field, with that
/// field's name.
pub open spec fn first_rejected(objects: Seq<Fields>, from: nat) -> Option<(nat, Seq<char>)>
    decreases objects.len() - from,
{
    if from >= objects.len() {
        None
    } else {
        match first_unknown_field(objects[from as int]) {
            Some(name) => Some((from, name)),
            None => first_rejected(objects, from + 1),
        }
    }
}

/// The scenario that a list of objects describes: one block condition per
/// object, unless an object has a field that no block condition has.
pub open spec fn scenario_of(objects: Seq<Fields>) -> Result<Seq<BlockSpec>, (Seq<char>, Seq<char>)> {
    match first_rejected(objects, 0) {
        Some((index, name)) => Err(unknown_field_error(index, name)),
        None => Ok(Seq::new(objects.len(), |i: int| block_spec_of(objects[i]))),
    }
}

/// The scenario that a text describes: what its list of objects
/// describes, or the error with which the text was rejected as such a
/// list.
pub open spec fn parsed_scenario(text: Seq<char>) -> Result<Seq<BlockSpec>, (Seq<char>, Seq<char>)> {
    match parsed_flag_objects(text) {
        Ok(objects) => scenario_of(objects),
        Err(error) => Err(error),
    }
}

/// What a parse result holds.
pub open spec fn parse_result_view(result: Result<BlocksSpec, ParseError>) -> Result<
    Seq<BlockSpec>,
    (Seq<char>, Seq<char>),
> {
    match result {
        Ok(spec) => Ok(spec@),
        Err(error) => Err(error@),
    }
}

/// Reads one block condition from the fields of the object at `index`.
pub fn block_spec_from_fields(index: usize, fields: &Vec<(String, bool)>) -> (result: Result<
    BlockSpec,
    ParseError,
>)
    ensures
        match result {
            Ok(spec) => first_unknown_field(fields.deep_view()) is None && spec == block_spec_of(
                fields.deep_view(),
            ),
            Err(error) => first_unknown_field(fields.deep_view()) matches Some(name) && error@
                == unknown_field_error(index as nat, name),
        },
{
    let known = String::from_str("duplicate_m2");
    let ghost all = fields.deep_view();
    let mut duplicate_m2 = false;
    let mut j: usize = 0;
    assert(all.skip(0) =~= all);
    assert(all.take(0) =~= Seq::<(Seq<char>, bool)>::empty());
    while j < fields.len()
        invariant
            j <= fields.len(),
            all == fields.deep_view(),
            known@ == "duplicate_m2"@,
            first_unknown_field(all) == first_unknown_field(all.skip(j as int)),
            duplicate_m2 == flag_value(all.take(j as int), "duplicate_m2"@),
        decreases fields.len() - j,
    {
        let name = &fields[j].0;
        proof {
            let rest = all.skip(j as int);
            assert(rest[0] == all[j as int]);
            assert(all[j as int] == (fields@[j as int].0@, fields@[j as int].1));
            assert(rest.drop_first() =~= all.skip(j + 1));
            assert(all.take(j + 1).drop_last() =~= all.take(j as int));
            assert(all.take(j + 1).last() == all[j as int]);
        }
        if *name != known {
            let mut path = String::from_str("[");
            let number = decimal_string(index);
            path.append(number.as_str());
            path.append("].");
            path.append(name.as_str());
            let mut message = String::from_str("unknown field `");
            message.append(name.as_str());
            message.append("`, expected `duplicate_m2`");
            return Err(ParseError { path, message });
        }
        duplicate_m2 = fields[j].1;
        j += 1;
    }
    assert(all.take(fields@.len() as int) =~= all);
    Ok(BlockSpec { duplicate_m2 })
}

/// Reads a scenario from the objects of the input.
pub fn blocks_spec_from_objects(objects: &Vec<Vec<(String, bool)>>) -> (result: Result<
    BlocksSpec,
    ParseError,
>)
    ensures
        parse_result_view(result) == scenario_of(objects.deep_view()),
{
    let ghost all = objects.deep_view();
    let mut specs: Vec<BlockSpec> = Vec::new();
    let mut i: usize = 0;
    while i < objects.len()
        invariant
            i <= objects.len(),
            all == objects.deep_view(),
            first_rejected(all, 0) == first_rejected(all, i as nat),
            specs@.len() == i,
            forall|k: int| 0 <= k < i ==> specs@[k] == block_spec_of(#[trigger] all[k]),
        decreases objects.len() - i,
    {
        assert(all[i as int] == objects@[i as int].deep_view());
        match block_spec_from_fields(i, &objects[i]) {
            Ok(spec) => {
                specs.push(spec);
            },
            Err(error) => {
                return Err(error);
            },
        }
        i += 1;
    }
    let spec = BlocksSpec(specs);
    assert(spec@ =~= Seq::new(all.len(), |i: int| block_spec_of(all[i])));
    Ok(spec)
}

impl BlocksSpec {
    /// Reads a scenario from its text: a JSON list of objects, one per
    /// block, whose fields are the flags of the block's conditions, and
    /// nothing but whitespace around the list. A flag that is left out is
    /// `false`; a field that is no flag is rejected. Where an object gives
    /// a flag more than once, it has the last value given.
    pub fn parse(text: &str) -> (result: Result<BlocksSpec, ParseError>)
        ensures
            parse_result_view(result) == parsed_scenario(text@),
    {
        match parse_flag_objects(text) {
            Ok(objects) => blocks_spec_from_objects(&objects),
            Err(error) => Err(error),
        }
    }
}

impl std::str::FromStr for BlocksSpec {
    type Err = ParseError;

    /// Reads a scenario from its text, as [`BlocksSpec::parse`] does.
    fn from_str(s: &str) -> (result: Result<Self, ParseError>)
        ensures
            parse_result_view(result) == parsed_scenario(s@),
    {
        BlocksSpec::parse(s)
    }
}

/// Generate a comment for the block generated by a block spec
pub fn gen_comment(block_spec: &BlockSpec) -> (comment: String)
    ensures
        comment@ == block_spec.comment_text(),
{
    let mut comment = String::from_str("Generate a block with ");
    let count = decimal_string(block_spec.n_reasons_invalid());
    comment.append(count.as_str());
    comment.append(" invalid conditions:");
    if block_spec.duplicate_m2 {
        comment.append("\n- 1 duplicate M2 message in coinbase outputs");
    }
    comment
}

} // verus!
