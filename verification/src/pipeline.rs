//! From a scenario and a starting point to the finished script.

use vstd::prelude::*;
use vstd::string::*;
use crate::chain::{Block, BlockView, TxOutView};
use crate::encoding::{all_encodable, blocks_encodable};
use crate::engine::GenError;
use crate::generator::{
    check_heights, cursor_after, gen_scenario_blocks, gen_setup_blocks, heights_in_range,
    is_chain, lemma_chain_concat, lemma_chain_is_encodable, lemma_stuck_in_first_part,
    lemma_stuck_in_second_part,
    runs_out_of_nonces, scenario_outputs, setup_count, setup_outputs, ChainCursor, CursorView,
};
use crate::posix_script_builder::{rendered, submit_command, ItemView, OutputPosixScriptBuilder};
use crate::scenario::{any_needs_m1, gen_comment, BlockSpec, BlocksSpec, Network, RpcAuth};

verus! {

/// The submissions of `blocks`, in order.
pub open spec fn submissions(
    rpc_addr: Seq<char>,
    rpc_user: Seq<char>,
    rpc_pass: Seq<char>,
    blocks: Seq<BlockView>,
) -> Seq<ItemView> {
    Seq::new(blocks.len(), |i: int| submit_command(rpc_addr, rpc_user, rpc_pass, blocks[i]))
}

/// For each condition that has a block its annotation, then the
/// submission of its block.
pub open spec fn annotated_submissions(
    rpc_addr: Seq<char>,
    rpc_user: Seq<char>,
    rpc_pass: Seq<char>,
    specs: Seq<BlockSpec>,
    blocks: Seq<BlockView>,
) -> Seq<ItemView> {
    Seq::new(
        2 * (if specs.len() <= blocks.len() {
            specs.len()
        } else {
            blocks.len()
        }),
        |j: int|
            if j % 2 == 0 {
                ItemView::Comment(specs[j / 2].comment_text())
            } else {
                submit_command(rpc_addr, rpc_user, rpc_pass, blocks[j / 2])
            },
    )
}

/// The items of the script that submits `setup` and then, each under its
/// annotation, the blocks of the scenario.
pub open spec fn script_items(
    rpc_addr: Seq<char>,
    rpc_user: Seq<char>,
    rpc_pass: Seq<char>,
    setup: Seq<BlockView>,
    specs: Seq<BlockSpec>,
    scenario: Seq<BlockView>,
) -> Seq<ItemView> {
    seq![ItemView::Comment("Mine some setup blocks"@)] + submissions(
        rpc_addr,
        rpc_user,
        rpc_pass,
        setup,
    ) + annotated_submissions(rpc_addr, rpc_user, rpc_pass, specs, scenario)
}

/// Whether `setup` and `scenario` are the blocks generated for `specs`
/// from `start`: the setup blocks first, then one block per condition,
/// all in one chain.
pub open spec fn is_generated_for(
    network: Network,
    start: CursorView,
    specs: Seq<BlockSpec>,
    setup: Seq<BlockView>,
    scenario: Seq<BlockView>,
) -> bool {
    &&& setup.len() == setup_count(specs)
    &&& is_chain(setup, setup_outputs(network, start.height as nat, any_needs_m1(specs)), start)
    &&& is_chain(
        scenario,
        scenario_outputs(network, (start.height + setup.len()) as nat, specs),
        cursor_after(setup, start),
    )
}

/// The coinbase outputs of all the blocks generated for `specs` from
/// `height` on: those of the setup blocks, then those of the scenario.
pub open spec fn generated_outputs(network: Network, height: nat, specs: Seq<BlockSpec>) -> Seq<
    Seq<TxOutView>,
> {
    setup_outputs(network, height, any_needs_m1(specs)) + scenario_outputs(
        network,
        height + setup_count(specs),
        specs,
    )
}

/// The setup blocks and the blocks of the scenario form one chain from the
/// start: each builds on the hash of the one before it at the next height,
/// and pays the outputs that its place asks for.
pub proof fn lemma_generated_blocks_form_one_chain(
    network: Network,
    start: CursorView,
    specs: Seq<BlockSpec>,
    setup: Seq<BlockView>,
    scenario: Seq<BlockView>,
)
    requires
        is_generated_for(network, start, specs, setup, scenario),
    ensures
        is_chain(setup + scenario, generated_outputs(network, start.height as nat, specs), start),
        (setup + scenario).len() == setup_count(specs) + specs.len(),
{
    lemma_chain_concat(
        setup,
        setup_outputs(network, start.height as nat, any_needs_m1(specs)),
        scenario,
        scenario_outputs(network, (start.height + setup.len()) as nat, specs),
        start,
    );
}

/// Whether `script` submits blocks generated for `specs` from `start`.
#[verifier::opaque]
pub open spec fn is_script_for(
    script: Seq<char>,
    network: Network,
    rpc_addr: Seq<char>,
    rpc_user: Seq<char>,
    rpc_pass: Seq<char>,
    start: CursorView,
    specs: Seq<BlockSpec>,
    setup: Seq<BlockView>,
    scenario: Seq<BlockView>,
) -> bool {
    &&& is_generated_for(network, start, specs, setup, scenario)
    &&& script == rendered(script_items(rpc_addr, rpc_user, rpc_pass, setup, specs, scenario))
}

/// The blocks that a script submits: the setup blocks, then as many blocks
/// of the scenario as have a condition.
pub open spec fn submitted_blocks(
    setup: Seq<BlockView>,
    specs: Seq<BlockSpec>,
    scenario: Seq<BlockView>,
) -> Seq<BlockView> {
    setup + scenario.take(
        if specs.len() <= scenario.len() {
            specs.len() as int
        } else {
            scenario.len() as int
        },
    )
}

/// Renders the script that submits the setup blocks and then, each under
/// the annotation of its condition, the blocks of the scenario. A
/// condition without a block, or a block without a condition, is left out.
/// Nothing is rendered if one of the blocks to submit holds a transaction
/// that cannot be encoded.
pub fn render_script(
    rpc_addr: String,
    rpc_auth: RpcAuth,
    setup_blocks: &Vec<Block>,
    blocks_spec: &BlocksSpec,
    scenario_blocks: &Vec<Block>,
) -> (result: Option<String>)
    ensures
        match result {
            Some(script) => {
                &&& blocks_encodable(
                    submitted_blocks(
                        setup_blocks.deep_view(),
                        blocks_spec@,
                        scenario_blocks.deep_view(),
                    ),
                )
                &&& script@ == rendered(
                    script_items(
                        rpc_addr@,
                        rpc_auth.rpc_user@,
                        rpc_auth.rpc_pass@,
                        setup_blocks.deep_view(),
                        blocks_spec@,
                        scenario_blocks.deep_view(),
                    ),
                )
            },
            None => !blocks_encodable(
                submitted_blocks(
                    setup_blocks.deep_view(),
                    blocks_spec@,
                    scenario_blocks.deep_view(),
                ),
            ),
        },
{
    let ghost addr = rpc_addr@;
    let ghost user = rpc_auth.rpc_user@;
    let ghost pass = rpc_auth.rpc_pass@;
    let ghost head = seq![ItemView::Comment("Mine some setup blocks"@)];
    let ghost setup = setup_blocks.deep_view();
    let ghost scenario = scenario_blocks.deep_view();
    let ghost submitted = submitted_blocks(setup, blocks_spec@, scenario);
    let mut builder = OutputPosixScriptBuilder::new(rpc_addr, rpc_auth);
    builder.comment("Mine some setup blocks");
    assert(builder@ =~= head + submissions(addr, user, pass, setup.take(0)));
    let mut i: usize = 0;
    while i < setup_blocks.len()
        invariant
            i <= setup_blocks.len(),
            setup == setup_blocks.deep_view(),
            scenario == scenario_blocks.deep_view(),
            submitted == submitted_blocks(setup, blocks_spec@, scenario),
            builder.rpc_addr() == addr,
            builder.rpc_user() == user,
            builder.rpc_pass() == pass,
            head == seq![ItemView::Comment("Mine some setup blocks"@)],
            builder@ == head + submissions(addr, user, pass, setup.take(i as int)),
            forall|j: int| 0 <= j < i ==> all_encodable((#[trigger] setup[j]).txdata),
        decreases setup_blocks.len() - i,
    {
        assert(setup[i as int] == setup_blocks@[i as int]@);
        if !builder.submitblock(&setup_blocks[i]) {
            assert(submitted[i as int] == setup[i as int]);
            return None;
        }
        assert(builder@ =~= head + submissions(addr, user, pass, setup.take(i + 1)));
        i += 1;
    }
    assert(setup.take(setup_blocks@.len() as int) =~= setup);
    let ghost setup_items = head + submissions(addr, user, pass, setup);
    let pairs: usize = if blocks_spec.0.len() <= scenario_blocks.len() {
        blocks_spec.0.len()
    } else {
        scenario_blocks.len()
    };
    let mut k: usize = 0;
    assert(builder@ =~= setup_items + annotated_submissions(
        addr,
        user,
        pass,
        blocks_spec@.take(0),
        scenario,
    ));
    while k < pairs
        invariant
            k <= pairs,
            pairs <= blocks_spec@.len(),
            pairs <= scenario_blocks@.len(),
            pairs == blocks_spec@.len() || pairs == scenario_blocks@.len(),
            setup == setup_blocks.deep_view(),
            scenario == scenario_blocks.deep_view(),
            submitted == submitted_blocks(setup, blocks_spec@, scenario),
            builder.rpc_addr() == addr,
            builder.rpc_user() == user,
            builder.rpc_pass() == pass,
            builder@ == setup_items + annotated_submissions(
                addr,
                user,
                pass,
                blocks_spec@.take(k as int),
                scenario,
            ),
            forall|j: int| 0 <= j < setup.len() ==> all_encodable((#[trigger] setup[j]).txdata),
            forall|j: int| 0 <= j < k ==> all_encodable((#[trigger] scenario[j]).txdata),
        decreases pairs - k,
    {
        let comment = gen_comment(&blocks_spec.0[k]);
        builder.comment(comment.as_str());
        assert(scenario[k as int] == scenario_blocks@[k as int]@);
        if !builder.submitblock(&scenario_blocks[k]) {
            assert(submitted[setup.len() + k] == scenario[k as int]);
            return None;
        }
        assert(builder@ =~= setup_items + annotated_submissions(
            addr,
            user,
            pass,
            blocks_spec@.take(k + 1),
            scenario,
        ));
        k += 1;
    }
    assert(annotated_submissions(addr, user, pass, blocks_spec@.take(pairs as int), scenario)
        =~= annotated_submissions(addr, user, pass, blocks_spec@, scenario));
    assert forall|j: int| 0 <= j < submitted.len() implies all_encodable(
        (#[trigger] submitted[j]).txdata,
    ) by {
        if j < setup.len() {
            assert(submitted[j] == setup[j]);
        } else {
            assert(submitted[j] == scenario[j - setup.len()]);
        }
    }
    Some(builder.finalize())
}

/// Generates the setup blocks and then one block per condition of the
/// scenario, all in one chain that starts at `start`.
pub fn gen_blocks(network: Network, start: ChainCursor, blocks_spec: &BlocksSpec) -> (result:
    Result<(Vec<Block>, Vec<Block>), GenError>)
    ensures
        match result {
            Ok((setup, scenario)) => {
                &&& heights_in_range(start.height, setup_count(blocks_spec@) + blocks_spec@.len())
                &&& scenario@.len() == blocks_spec@.len()
                &&& is_generated_for(
                    network,
                    start@,
                    blocks_spec@,
                    setup.deep_view(),
                    scenario.deep_view(),
                )
            },
            Err(GenError::HeightOutOfRange) => !heights_in_range(
                start.height,
                setup_count(blocks_spec@) + blocks_spec@.len(),
            ),
            Err(GenError::NonceSpaceExhausted) => {
                &&& heights_in_range(start.height, setup_count(blocks_spec@) + blocks_spec@.len())
                &&& runs_out_of_nonces(
                    generated_outputs(network, start.height as nat, blocks_spec@),
                    start@,
                )
            },
            Err(GenError::ClockBeforeEpoch) => heights_in_range(
                start.height,
                setup_count(blocks_spec@) + blocks_spec@.len(),
            ),
            Err(GenError::WitnessTooLarge) => false,
        },
{
    let setup_len: usize = if blocks_spec.requires_m1() {
        2
    } else {
        1
    };
    if blocks_spec.0.len() > 500_000_000 || !check_heights(
        start.height,
        setup_len + blocks_spec.0.len(),
    ) {
        return Err(GenError::HeightOutOfRange);
    }
    let ghost first_outputs = setup_outputs(
        network,
        start.height as nat,
        any_needs_m1(blocks_spec@),
    );
    let ghost second_outputs = scenario_outputs(
        network,
        start.height as nat + setup_count(blocks_spec@),
        blocks_spec@,
    );
    let (setup_blocks, cursor) = match gen_setup_blocks(network, start, blocks_spec) {
        Ok(generated) => generated,
        Err(e) => {
            proof {
                if e == GenError::NonceSpaceExhausted {
                    lemma_stuck_in_first_part(first_outputs, second_outputs, start@);
                }
            }
            return Err(e);
        },
    };
    match gen_scenario_blocks(network, cursor, blocks_spec) {
        Ok(scenario_blocks) => Ok((setup_blocks, scenario_blocks)),
        Err(e) => {
            proof {
                if e == GenError::NonceSpaceExhausted {
                    lemma_stuck_in_second_part(
                        setup_blocks.deep_view(),
                        first_outputs,
                        second_outputs,
                        start@,
                    );
                }
            }
            Err(e)
        },
    }
}

/// Generates the setup blocks and one block per condition of the scenario,
/// starting at `start`, and renders the script that submits them to the
/// node at `rpc_addr`.
///
/// Nothing is rendered unless every block was built.
pub fn gen_script(
    network: Network,
    rpc_addr: String,
    rpc_auth: RpcAuth,
    blocks_spec: BlocksSpec,
    start: ChainCursor,
) -> (result: Result<String, GenError>)
    ensures
        result is Ok ==> heights_in_range(
            start.height,
            setup_count(blocks_spec@) + blocks_spec@.len(),
        ),
        result matches Ok(script) ==> exists|setup: Seq<BlockView>, scenario: Seq<BlockView>| #[trigger]
            is_script_for(
                script@,
                network,
                rpc_addr@,
                rpc_auth.rpc_user@,
                rpc_auth.rpc_pass@,
                start@,
                blocks_spec@,
                setup,
                scenario,
            ),
        result matches Err(e) ==> (e == GenError::HeightOutOfRange <==> !heights_in_range(
            start.height,
            setup_count(blocks_spec@) + blocks_spec@.len(),
        )),
        result matches Err(GenError::NonceSpaceExhausted) ==> runs_out_of_nonces(
            generated_outputs(network, start.height as nat, blocks_spec@),
            start@,
        ),
        !(result matches Err(GenError::WitnessTooLarge)),
{
    match gen_blocks(network, start, &blocks_spec) {
        Ok((setup_blocks, scenario_blocks)) => {
            let ghost addr = rpc_addr@;
            let ghost user = rpc_auth.rpc_user@;
            let ghost pass = rpc_auth.rpc_pass@;
            proof {
                let setup = setup_blocks.deep_view();
                let scenario = scenario_blocks.deep_view();
                lemma_generated_blocks_form_one_chain(
                    network,
                    start@,
                    blocks_spec@,
                    setup,
                    scenario,
                );
                lemma_chain_is_encodable(
                    setup + scenario,
                    generated_outputs(network, start.height as nat, blocks_spec@),
                    start@,
                );
                assert(scenario.take(scenario.len() as int) =~= scenario);
                assert(submitted_blocks(setup, blocks_spec@, scenario) =~= setup + scenario);
            }
            match render_script(
                rpc_addr,
                rpc_auth,
                &setup_blocks,
                &blocks_spec,
                &scenario_blocks,
            ) {
                Some(script) => {
                    let ghost text = script@;
                    assert(is_script_for(
                        text,
                        network,
                        addr,
                        user,
                        pass,
                        start@,
                        blocks_spec@,
                        setup_blocks.deep_view(),
                        scenario_blocks.deep_view(),
                    )) by {
                        reveal(is_script_for);
                    }
                    let result: Result<String, GenError> = Ok(script);
                    assert(result matches Ok(returned) ==> returned@ == text);
                    result
                },
                None => {
                    // every generated block holds its coinbase alone, which can be encoded
                    assert(false);
                    Err(GenError::WitnessTooLarge)
                },
            }
        },
        Err(e) => Err(e),
    }
}

} // verus!
