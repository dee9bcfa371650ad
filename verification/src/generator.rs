//! Chaining: the cursor that is threaded from one block to the next, the
//! setup blocks, and one block per scenario condition.

use vstd::prelude::*;
use crate::chain::{Block, BlockView, Transaction, TransactionView, TxOut, TxOutView};
use crate::commitment::{
    acknowledgment_output, condition_outputs, declaration_output, demo_description,
    demo_sidechain_description, gen_txs, m1_txout, DEMO_SIDECHAIN_SLOT,
};
use crate::engine::{
    block_candidate, gen_block, height_in_range, is_block_for, lemma_block_is_sound,
    merkle_root_matches,
    GenError, COINBASE_MATURITY, LOCK_TIME_THRESHOLD,
};
use crate::outside::{
    int_push_script, op_true_script, p2wsh_script, p2wsh_script_pubkey, recompact_target,
    recompacted_target,
};
use crate::encoding::{all_encodable, blocks_encodable};
use crate::pow::{block_hash, has_no_solution, header_hash, meets_target};
use crate::scenario::{any_needs_m1, BlockSpec, BlocksSpec, Network};
use crate::subsidy::{block_subsidy, subsidy_at};

verus! {

/// Where the next block goes: the hash it builds on, its height, and its
/// compact target.
#[derive(Clone, Copy, Debug, PartialEq, Eq)]
pub struct ChainCursor {
    pub prev_blockhash: [u8; 32],
    pub height: u32,
    pub target: u32,
}

/// What a [`ChainCursor`] holds.
pub ghost struct CursorView {
    pub prev_blockhash: Seq<u8>,
    pub height: u32,
    pub target: u32,
}

impl View for ChainCursor {
    type V = CursorView;

    open spec fn view(&self) -> CursorView {
        CursorView {
            prev_blockhash: self.prev_blockhash@,
            height: self.height,
            target: self.target,
        }
    }
}

/// The output that pays `amount` to the address that anyone can spend from.
pub open spec fn value_output(network: Network, amount: u64) -> TxOutView {
    TxOutView { value: amount, script_pubkey: p2wsh_script_pubkey(seq![0x51u8], network) }
}

/// The coinbase outputs of the block at `height` that carries `spec`: the
/// commitments that the conditions ask for, then the one output that pays
/// the subsidy.
pub open spec fn scenario_block_outputs(network: Network, height: nat, spec: BlockSpec) -> Seq<
    TxOutView,
> {
    condition_outputs(spec) + seq![value_output(network, subsidy_at(network, height) as u64)]
}

/// How many setup blocks a scenario needs: one, or two if any of its
/// conditions needs an earlier declaration.
pub open spec fn setup_count(specs: Seq<BlockSpec>) -> nat {
    if any_needs_m1(specs) {
        2
    } else {
        1
    }
}

/// The coinbase outputs of the setup blocks that start at `height`: one
/// block that pays the subsidy, and, if a declaration is needed, a second
/// that pays the same amount and declares the demonstration sidechain.
pub open spec fn setup_outputs(network: Network, height: nat, with_declaration: bool) -> Seq<
    Seq<TxOutView>,
> {
    let value = value_output(network, subsidy_at(network, height) as u64);
    if with_declaration {
        seq![seq![value], seq![value, declaration_output(DEMO_SIDECHAIN_SLOT, demo_description())]]
    } else {
        seq![seq![value]]
    }
}

/// The coinbase outputs of the blocks of a scenario whose first block is at
/// `height`.
pub open spec fn scenario_outputs(network: Network, height: nat, specs: Seq<BlockSpec>) -> Seq<
    Seq<TxOutView>,
> {
    Seq::new(specs.len(), |i: int| scenario_block_outputs(network, (height + i) as nat, specs[i]))
}

/// Whether `count` blocks starting at `height` all have a height for which
/// a coinbase can be built.
pub open spec fn heights_in_range(height: u32, count: nat) -> bool {
    count == 0 || height + count - 1 + COINBASE_MATURITY < LOCK_TIME_THRESHOLD
}

/// Whether `block` is a mined block at `cursor` whose coinbase pays
/// `outputs` and which holds `txs` besides, whatever its timestamp.
pub open spec fn is_block_at(
    block: BlockView,
    cursor: CursorView,
    outputs: Seq<TxOutView>,
    txs: Seq<TransactionView>,
) -> bool {
    exists|time: u32| #[trigger]
        is_block_for(
            block,
            cursor.prev_blockhash,
            cursor.target,
            cursor.height,
            outputs,
            txs,
            time,
        )
}

/// Whether `block` is a mined block at `cursor` that pays `outputs` and
/// holds no transaction but its coinbase, whatever its timestamp.
pub open spec fn is_chain_block(block: BlockView, cursor: CursorView, outputs: Seq<TxOutView>) -> bool {
    is_block_at(block, cursor, outputs, Seq::<TransactionView>::empty())
}

/// Whether, for some timestamp, no nonce gives a block at `cursor` whose
/// coinbase pays `outputs` and which holds `txs` besides.
pub open spec fn has_no_block_at(
    cursor: CursorView,
    outputs: Seq<TxOutView>,
    txs: Seq<TransactionView>,
) -> bool {
    exists|time: u32|
        has_no_solution(
            #[trigger] block_candidate(
                cursor.prev_blockhash,
                cursor.target,
                cursor.height,
                outputs,
                txs,
                time,
            ),
        )
}

/// The cursor after `block` was built at `cursor`: the block's hash, the
/// next height, and the block's own difficulty.
pub open spec fn next_cursor(block: BlockView, cursor: CursorView) -> CursorView {
    CursorView {
        prev_blockhash: header_hash(block.header),
        height: (cursor.height + 1) as u32,
        target: recompacted_target(block.header.bits),
    }
}

/// The cursor after `blocks` were built one after the other from `start`.
pub open spec fn cursor_after(blocks: Seq<BlockView>, start: CursorView) -> CursorView
    decreases blocks.len(),
{
    if blocks.len() == 0 {
        start
    } else {
        next_cursor(blocks.last(), cursor_after(blocks.drop_last(), start))
    }
}

/// Whether `blocks` were built one after the other from `start`, the
/// `i`-th paying `outputs[i]`, each at the cursor that the one before it
/// left.
pub open spec fn is_chain(
    blocks: Seq<BlockView>,
    outputs: Seq<Seq<TxOutView>>,
    start: CursorView,
) -> bool
    decreases blocks.len(),
{
    &&& blocks.len() == outputs.len()
    &&& blocks.len() > 0 ==> {
        let before = cursor_after(blocks.drop_last(), start);
        &&& is_chain(blocks.drop_last(), outputs.drop_last(), start)
        &&& height_in_range(before.height)
        &&& before.height == start.height + blocks.len() - 1
        &&& is_chain_block(blocks.last(), before, outputs.last())
    }
}

/// Whether the chain that pays `outputs` was built from `start` as far as
/// `built`, and the block after those could not be mined.
pub open spec fn is_stuck_after(
    built: Seq<BlockView>,
    outputs: Seq<Seq<TxOutView>>,
    start: CursorView,
) -> bool {
    &&& built.len() < outputs.len()
    &&& is_chain(built, outputs.take(built.len() as int), start)
    &&& has_no_block_at(
        cursor_after(built, start),
        outputs[built.len() as int],
        Seq::<TransactionView>::empty(),
    )
}

/// Whether the chain that pays `outputs` could be built from `start` only
/// up to some block, which could not be mined.
pub open spec fn runs_out_of_nonces(outputs: Seq<Seq<TxOutView>>, start: CursorView) -> bool {
    exists|built: Seq<BlockView>| #[trigger] is_stuck_after(built, outputs, start)
}

/// A chain that cannot be built past some block cannot be built either
/// when more blocks are to follow it.
pub proof fn lemma_stuck_in_first_part(
    first_outputs: Seq<Seq<TxOutView>>,
    second_outputs: Seq<Seq<TxOutView>>,
    start: CursorView,
)
    requires
        runs_out_of_nonces(first_outputs, start),
    ensures
        runs_out_of_nonces(first_outputs + second_outputs, start),
{
    let built = choose|built: Seq<BlockView>| #[trigger]
        is_stuck_after(built, first_outputs, start);
    let k = built.len() as int;
    assert((first_outputs + second_outputs).take(k) =~= first_outputs.take(k));
    assert((first_outputs + second_outputs)[k] == first_outputs[k]);
    assert(is_stuck_after(built, first_outputs + second_outputs, start));
}

/// A chain whose first part was built and whose second part cannot be
/// built past some block cannot be built as a whole.
pub proof fn lemma_stuck_in_second_part(
    first: Seq<BlockView>,
    first_outputs: Seq<Seq<TxOutView>>,
    second_outputs: Seq<Seq<TxOutView>>,
    start: CursorView,
)
    requires
        is_chain(first, first_outputs, start),
        runs_out_of_nonces(second_outputs, cursor_after(first, start)),
    ensures
        runs_out_of_nonces(first_outputs + second_outputs, start),
{
    let middle = cursor_after(first, start);
    let built = choose|built: Seq<BlockView>| #[trigger]
        is_stuck_after(built, second_outputs, middle);
    let k = built.len() as int;
    lemma_chain_concat(first, first_outputs, built, second_outputs.take(k), start);
    let all = first_outputs + second_outputs;
    assert(all.take(first.len() + k) =~= first_outputs + second_outputs.take(k));
    assert(all[first.len() + k] == second_outputs[k]);
    assert(is_stuck_after(first + built, all, start));
}

/// Every prefix of a chain is a chain.
pub proof fn lemma_chain_prefix(
    blocks: Seq<BlockView>,
    outputs: Seq<Seq<TxOutView>>,
    start: CursorView,
    k: int,
)
    requires
        is_chain(blocks, outputs, start),
        0 <= k <= blocks.len(),
    ensures
        is_chain(blocks.take(k), outputs.take(k), start),
    decreases blocks.len(),
{
    if k == blocks.len() {
        assert(blocks.take(k) =~= blocks);
        assert(outputs.take(k) =~= outputs);
    } else {
        lemma_chain_prefix(blocks.drop_last(), outputs.drop_last(), start, k);
        assert(blocks.drop_last().take(k) =~= blocks.take(k));
        assert(outputs.drop_last().take(k) =~= outputs.take(k));
    }
}

/// The `k`-th block of a chain was built at the cursor that the first `k`
/// blocks left, which stands `k` above the start.
pub proof fn lemma_chain_block_at(
    blocks: Seq<BlockView>,
    outputs: Seq<Seq<TxOutView>>,
    start: CursorView,
    k: int,
)
    requires
        is_chain(blocks, outputs, start),
        0 <= k < blocks.len(),
    ensures
        is_chain_block(blocks[k], cursor_after(blocks.take(k), start), outputs[k]),
        cursor_after(blocks.take(k), start).height == start.height + k,
        height_in_range(cursor_after(blocks.take(k), start).height),
{
    lemma_chain_prefix(blocks, outputs, start, k + 1);
    let head = blocks.take(k + 1);
    assert(head.drop_last() =~= blocks.take(k));
    assert(head.last() == blocks[k]);
    assert(outputs.take(k + 1).last() == outputs[k]);
}

/// The cursor that a chain leaves stands as many heights above the start
/// as the chain has blocks.
pub proof fn lemma_cursor_height(
    blocks: Seq<BlockView>,
    outputs: Seq<Seq<TxOutView>>,
    start: CursorView,
)
    requires
        is_chain(blocks, outputs, start),
    ensures
        cursor_after(blocks, start).height == start.height + blocks.len(),
{
}

/// A chain followed by a chain that starts where the first one ended is
/// one chain.
pub proof fn lemma_chain_concat(
    first: Seq<BlockView>,
    first_outputs: Seq<Seq<TxOutView>>,
    second: Seq<BlockView>,
    second_outputs: Seq<Seq<TxOutView>>,
    start: CursorView,
)
    requires
        is_chain(first, first_outputs, start),
        is_chain(second, second_outputs, cursor_after(first, start)),
    ensures
        is_chain(first + second, first_outputs + second_outputs, start),
        cursor_after(first + second, start) == cursor_after(second, cursor_after(first, start)),
    decreases second.len(),
{
    lemma_cursor_height(first, first_outputs, start);
    if second.len() == 0 {
        assert(first + second =~= first);
        assert(first_outputs + second_outputs =~= first_outputs);
    } else {
        lemma_chain_concat(
            first,
            first_outputs,
            second.drop_last(),
            second_outputs.drop_last(),
            start,
        );
        assert((first + second).drop_last() =~= first + second.drop_last());
        assert((first_outputs + second_outputs).drop_last() =~= first_outputs
            + second_outputs.drop_last());
        assert((first + second).last() == second.last());
        assert((first_outputs + second_outputs).last() == second_outputs.last());
    }
}

/// Every block of a chain proves its work against the target of its own
/// compact target, and carries the merkle root of its own transactions.
pub proof fn lemma_chain_blocks_are_sound(
    blocks: Seq<BlockView>,
    outputs: Seq<Seq<TxOutView>>,
    start: CursorView,
    k: int,
)
    requires
        is_chain(blocks, outputs, start),
        0 <= k < blocks.len(),
    ensures
        meets_target(blocks[k].header),
        merkle_root_matches(blocks[k]),
        blocks[k].txdata[0].output == outputs[k],
        all_encodable(blocks[k].txdata),
{
    lemma_chain_block_at(blocks, outputs, start, k);
    let cursor = cursor_after(blocks.take(k), start);
    let time = choose|time: u32| #[trigger]
        is_block_for(
            blocks[k],
            cursor.prev_blockhash,
            cursor.target,
            cursor.height,
            outputs[k],
            Seq::<TransactionView>::empty(),
            time,
        );
    lemma_block_is_sound(
        blocks[k],
        cursor.prev_blockhash,
        cursor.target,
        cursor.height,
        outputs[k],
        Seq::<TransactionView>::empty(),
        time,
    );
}

/// Every block of a chain can be encoded.
pub proof fn lemma_chain_is_encodable(
    blocks: Seq<BlockView>,
    outputs: Seq<Seq<TxOutView>>,
    start: CursorView,
)
    requires
        is_chain(blocks, outputs, start),
    ensures
        blocks_encodable(blocks),
{
    assert forall|k: int| 0 <= k < blocks.len() implies all_encodable(
        (#[trigger] blocks[k]).txdata,
    ) by {
        lemma_chain_blocks_are_sound(blocks, outputs, start, k);
    }
}

/// Each block of a chain builds on the hash of the block before it, and
/// commits in its coinbase to a height one above that block's.
pub proof fn lemma_chain_links(
    blocks: Seq<BlockView>,
    outputs: Seq<Seq<TxOutView>>,
    start: CursorView,
    k: int,
)
    requires
        is_chain(blocks, outputs, start),
        0 <= k,
        k + 1 < blocks.len(),
    ensures
        blocks[k + 1].header.prev_blockhash == header_hash(blocks[k].header),
        blocks[k].txdata[0].input[0].script_sig == int_push_script((start.height + k) as i64),
        blocks[k + 1].txdata[0].input[0].script_sig == int_push_script(
            (start.height + k + 1) as i64,
        ),
{
    lemma_chain_block_at(blocks, outputs, start, k);
    lemma_chain_block_at(blocks, outputs, start, k + 1);
    assert(blocks.take(k + 1).drop_last() =~= blocks.take(k));
    assert(blocks.take(k + 1).last() == blocks[k]);
    let at = cursor_after(blocks.take(k), start);
    let next = cursor_after(blocks.take(k + 1), start);
    assert(next == next_cursor(blocks[k], at));
    let t0 = choose|time: u32| #[trigger]
        is_block_for(
            blocks[k],
            at.prev_blockhash,
            at.target,
            at.height,
            outputs[k],
            Seq::<TransactionView>::empty(),
            time,
        );
    lemma_block_is_sound(
        blocks[k],
        at.prev_blockhash,
        at.target,
        at.height,
        outputs[k],
        Seq::<TransactionView>::empty(),
        t0,
    );
    let t1 = choose|time: u32| #[trigger]
        is_block_for(
            blocks[k + 1],
            next.prev_blockhash,
            next.target,
            next.height,
            outputs[k + 1],
            Seq::<TransactionView>::empty(),
            time,
        );
    lemma_block_is_sound(
        blocks[k + 1],
        next.prev_blockhash,
        next.target,
        next.height,
        outputs[k + 1],
        Seq::<TransactionView>::empty(),
        t1,
    );
}

/// A block that carries the duplicate-acknowledgment condition pays three
/// outputs: the same acknowledgment twice, then the subsidy.
pub proof fn lemma_duplicate_condition_outputs(network: Network, height: nat)
    ensures
        scenario_block_outputs(network, height, BlockSpec { duplicate_m2: true }) == seq![
            acknowledgment_output(DEMO_SIDECHAIN_SLOT, demo_description()),
            acknowledgment_output(DEMO_SIDECHAIN_SLOT, demo_description()),
            value_output(network, subsidy_at(network, height) as u64),
        ],
        scenario_block_outputs(network, height, BlockSpec { duplicate_m2: false }) == seq![
            value_output(network, subsidy_at(network, height) as u64),
        ],
{
    let value = value_output(network, subsidy_at(network, height) as u64);
    let ack = acknowledgment_output(DEMO_SIDECHAIN_SLOT, demo_description());
    assert(scenario_block_outputs(network, height, BlockSpec { duplicate_m2: true }) =~= seq![
        ack,
        ack,
        value,
    ]);
    assert(scenario_block_outputs(network, height, BlockSpec { duplicate_m2: false }) =~= seq![
        value,
    ]);
}

/// Script with no spend requirements
pub fn unlocked_script() -> (script: Vec<u8>)
    ensures
        script@ == seq![0x51u8],
{
    op_true_script()
}

/// The output that pays `amount` to the address that anyone can spend from.
pub fn value_txout(network: Network, amount: u64) -> (txout: TxOut)
    ensures
        txout@ == value_output(network, amount),
{
    let script = unlocked_script();
    TxOut { value: amount, script_pubkey: p2wsh_script(&script, network) }
}

/// An empty list of transactions.
fn no_transactions() -> (txs: Vec<Transaction>)
    ensures
        txs.deep_view() == Seq::<TransactionView>::empty(),
{
    let txs: Vec<Transaction> = Vec::new();
    assert(txs.deep_view() =~= Seq::<TransactionView>::empty());
    txs
}

/// Whether `count` blocks can be built from `height` on.
pub fn check_heights(height: u32, count: usize) -> (in_range: bool)
    ensures
        in_range == heights_in_range(height, count as nat),
{
    let limit: u64 = (LOCK_TIME_THRESHOLD - COINBASE_MATURITY) as u64;
    count == 0 || (count as u64 <= limit && height as u64 + count as u64 - 1 < limit)
}

/// Builds the block at `cursor` whose coinbase pays `coinbase_txouts` and
/// which holds `txs` besides, and moves the cursor past it.
pub fn extend_chain(cursor: ChainCursor, coinbase_txouts: Vec<TxOut>, txs: Vec<Transaction>) -> (result:
    Result<(Block, ChainCursor), GenError>)
    ensures
        match result {
            Ok((block, next)) => {
                &&& height_in_range(cursor.height)
                &&& all_encodable(txs.deep_view())
                &&& is_block_at(block@, cursor@, coinbase_txouts.deep_view(), txs.deep_view())
                &&& next@ == next_cursor(block@, cursor@)
            },
            Err(GenError::HeightOutOfRange) => !height_in_range(cursor.height),
            Err(GenError::WitnessTooLarge) => {
                &&& height_in_range(cursor.height)
                &&& !all_encodable(txs.deep_view())
            },
            Err(GenError::NonceSpaceExhausted) => {
                &&& height_in_range(cursor.height)
                &&& all_encodable(txs.deep_view())
                &&& has_no_block_at(cursor@, coinbase_txouts.deep_view(), txs.deep_view())
            },
            Err(GenError::ClockBeforeEpoch) => {
                &&& height_in_range(cursor.height)
                &&& all_encodable(txs.deep_view())
            },
        },
{
    let ghost outputs = coinbase_txouts.deep_view();
    let ghost others = txs.deep_view();
    match gen_block(cursor.prev_blockhash, cursor.target, cursor.height, coinbase_txouts, txs) {
        Ok(block) => {
            proof {
                let prev = cursor.prev_blockhash@;
                let time = choose|time: u32| #[trigger]
                    is_block_for(block@, prev, cursor.target, cursor.height, outputs, others, time);
                lemma_block_is_sound(
                    block@,
                    prev,
                    cursor.target,
                    cursor.height,
                    outputs,
                    others,
                    time,
                );
                assert(is_block_for(
                    block@,
                    cursor@.prev_blockhash,
                    cursor@.target,
                    cursor@.height,
                    outputs,
                    others,
                    time,
                ));
            }
            let next = ChainCursor {
                prev_blockhash: block_hash(&block.header),
                height: cursor.height + 1,
                target: recompact_target(block.header.bits),
            };
            Ok((block, next))
        },
        Err(e) => {
            proof {
                if e == GenError::NonceSpaceExhausted {
                    let prev = cursor.prev_blockhash@;
                    let time = choose|time: u32|
                        has_no_solution(
                            #[trigger] block_candidate(
                                prev,
                                cursor.target,
                                cursor.height,
                                outputs,
                                others,
                                time,
                            ),
                        );
                    assert(has_no_solution(
                        block_candidate(
                            cursor@.prev_blockhash,
                            cursor@.target,
                            cursor@.height,
                            outputs,
                            others,
                            time,
                        ),
                    ));
                }
            }
            Err(e)
        },
    }
}

/// Generate initial setup blocks that ensure proposals exist, etc
///
/// The first block pays the subsidy; if any condition of the scenario
/// needs an earlier declaration, a second block pays the same amount and
/// declares the demonstration sidechain. The cursor that the last block
/// left comes back with the blocks.
pub fn gen_setup_blocks(network: Network, start: ChainCursor, blocks_spec: &BlocksSpec) -> (result:
    Result<(Vec<Block>, ChainCursor), GenError>)
    ensures
        match result {
            Ok((blocks, end)) => {
                &&& heights_in_range(start.height, setup_count(blocks_spec@))
                &&& blocks@.len() == setup_count(blocks_spec@)
                &&& is_chain(
                    blocks.deep_view(),
                    setup_outputs(network, start.height as nat, any_needs_m1(blocks_spec@)),
                    start@,
                )
                &&& end@ == cursor_after(blocks.deep_view(), start@)
                &&& end.height == start.height + blocks@.len()
            },
            Err(GenError::HeightOutOfRange) => !heights_in_range(
                start.height,
                setup_count(blocks_spec@),
            ),
            Err(GenError::NonceSpaceExhausted) => {
                &&& heights_in_range(start.height, setup_count(blocks_spec@))
                &&& runs_out_of_nonces(
                    setup_outputs(network, start.height as nat, any_needs_m1(blocks_spec@)),
                    start@,
                )
            },
            Err(GenError::ClockBeforeEpoch) => heights_in_range(
                start.height,
                setup_count(blocks_spec@),
            ),
            Err(GenError::WitnessTooLarge) => false,
        },
{
    let with_declaration = blocks_spec.requires_m1();
    let count: usize = if with_declaration {
        2
    } else {
        1
    };
    if !check_heights(start.height, count) {
        return Err(GenError::HeightOutOfRange);
    }
    let ghost outputs = setup_outputs(network, start.height as nat, with_declaration);
    let mut blocks: Vec<Block> = Vec::new();
    let coinbase_value = block_subsidy(network, start.height);
    let mut first_outputs: Vec<TxOut> = Vec::new();
    first_outputs.push(value_txout(network, coinbase_value));
    assert(first_outputs.deep_view() =~= outputs[0]);
    let (block, cursor) = match extend_chain(start, first_outputs, no_transactions()) {
        Ok(extended) => extended,
        Err(e) => {
            proof {
                let none = Seq::<BlockView>::empty();
                assert(outputs.take(0) =~= Seq::<Seq<TxOutView>>::empty());
                assert(e == GenError::NonceSpaceExhausted ==> is_stuck_after(none, outputs, start@));
            }
            return Err(e);
        },
    };
    blocks.push(block);
    proof {
        let built = blocks.deep_view();
        assert(built.drop_last() =~= Seq::<BlockView>::empty());
        assert(outputs.take(1).drop_last() =~= Seq::<Seq<TxOutView>>::empty());
        assert(outputs.take(1).last() == outputs[0]);
        assert(is_chain(built.drop_last(), outputs.take(1).drop_last(), start@));
        assert(is_chain(built, outputs.take(1), start@));
    }
    if with_declaration {
        let mut second_outputs: Vec<TxOut> = Vec::new();
        second_outputs.push(value_txout(network, coinbase_value));
        second_outputs.push(m1_txout(DEMO_SIDECHAIN_SLOT, demo_sidechain_description()));
        assert(second_outputs.deep_view() =~= outputs[1]);
        let ghost first = blocks.deep_view();
        let (block, cursor) = match extend_chain(cursor, second_outputs, no_transactions()) {
            Ok(extended) => extended,
            Err(e) => {
                assert(e == GenError::NonceSpaceExhausted ==> is_stuck_after(first, outputs, start@));
                return Err(e);
            },
        };
        blocks.push(block);
        proof {
            let built = blocks.deep_view();
            assert(built.drop_last() =~= first);
            assert(outputs.drop_last() =~= outputs.take(1));
            assert(is_chain(built, outputs, start@));
        }
        Ok((blocks, cursor))
    } else {
        assert(outputs.take(1) =~= outputs);
        Ok((blocks, cursor))
    }
}

/// Builds one block per condition of the scenario, the first at `start`,
/// each at the cursor that the one before it left.
pub fn gen_scenario_blocks(network: Network, start: ChainCursor, blocks_spec: &BlocksSpec) -> (result:
    Result<Vec<Block>, GenError>)
    ensures
        match result {
            Ok(blocks) => {
                &&& heights_in_range(start.height, blocks_spec@.len())
                &&& is_chain(
                    blocks.deep_view(),
                    scenario_outputs(network, start.height as nat, blocks_spec@),
                    start@,
                )
            },
            Err(GenError::HeightOutOfRange) => !heights_in_range(start.height, blocks_spec@.len()),
            Err(GenError::NonceSpaceExhausted) => {
                &&& heights_in_range(start.height, blocks_spec@.len())
                &&& runs_out_of_nonces(
                    scenario_outputs(network, start.height as nat, blocks_spec@),
                    start@,
                )
            },
            Err(GenError::ClockBeforeEpoch) => heights_in_range(start.height, blocks_spec@.len()),
            Err(GenError::WitnessTooLarge) => false,
        },
        blocks_spec@.len() == 0 ==> result is Ok,
{
    if !check_heights(start.height, blocks_spec.0.len()) {
        return Err(GenError::HeightOutOfRange);
    }
    let ghost outputs = scenario_outputs(network, start.height as nat, blocks_spec@);
    let mut blocks: Vec<Block> = Vec::new();
    let mut cursor = start;
    let mut i: usize = 0;
    assert(blocks.deep_view() =~= Seq::<BlockView>::empty());
    assert(outputs.take(0) =~= Seq::<Seq<TxOutView>>::empty());
    while i < blocks_spec.0.len()
        invariant
            i <= blocks_spec.0.len(),
            heights_in_range(start.height, blocks_spec@.len()),
            outputs == scenario_outputs(network, start.height as nat, blocks_spec@),
            blocks@.len() == i,
            is_chain(blocks.deep_view(), outputs.take(i as int), start@),
            cursor@ == cursor_after(blocks.deep_view(), start@),
            cursor.height == start.height + i,
        decreases blocks_spec.0.len() - i,
    {
        let block_spec = &blocks_spec.0[i];
        let (mut coinbase_txouts, txs) = gen_txs(block_spec);
        assert(txs.deep_view() =~= Seq::<TransactionView>::empty());
        coinbase_txouts.push(value_txout(network, block_subsidy(network, cursor.height)));
        assert(coinbase_txouts.deep_view() =~= outputs[i as int]);
        let ghost before = blocks.deep_view();
        let ghost at = cursor@;
        let (block, next) = match extend_chain(cursor, coinbase_txouts, txs) {
            Ok(extended) => extended,
            Err(e) => {
                assert(e == GenError::NonceSpaceExhausted ==> is_stuck_after(before, outputs, start@));
                return Err(e);
            },
        };
        blocks.push(block);
        cursor = next;
        proof {
            let built = blocks.deep_view();
            assert(built.drop_last() =~= before);
            assert(built.last() == block@);
            assert(outputs.take(i + 1).drop_last() =~= outputs.take(i as int));
            assert(outputs.take(i + 1).last() == outputs[i as int]);
            assert(is_chain(built, outputs.take(i + 1), start@));
        }
        i += 1;
    }
    assert(outputs.take(i as int) =~= outputs);
    Ok(blocks)
}

} // verus!
