//! The block construction engine: coinbase assembly, merkle root, header
//! and nonce search.

use std::time::UNIX_EPOCH;
use vstd::prelude::*;
use crate::chain::{
    Block, BlockView, Header, HeaderView, OutPoint, Transaction, TransactionView, TxIn, TxInView,
    TxOut, TxOutView,
};
use crate::outside::{
    height_lock_time, int_push_script, merkle_root, merkle_root_of, push_int_script,
    transaction_id, txid_of,
};
use crate::encoding::{all_encodable, can_encode_all, is_encodable, witness_size};
use crate::pow::{has_no_solution, is_first_solution, meets_target, mine, with_counter};

verus! {

/// How many blocks must pass before a coinbase output can be spent.
pub const COINBASE_MATURITY: u32 = 100;

/// The header version of every generated block.
pub const NO_SOFT_FORK_SIGNALLING: i32 = 0x2000_0000;

/// The first value that a lock time reads as a time, not a height.
pub const LOCK_TIME_THRESHOLD: u32 = 500_000_000;

/// Why a block could not be generated.
#[derive(Clone, Copy, Debug, PartialEq, Eq, Structural)]
pub enum GenError {
    /// The height plus the coinbase maturity is no valid block height.
    HeightOutOfRange,
    /// No nonce makes the header meet its target.
    NonceSpaceExhausted,
    /// The system clock reads a time before the Unix epoch.
    ClockBeforeEpoch,
    /// A transaction has a witness too large to be encoded.
    WitnessTooLarge,
}

/// Whether a coinbase transaction can be built for `height`.
pub open spec fn height_in_range(height: u32) -> bool {
    height + COINBASE_MATURITY < LOCK_TIME_THRESHOLD
}

/// The single input of the coinbase transaction of the block at `height`:
/// it spends nothing, unlocks with the height alone and is final.
pub open spec fn coinbase_input(height: u32) -> TxInView {
    TxInView {
        prev_txid: Seq::new(32, |i: int| 0u8),
        prev_vout: u32::MAX,
        script_sig: int_push_script(height as i64),
        sequence: u32::MAX,
        witness: Seq::<Seq<u8>>::empty(),
    }
}

/// The coinbase transaction of the block at `height` that pays `outputs`.
pub open spec fn coinbase_transaction(height: u32, outputs: Seq<TxOutView>) -> TransactionView {
    TransactionView {
        version: 2,
        lock_time: (height + COINBASE_MATURITY) as u32,
        input: seq![coinbase_input(height)],
        output: outputs,
    }
}

/// The identifiers of `txs`, in order.
pub open spec fn txids(txs: Seq<TransactionView>) -> Seq<Seq<u8>> {
    Seq::new(txs.len(), |i: int| txid_of(txs[i]))
}

/// Whether a block's header carries the merkle root of the block's own
/// transactions.
pub open spec fn merkle_root_matches(block: BlockView) -> bool {
    &&& block.txdata.len() > 0
    &&& block.header.merkle_root == merkle_root_of(txids(block.txdata))
}

/// The header that the nonce search starts from.
pub open spec fn unmined_header(
    prev_blockhash: Seq<u8>,
    merkle_root: Seq<u8>,
    time: u32,
    bits: u32,
) -> HeaderView {
    HeaderView {
        version: NO_SOFT_FORK_SIGNALLING,
        prev_blockhash,
        merkle_root,
        time,
        bits,
        nonce: 0,
    }
}

/// The transactions of the block at `height`: the coinbase, then `txs`.
pub open spec fn block_transactions(
    height: u32,
    coinbase_txouts: Seq<TxOutView>,
    txs: Seq<TransactionView>,
) -> Seq<TransactionView> {
    seq![coinbase_transaction(height, coinbase_txouts)] + txs
}

/// The header that the nonce search for a block starts from.
pub open spec fn block_candidate(
    prev_blockhash: Seq<u8>,
    bits: u32,
    height: u32,
    coinbase_txouts: Seq<TxOutView>,
    txs: Seq<TransactionView>,
    time: u32,
) -> HeaderView {
    unmined_header(
        prev_blockhash,
        merkle_root_of(txids(block_transactions(height, coinbase_txouts, txs))),
        time,
        bits,
    )
}

/// Whether `block` is the mined block on top of `prev_blockhash` at
/// `height`, stamped `time`: its transactions are the coinbase followed by
/// `txs`, and its header is the candidate with the first nonce that meets
/// the target.
pub open spec fn is_block_for(
    block: BlockView,
    prev_blockhash: Seq<u8>,
    bits: u32,
    height: u32,
    coinbase_txouts: Seq<TxOutView>,
    txs: Seq<TransactionView>,
    time: u32,
) -> bool {
    let candidate = block_candidate(prev_blockhash, bits, height, coinbase_txouts, txs, time);
    &&& block.txdata == block_transactions(height, coinbase_txouts, txs)
    &&& exists|counter: u32|
        {
            &&& block.header == #[trigger] with_counter(candidate, counter)
            &&& is_first_solution(candidate, counter)
        }
}

/// A generated block proves its work, carries the merkle root of its own
/// transactions, points at the block before it, and commits to its height
/// in its coinbase.
pub proof fn lemma_block_is_sound(
    block: BlockView,
    prev_blockhash: Seq<u8>,
    bits: u32,
    height: u32,
    coinbase_txouts: Seq<TxOutView>,
    txs: Seq<TransactionView>,
    time: u32,
)
    requires
        is_block_for(block, prev_blockhash, bits, height, coinbase_txouts, txs, time),
    ensures
        meets_target(block.header),
        merkle_root_matches(block),
        block.header.prev_blockhash == prev_blockhash,
        block.header.bits == bits,
        block.header.time == time,
        block.txdata[0].input[0].script_sig == int_push_script(height as i64),
        block.txdata[0].output == coinbase_txouts,
        all_encodable(txs) ==> all_encodable(block.txdata),
{
    lemma_coinbase_is_encodable(height, coinbase_txouts);
}

/// A coinbase transaction can always be encoded: its one input has no
/// witness.
pub proof fn lemma_coinbase_is_encodable(height: u32, coinbase_txouts: Seq<TxOutView>)
    ensures
        is_encodable(coinbase_transaction(height, coinbase_txouts)),
{
    assert(witness_size(coinbase_input(height).witness) == 0);
}

/// Reads the system clock, in whole seconds since the Unix epoch.
///
/// Calls `SystemTime::elapsed` on the epoch; nothing is claimed of the
/// reading, and none is given if the clock is set before the epoch.
#[verifier::external_body]
fn unix_time() -> (seconds: Option<u64>) {
    UNIX_EPOCH.elapsed().ok().map(|elapsed| elapsed.as_secs())
}

/// The identifiers of `txs`, in order.
fn transaction_ids(txs: &Vec<Transaction>) -> (ids: Vec<[u8; 32]>)
    requires
        all_encodable(txs.deep_view()),
    ensures
        ids.deep_view() == txids(txs.deep_view()),
{
    let mut ids: Vec<[u8; 32]> = Vec::new();
    let mut i: usize = 0;
    while i < txs.len()
        invariant
            i <= txs.len(),
            all_encodable(txs.deep_view()),
            ids@.len() == i,
            forall|j: int| 0 <= j < i ==> ids@[j]@ == txid_of(#[trigger] txs@[j]@),
        decreases txs.len() - i,
    {
        assert(txs.deep_view()[i as int] == txs@[i as int]@);
        ids.push(transaction_id(&txs[i]));
        i += 1;
    }
    assert forall|j: int| 0 <= j < ids@.len() implies #[trigger] ids.deep_view()[j] == txids(
        txs.deep_view(),
    )[j] by {
        assert(ids@[j].deep_view() =~= ids@[j]@);
        assert(txs.deep_view()[j] == txs@[j]@);
    }
    assert(ids.deep_view() =~= txids(txs.deep_view()));
    ids
}

/// Builds and mines the block on top of `prev_blockhash` at `height`, with
/// `time` as its timestamp.
///
/// The coinbase transaction, which pays `coinbase_txouts`, is put before
/// `txs`; the merkle root is computed over that final list; the nonce is
/// searched exhaustively from zero. No block is built for a height that
/// leaves no valid lock time, nor for transactions that cannot be encoded.
pub fn gen_block_at(
    prev_blockhash: [u8; 32],
    target: u32,
    height: u32,
    coinbase_txouts: Vec<TxOut>,
    txs: Vec<Transaction>,
    time: u32,
) -> (result: Result<Block, GenError>)
    ensures
        match result {
            Ok(block) => {
                &&& height_in_range(height)
                &&& all_encodable(txs.deep_view())
                &&& is_block_for(
                    block@,
                    prev_blockhash@,
                    target,
                    height,
                    coinbase_txouts.deep_view(),
                    txs.deep_view(),
                    time,
                )
                &&& meets_target(block@.header)
                &&& merkle_root_matches(block@)
                &&& all_encodable(block@.txdata)
            },
            Err(GenError::HeightOutOfRange) => !height_in_range(height),
            Err(GenError::WitnessTooLarge) => {
                &&& height_in_range(height)
                &&& !all_encodable(txs.deep_view())
            },
            Err(GenError::NonceSpaceExhausted) => {
                &&& height_in_range(height)
                &&& all_encodable(txs.deep_view())
                &&& has_no_solution(
                    block_candidate(
                        prev_blockhash@,
                        target,
                        height,
                        coinbase_txouts.deep_view(),
                        txs.deep_view(),
                        time,
                    ),
                )
            },
            Err(GenError::ClockBeforeEpoch) => false,
        },
{
    if height > u32::MAX - COINBASE_MATURITY {
        return Err(GenError::HeightOutOfRange);
    }
    let lock_time = match height_lock_time(height + COINBASE_MATURITY) {
        Some(lock_time) => lock_time,
        None => {
            return Err(GenError::HeightOutOfRange);
        },
    };
    if !can_encode_all(&txs) {
        return Err(GenError::WitnessTooLarge);
    }
    let coinbase_txin = TxIn {
        previous_output: OutPoint { txid: [0u8; 32], vout: u32::MAX },
        script_sig: push_int_script(height as i64),
        sequence: u32::MAX,
        witness: Vec::new(),
    };
    let mut input: Vec<TxIn> = Vec::new();
    input.push(coinbase_txin);
    let coinbase_tx = Transaction { version: 2, lock_time, input, output: coinbase_txouts };
    let ghost final_list = block_transactions(
        height,
        coinbase_tx.output.deep_view(),
        txs.deep_view(),
    );
    proof {
        let built = coinbase_tx.input@[0]@;
        assert(built.prev_txid =~= coinbase_input(height).prev_txid);
        assert(built.witness =~= coinbase_input(height).witness);
        assert(built == coinbase_input(height));
        assert(coinbase_tx@.input =~= seq![coinbase_input(height)]);
        assert(coinbase_tx@ == coinbase_transaction(height, coinbase_tx.output.deep_view()));
    }
    let mut txdata = txs;
    txdata.insert(0, coinbase_tx);
    assert(txdata.deep_view() =~= final_list);
    proof {
        lemma_coinbase_is_encodable(height, coinbase_txouts.deep_view());
        assert forall|i: int| 0 <= i < final_list.len() implies is_encodable(
            #[trigger] final_list[i],
        ) by {
            if i > 0 {
                assert(final_list[i] == txs.deep_view()[i - 1]);
            }
        }
    }
    let ids = transaction_ids(&txdata);
    assert(ids@.len() == ids.deep_view().len());
    let root = match merkle_root(&ids) {
        Some(root) => root,
        None => {
            assert(false);
            return Err(GenError::NonceSpaceExhausted);
        },
    };
    let header = Header {
        version: NO_SOFT_FORK_SIGNALLING,
        prev_blockhash,
        merkle_root: root,
        time,
        bits: target,
        nonce: 0,
    };
    let ghost candidate = block_candidate(
        prev_blockhash@,
        target,
        height,
        coinbase_txouts.deep_view(),
        txs.deep_view(),
        time,
    );
    assert(header@ == candidate);
    match mine(header) {
        Some(mined) => {
            let block = Block { header: mined, txdata };
            proof {
                let counter = choose|counter: u32|
                    {
                        &&& mined@ == #[trigger] with_counter(candidate, counter)
                        &&& is_first_solution(candidate, counter)
                    };
                assert(block@.header == with_counter(candidate, counter));
                assert(block@.txdata == final_list);
            }
            Ok(block)
        },
        None => Err(GenError::NonceSpaceExhausted),
    }
}

/// The timestamp for a clock reading: its seconds cut to 32 bits.
pub fn timestamp_of(seconds: u64) -> (time: u32)
    ensures
        time == seconds % 0x1_0000_0000,
{
    (seconds % 0x1_0000_0000) as u32
}

/// Builds and mines the block on top of `prev_blockhash` at `height`,
/// stamped with the current time in seconds, cut to 32 bits.
///
/// Whether a block comes back rests with the clock and the hash: no block
/// is built if the clock reads a time before the epoch, or if, for the
/// time it reads, no nonce meets the target.
pub fn gen_block(
    prev_blockhash: [u8; 32],
    target: u32,
    height: u32,
    coinbase_txouts: Vec<TxOut>,
    txs: Vec<Transaction>,
) -> (result: Result<Block, GenError>)
    ensures
        match result {
            Ok(block) => {
                &&& height_in_range(height)
                &&& all_encodable(txs.deep_view())
                &&& exists|time: u32| #[trigger]
                    is_block_for(
                        block@,
                        prev_blockhash@,
                        target,
                        height,
                        coinbase_txouts.deep_view(),
                        txs.deep_view(),
                        time,
                    )
                &&& meets_target(block@.header)
                &&& merkle_root_matches(block@)
                &&& all_encodable(block@.txdata)
            },
            Err(GenError::HeightOutOfRange) => !height_in_range(height),
            Err(GenError::WitnessTooLarge) => {
                &&& height_in_range(height)
                &&& !all_encodable(txs.deep_view())
            },
            Err(GenError::NonceSpaceExhausted) => {
                &&& height_in_range(height)
                &&& all_encodable(txs.deep_view())
                &&& exists|time: u32|
                    has_no_solution(
                        #[trigger] block_candidate(
                            prev_blockhash@,
                            target,
                            height,
                            coinbase_txouts.deep_view(),
                            txs.deep_view(),
                            time,
                        ),
                    )
            },
            Err(GenError::ClockBeforeEpoch) => {
                &&& height_in_range(height)
                &&& all_encodable(txs.deep_view())
            },
        },
{
    if height >= LOCK_TIME_THRESHOLD - COINBASE_MATURITY {
        return Err(GenError::HeightOutOfRange);
    }
    if !can_encode_all(&txs) {
        return Err(GenError::WitnessTooLarge);
    }
    match unix_time() {
        Some(seconds) => {
            let time = timestamp_of(seconds);
            gen_block_at(prev_blockhash, target, height, coinbase_txouts, txs, time)
        },
        None => Err(GenError::ClockBeforeEpoch),
    }
}

} // verus!
