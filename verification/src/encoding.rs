//! Consensus byte layouts: little-endian integers, headers, block framing.

use vstd::prelude::*;
use crate::chain::{Block, BlockView, Header, HeaderView, Transaction, TransactionView};
use crate::outside::{serialize_transaction, transaction_bytes};

verus! {

/// The `width` low-order bytes of `x`, least significant first.
pub open spec fn le_bytes(x: nat, width: nat) -> Seq<u8>
    decreases width,
{
    if width == 0 {
        Seq::<u8>::empty()
    } else {
        seq![(x % 256) as u8] + le_bytes(x / 256, (width - 1) as nat)
    }
}

/// The unsigned value with the same 32-bit two's-complement pattern as `x`.
pub open spec fn twos_complement(x: i32) -> nat {
    if x >= 0 {
        x as nat
    } else {
        (x + 0x1_0000_0000) as nat
    }
}

/// The 80-byte consensus encoding of a header: version, previous hash,
/// merkle root, time, compact target and nonce, integers little-endian.
pub open spec fn header_bytes(header: HeaderView) -> Seq<u8> {
    le_bytes(twos_complement(header.version), 4) + header.prev_blockhash + header.merkle_root
        + le_bytes(header.time as nat, 4) + le_bytes(header.bits as nat, 4) + le_bytes(
        header.nonce as nat,
        4,
    )
}

/// The variable-length encoding of a count.
pub open spec fn compact_size(n: nat) -> Seq<u8> {
    if n < 0xfd {
        seq![n as u8]
    } else if n <= 0xffff {
        seq![0xfdu8] + le_bytes(n, 2)
    } else if n <= 0xffff_ffff {
        seq![0xfeu8] + le_bytes(n, 4)
    } else {
        seq![0xffu8] + le_bytes(n, 8)
    }
}

/// How many bytes the variable-length encoding of a count takes.
pub open spec fn compact_size_len(n: nat) -> nat {
    if n < 0xfd {
        1
    } else if n <= 0xffff {
        3
    } else if n <= 0xffff_ffff {
        5
    } else {
        9
    }
}

/// The most bytes that the witness of one input may take: the offsets
/// into it are kept in 32 bits.
pub const MAX_WITNESS_SIZE: u64 = 0xFFFF_FFFF;

/// How many bytes a witness takes when it is held for encoding: for each
/// item its length prefix, its bytes and the four bytes of its offset.
pub open spec fn witness_size(witness: Seq<Seq<u8>>) -> nat
    decreases witness.len(),
{
    if witness.len() == 0 {
        0
    } else {
        witness_size(witness.drop_last()) + compact_size_len(witness.last().len())
            + witness.last().len() + 4
    }
}

/// Whether a transaction can be encoded: the witness of each of its inputs
/// is within the size that its offsets can address.
pub open spec fn is_encodable(tx: TransactionView) -> bool {
    forall|i: int|
        0 <= i < tx.input.len() ==> witness_size((#[trigger] tx.input[i]).witness)
            <= MAX_WITNESS_SIZE
}

/// Whether every one of `txs` can be encoded.
pub open spec fn all_encodable(txs: Seq<TransactionView>) -> bool {
    forall|i: int| 0 <= i < txs.len() ==> is_encodable(#[trigger] txs[i])
}

/// Whether every transaction of every one of `blocks` can be encoded.
pub open spec fn blocks_encodable(blocks: Seq<BlockView>) -> bool {
    forall|i: int| 0 <= i < blocks.len() ==> all_encodable((#[trigger] blocks[i]).txdata)
}

/// The encoding of a count is as long as `compact_size_len` says.
pub proof fn lemma_compact_size_len(n: nat)
    ensures
        compact_size(n).len() == compact_size_len(n),
{
    lemma_le_bytes_len(n, 2);
    lemma_le_bytes_len(n, 4);
    lemma_le_bytes_len(n, 8);
}

/// A witness takes at least as many bytes as any of its prefixes.
pub proof fn lemma_witness_size_grows(witness: Seq<Seq<u8>>, k: int)
    requires
        0 <= k <= witness.len(),
    ensures
        witness_size(witness.take(k)) <= witness_size(witness),
    decreases witness.len(),
{
    if k == witness.len() {
        assert(witness.take(k) =~= witness);
    } else {
        lemma_witness_size_grows(witness.drop_last(), k);
        assert(witness.drop_last().take(k) =~= witness.take(k));
    }
}

/// The encodings of `txs`, one after the other.
pub open spec fn transactions_bytes(txs: Seq<TransactionView>) -> Seq<u8>
    decreases txs.len(),
{
    if txs.len() == 0 {
        Seq::<u8>::empty()
    } else {
        transactions_bytes(txs.drop_last()) + transaction_bytes(txs.last())
    }
}

/// The consensus encoding of a block: header, transaction count,
/// transactions.
pub open spec fn block_bytes(block: BlockView) -> Seq<u8> {
    header_bytes(block.header) + compact_size(block.txdata.len()) + transactions_bytes(
        block.txdata,
    )
}

/// The length of `le_bytes` is its width.
pub proof fn lemma_le_bytes_len(x: nat, width: nat)
    ensures
        le_bytes(x, width).len() == width,
    decreases width,
{
    if width > 0 {
        lemma_le_bytes_len(x / 256, (width - 1) as nat);
    }
}

/// Appends the `width` low-order bytes of `x`, least significant first.
pub fn push_le(out: &mut Vec<u8>, x: u64, width: usize)
    ensures
        final(out)@ == old(out)@ + le_bytes(x as nat, width as nat),
{
    let mut rest: u64 = x;
    let mut i: usize = 0;
    while i < width
        invariant
            i <= width,
            out@ + le_bytes(rest as nat, (width - i) as nat) == old(out)@ + le_bytes(
                x as nat,
                width as nat,
            ),
        decreases width - i,
    {
        let ghost before = out@;
        out.push((rest % 256) as u8);
        proof {
            let tail = le_bytes((rest / 256) as nat, (width - i - 1) as nat);
            assert(le_bytes(rest as nat, (width - i) as nat) == seq![(rest % 256) as u8] + tail);
            assert(out@ + tail == before + (seq![(rest % 256) as u8] + tail));
        }
        rest = rest / 256;
        i += 1;
    }
    assert(le_bytes(rest as nat, 0) == Seq::<u8>::empty());
}

/// Appends the 32 bytes of a hash.
pub fn push_hash(out: &mut Vec<u8>, hash: &[u8; 32])
    ensures
        final(out)@ == old(out)@ + hash@,
{
    let mut i: usize = 0;
    while i < 32
        invariant
            i <= 32,
            out@ == old(out)@ + hash@.subrange(0, i as int),
        decreases 32 - i,
    {
        out.push(hash[i]);
        i += 1;
    }
    assert(hash@.subrange(0, 32) == hash@);
}

/// Appends a copy of `bytes`.
pub fn push_bytes(out: &mut Vec<u8>, bytes: &Vec<u8>)
    ensures
        final(out)@ == old(out)@ + bytes@,
{
    let mut i: usize = 0;
    while i < bytes.len()
        invariant
            i <= bytes.len(),
            out@ == old(out)@ + bytes@.subrange(0, i as int),
        decreases bytes.len() - i,
    {
        out.push(bytes[i]);
        i += 1;
    }
    assert(bytes@.subrange(0, bytes@.len() as int) == bytes@);
}

/// Serializes a header into its 80 bytes.
pub fn serialize_header(header: &Header) -> (bytes: Vec<u8>)
    ensures
        bytes@ == header_bytes(header@),
        bytes@.len() == 80,
{
    let mut bytes: Vec<u8> = Vec::new();
    let version: u64 = if header.version >= 0 {
        header.version as u64
    } else {
        (header.version as i64 + 0x1_0000_0000) as u64
    };
    push_le(&mut bytes, version, 4);
    push_hash(&mut bytes, &header.prev_blockhash);
    push_hash(&mut bytes, &header.merkle_root);
    push_le(&mut bytes, header.time as u64, 4);
    push_le(&mut bytes, header.bits as u64, 4);
    push_le(&mut bytes, header.nonce as u64, 4);
    proof {
        lemma_le_bytes_len(twos_complement(header.version), 4);
        lemma_le_bytes_len(header.time as nat, 4);
        lemma_le_bytes_len(header.bits as nat, 4);
        lemma_le_bytes_len(header.nonce as nat, 4);
        assert(bytes@ == header_bytes(header@));
    }
    bytes
}

/// Appends the variable-length encoding of a count.
pub fn push_compact_size(out: &mut Vec<u8>, n: u64)
    ensures
        final(out)@ == old(out)@ + compact_size(n as nat),
{
    if n < 0xfd {
        out.push(n as u8);
    } else if n <= 0xffff {
        let ghost before = out@;
        out.push(0xfd);
        push_le(out, n, 2);
        assert(out@ == before + (seq![0xfdu8] + le_bytes(n as nat, 2)));
    } else if n <= 0xffff_ffff {
        let ghost before = out@;
        out.push(0xfe);
        push_le(out, n, 4);
        assert(out@ == before + (seq![0xfeu8] + le_bytes(n as nat, 4)));
    } else {
        let ghost before = out@;
        out.push(0xff);
        push_le(out, n, 8);
        assert(out@ == before + (seq![0xffu8] + le_bytes(n as nat, 8)));
    }
}

/// Whether a witness is within the size that its offsets can address.
pub fn witness_fits(witness: &Vec<Vec<u8>>) -> (fits: bool)
    ensures
        fits == (witness_size(witness.deep_view()) <= MAX_WITNESS_SIZE),
{
    let ghost items = witness.deep_view();
    let mut total: u64 = 0;
    let mut i: usize = 0;
    assert(items.take(0) =~= Seq::<Seq<u8>>::empty());
    while i < witness.len()
        invariant
            i <= witness.len(),
            items == witness.deep_view(),
            total == witness_size(items.take(i as int)),
            total <= MAX_WITNESS_SIZE,
        decreases witness.len() - i,
    {
        let len = witness[i].len();
        proof {
            assert(items.take(i + 1).drop_last() =~= items.take(i as int));
            assert(items.take(i + 1).last() == items[i as int]);
            assert(items[i as int].len() == len);
            lemma_witness_size_grows(items, i + 1);
        }
        if len > 0xFFFF_FFFF {
            return false;
        }
        let prefix: u64 = if len < 0xfd {
            1
        } else if len <= 0xffff {
            3
        } else {
            5
        };
        total = total + prefix + len as u64 + 4;
        if total > MAX_WITNESS_SIZE {
            return false;
        }
        i += 1;
    }
    assert(items.take(witness@.len() as int) =~= items);
    true
}

/// Whether a transaction can be encoded.
pub fn can_encode(tx: &Transaction) -> (encodable: bool)
    ensures
        encodable == is_encodable(tx@),
{
    let mut i: usize = 0;
    while i < tx.input.len()
        invariant
            i <= tx.input.len(),
            forall|j: int| 0 <= j < i ==> witness_size((#[trigger] tx@.input[j]).witness)
                <= MAX_WITNESS_SIZE,
        decreases tx.input.len() - i,
    {
        assert(tx@.input[i as int] == tx.input@[i as int]@);
        if !witness_fits(&tx.input[i].witness) {
            return false;
        }
        i += 1;
    }
    true
}

/// Whether every one of `txs` can be encoded.
pub fn can_encode_all(txs: &Vec<Transaction>) -> (encodable: bool)
    ensures
        encodable == all_encodable(txs.deep_view()),
{
    let mut i: usize = 0;
    while i < txs.len()
        invariant
            i <= txs.len(),
            forall|j: int| 0 <= j < i ==> is_encodable(#[trigger] txs.deep_view()[j]),
        decreases txs.len() - i,
    {
        assert(txs.deep_view()[i as int] == txs@[i as int]@);
        if !can_encode(&txs[i]) {
            return false;
        }
        i += 1;
    }
    true
}

/// Serializes a block as a node expects it on submission, or nothing if
/// one of its transactions cannot be encoded.
pub fn serialize_block(block: &Block) -> (result: Option<Vec<u8>>)
    ensures
        match result {
            Some(bytes) => all_encodable(block@.txdata) && bytes@ == block_bytes(block@),
            None => !all_encodable(block@.txdata),
        },
{
    if !can_encode_all(&block.txdata) {
        return None;
    }
    let mut bytes = serialize_header(&block.header);
    push_compact_size(&mut bytes, block.txdata.len() as u64);
    let ghost framed = bytes@;
    let mut i: usize = 0;
    while i < block.txdata.len()
        invariant
            i <= block.txdata.len(),
            all_encodable(block@.txdata),
            bytes@ == framed + transactions_bytes(block@.txdata.subrange(0, i as int)),
        decreases block.txdata.len() - i,
    {
        assert(block@.txdata[i as int] == block.txdata@[i as int]@);
        let encoded = serialize_transaction(&block.txdata[i]);
        let ghost before = bytes@;
        push_bytes(&mut bytes, &encoded);
        proof {
            let done = block@.txdata.subrange(0, i as int);
            let next = block@.txdata.subrange(0, i + 1);
            assert(next.drop_last() == done);
            assert(next.last() == block.txdata@[i as int]@);
            assert(bytes@ == framed + (transactions_bytes(done) + encoded@));
        }
        i += 1;
    }
    assert(block@.txdata.subrange(0, block@.txdata.len() as int) == block@.txdata);
    Some(bytes)
}

} // verus!
