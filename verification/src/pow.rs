//! Proof of work: the target test and the nonce search.

use vstd::prelude::*;
use crate::chain::{Header, HeaderView};
use crate::encoding::{header_bytes, le_bytes, serialize_header};
use crate::outside::{double_sha256, expand_target, expanded_target, sha256d};

verus! {

/// The number that `bytes` spell, least significant byte first.
pub open spec fn le_value(bytes: Seq<u8>) -> nat
    decreases bytes.len(),
{
    if bytes.len() == 0 {
        0
    } else {
        bytes[0] as nat + 256 * le_value(bytes.drop_first())
    }
}

/// The hash of a header: the double SHA-256 digest of its 80 bytes.
pub open spec fn header_hash(header: HeaderView) -> Seq<u8> {
    sha256d(header_bytes(header))
}

/// Whether a header's hash, read as a little-endian number, is strictly
/// below the target that the header's own compact target stands for.
pub open spec fn meets_target(header: HeaderView) -> bool {
    le_value(header_hash(header)) < le_value(expanded_target(header.bits))
}

/// The nonce whose little-endian encoding is the big-endian encoding of
/// `counter`.
pub open spec fn nonce_of_counter(counter: u32) -> u32 {
    ((counter % 256) * 0x100_0000 + (counter / 0x100 % 256) * 0x1_0000 + (counter / 0x1_0000 % 256)
        * 0x100 + counter / 0x100_0000) as u32
}

/// `header` with its nonce replaced by the one for `counter`.
pub open spec fn with_counter(header: HeaderView, counter: u32) -> HeaderView {
    HeaderView { nonce: nonce_of_counter(counter), ..header }
}

/// Whether `counter` is the first one, counting up from zero, whose nonce
/// makes `header` meet its target.
pub open spec fn is_first_solution(header: HeaderView, counter: u32) -> bool {
    &&& meets_target(with_counter(header, counter))
    &&& forall|c: u32| c < counter ==> !meets_target(#[trigger] with_counter(header, c))
}

/// Whether no nonce at all makes `header` meet its target.
pub open spec fn has_no_solution(header: HeaderView) -> bool {
    forall|c: u32| !meets_target(#[trigger] with_counter(header, c))
}

/// If two equally long byte strings agree above position `i` and differ at
/// `i`, the one with the smaller byte there spells the smaller number.
pub proof fn lemma_le_value_decided_at(a: Seq<u8>, b: Seq<u8>, i: int)
    requires
        a.len() == b.len(),
        0 <= i < a.len(),
        a[i] < b[i],
        forall|j: int| i < j < a.len() ==> a[j] == b[j],
    ensures
        le_value(a) < le_value(b),
    decreases a.len(),
{
    let ta = a.drop_first();
    let tb = b.drop_first();
    if i == 0 {
        assert(ta =~= tb);
    } else {
        assert forall|j: int| i - 1 < j < ta.len() implies ta[j] == tb[j] by {
            assert(ta[j] == a[j + 1]);
            assert(tb[j] == b[j + 1]);
        }
        lemma_le_value_decided_at(ta, tb, i - 1);
    }
}

/// The nonce for a counter spells, little-endian, what the counter spells
/// big-endian.
pub proof fn lemma_nonce_bytes(counter: u32)
    ensures
        le_bytes(nonce_of_counter(counter) as nat, 4) == le_bytes(counter as nat, 4).reverse(),
{
    reveal_with_fuel(le_bytes, 5);
    let n = nonce_of_counter(counter) as nat;
    let c = counter as nat;
    assert(n == (c % 256) * 0x100_0000 + (c / 0x100 % 256) * 0x1_0000 + (c / 0x1_0000 % 256)
        * 0x100 + c / 0x100_0000);
    assert(n % 256 == c / 0x100_0000);
    assert(n / 256 % 256 == c / 0x1_0000 % 256);
    assert(n / 256 / 256 % 256 == c / 0x100 % 256);
    assert(n / 256 / 256 / 256 % 256 == c % 256);
    assert(c / 256 / 256 == c / 0x1_0000);
    assert(c / 256 / 256 / 256 == c / 0x100_0000);
    assert(c / 0x100_0000 % 256 == c / 0x100_0000);
    assert(le_bytes(n, 4) =~= le_bytes(c, 4).reverse());
}

/// Whether `a`, read as a little-endian number, is strictly below `b`.
pub fn le_less(a: &[u8; 32], b: &[u8; 32]) -> (less: bool)
    ensures
        less == (le_value(a@) < le_value(b@)),
{
    let mut i: usize = 32;
    while i > 0
        invariant
            i <= 32,
            forall|j: int| i <= j < 32 ==> a@[j] == b@[j],
        decreases i,
    {
        i -= 1;
        if a[i] < b[i] {
            proof {
                lemma_le_value_decided_at(a@, b@, i as int);
            }
            return true;
        }
        if a[i] > b[i] {
            proof {
                lemma_le_value_decided_at(b@, a@, i as int);
            }
            return false;
        }
    }
    assert(a@ =~= b@);
    false
}

/// The hash of a header.
pub fn block_hash(header: &Header) -> (hash: [u8; 32])
    ensures
        hash@ == header_hash(header@),
{
    let bytes = serialize_header(header);
    double_sha256(bytes.as_slice())
}

/// Whether a header's hash is strictly below its own target.
pub fn check_pow(header: &Header) -> (valid: bool)
    ensures
        valid == meets_target(header@),
{
    let hash = block_hash(header);
    let target = expand_target(header.bits);
    le_less(&hash, &target)
}

/// The nonce whose little-endian encoding is the big-endian encoding of
/// `counter`.
pub fn counter_nonce(counter: u32) -> (nonce: u32)
    ensures
        nonce == nonce_of_counter(counter),
{
    (counter % 256) * 0x100_0000 + (counter / 0x100 % 256) * 0x1_0000 + (counter / 0x1_0000 % 256)
        * 0x100 + counter / 0x100_0000
}

/// Searches the nonce space of `header` exhaustively from counter zero and
/// returns the header with the first nonce that meets the target, or
/// nothing if no nonce does.
pub fn mine(header: Header) -> (mined: Option<Header>)
    ensures
        match mined {
            Some(found) => exists|counter: u32|
                {
                    &&& found@ == #[trigger] with_counter(header@, counter)
                    &&& is_first_solution(header@, counter)
                },
            None => has_no_solution(header@),
        },
{
    let mut candidate = header;
    let mut counter: u32 = 0;
    loop
        invariant
            forall|c: u32| c < counter ==> !meets_target(#[trigger] with_counter(header@, c)),
            candidate@.version == header@.version,
            candidate@.prev_blockhash == header@.prev_blockhash,
            candidate@.merkle_root == header@.merkle_root,
            candidate@.time == header@.time,
            candidate@.bits == header@.bits,
        decreases u32::MAX - counter,
    {
        candidate.nonce = counter_nonce(counter);
        assert(candidate@ == with_counter(header@, counter));
        if check_pow(&candidate) {
            assert(is_first_solution(header@, counter));
            return Some(candidate);
        }
        if counter == u32::MAX {
            return None;
        }
        counter += 1;
    }
}

} // verus!
