//! The sidechain commitment codec: the two messages that a coinbase output
//! can carry, and the outputs that each invalid condition asks for.

use vstd::prelude::*;
use crate::chain::{Transaction, TxOut, TxOutView};
use crate::encoding::push_bytes;
use crate::outside::{double_sha256, op_return_byte, sha256d};
use crate::scenario::BlockSpec;

verus! {

/// The sidechain slot that the generated commitments speak of.
pub const DEMO_SIDECHAIN_SLOT: u8 = 0xFF;

/// The four bytes that mark a sidechain commitment.
pub open spec fn commitment_tag() -> Seq<u8> {
    seq![0xD5u8, 0xE0u8, 0xC4u8, 0xAFu8]
}

/// The description of the demonstration sidechain: `demo sidechain`.
pub open spec fn demo_description() -> Seq<u8> {
    seq![
        0x64u8, 0x65u8, 0x6du8, 0x6fu8, 0x20u8, 0x73u8, 0x69u8, 0x64u8, 0x65u8, 0x63u8, 0x68u8,
        0x61u8, 0x69u8, 0x6eu8,
    ]
}

/// The data-carrying script of a commitment: the unspendable marker, the
/// tag, the slot, the payload.
pub open spec fn commitment_script(slot: u8, payload: Seq<u8>) -> Seq<u8> {
    seq![0x6au8] + commitment_tag() + seq![slot] + payload
}

/// The output that declares a sidechain proposal: its payload is the
/// description itself.
pub open spec fn declaration_output(slot: u8, description: Seq<u8>) -> TxOutView {
    TxOutView { value: 0, script_pubkey: commitment_script(slot, description) }
}

/// The output that acknowledges a sidechain proposal: its payload is the
/// double hash of the description.
pub open spec fn acknowledgment_output(slot: u8, description: Seq<u8>) -> TxOutView {
    TxOutView { value: 0, script_pubkey: commitment_script(slot, sha256d(description)) }
}

/// Whether `script` has the shape of a commitment.
pub open spec fn is_commitment_script(script: Seq<u8>) -> bool {
    &&& script.len() >= 6
    &&& script[0] == 0x6au8
    &&& script.subrange(1, 5) == commitment_tag()
}

/// The slot and payload that a script commits to, if it is a commitment.
pub open spec fn decoded_commitment(script: Seq<u8>) -> Option<(u8, Seq<u8>)> {
    if is_commitment_script(script) {
        Some((script[5], script.subrange(6, script.len() as int)))
    } else {
        None
    }
}

/// The commitment outputs that a block's conditions ask for, in order.
pub open spec fn condition_outputs(spec: BlockSpec) -> Seq<TxOutView> {
    if spec.duplicate_m2 {
        seq![
            acknowledgment_output(DEMO_SIDECHAIN_SLOT, demo_description()),
            acknowledgment_output(DEMO_SIDECHAIN_SLOT, demo_description()),
        ]
    } else {
        Seq::<TxOutView>::empty()
    }
}

/// Decoding gives back what was encoded: a declaration's payload is the
/// description, byte for byte, and an acknowledgment's payload is the
/// description's double hash, both under the slot they were made for.
pub proof fn lemma_commitment_round_trip(slot: u8, description: Seq<u8>)
    ensures
        decoded_commitment(declaration_output(slot, description).script_pubkey) == Some(
            (slot, description),
        ),
        decoded_commitment(acknowledgment_output(slot, description).script_pubkey) == Some(
            (slot, sha256d(description)),
        ),
{
    lemma_decode_encoded(slot, description);
    lemma_decode_encoded(slot, sha256d(description));
}

/// Decoding a commitment script gives back its slot and payload.
pub proof fn lemma_decode_encoded(slot: u8, payload: Seq<u8>)
    ensures
        decoded_commitment(commitment_script(slot, payload)) == Some((slot, payload)),
{
    let script = commitment_script(slot, payload);
    assert(script.subrange(1, 5) =~= commitment_tag());
    assert(script.subrange(6, script.len() as int) =~= payload);
}

impl TxOut {
    /// A copy of this output.
    pub fn duplicate(&self) -> (copy: TxOut)
        ensures
            copy@ == self@,
    {
        let mut script_pubkey: Vec<u8> = Vec::new();
        push_bytes(&mut script_pubkey, &self.script_pubkey);
        TxOut { value: self.value, script_pubkey }
    }
}

/// The description of the demonstration sidechain.
pub fn demo_sidechain_description() -> (description: Vec<u8>)
    ensures
        description@ == demo_description(),
{
    let description: Vec<u8> = vec![
        0x64u8, 0x65u8, 0x6du8, 0x6fu8, 0x20u8, 0x73u8, 0x69u8, 0x64u8, 0x65u8, 0x63u8, 0x68u8,
        0x61u8, 0x69u8, 0x6eu8,
    ];
    assert(description@ =~= demo_description());
    description
}

/// Builds the script of a commitment to `payload` under `slot`.
fn build_commitment_script(slot: u8, payload: &Vec<u8>) -> (script: Vec<u8>)
    ensures
        script@ == commitment_script(slot, payload@),
{
    let mut script: Vec<u8> = Vec::new();
    script.push(op_return_byte());
    script.push(0xD5);
    script.push(0xE0);
    script.push(0xC4);
    script.push(0xAF);
    script.push(slot);
    assert(script@ =~= seq![0x6au8] + commitment_tag() + seq![slot]);
    push_bytes(&mut script, payload);
    script
}

/// The zero-value output that declares a proposal for `sidechain_number`.
pub fn m1_txout(sidechain_number: u8, description: Vec<u8>) -> (txout: TxOut)
    ensures
        txout@ == declaration_output(sidechain_number, description@),
{
    TxOut { value: 0, script_pubkey: build_commitment_script(sidechain_number, &description) }
}

/// The zero-value output that acknowledges the proposal for
/// `sidechain_number`.
pub fn m2_txout(sidechain_number: u8, description: &[u8]) -> (txout: TxOut)
    ensures
        txout@ == acknowledgment_output(sidechain_number, description@),
        txout@.script_pubkey.len() == 38,
{
    let digest = double_sha256(description);
    let mut payload: Vec<u8> = Vec::new();
    crate::encoding::push_hash(&mut payload, &digest);
    TxOut { value: 0, script_pubkey: build_commitment_script(sidechain_number, &payload) }
}

/// Reads the slot and payload out of a commitment script, or nothing if the
/// script is no commitment.
pub fn decode_commitment(script: &[u8]) -> (decoded: Option<(u8, Vec<u8>)>)
    ensures
        match decoded {
            Some((slot, payload)) => decoded_commitment(script@) == Some((slot, payload@)),
            None => decoded_commitment(script@) is None,
        },
{
    if script.len() < 6 {
        return None;
    }
    if script[0] != 0x6a || script[1] != 0xD5 || script[2] != 0xE0 || script[3] != 0xC4
        || script[4] != 0xAF {
        assert(script@.subrange(1, 5)[0] == script@[1]);
        assert(script@.subrange(1, 5)[1] == script@[2]);
        assert(script@.subrange(1, 5)[2] == script@[3]);
        assert(script@.subrange(1, 5)[3] == script@[4]);
        return None;
    }
    assert(script@.subrange(1, 5) =~= commitment_tag());
    let mut payload: Vec<u8> = Vec::new();
    let mut i: usize = 6;
    while i < script.len()
        invariant
            6 <= i <= script.len(),
            payload@ == script@.subrange(6, i as int),
        decreases script.len() - i,
    {
        payload.push(script[i]);
        i += 1;
    }
    Some((script[5], payload))
}

/// Generate coinbase txouts and txs from a block spec.
pub fn gen_txs(block_spec: &BlockSpec) -> (generated: (Vec<TxOut>, Vec<Transaction>))
    ensures
        generated.0.deep_view() == condition_outputs(*block_spec),
        generated.1@.len() == 0,
{
    let mut coinbase_txouts: Vec<TxOut> = Vec::new();
    let txs: Vec<Transaction> = Vec::new();
    if block_spec.duplicate_m2 {
        let description = demo_sidechain_description();
        let m2_txout = m2_txout(DEMO_SIDECHAIN_SLOT, description.as_slice());
        coinbase_txouts.push(m2_txout.duplicate());
        coinbase_txouts.push(m2_txout);
    }
    assert(coinbase_txouts.deep_view() =~= condition_outputs(*block_spec));
    (coinbase_txouts, txs)
}

} // verus!
