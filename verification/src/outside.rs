//! The boundary to the `bitcoin`, `serde_json` and `serde_path_to_error`
//! crates.
//!
//! Every function here is trusted: its body makes one call into an outside
//! crate and its contract is believed, not proved. Results that would take
//! pages to state are given a name; the verified code reasons about the name.

use bitcoin::absolute::LockTime;
use bitcoin::consensus::serialize;
use bitcoin::hashes::sha256d;
use bitcoin::transaction::Version;
use bitcoin::{
    Address, Amount, CompactTarget, OutPoint, ScriptBuf, Sequence, Target, TxIn, TxOut, Witness,
};
use std::collections::BTreeMap;
use vstd::prelude::*;
use crate::chain::{Transaction, TransactionView};
use crate::encoding::is_encodable;
use crate::scenario::{Network, ParseError};

verus! {

/// The double-SHA256 digest of `data`.
pub uninterp spec fn sha256d(data: Seq<u8>) -> Seq<u8>;

/// The consensus encoding of a transaction, witness data included.
pub uninterp spec fn transaction_bytes(tx: TransactionView) -> Seq<u8>;

/// The identifier of a transaction.
pub uninterp spec fn txid_of(tx: TransactionView) -> Seq<u8>;

/// The merkle root of a non-empty list of hashes.
pub uninterp spec fn merkle_root_of(hashes: Seq<Seq<u8>>) -> Seq<u8>;

/// The 256-bit target that a compact target stands for, as 32 little-endian
/// bytes.
pub uninterp spec fn expanded_target(bits: u32) -> Seq<u8>;

/// The compact form of the target that `bits` stands for.
pub uninterp spec fn recompacted_target(bits: u32) -> u32;

/// The script that pushes the non-negative `value` as a script number.
pub uninterp spec fn int_push_script(value: i64) -> Seq<u8>;

/// The locking script of the pay-to-witness-script-hash address of
/// `witness_script` on `network`.
pub uninterp spec fn p2wsh_script_pubkey(witness_script: Seq<u8>, network: Network) -> Seq<u8>;

/// What a text gives when it is read, from its first character to its
/// last, as a JSON list of objects whose fields are all flags: the fields
/// of each object in the order of their names, or the path and the message
/// of the error.
pub uninterp spec fn parsed_flag_objects(text: Seq<char>) -> Result<
    Seq<Seq<(Seq<char>, bool)>>,
    (Seq<char>, Seq<char>),
>;

/// Hashes `data` twice with SHA-256.
///
/// Calls `bitcoin::hashes::sha256d::Hash::hash`; the contract only names the
/// digest.
#[verifier::external_body]
pub(crate) fn double_sha256(data: &[u8]) -> (digest: [u8; 32])
    ensures
        digest@ == sha256d(data@),
{
    let digest: sha256d::Hash = bitcoin::hashes::Hash::hash(data);
    bitcoin::hashes::Hash::to_byte_array(digest)
}

/// Serializes a transaction.
///
/// Calls `bitcoin::consensus::serialize` on the `bitcoin::Transaction` with
/// the same fields; the contract only names the bytes. A witness larger
/// than `bitcoin::Witness` can address is left out: `Witness::from_slice`
/// keeps each item's offset in 32 bits.
#[verifier::external_body]
pub(crate) fn serialize_transaction(tx: &Transaction) -> (bytes: Vec<u8>)
    requires
        is_encodable(tx@),
    ensures
        bytes@ == transaction_bytes(tx@),
{
    let input = tx.input.iter().map(|i| TxIn {
        previous_output: OutPoint::new(bitcoin::hashes::Hash::from_byte_array(i.previous_output.txid), i.previous_output.vout),
        script_sig: ScriptBuf::from_bytes(i.script_sig.clone()),
        sequence: Sequence(i.sequence),
        witness: Witness::from_slice(&i.witness),
    }).collect();
    let output = tx.output.iter().map(|o| TxOut {
        value: Amount::from_sat(o.value),
        script_pubkey: ScriptBuf::from_bytes(o.script_pubkey.clone()),
    }).collect();
    let lock_time = LockTime::from_consensus(tx.lock_time);
    serialize(&bitcoin::Transaction { version: Version(tx.version), lock_time, input, output })
}

/// Computes a transaction's identifier.
///
/// Calls `bitcoin::Transaction::compute_txid` on the `bitcoin::Transaction`
/// with the same fields; the contract only names the identifier. A witness
/// larger than `bitcoin::Witness` can address is left out: `Witness::from_slice`
/// keeps each item's offset in 32 bits.
#[verifier::external_body]
pub(crate) fn transaction_id(tx: &Transaction) -> (id: [u8; 32])
    requires
        is_encodable(tx@),
    ensures
        id@ == txid_of(tx@),
{
    let input = tx.input.iter().map(|i| TxIn {
        previous_output: OutPoint::new(bitcoin::hashes::Hash::from_byte_array(i.previous_output.txid), i.previous_output.vout),
        script_sig: ScriptBuf::from_bytes(i.script_sig.clone()),
        sequence: Sequence(i.sequence),
        witness: Witness::from_slice(&i.witness),
    }).collect();
    let output = tx.output.iter().map(|o| TxOut {
        value: Amount::from_sat(o.value),
        script_pubkey: ScriptBuf::from_bytes(o.script_pubkey.clone()),
    }).collect();
    let lock_time = LockTime::from_consensus(tx.lock_time);
    *bitcoin::Transaction { version: Version(tx.version), lock_time, input, output }.compute_txid().as_ref()
}

/// Computes the merkle root of a list of hashes.
///
/// Calls `bitcoin::merkle_tree::calculate_root`, which is documented to give
/// nothing for an empty list and the hash itself for a list of one; the root
/// of a longer list is only named.
#[verifier::external_body]
pub(crate) fn merkle_root(hashes: &Vec<[u8; 32]>) -> (root: Option<[u8; 32]>)
    ensures
        match root {
            Some(r) => {
                &&& hashes@.len() > 0
                &&& r@ == merkle_root_of(hashes.deep_view())
                &&& hashes@.len() == 1 ==> r@ == hashes@[0]@
            },
            None => hashes@.len() == 0,
        },
{
    let nodes = hashes.iter().map(|h| bitcoin::hashes::Hash::from_byte_array(*h));
    let root: Option<sha256d::Hash> = bitcoin::merkle_tree::calculate_root(nodes);
    root.map(bitcoin::hashes::Hash::to_byte_array)
}

/// Expands a compact target.
///
/// Calls `bitcoin::Target::from_compact` and hands out the target's
/// little-endian bytes; the contract only names them.
#[verifier::external_body]
pub(crate) fn expand_target(bits: u32) -> (target: [u8; 32])
    ensures
        target@ == expanded_target(bits),
{
    Target::from_compact(CompactTarget::from_consensus(bits)).to_le_bytes()
}

/// Brings a compact target into the form that a header's own difficulty
/// has.
///
/// Calls `bitcoin::Target::to_compact_lossy` on the expanded target; the
/// contract only names the result.
#[verifier::external_body]
pub(crate) fn recompact_target(bits: u32) -> (compact: u32)
    ensures
        compact == recompacted_target(bits),
{
    Target::from_compact(CompactTarget::from_consensus(bits)).to_compact_lossy().to_consensus()
}

/// Builds the script that pushes one non-negative integer.
///
/// Calls `bitcoin::script::Builder::push_int`; the contract only names the
/// script's bytes. Negative values are left out: the outside function
/// cannot encode the least of them.
#[verifier::external_body]
pub(crate) fn push_int_script(value: i64) -> (script: Vec<u8>)
    requires
        0 <= value,
    ensures
        script@ == int_push_script(value),
{
    ScriptBuf::builder().push_int(value).into_script().into_bytes()
}

/// Builds the script that anyone can satisfy.
///
/// Calls `bitcoin::script::Builder::push_opcode` with `OP_TRUE`, whose
/// encoding is the single byte `0x51`.
#[verifier::external_body]
pub(crate) fn op_true_script() -> (script: Vec<u8>)
    ensures
        script@ == seq![0x51u8],
{
    ScriptBuf::builder().push_opcode(bitcoin::opcodes::OP_TRUE).into_script().into_bytes()
}

/// The opcode that marks an output as data-carrying and unspendable.
///
/// Calls `Opcode::to_u8` on `OP_RETURN`, which is `0x6a`.
#[verifier::external_body]
pub(crate) fn op_return_byte() -> (opcode: u8)
    ensures
        opcode == 0x6au8,
{
    bitcoin::opcodes::all::OP_RETURN.to_u8()
}

/// Builds the locking script that pays to a witness script's hash.
///
/// Calls `bitcoin::Address::p2wsh` and then `Address::script_pubkey`; the
/// contract only names the script's bytes.
#[verifier::external_body]
pub(crate) fn p2wsh_script(witness_script: &Vec<u8>, network: Network) -> (script: Vec<u8>)
    ensures
        script@ == p2wsh_script_pubkey(witness_script@, network),
{
    let network = match network {
        Network::Mainnet => bitcoin::Network::Bitcoin,
        Network::Testnet => bitcoin::Network::Testnet,
        Network::Regtest => bitcoin::Network::Regtest,
    };
    Address::p2wsh(bitcoin::Script::from_bytes(witness_script), network).script_pubkey().into_bytes()
}

/// Checks that `height` is a valid block-height lock time.
///
/// Calls `bitcoin::absolute::LockTime::from_height`, which accepts exactly
/// the values below 500,000,000, and hands back the accepted value.
#[verifier::external_body]
pub(crate) fn height_lock_time(height: u32) -> (lock_time: Option<u32>)
    ensures
        lock_time == (if height < 500_000_000 {
            Some(height)
        } else {
            None
        }),
{
    LockTime::from_height(height).ok().map(|lock_time| lock_time.to_consensus_u32())
}

/// Reads a whole text as a JSON list of objects whose fields are all
/// flags.
///
/// Reads a `Vec<BTreeMap<String, bool>>` from a `serde_json::Deserializer`
/// through a `serde_path_to_error::Deserializer`, and then calls
/// `serde_json::Deserializer::end`, which fails unless only whitespace
/// follows. The contract only names what comes back: the objects, or the
/// error's message with the path that was tracked up to it.
#[verifier::external_body]
pub(crate) fn parse_flag_objects(text: &str) -> (parsed: Result<Vec<Vec<(String, bool)>>, ParseError>)
    ensures
        match parsed {
            Ok(objects) => parsed_flag_objects(text@) == Ok::<_, (Seq<char>, Seq<char>)>(
                objects.deep_view(),
            ),
            Err(error) => parsed_flag_objects(text@) == Err::<Seq<Seq<(Seq<char>, bool)>>, _>(
                error@,
            ),
        },
{
    let mut json = serde_json::Deserializer::from_str(text);
    let mut track = serde_path_to_error::Track::new();
    let reader = serde_path_to_error::Deserializer::new(&mut json, &mut track);
    let read: Result<Vec<BTreeMap<String, bool>>, _> = serde::Deserialize::deserialize(reader);
    match read.and_then(|objects| json.end().map(|()| objects)) {
        Ok(objects) => Ok(objects.into_iter().map(|fields| fields.into_iter().collect()).collect()),
        Err(e) => Err(ParseError { path: track.path().to_string(), message: e.to_string() }),
    }
}

} // verus!
