use bitcoin::hashes::sha256d;
use blockforge::chain::{Block, Header, OutPoint, Transaction, TxIn, TxOut};
use blockforge::encoding::{
    push_bytes, push_compact_size, push_hash, push_le, serialize_block, serialize_header,
};
use blockforge::pow::block_hash;

fn genesis_header() -> Header {
    let mut merkle_root = [0u8; 32];
    let text = "3ba3edfd7a7b12b27ac72c3e67768f617fc81bc3888a51323a9fb8aa4b1e5e4a";
    for i in 0..32 {
        merkle_root[i] = u8::from_str_radix(&text[2 * i..2 * i + 2], 16).unwrap();
    }
    Header {
        version: 1,
        prev_blockhash: [0u8; 32],
        merkle_root,
        time: 1231006505,
        bits: 0x1d00ffff,
        nonce: 2083236893,
    }
}

fn outside_header(header: &Header) -> bitcoin::block::Header {
    bitcoin::block::Header {
        version: bitcoin::block::Version::from_consensus(header.version),
        prev_blockhash: bitcoin::hashes::Hash::from_byte_array(header.prev_blockhash),
        merkle_root: bitcoin::hashes::Hash::from_byte_array(header.merkle_root),
        time: header.time,
        bits: bitcoin::CompactTarget::from_consensus(header.bits),
        nonce: header.nonce,
    }
}

fn sample_transaction(tag: u8) -> Transaction {
    Transaction {
        version: 2,
        lock_time: 17,
        input: vec![TxIn {
            previous_output: OutPoint { txid: [tag; 32], vout: 1 },
            script_sig: vec![0x51, tag],
            sequence: 0xFFFF_FFFE,
            witness: vec![],
        }],
        output: vec![
            TxOut { value: 1_000, script_pubkey: vec![0x51] },
            TxOut { value: u64::MAX, script_pubkey: vec![] },
        ],
    }
}

#[test]
fn little_endian_bytes() {
    let mut out = vec![9u8];
    push_le(&mut out, 0x0102_0304, 4);
    assert_eq!(out, vec![9, 4, 3, 2, 1]);
    let mut out = vec![];
    push_le(&mut out, 0x0102_0304, 2);
    assert_eq!(out, vec![4, 3]);
    let mut out = vec![];
    push_le(&mut out, 1, 8);
    assert_eq!(out, vec![1, 0, 0, 0, 0, 0, 0, 0]);
    let mut out = vec![7];
    push_le(&mut out, 0xFFFF, 0);
    assert_eq!(out, vec![7]);
}

#[test]
fn appending_bytes_keeps_what_was_there() {
    let mut out = vec![1u8, 2];
    push_bytes(&mut out, &vec![3, 4, 5]);
    assert_eq!(out, vec![1, 2, 3, 4, 5]);
    let mut hash = [0u8; 32];
    hash[0] = 0xAA;
    hash[31] = 0xBB;
    push_hash(&mut out, &hash);
    assert_eq!(out.len(), 37);
    assert_eq!(out[5], 0xAA);
    assert_eq!(out[36], 0xBB);
}

#[test]
fn compact_size_boundaries() {
    let cases: Vec<(u64, Vec<u8>)> = vec![
        (0, vec![0]),
        (0xFC, vec![0xFC]),
        (0xFD, vec![0xFD, 0xFD, 0x00]),
        (0xFFFF, vec![0xFD, 0xFF, 0xFF]),
        (0x1_0000, vec![0xFE, 0x00, 0x00, 0x01, 0x00]),
        (0xFFFF_FFFF, vec![0xFE, 0xFF, 0xFF, 0xFF, 0xFF]),
        (0x1_0000_0000, vec![0xFF, 0, 0, 0, 0, 1, 0, 0, 0]),
        (u64::MAX, vec![0xFF, 0xFF, 0xFF, 0xFF, 0xFF, 0xFF, 0xFF, 0xFF, 0xFF]),
    ];
    for (n, expected) in cases {
        let mut out = vec![];
        push_compact_size(&mut out, n);
        assert_eq!(out, expected);
        assert_eq!(out, bitcoin::consensus::serialize(&bitcoin::VarInt(n)));
    }
}

#[test]
fn genesis_header_bytes() {
    let bytes = serialize_header(&genesis_header());
    assert_eq!(bytes.len(), 80);
    assert_eq!(&bytes[0..4], &[1, 0, 0, 0]);
    assert_eq!(&bytes[68..72], &[0x29, 0xab, 0x5f, 0x49]);
    assert_eq!(&bytes[72..76], &[0xff, 0xff, 0x00, 0x1d]);
    assert_eq!(&bytes[76..80], &[0x1d, 0xac, 0x2b, 0x7c]);
    assert_eq!(bytes, bitcoin::consensus::serialize(&outside_header(&genesis_header())));
}

#[test]
fn header_with_negative_version() {
    let mut header = genesis_header();
    header.version = -2;
    let bytes = serialize_header(&header);
    assert_eq!(&bytes[0..4], &[0xFE, 0xFF, 0xFF, 0xFF]);
    assert_eq!(bytes, bitcoin::consensus::serialize(&outside_header(&header)));
    header.version = i32::MIN;
    assert_eq!(serialize_header(&header), bitcoin::consensus::serialize(&outside_header(&header)));
    header.version = i32::MAX;
    assert_eq!(serialize_header(&header), bitcoin::consensus::serialize(&outside_header(&header)));
}

#[test]
fn genesis_block_hash() {
    let hash = block_hash(&genesis_header());
    let mut shown: Vec<u8> = hash.to_vec();
    shown.reverse();
    let text: String = shown.iter().map(|b| format!("{:02x}", b)).collect();
    assert_eq!(text, "000000000019d6689c085ae165831e934ff763ae46a2a6c172b3f1b60a8ce26f");
    let outside: sha256d::Hash = outside_header(&genesis_header()).block_hash().to_raw_hash();
    assert_eq!(hash, bitcoin::hashes::Hash::to_byte_array(outside));
}

#[test]
fn block_bytes_are_what_bitcoin_reads() {
    let block = Block {
        header: genesis_header(),
        txdata: vec![sample_transaction(1), sample_transaction(2), sample_transaction(3)],
    };
    let bytes = serialize_block(&block).unwrap();
    let read: bitcoin::Block = bitcoin::consensus::deserialize(&bytes).unwrap();
    assert_eq!(read.header, outside_header(&block.header));
    assert_eq!(read.txdata.len(), 3);
    for (i, tx) in read.txdata.iter().enumerate() {
        assert_eq!(tx.version.0, 2);
        assert_eq!(tx.lock_time.to_consensus_u32(), 17);
        assert_eq!(tx.input.len(), 1);
        assert_eq!(tx.input[0].previous_output.vout, 1);
        assert_eq!(tx.input[0].script_sig.as_bytes(), &[0x51, (i + 1) as u8]);
        assert_eq!(tx.input[0].sequence.0, 0xFFFF_FFFE);
        assert!(tx.input[0].witness.is_empty());
        assert_eq!(tx.output.len(), 2);
        assert_eq!(tx.output[0].value.to_sat(), 1_000);
        assert_eq!(tx.output[0].script_pubkey.as_bytes(), &[0x51]);
        assert_eq!(tx.output[1].value.to_sat(), u64::MAX);
    }
    assert_eq!(bitcoin::consensus::serialize(&read), bytes);
}

#[test]
fn block_without_transactions() {
    let block = Block { header: genesis_header(), txdata: vec![] };
    let bytes = serialize_block(&block).unwrap();
    assert_eq!(bytes.len(), 81);
    assert_eq!(bytes[80], 0);
    assert_eq!(&bytes[..80], &serialize_header(&genesis_header())[..]);
}

#[test]
fn witness_data_is_serialized() {
    let mut tx = sample_transaction(5);
    tx.input[0].witness = vec![vec![1, 2, 3], vec![]];
    let block = Block { header: genesis_header(), txdata: vec![tx] };
    let bytes = serialize_block(&block).unwrap();
    let read: bitcoin::Block = bitcoin::consensus::deserialize(&bytes).unwrap();
    assert_eq!(read.txdata[0].input[0].witness.to_vec(), vec![vec![1u8, 2, 3], vec![]]);
}
