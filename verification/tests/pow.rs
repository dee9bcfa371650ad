use blockforge::chain::Header;
use blockforge::pow::{block_hash, check_pow, counter_nonce, le_less, mine};

const REGTEST_BITS: u32 = 0x207f_ffff;

fn outside_header(header: &Header) -> bitcoin::block::Header {
    bitcoin::block::Header {
        version: bitcoin::block::Version::from_consensus(header.version),
        prev_blockhash: bitcoin::hashes::Hash::from_byte_array(header.prev_blockhash),
        merkle_root: bitcoin::hashes::Hash::from_byte_array(header.merkle_root),
        time: header.time,
        bits: bitcoin::CompactTarget::from_consensus(header.bits),
        nonce: header.nonce,
    }
}

fn candidate(seed: u8, bits: u32) -> Header {
    Header {
        version: 0x2000_0000,
        prev_blockhash: [seed; 32],
        merkle_root: [seed.wrapping_add(1); 32],
        time: 1_700_000_000,
        bits,
        nonce: 0,
    }
}

fn number(low: u8, high: u8) -> [u8; 32] {
    let mut n = [0u8; 32];
    n[0] = low;
    n[31] = high;
    n
}

#[test]
fn little_endian_comparison() {
    assert!(le_less(&number(0, 0), &number(1, 0)));
    assert!(!le_less(&number(1, 0), &number(0, 0)));
    assert!(!le_less(&number(5, 5), &number(5, 5)));
    // the last byte is the most significant one
    assert!(le_less(&number(255, 0), &number(0, 1)));
    assert!(!le_less(&number(0, 1), &number(255, 0)));
    assert!(le_less(&number(1, 7), &number(2, 7)));
    assert!(!le_less(&[0u8; 32], &[0u8; 32]));
    assert!(le_less(&[0u8; 32], &[255u8; 32]));
    assert!(!le_less(&[255u8; 32], &[255u8; 32]));
}

#[test]
fn little_endian_comparison_in_the_middle() {
    let mut a = [9u8; 32];
    let mut b = [9u8; 32];
    a[10] = 1;
    b[10] = 2;
    a[3] = 200;
    b[3] = 100;
    assert!(le_less(&a, &b));
    assert!(!le_less(&b, &a));
}

#[test]
fn nonce_is_the_counter_with_its_bytes_swapped() {
    assert_eq!(counter_nonce(0), 0);
    assert_eq!(counter_nonce(1), 0x0100_0000);
    assert_eq!(counter_nonce(0x0102_0304), 0x0403_0201);
    assert_eq!(counter_nonce(u32::MAX), u32::MAX);
    assert_eq!(counter_nonce(0xFF00_0000), 0x0000_00FF);
    for counter in [0u32, 1, 255, 256, 65_535, 65_536, 0x1234_5678, u32::MAX - 1] {
        assert_eq!(counter_nonce(counter), counter.swap_bytes());
        assert_eq!(counter_nonce(counter).to_le_bytes(), counter.to_be_bytes());
    }
}

#[test]
fn genesis_header_proves_its_work() {
    let mut merkle_root = [0u8; 32];
    let text = "3ba3edfd7a7b12b27ac72c3e67768f617fc81bc3888a51323a9fb8aa4b1e5e4a";
    for i in 0..32 {
        merkle_root[i] = u8::from_str_radix(&text[2 * i..2 * i + 2], 16).unwrap();
    }
    let mut header = Header {
        version: 1,
        prev_blockhash: [0u8; 32],
        merkle_root,
        time: 1231006505,
        bits: 0x1d00ffff,
        nonce: 2083236893,
    };
    assert!(check_pow(&header));
    header.nonce += 1;
    assert!(!check_pow(&header));
}

#[test]
fn zero_target_is_never_met() {
    for bits in [0u32, 0x0100_0000, 0x2080_0000, 0x03ff_ffff] {
        assert!(!check_pow(&candidate(3, bits)));
    }
}

#[test]
fn check_agrees_with_bitcoin() {
    for seed in 0u8..40 {
        let header = candidate(seed, REGTEST_BITS);
        let outside = outside_header(&header);
        let target = outside.target();
        let hash = bitcoin::pow::Target::from_le_bytes(block_hash(&header));
        assert_eq!(check_pow(&header), hash < target);
        if check_pow(&header) {
            assert!(outside.validate_pow(target).is_ok());
        }
    }
}

#[test]
fn mining_finds_the_first_nonce() {
    for seed in 0u8..20 {
        let start = candidate(seed, REGTEST_BITS);
        let mined = mine(start).unwrap();
        assert!(check_pow(&mined));
        assert_eq!(mined.version, start.version);
        assert_eq!(mined.prev_blockhash, start.prev_blockhash);
        assert_eq!(mined.merkle_root, start.merkle_root);
        assert_eq!(mined.time, start.time);
        assert_eq!(mined.bits, start.bits);
        let counter = mined.nonce.swap_bytes();
        for earlier in 0..counter {
            let mut tried = start;
            tried.nonce = earlier.swap_bytes();
            assert!(!check_pow(&tried));
        }
        let outside = outside_header(&mined);
        assert!(outside.validate_pow(outside.target()).is_ok());
    }
}

#[test]
fn mining_ignores_the_nonce_it_is_given() {
    let mut start = candidate(11, REGTEST_BITS);
    let mined = mine(start).unwrap();
    start.nonce = 0xDEAD_BEEF;
    assert_eq!(mine(start).unwrap(), mined);
}

#[test]
fn mining_at_a_harder_target() {
    // about one hash in 4096 is below this target
    let start = candidate(1, 0x1f0f_ffff);
    let mined = mine(start).unwrap();
    assert!(check_pow(&mined));
    let hash = block_hash(&mined);
    assert_eq!(hash[31], 0);
    assert!(hash[30] < 0x10);
}
