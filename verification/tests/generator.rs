use blockforge::chain::{Block, OutPoint, Transaction, TxIn};
use blockforge::commitment::{m1_txout, m2_txout};
use blockforge::encoding::serialize_block;
use blockforge::engine::GenError;
use blockforge::generator::{
    check_heights, extend_chain, gen_scenario_blocks, gen_setup_blocks, unlocked_script,
    value_txout, ChainCursor,
};
use blockforge::pipeline::gen_blocks;
use blockforge::pow::{block_hash, check_pow};
use blockforge::scenario::{BlockSpec, BlocksSpec, Network};

const REGTEST_BITS: u32 = 0x207f_ffff;

const PLAIN: BlockSpec = BlockSpec { duplicate_m2: false };

const DUPLICATE: BlockSpec = BlockSpec { duplicate_m2: true };

fn start(height: u32) -> ChainCursor {
    ChainCursor { prev_blockhash: [0x33; 32], height, target: REGTEST_BITS }
}

fn read_back(block: &Block) -> bitcoin::Block {
    bitcoin::consensus::deserialize(&serialize_block(block).unwrap()).unwrap()
}

fn assert_linked(blocks: &[Block], from: ChainCursor) {
    let mut prev = from.prev_blockhash;
    let mut height = from.height;
    for block in blocks {
        assert_eq!(block.header.prev_blockhash, prev);
        assert_eq!(block.header.bits, REGTEST_BITS);
        assert!(check_pow(&block.header));
        let read = read_back(block);
        assert!(read.check_merkle_root());
        assert_eq!(read.bip34_block_height().unwrap(), height as u64);
        assert_eq!(block.txdata.len(), 1);
        assert_eq!(block.txdata[0].lock_time, height + 100);
        prev = block_hash(&block.header);
        height += 1;
    }
}

#[test]
fn unlocked_script_is_op_true() {
    assert_eq!(unlocked_script(), vec![0x51]);
    let built = bitcoin::ScriptBuf::builder().push_opcode(bitcoin::opcodes::OP_TRUE).into_script();
    assert_eq!(unlocked_script(), built.into_bytes());
}

#[test]
fn value_output_pays_to_the_hash_of_the_unlocked_script() {
    let txout = value_txout(Network::Regtest, 1234);
    assert_eq!(txout.value, 1234);
    let mut expected = vec![0x00, 0x20];
    expected.extend_from_slice(&[
        74, 232, 21, 114, 240, 110, 27, 136, 253, 92, 237, 122, 26, 0, 9, 69, 67, 46, 131, 225, 85,
        30, 111, 114, 30, 233, 192, 11, 140, 195, 50, 96,
    ]);
    assert_eq!(txout.script_pubkey, expected);
    assert!(bitcoin::Script::from_bytes(&txout.script_pubkey).is_p2wsh());
    assert_eq!(value_txout(Network::Mainnet, 1).script_pubkey, expected);
    assert_eq!(value_txout(Network::Testnet, 1).script_pubkey, expected);
}

#[test]
fn heights_are_checked_against_the_lock_time_threshold() {
    assert!(check_heights(0, 0));
    assert!(check_heights(u32::MAX, 0));
    assert!(check_heights(499_999_899, 1));
    assert!(!check_heights(499_999_900, 1));
    assert!(check_heights(499_999_898, 2));
    assert!(!check_heights(499_999_899, 2));
    assert!(check_heights(0, 499_999_900));
    assert!(!check_heights(0, 499_999_901));
    assert!(!check_heights(u32::MAX, 1));
    assert!(!check_heights(0, usize::MAX));
}

#[test]
fn extending_moves_the_cursor_past_the_block() {
    let cursor = start(200);
    let (block, next) = extend_chain(cursor, vec![value_txout(Network::Regtest, 5)], vec![]).unwrap();
    assert_eq!(block.header.prev_blockhash, cursor.prev_blockhash);
    assert_eq!(next.prev_blockhash, block_hash(&block.header));
    assert_eq!(next.height, 201);
    assert_eq!(next.target, REGTEST_BITS);
    let read = read_back(&block);
    assert_eq!(next.target, read.header.target().to_compact_lossy().to_consensus());
}

#[test]
fn cursor_takes_the_blocks_own_difficulty() {
    // a compact target with a needlessly long mantissa is brought into its usual form
    let cursor = ChainCursor { prev_blockhash: [1; 32], height: 50, target: 0x2100_7fff };
    let (block, next) = extend_chain(cursor, vec![], vec![]).unwrap();
    assert_eq!(block.header.bits, 0x2100_7fff);
    assert_eq!(next.target, 0x207f_ff00);
    let read = read_back(&block);
    assert_eq!(next.target, read.header.target().to_compact_lossy().to_consensus());
}

#[test]
fn extending_with_other_transactions() {
    let other = Transaction {
        version: 1,
        lock_time: 0,
        input: vec![TxIn {
            previous_output: OutPoint { txid: [8; 32], vout: 3 },
            script_sig: vec![1, 2],
            sequence: 5,
            witness: vec![vec![9]],
        }],
        output: vec![value_txout(Network::Regtest, 1)],
    };
    let (block, next) = extend_chain(start(77), vec![], vec![other.clone()]).unwrap();
    assert_eq!(block.txdata.len(), 2);
    assert_eq!(block.txdata[1], other);
    assert_eq!(next.height, 78);
    let read = read_back(&block);
    assert!(read.check_merkle_root());
    assert_eq!(read.txdata[1].input[0].witness.to_vec(), vec![vec![9u8]]);
}

#[test]
fn extending_fails_where_no_coinbase_can_be_built() {
    assert_eq!(extend_chain(start(499_999_900), vec![], vec![]), Err(GenError::HeightOutOfRange));
}

#[test]
fn one_setup_block_when_nothing_needs_a_declaration() {
    for specs in [vec![], vec![PLAIN], vec![PLAIN, PLAIN]] {
        let (blocks, end) =
            gen_setup_blocks(Network::Regtest, start(200), &BlocksSpec(specs)).unwrap();
        assert_eq!(blocks.len(), 1);
        assert_linked(&blocks, start(200));
        assert_eq!(blocks[0].txdata[0].output, vec![value_txout(Network::Regtest, 2_500_000_000)]);
        assert_eq!(end.height, 201);
        assert_eq!(end.prev_blockhash, block_hash(&blocks[0].header));
        assert_eq!(end.target, REGTEST_BITS);
    }
}

#[test]
fn two_setup_blocks_when_a_declaration_is_needed() {
    for specs in [vec![DUPLICATE], vec![PLAIN, DUPLICATE], vec![DUPLICATE, DUPLICATE]] {
        let (blocks, end) =
            gen_setup_blocks(Network::Regtest, start(200), &BlocksSpec(specs)).unwrap();
        assert_eq!(blocks.len(), 2);
        assert_linked(&blocks, start(200));
        let value = value_txout(Network::Regtest, 2_500_000_000);
        assert_eq!(blocks[0].txdata[0].output, vec![value.clone()]);
        assert_eq!(
            blocks[1].txdata[0].output,
            vec![value, m1_txout(0xFF, b"demo sidechain".to_vec())]
        );
        assert_eq!(end.height, 202);
        assert_eq!(end.prev_blockhash, block_hash(&blocks[1].header));
    }
}

#[test]
fn second_setup_block_pays_what_the_first_paid() {
    // the first setup block is the last of its epoch
    let (blocks, _) =
        gen_setup_blocks(Network::Regtest, start(149), &BlocksSpec(vec![DUPLICATE])).unwrap();
    assert_eq!(blocks[0].txdata[0].output[0].value, 5_000_000_000);
    assert_eq!(blocks[1].txdata[0].output[0].value, 5_000_000_000);
}

#[test]
fn setup_fails_where_its_last_block_has_no_valid_height() {
    let plain = BlocksSpec(vec![PLAIN]);
    let duplicate = BlocksSpec(vec![DUPLICATE]);
    assert!(gen_setup_blocks(Network::Regtest, start(499_999_899), &plain).is_ok());
    assert_eq!(
        gen_setup_blocks(Network::Regtest, start(499_999_899), &duplicate),
        Err(GenError::HeightOutOfRange)
    );
    assert_eq!(
        gen_setup_blocks(Network::Regtest, start(499_999_900), &plain),
        Err(GenError::HeightOutOfRange)
    );
}

#[test]
fn empty_scenario_gives_no_blocks() {
    let blocks = gen_scenario_blocks(Network::Regtest, start(200), &BlocksSpec(vec![])).unwrap();
    assert!(blocks.is_empty());
    // even where no block could be built
    assert!(gen_scenario_blocks(Network::Regtest, start(u32::MAX), &BlocksSpec(vec![])).is_ok());
}

#[test]
fn one_block_per_condition_in_one_chain() {
    let specs = BlocksSpec(vec![PLAIN, DUPLICATE, PLAIN, DUPLICATE, DUPLICATE]);
    let blocks = gen_scenario_blocks(Network::Regtest, start(296), &specs).unwrap();
    assert_eq!(blocks.len(), 5);
    assert_linked(&blocks, start(296));
    for (i, block) in blocks.iter().enumerate() {
        let outputs = &block.txdata[0].output;
        let subsidy = if 296 + i < 300 { 2_500_000_000 } else { 1_250_000_000 };
        assert_eq!(outputs.last().unwrap(), &value_txout(Network::Regtest, subsidy));
        assert_eq!(outputs.len(), if specs.0[i].duplicate_m2 { 3 } else { 1 });
    }
}

#[test]
fn duplicate_condition_gives_two_identical_acknowledgments_and_one_value_output() {
    let blocks =
        gen_scenario_blocks(Network::Regtest, start(200), &BlocksSpec(vec![DUPLICATE])).unwrap();
    assert_eq!(blocks.len(), 1);
    let outputs = &blocks[0].txdata[0].output;
    assert_eq!(outputs.len(), 3);
    let acknowledgment = m2_txout(0xFF, b"demo sidechain");
    assert_eq!(outputs[0], acknowledgment);
    assert_eq!(outputs[1], acknowledgment);
    assert_eq!(outputs[0].script_pubkey, outputs[1].script_pubkey);
    assert_eq!(outputs[2], value_txout(Network::Regtest, 2_500_000_000));
    let acknowledgments = outputs.iter().filter(|o| **o == acknowledgment).count();
    let values = outputs.iter().filter(|o| o.value > 0).count();
    assert_eq!(acknowledgments, 2);
    assert_eq!(values, 1);
}

#[test]
fn scenario_fails_where_its_last_block_has_no_valid_height() {
    let two = BlocksSpec(vec![PLAIN, PLAIN]);
    assert!(gen_scenario_blocks(Network::Regtest, start(499_999_898), &two).is_ok());
    assert_eq!(
        gen_scenario_blocks(Network::Regtest, start(499_999_899), &two),
        Err(GenError::HeightOutOfRange)
    );
}

#[test]
fn setup_and_scenario_blocks_form_one_chain() {
    let specs = BlocksSpec(vec![DUPLICATE, PLAIN]);
    let (setup, scenario) = gen_blocks(Network::Regtest, start(1000), &specs).unwrap();
    assert_eq!(setup.len(), 2);
    assert_eq!(scenario.len(), 2);
    let mut all = setup.clone();
    all.extend(scenario.iter().cloned());
    assert_linked(&all, start(1000));
    for i in 0..3 {
        assert_eq!(all[i + 1].header.prev_blockhash, block_hash(&all[i].header));
    }
}

#[test]
fn a_needed_declaration_costs_exactly_one_more_setup_block() {
    let (with, _) = gen_blocks(Network::Regtest, start(20), &BlocksSpec(vec![DUPLICATE])).unwrap();
    let (without, _) = gen_blocks(Network::Regtest, start(20), &BlocksSpec(vec![PLAIN])).unwrap();
    assert_eq!(with.len(), 2);
    assert_eq!(without.len(), 1);
    assert_eq!(with.len(), without.len() + 1);
}

#[test]
fn generation_fails_as_a_whole_where_any_height_is_out_of_range() {
    let specs = BlocksSpec(vec![PLAIN, PLAIN]);
    assert!(gen_blocks(Network::Regtest, start(499_999_897), &specs).is_ok());
    assert_eq!(
        gen_blocks(Network::Regtest, start(499_999_898), &specs),
        Err(GenError::HeightOutOfRange)
    );
    let specs = BlocksSpec(vec![PLAIN, DUPLICATE]);
    assert!(gen_blocks(Network::Regtest, start(499_999_896), &specs).is_ok());
    assert_eq!(
        gen_blocks(Network::Regtest, start(499_999_897), &specs),
        Err(GenError::HeightOutOfRange)
    );
}
