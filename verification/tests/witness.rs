use blockforge::chain::{Block, Header, OutPoint, Transaction, TxIn};
use blockforge::encoding::{can_encode, can_encode_all, serialize_block, witness_fits};
use blockforge::engine::{gen_block, gen_block_at, GenError};
use blockforge::generator::{extend_chain, ChainCursor};
use blockforge::pipeline::render_script;
use blockforge::posix_script_builder::OutputPosixScriptBuilder;
use blockforge::scenario::{BlocksSpec, RpcAuth};

fn spend(witness: Vec<Vec<u8>>) -> Transaction {
    Transaction {
        version: 2,
        lock_time: 0,
        input: vec![
            TxIn {
                previous_output: OutPoint { txid: [1; 32], vout: 0 },
                script_sig: vec![],
                sequence: u32::MAX,
                witness: vec![],
            },
            TxIn {
                previous_output: OutPoint { txid: [2; 32], vout: 0 },
                script_sig: vec![],
                sequence: u32::MAX,
                witness,
            },
        ],
        output: vec![],
    }
}

fn block_of(txdata: Vec<Transaction>) -> Block {
    Block {
        header: Header {
            version: 1,
            prev_blockhash: [0; 32],
            merkle_root: [0; 32],
            time: 0,
            bits: 0x207f_ffff,
            nonce: 0,
        },
        txdata,
    }
}

fn auth() -> RpcAuth {
    RpcAuth { rpc_pass: String::new(), rpc_user: String::new() }
}

#[test]
fn small_witnesses_fit() {
    assert!(witness_fits(&vec![]));
    assert!(witness_fits(&vec![vec![]]));
    assert!(witness_fits(&vec![vec![], vec![1, 2, 3], vec![0; 70_000]]));
    assert!(can_encode(&spend(vec![vec![7; 300], vec![]])));
    assert!(can_encode_all(&vec![]));
    assert!(can_encode_all(&vec![spend(vec![]), spend(vec![vec![1]])]));
}

#[test]
fn blocks_with_small_witnesses_are_built_and_submitted() {
    let txs = vec![spend(vec![vec![1]]), spend(vec![vec![0u8; 100_000], vec![1]])];
    let cursor = ChainCursor { prev_blockhash: [0; 32], height: 200, target: 0x207f_ffff };
    assert!(gen_block([0; 32], 0x207f_ffff, 200, vec![], txs.clone()).is_ok());
    assert!(extend_chain(cursor, vec![], txs.clone()).is_ok());
    // the height is looked at first
    assert_eq!(
        gen_block_at([0; 32], 0x207f_ffff, u32::MAX, vec![], txs.clone(), 0),
        Err(GenError::HeightOutOfRange)
    );
    let block = block_of(txs);
    assert!(serialize_block(&block).is_some());
    let mut script = OutputPosixScriptBuilder::new("h:1".to_owned(), auth());
    assert!(script.submitblock(&block));
    assert!(script.finalize().starts_with("curl 'h:1' "));
    let blocks = vec![block];
    assert!(render_script("h:1".to_owned(), auth(), &blocks, &BlocksSpec(vec![]), &vec![]).is_some());
}

#[test]
fn witness_is_part_of_the_block() {
    let tx = spend(vec![vec![1, 2, 3], vec![], vec![9; 300]]);
    let block = gen_block_at([0; 32], 0x207f_ffff, 200, vec![], vec![tx.clone()], 0).unwrap();
    assert_eq!(block.txdata[1], tx);
    let bytes = serialize_block(&block).unwrap();
    let read: bitcoin::Block = bitcoin::consensus::deserialize(&bytes).unwrap();
    assert!(read.check_merkle_root());
    assert_eq!(read.txdata[1].input[1].witness.to_vec(), tx.input[1].witness);
    assert!(read.txdata[1].input[0].witness.is_empty());
}
