use hdwallet::secp256k1::{PublicKey, Secp256k1, SecretKey};
use oxidize::add;
use oxidize::block::{Block, BlockValidationError, HashHelper};
use oxidize::blockchain::{Blockchain, BlockchainConfig, LedgerError};
use oxidize::config::{
    BLOCKCHAIN_COINBASE_BLOCK_FEE, BLOCKCHAIN_COINBASE_GENESIS_BLOCK_FEE,
    BLOCKCHAIN_INITIAL_DIFFICULTY,
};
use oxidize::transaction::{Transaction, TransactionInput, TransactionManager};

fn keys() -> (SecretKey, PublicKey) {
    let secret = SecretKey::from_slice(&[0x11u8; 32]).unwrap();
    let public = PublicKey::from_secret_key(&Secp256k1::new(), &secret);
    (secret, public)
}

fn reward(recipient: &str, amount: u64, nonce: u64) -> Transaction {
    let (secret, public) = keys();
    TransactionManager::create_coinbase_transaction(&secret, &public, recipient, amount, nonce)
}

fn build_blockchain() -> Blockchain {
    let config = BlockchainConfig::new(true);
    match Blockchain::build(config, reward("miner", BLOCKCHAIN_COINBASE_GENESIS_BLOCK_FEE, 0)) {
        Ok(node) => node,
        Err(e) => panic!("Failed to build blockchain: {:?}", e),
    }
}

fn chain_of(additions: u64) -> Blockchain {
    let mut node = build_blockchain();
    for n in 0..additions {
        node.add_block(reward("miner", BLOCKCHAIN_COINBASE_BLOCK_FEE, n + 1)).unwrap();
    }
    node
}

fn leading_zeros(hash: &str) -> usize {
    hash.chars().take_while(|c| *c == '0').count()
}

#[test]
fn lib_it_works() {
    let result = add(2, 2);
    assert_eq!(result, 4);
}

#[test]
fn it_builds_a_blockchain() {
    let node = build_blockchain();
    assert_eq!(node.blocks().len(), 1);
}

#[test]
fn it_creates_blockchain_blocks() {
    let mut node = build_blockchain();

    for n in 1..=3 {
        node.add_block(reward("miner", BLOCKCHAIN_COINBASE_BLOCK_FEE, n)).unwrap();
    }

    assert_eq!(node.blocks().len(), 4);

    node.shutdown()
}

#[test]
fn it_validates_single_blockchain_block() {
    let mut node = build_blockchain();

    node.add_block(reward("miner", BLOCKCHAIN_COINBASE_BLOCK_FEE, 1)).unwrap();

    let blocks = node.blocks().clone();
    let block_1 = blocks.get(1).unwrap().clone();

    let validation = node.validate_single_block(block_1.header().current_hash());

    assert!(validation.is_ok());

    node.shutdown()
}

#[test]
fn it_validates_blockchain_range() {
    let mut node = build_blockchain();

    for n in 1..=5 {
        node.add_block(reward("miner", BLOCKCHAIN_COINBASE_BLOCK_FEE, n)).unwrap();
    }

    let blocks = node.blocks().clone();
    let block_1 = blocks.get(1).unwrap().clone();
    let block_2 = blocks.get(3).unwrap().clone();

    let validation = node.validate_range_chain(
        block_1.header().current_hash(),
        block_2.header().current_hash(),
    );

    assert!(validation.is_ok());

    node.shutdown()
}

#[test]
fn it_validates_full_blockchain() {
    let mut node = build_blockchain();

    for n in 1..=5 {
        node.add_block(reward("miner", BLOCKCHAIN_COINBASE_BLOCK_FEE, n)).unwrap();
    }

    let validation = node.validate_full_chain();

    assert!(validation.is_ok());

    node.shutdown()
}

#[test]
fn chain_grows_by_one_block_per_addition() {
    for n in [0u64, 1, 5, 20] {
        let node = chain_of(n);
        assert_eq!(node.blocks().len() as u64, n + 1);
        assert_eq!(node.ledger().len() as u64, n + 1);
    }
}

#[test]
fn untampered_chain_validates_in_full() {
    for n in [1u64, 5, 20] {
        let mut node = chain_of(n);
        assert_eq!(node.validate_full_chain(), Ok(()));
    }
}

#[test]
fn lone_genesis_is_insufficient() {
    let mut node = chain_of(0);
    let genesis_hash = node.blocks()[0].header().current_hash().clone();
    assert_eq!(node.validate_full_chain(), Err(BlockValidationError::InsufficientBlocks));
    assert_eq!(
        node.validate_single_block(&genesis_hash),
        Err(BlockValidationError::InsufficientBlocks)
    );
    assert_eq!(
        node.validate_range_chain(&genesis_hash, &genesis_hash),
        Err(BlockValidationError::InsufficientBlocks)
    );
    assert_eq!(
        node.validate_single_block(&"f".repeat(64)),
        Err(BlockValidationError::BlockNotFound)
    );
    assert_eq!(
        node.validate_range_chain(&genesis_hash, &"f".repeat(64)),
        Err(BlockValidationError::RangeIndexFault)
    );
}

#[test]
fn unknown_hash_is_not_found() {
    let mut node = chain_of(2);
    assert_eq!(
        node.validate_single_block(&"not a hash".to_string()),
        Err(BlockValidationError::BlockNotFound)
    );
}

#[test]
fn genesis_block_has_no_predecessor() {
    let mut node = chain_of(2);
    let genesis_hash = node.blocks()[0].header().current_hash().clone();
    assert_eq!(
        node.validate_single_block(&genesis_hash),
        Err(BlockValidationError::PreviousBlockNotFound)
    );
}

#[test]
fn every_later_block_validates_on_its_own() {
    let mut node = chain_of(4);
    let blocks = node.blocks();
    for block in blocks.iter().skip(1) {
        assert_eq!(node.validate_single_block(block.header().current_hash()), Ok(()));
    }
}

#[test]
fn range_between_two_hashes_validates() {
    let mut node = chain_of(5);
    let blocks = node.blocks();
    assert_eq!(blocks.len(), 6);
    let from = blocks[2].header().current_hash().clone();
    let to = blocks[5].header().current_hash().clone();
    assert_eq!(node.find_hash_indices(&from, &to), Some((2, 5)));
    assert_eq!(node.validate_range_chain(&from, &to), Ok(()));
}

#[test]
fn range_with_unknown_hash_is_a_fault() {
    let mut node = chain_of(5);
    let blocks = node.blocks();
    let known = blocks[2].header().current_hash().clone();
    let unknown = "e".repeat(64);
    assert_eq!(
        node.validate_range_chain(&unknown, &known),
        Err(BlockValidationError::RangeIndexFault)
    );
    assert_eq!(
        node.validate_range_chain(&known, &unknown),
        Err(BlockValidationError::RangeIndexFault)
    );
    assert_eq!(
        node.validate_range_chain(&unknown, &unknown),
        Err(BlockValidationError::RangeIndexFault)
    );
    assert_eq!(node.find_hash_indices(&unknown, &known), None);
    assert_eq!(node.find_hash_indices(&known, &unknown), None);
}

#[test]
fn reversed_range_is_empty_and_passes() {
    let mut node = chain_of(5);
    let blocks = node.blocks();
    let from = blocks[4].header().current_hash().clone();
    let to = blocks[1].header().current_hash().clone();
    assert_eq!(node.find_hash_indices(&from, &to), Some((4, 1)));
    assert_eq!(node.validate_range_chain(&from, &to), Ok(()));
}

#[test]
fn range_from_genesis_skips_the_predecessor_check() {
    let mut node = chain_of(3);
    let blocks = node.blocks();
    let from = blocks[0].header().current_hash().clone();
    let to = blocks[3].header().current_hash().clone();
    assert_eq!(node.validate_range_chain(&from, &to), Ok(()));
    assert_eq!(node.validate_range_chain(&from, &from), Ok(()));
}

#[test]
fn genesis_reward_is_folded() {
    let genesis_reward = reward("alice", BLOCKCHAIN_COINBASE_GENESIS_BLOCK_FEE, 0);
    let reward_hash = genesis_reward.metadata().transaction_hash;
    let node = Blockchain::build(BlockchainConfig::new(true), genesis_reward).unwrap();

    let addresses = node.utxo_addresses();
    assert_eq!(addresses, vec!["alice".to_string()]);
    let outputs = node.unspent_outputs("alice");
    assert_eq!(outputs.len(), 1);
    assert_eq!(outputs[0].recipient_address, "alice");
    assert_eq!(outputs[0].amount, 1_000);
    assert!(node.unspent_outputs("bob").is_empty());

    let ledger = node.ledger();
    assert_eq!(ledger.len(), 1);
    assert_eq!(ledger[0].metadata().transaction_hash, reward_hash);
    assert_eq!(ledger[0].outputs()[0].amount, 1_000);
    assert!(node.mempool().is_empty());
}

#[test]
fn genesis_block_stands_on_zeros() {
    let node = build_blockchain();
    let blocks = node.blocks();
    let genesis = &blocks[0];
    assert_eq!(genesis.header().previous_hash(), &"0".repeat(64));
    assert_eq!(genesis.header().difficulty(), BLOCKCHAIN_INITIAL_DIFFICULTY);
    assert_eq!(genesis.header().difficulty(), 2);
    assert_eq!(genesis.body().transactions().len(), 1);
    assert!(genesis.header().current_hash().starts_with("00"));
    assert_eq!(genesis.header().current_hash().len(), 64);
    assert!(HashHelper::is_valid_hash(genesis));
}

#[test]
fn blocks_are_linked_and_sealed() {
    let node = chain_of(4);
    let blocks = node.blocks();
    for i in 1..blocks.len() {
        assert_eq!(blocks[i].header().previous_hash(), blocks[i - 1].header().current_hash());
        assert_eq!(blocks[i].header().difficulty(), blocks[i - 1].header().difficulty());
        assert!(blocks[i].header().timestamp() > blocks[i - 1].header().timestamp());
        assert!(leading_zeros(blocks[i].header().current_hash()) >= 2);
        assert!(HashHelper::is_valid_hash(&blocks[i]));
    }
}

#[test]
fn build_without_reward_output_fails() {
    let (secret, _) = keys();
    let empty = TransactionManager::create_transaction(vec![], vec![], secret);
    let outcome = Blockchain::build(BlockchainConfig::new(true), empty);
    assert_eq!(outcome.err(), Some(LedgerError::NoRewardOutput));
}

#[test]
fn add_block_without_reward_output_changes_nothing() {
    let (secret, _) = keys();
    let mut node = chain_of(1);
    let empty = TransactionManager::create_transaction(vec![], vec![], secret);
    assert_eq!(node.add_block(empty), Err(LedgerError::NoRewardOutput));
    assert_eq!(node.blocks().len(), 2);
    assert_eq!(node.ledger().len(), 2);
    assert_eq!(node.unspent_outputs("miner").len(), 2);
}

#[test]
fn rewards_to_one_recipient_share_an_entry() {
    let node = chain_of(4);
    assert_eq!(node.utxo_addresses(), vec!["miner".to_string()]);
    let outputs = node.unspent_outputs("miner");
    assert_eq!(outputs.len(), 5);
    let amounts: Vec<u64> = outputs.iter().map(|o| o.amount).collect();
    assert_eq!(amounts, vec![1_000, 20, 20, 20, 20]);
    assert_eq!(amounts.iter().sum::<u64>(), 1_080);
}

#[test]
fn rewards_to_several_recipients_are_kept_apart() {
    let mut node = Blockchain::build(BlockchainConfig::new(true), reward("alice", 1_000, 0)).unwrap();
    node.add_block(reward("bob", 20, 1)).unwrap();
    node.add_block(reward("alice", 21, 2)).unwrap();
    node.add_block(reward("carol", 22, 3)).unwrap();
    node.add_block(reward("bob", 23, 4)).unwrap();

    assert_eq!(
        node.utxo_addresses(),
        vec!["alice".to_string(), "bob".to_string(), "carol".to_string()]
    );
    let of = |address: &str| -> Vec<u64> {
        node.unspent_outputs(address).iter().map(|o| o.amount).collect()
    };
    assert_eq!(of("alice"), vec![1_000, 21]);
    assert_eq!(of("bob"), vec![20, 23]);
    assert_eq!(of("carol"), vec![22]);
    assert_eq!(of("dave"), Vec::<u64>::new());

    let ledger: Vec<u64> = node.ledger().iter().map(|t| t.outputs()[0].amount).collect();
    assert_eq!(ledger, vec![1_000, 20, 21, 22, 23]);
}

#[test]
fn end_to_end() {
    let mut node = build_blockchain();
    for n in 1..=4 {
        node.add_block(reward("miner", BLOCKCHAIN_COINBASE_BLOCK_FEE, n)).unwrap();
    }
    let blocks = node.blocks().clone();
    assert_eq!(blocks.len(), 5);
    let block_1 = blocks.get(1).unwrap().clone();
    let block_3 = blocks.get(3).unwrap().clone();

    assert_eq!(node.validate_single_block(block_1.header().current_hash()), Ok(()));
    assert_eq!(node.validate_full_chain(), Ok(()));
    assert_eq!(
        node.validate_range_chain(
            block_1.header().current_hash(),
            block_3.header().current_hash()
        ),
        Ok(())
    );
    assert_eq!(node.validate_full_chain(), Ok(()));

    let outputs = node.unspent_outputs("miner");
    assert_eq!(outputs.len(), 5);
    assert_eq!(outputs.iter().map(|o| o.amount).sum::<u64>(), 1_000 + 4 * 20);
    assert_eq!(node.utxo_addresses().len(), 1);
}

#[test]
fn snapshot_of_blocks_does_not_follow_the_chain() {
    let mut node = chain_of(1);
    let snapshot = node.blocks();
    node.add_block(reward("miner", BLOCKCHAIN_COINBASE_BLOCK_FEE, 2)).unwrap();
    assert_eq!(snapshot.len(), 2);
    assert_eq!(node.blocks().len(), 3);
}

#[test]
fn copy_of_a_chain_is_independent() {
    let mut node = chain_of(2);
    let copy = node.clone();
    node.add_block(reward("other", 5, 3)).unwrap();
    assert_eq!(copy.blocks().len(), 3);
    assert_eq!(copy.utxo_addresses(), vec!["miner".to_string()]);
    assert_eq!(copy.unspent_outputs("miner").len(), 3);
    assert_eq!(node.blocks().len(), 4);
    assert_eq!(node.utxo_addresses().len(), 2);
    let hashes = |chain: &Blockchain| -> Vec<String> {
        chain.blocks().iter().map(|b| b.header().current_hash().clone()).collect()
    };
    assert_eq!(hashes(&copy), hashes(&node)[..3].to_vec());
}

#[test]
fn pending_inputs_keep_their_order() {
    let mut node = chain_of(0);
    for n in [3u64, 1, 2, 1] {
        node.submit_pending(TransactionInput {
            previous_tx_hash: [n as u8; 32],
            index: n as u32,
            signature: format!("sig-{n}"),
            public_key: vec![2u8; 33],
            amount: 10 * n,
            nonce: n,
        });
    }
    let pending = node.mempool();
    let nonces: Vec<u64> = pending.iter().map(|i| i.nonce).collect();
    assert_eq!(nonces, vec![3, 1, 2, 1]);
    assert_eq!(pending[0].signature, "sig-3");
    assert_eq!(pending[3].amount, 10);
    assert_eq!(node.blocks().len(), 1);
}

#[test]
fn configuration_is_kept() {
    let dynamic = BlockchainConfig::new(true);
    assert_eq!(dynamic.addr, "127.0.0.1:0");
    assert_eq!(dynamic.difficulty(), 2);
    let fixed = BlockchainConfig::new(false);
    assert_eq!(fixed.addr, "localhost:8080");
    assert_eq!(fixed.addr(), "localhost:8080");
    assert_eq!(fixed.difficulty(), 2);
    let node = Blockchain::build(fixed, reward("miner", 1, 0)).unwrap();
    assert_eq!(node.config().addr, "localhost:8080");
    assert_eq!(node.config().difficulty(), 2);
}

#[test]
fn new_block_is_sealed_on_the_given_hash() {
    let previous = "ab".repeat(32);
    let transactions = vec![reward("miner", 20, 0)];
    let block = Block::new(&previous, &transactions, 1).unwrap();
    assert_eq!(block.header().previous_hash(), &previous);
    assert_eq!(block.header().difficulty(), 1);
    assert_eq!(block.body().transactions().len(), 1);
    assert!(block.header().current_hash().starts_with('0'));
    assert!(HashHelper::is_valid_hash(&block));
}

#[test]
fn sealed_block_goes_on_top() {
    let mut node = chain_of(1);
    let (tip_hash, difficulty) = node.tip();
    assert_eq!(&tip_hash, node.blocks()[1].header().current_hash());
    assert_eq!(difficulty, 2);

    let block = Block::new(&tip_hash, &vec![reward("carol", 20, 2)], difficulty).unwrap();
    assert!(HashHelper::is_sealed_block(&block));
    let hash = block.header().current_hash().clone();
    assert_eq!(node.append_block(block), Ok(()));
    assert_eq!(node.blocks().len(), 3);
    assert_eq!(node.tip(), (hash, 2));
    assert_eq!(node.ledger().len(), 3);
    assert_eq!(node.unspent_outputs("carol").len(), 1);
    assert_eq!(node.unspent_outputs("carol")[0].amount, 20);
    assert_eq!(node.utxo_addresses(), vec!["miner".to_string(), "carol".to_string()]);
    assert_eq!(node.validate_full_chain(), Ok(()));
}

#[test]
fn block_off_the_tip_is_refused() {
    let mut node = chain_of(2);
    let (tip_hash, difficulty) = node.tip();
    let stale_hash = node.blocks()[1].header().current_hash().clone();

    let stale = Block::new(&stale_hash, &vec![reward("carol", 20, 3)], difficulty).unwrap();
    assert_eq!(node.append_block(stale), Err(LedgerError::NotOnTip));

    let easier = Block::new(&tip_hash, &vec![reward("carol", 20, 3)], 1).unwrap();
    assert_eq!(node.append_block(easier), Err(LedgerError::NotOnTip));

    let mut tampered = Block::new(&tip_hash, &vec![reward("carol", 20, 3)], difficulty).unwrap();
    tampered.header.nonce ^= 1;
    assert!(!HashHelper::is_sealed_block(&tampered));
    assert_eq!(node.append_block(tampered), Err(LedgerError::NotSealed));

    let mut unsealed = Block::new(&tip_hash, &vec![reward("carol", 20, 3)], 0).unwrap();
    unsealed.header.difficulty = difficulty;
    assert_eq!(node.append_block(unsealed), Err(LedgerError::NotSealed));

    let empty = Block::new(&tip_hash, &vec![], difficulty).unwrap();
    assert_eq!(node.append_block(empty), Err(LedgerError::NoRewardOutput));

    let (secret, _) = keys();
    let no_output = TransactionManager::create_transaction(vec![], vec![], secret);
    let unrewarded = Block::new(&tip_hash, &vec![no_output], difficulty).unwrap();
    assert_eq!(node.append_block(unrewarded), Err(LedgerError::NoRewardOutput));

    assert_eq!(node.blocks().len(), 3);
    assert_eq!(node.ledger().len(), 3);
    assert_eq!(node.utxo_addresses(), vec!["miner".to_string()]);
    assert_eq!(node.tip().0, tip_hash);
}

#[test]
fn errors_say_what_went_wrong() {
    assert_eq!(
        BlockValidationError::BlockNotFound.message(),
        "Block not found with the specified hash"
    );
    assert_eq!(
        BlockValidationError::InsufficientBlocks.message(),
        "Blockchain must have at least 2 blocks"
    );
    assert_eq!(BlockValidationError::InvalidHash.message(), "Invalid block hash format or value");
    assert_eq!(
        BlockValidationError::PreviousBlockNotFound.message(),
        "Previous block not found in chain"
    );
    assert_eq!(BlockValidationError::PreviousHashMismatch.message(), "Previous hash mismatch");
    assert_eq!(
        BlockValidationError::InvalidTimestamp.message(),
        "Block timestamp must be greater than previous block"
    );
    assert_eq!(
        BlockValidationError::RangeIndexFault.message(),
        "Hash `from_hash` index needs to be lower than `to_hash`"
    );
    assert_eq!(
        LedgerError::NoRewardOutput.message(),
        "Reward transaction has no output to credit"
    );
    assert_eq!(
        LedgerError::NonceSpaceExhausted.message(),
        "No nonce seals the block at this difficulty"
    );
    assert_eq!(LedgerError::NotOnTip.message(), "Block is not built on the tip of the chain");
    assert_eq!(LedgerError::NotSealed.message(), "Block is not sealed");
}
