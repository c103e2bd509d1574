use oxidize::block::{Block, BlockBody, BlockHeader, BlockValidationError, HashHelper};
use oxidize::digest::{digest_meets_difficulty, sha256_hex, to_hex};
use oxidize::encoding::{put_bytes, put_raw, put_text, put_u32, put_u64};
use oxidize::codec::{encode_content, encode_transaction, encode_transactions};
use oxidize::text::{bytes_are_equal, bytes_are_less, text_is_before, texts_are_equal};
use oxidize::transaction::{
    Transaction, TransactionHelper, TransactionInput, TransactionMetadata, TransactionOutput,
    TransactionStatus, TransactionType,
};
use oxidize::validation::{
    check_block, check_predecessor, check_walk, find_block_index, find_indices, validate_full,
    validate_range, validate_single,
};
use sha2::{Digest, Sha256};

fn sample_transaction(recipient: &str, amount: u64) -> Transaction {
    let input = TransactionInput {
        previous_tx_hash: [0u8; 32],
        index: 0,
        signature: "sig".to_string(),
        public_key: vec![2u8; 33],
        amount,
        nonce: 7,
    };
    let output = TransactionOutput { recipient_address: recipient.to_string(), amount };
    let metadata = TransactionMetadata::new(
        [9u8; 32],
        "2024-05-01T10:00:00+00:00".to_string(),
        TransactionStatus::Pending,
        TransactionType::Coinbase,
        vec![1, 2, 3],
    );
    Transaction::new(vec![input], vec![output], metadata)
}

fn hex_of(bytes: &[u8]) -> String {
    bytes.iter().map(|b| format!("{:02x}", b)).collect()
}

fn framed(bytes: &[u8]) -> Vec<u8> {
    let mut out = (bytes.len() as u64).to_le_bytes().to_vec();
    out.extend_from_slice(bytes);
    out
}

fn transaction_bytes_by_hand(recipient: &str, amount: u64) -> Vec<u8> {
    let mut out = Vec::new();
    out.extend_from_slice(&1u64.to_le_bytes());
    out.extend_from_slice(&[0u8; 32]);
    out.extend_from_slice(&0u32.to_le_bytes());
    out.extend_from_slice(&framed(b"sig"));
    out.extend_from_slice(&framed(&[2u8; 33]));
    out.extend_from_slice(&amount.to_le_bytes());
    out.extend_from_slice(&7u64.to_le_bytes());
    out.extend_from_slice(&1u64.to_le_bytes());
    out.extend_from_slice(&framed(recipient.as_bytes()));
    out.extend_from_slice(&amount.to_le_bytes());
    out.extend_from_slice(&[9u8; 32]);
    out.extend_from_slice(&framed(b"2024-05-01T10:00:00+00:00"));
    out.push(0);
    out.push(0);
    out.extend_from_slice(&framed(&[1, 2, 3]));
    out
}

/// A chain of `count` blocks sealed at the given timestamps, each on the one
/// before.
fn chain_at(timestamps: &[&str], difficulty: u8) -> Vec<Block> {
    let mut blocks: Vec<Block> = Vec::new();
    let mut previous = "0".repeat(64);
    for (n, timestamp) in timestamps.iter().enumerate() {
        let transactions = vec![sample_transaction("miner", 20 + n as u64)];
        let block =
            Block::seal_at(&previous, &transactions, difficulty, timestamp.to_string()).unwrap();
        previous = block.header().current_hash().clone();
        blocks.push(block);
    }
    blocks
}

const T1: &str = "2024-05-01T10:00:01+00:00";
const T2: &str = "2024-05-01T10:00:02+00:00";
const T3: &str = "2024-05-01T10:00:03+00:00";
const T4: &str = "2024-05-01T10:00:04+00:00";

#[test]
fn hex_rendering_is_lowercase_high_nibble_first() {
    assert_eq!(to_hex(&[]), "");
    assert_eq!(to_hex(&[0x00, 0xab, 0xff, 0x10, 0x0f]), "00abff100f");
    assert_eq!(to_hex(&[0x01, 0x23, 0x45, 0x67, 0x89, 0xab, 0xcd, 0xef]), "0123456789abcdef");
}

#[test]
fn sha256_of_known_inputs() {
    assert_eq!(
        sha256_hex(b"abc"),
        "ba7816bf8f01cfea414140de5dae2223b00361a396177a9cb410ff61f20015ad"
    );
    assert_eq!(
        sha256_hex(b""),
        "e3b0c44298fc1c149afbf4c8996fb92427ae41e4649b934ca495991b7852b855"
    );
}

#[test]
fn difficulty_is_counted_in_hex_digits() {
    let mut digest = [0xffu8; 32];
    assert!(digest_meets_difficulty(&digest, 0));
    assert!(!digest_meets_difficulty(&digest, 1));
    digest[0] = 0x0f;
    assert!(digest_meets_difficulty(&digest, 1));
    assert!(!digest_meets_difficulty(&digest, 2));
    digest[0] = 0x00;
    assert!(digest_meets_difficulty(&digest, 2));
    assert!(!digest_meets_difficulty(&digest, 3));
    digest[1] = 0x01;
    assert!(digest_meets_difficulty(&digest, 3));
    assert!(!digest_meets_difficulty(&digest, 4));
    digest[0] = 0x10;
    digest[1] = 0x00;
    assert!(!digest_meets_difficulty(&digest, 1));
    let zeros = [0u8; 32];
    assert!(digest_meets_difficulty(&zeros, 63));
    assert!(digest_meets_difficulty(&zeros, 64));
    assert!(!digest_meets_difficulty(&zeros, 65));
    assert!(!digest_meets_difficulty(&zeros, 255));
}

#[test]
fn framing_writes_little_endian_and_lengths() {
    let mut out = vec![0xaa];
    put_u32(&mut out, 0x0102_0304);
    assert_eq!(out, vec![0xaa, 4, 3, 2, 1]);
    let mut out = Vec::new();
    put_u64(&mut out, 0x0102_0304_0506_0708);
    assert_eq!(out, vec![8, 7, 6, 5, 4, 3, 2, 1]);
    let mut out = Vec::new();
    put_raw(&mut out, &[5, 6]);
    put_bytes(&mut out, &[7, 8, 9]);
    assert_eq!(out, vec![5, 6, 3, 0, 0, 0, 0, 0, 0, 0, 7, 8, 9]);
    let mut out = Vec::new();
    put_text(&mut out, "hé");
    assert_eq!(out, vec![3, 0, 0, 0, 0, 0, 0, 0, b'h', 0xc3, 0xa9]);
}

#[test]
fn transaction_encoding_by_hand() {
    let transaction = sample_transaction("miner", 20);
    let mut out = vec![0xee];
    encode_transaction(&mut out, &transaction);
    let mut expected = vec![0xee];
    expected.extend_from_slice(&transaction_bytes_by_hand("miner", 20));
    assert_eq!(out, expected);

    let mut out = Vec::new();
    encode_transactions(&mut out, &vec![transaction.clone(), sample_transaction("bob", 5)]);
    let mut expected = 2u64.to_le_bytes().to_vec();
    expected.extend_from_slice(&transaction_bytes_by_hand("miner", 20));
    expected.extend_from_slice(&transaction_bytes_by_hand("bob", 5));
    assert_eq!(out, expected);

    let mut out = Vec::new();
    encode_transactions(&mut out, &vec![]);
    assert_eq!(out, vec![0u8; 8]);
}

#[test]
fn transaction_hash_covers_the_content() {
    let transaction = sample_transaction("miner", 20);
    let timestamp = "2024-05-01T10:00:00+00:00".to_string();
    let mut content = Vec::new();
    content.extend_from_slice(&1u64.to_le_bytes());
    content.extend_from_slice(&framed(b"sig"));
    content.extend_from_slice(&[0u8; 32]);
    content.extend_from_slice(&20u64.to_le_bytes());
    content.extend_from_slice(&7u64.to_le_bytes());
    content.extend_from_slice(&0u32.to_le_bytes());
    content.extend_from_slice(&1u64.to_le_bytes());
    content.extend_from_slice(&framed(b"miner"));
    content.extend_from_slice(&20u64.to_le_bytes());
    content.extend_from_slice(&framed(timestamp.as_bytes()));
    content.push(1);
    assert_eq!(
        encode_content(
            transaction.inputs(),
            transaction.outputs(),
            &timestamp,
            TransactionStatus::Mined
        ),
        content
    );
    let expected: [u8; 32] = Sha256::digest(&content).into();
    let hash = TransactionHelper::generate_transaction_hash(
        transaction.inputs(),
        transaction.outputs(),
        &timestamp,
        &TransactionStatus::Mined,
    );
    assert_eq!(hash, expected);
    let other = TransactionHelper::generate_transaction_hash(
        transaction.inputs(),
        transaction.outputs(),
        &timestamp,
        &TransactionStatus::Rejected,
    );
    assert_ne!(hash, other);
}

#[test]
fn block_hash_by_hand() {
    let previous = "0".repeat(64);
    let timestamp = "2024-05-01T10:00:00+00:00".to_string();
    let transactions = vec![sample_transaction("miner", 20)];
    let mut preimage = framed(previous.as_bytes());
    preimage.push(3);
    preimage.extend_from_slice(&framed(timestamp.as_bytes()));
    preimage.extend_from_slice(&1u64.to_le_bytes());
    preimage.extend_from_slice(&transaction_bytes_by_hand("miner", 20));
    preimage.extend_from_slice(&0x2au64.to_le_bytes());
    let expected = hex_of(&Sha256::digest(&preimage));
    let hash = HashHelper::generate_hash(&previous, 3, &timestamp, &transactions, 0x2a);
    assert_eq!(hash, expected);
    assert_eq!(hash.len(), 64);
    assert_eq!(hash, HashHelper::generate_hash(&previous, 3, &timestamp, &transactions, 0x2a));
    assert_ne!(hash, HashHelper::generate_hash(&previous, 3, &timestamp, &transactions, 0x2b));
    assert_ne!(hash, HashHelper::generate_hash(&previous, 4, &timestamp, &transactions, 0x2a));
    assert_ne!(hash, HashHelper::generate_hash(&previous, 3, &timestamp, &vec![], 0x2a));
}

#[test]
fn sealing_meets_each_difficulty() {
    let previous = "0".repeat(64);
    let transactions = vec![sample_transaction("miner", 20)];
    for difficulty in 0u8..=4 {
        let block =
            Block::seal_at(&previous, &transactions, difficulty, T1.to_string()).unwrap();
        let hash = block.header().current_hash();
        assert!(hash.starts_with(&"0".repeat(difficulty as usize)));
        assert_eq!(hash.len(), 64);
        assert_eq!(
            hash,
            &HashHelper::generate_hash(
                block.header().previous_hash(),
                block.header().difficulty(),
                block.header().timestamp(),
                block.body().transactions(),
                block.header().nonce()
            )
        );
        assert!(HashHelper::is_valid_hash(&block));
        assert_eq!(block.header().difficulty(), difficulty);
        assert_eq!(block.header().timestamp(), T1);
        assert_eq!(block.header().previous_hash(), &previous);
        for earlier in 0..block.header().nonce().min(2_000) {
            let tried =
                HashHelper::generate_hash(&previous, difficulty, &T1.to_string(), &transactions, earlier);
            assert!(!tried.starts_with(&"0".repeat(difficulty as usize)));
        }
    }
}

#[test]
fn difficulty_zero_takes_the_first_nonce() {
    let block = Block::seal_at(&"0".repeat(64), &vec![], 0, T1.to_string()).unwrap();
    assert_eq!(block.header().nonce(), 0);
    let block = Block::new(&"0".repeat(64), &vec![], 0).unwrap();
    assert_eq!(block.header().nonce(), 0);
    let block = Block::create_data_block(&"anything".to_string(), &vec![], 0).unwrap();
    assert_eq!(block.header().nonce(), 0);
    assert!(HashHelper::is_valid_hash(&block));
}

#[test]
fn sealing_is_a_function_of_its_inputs() {
    let transactions = vec![sample_transaction("miner", 20)];
    let first = Block::seal_at(&"0".repeat(64), &transactions, 2, T1.to_string()).unwrap();
    let second = Block::seal_at(&"0".repeat(64), &transactions, 2, T1.to_string()).unwrap();
    assert_eq!(first.header().nonce(), second.header().nonce());
    assert_eq!(first.header().current_hash(), second.header().current_hash());
    let later = Block::seal_at(&"0".repeat(64), &transactions, 2, T2.to_string()).unwrap();
    assert_ne!(first.header().current_hash(), later.header().current_hash());
}

#[test]
fn no_nonce_seals_above_sixty_four() {
    assert!(Block::seal_at(&"0".repeat(64), &vec![], 65, T1.to_string()).is_none());
    assert!(Block::seal_at(&"0".repeat(64), &vec![], 255, T1.to_string()).is_none());
    assert!(Block::new(&"0".repeat(64), &vec![], 200).is_none());
    assert!(Block::create_data_block(&"0".repeat(64), &vec![], 65).is_none());
}

#[test]
fn genesis_block_is_sealed_over_the_reward() {
    let genesis = Block::create_genesis_block(sample_transaction("miner", 1_000)).unwrap();
    assert_eq!(genesis.header().previous_hash(), &"0".repeat(64));
    assert_eq!(genesis.header().difficulty(), 2);
    assert!(genesis.header().current_hash().starts_with("00"));
    assert_eq!(genesis.body().transactions().len(), 1);
    assert_eq!(genesis.body().transactions()[0].outputs()[0].amount, 1_000);
    assert!(HashHelper::is_valid_hash(&genesis));
}

#[test]
fn any_change_to_a_sealed_block_is_detected() {
    let blocks = chain_at(&[T1, T2, T3], 1);
    let sealed = blocks[1].clone();
    assert!(HashHelper::is_valid_hash(&sealed));

    let mut flipped = sealed.clone();
    flipped.header.nonce ^= 1;
    assert!(!HashHelper::is_valid_hash(&flipped));

    let mut harder = sealed.clone();
    harder.header.difficulty += 1;
    assert!(!HashHelper::is_valid_hash(&harder));

    let mut later = sealed.clone();
    later.header.timestamp = T4.to_string();
    assert!(!HashHelper::is_valid_hash(&later));

    let mut relinked = sealed.clone();
    relinked.header.previous_hash = "1".repeat(64);
    assert!(!HashHelper::is_valid_hash(&relinked));

    let mut richer = sealed.clone();
    richer.body.transactions[0] = sample_transaction("miner", 1_000_000);
    assert!(!HashHelper::is_valid_hash(&richer));

    let mut emptied = sealed.clone();
    emptied.body.transactions.clear();
    assert!(!HashHelper::is_valid_hash(&emptied));

    let mut restamped = sealed.clone();
    restamped.header.current_hash = "0".repeat(64);
    assert!(!HashHelper::is_valid_hash(&restamped));
}

#[test]
fn tampered_block_is_reported_as_invalid_hash() {
    let mut blocks = chain_at(&[T1, T2, T3], 1);
    let hash = blocks[1].header().current_hash().clone();
    assert_eq!(validate_single(&blocks, &hash), Ok(()));
    blocks[1].header.nonce ^= 1;
    assert_eq!(validate_single(&blocks, &hash), Err(BlockValidationError::InvalidHash));
    assert_eq!(validate_full(&blocks), Err(BlockValidationError::InvalidHash));
    let first = blocks[0].header().current_hash().clone();
    let last = blocks[2].header().current_hash().clone();
    assert_eq!(validate_range(&blocks, &first, &last), Err(BlockValidationError::InvalidHash));
    assert_eq!(validate_range(&blocks, &last, &last), Ok(()));
    assert_eq!(validate_range(&blocks, &first, &first), Ok(()));
}

#[test]
fn tampered_genesis_fails_the_full_validation() {
    let mut blocks = chain_at(&[T1, T2], 1);
    blocks[0].header.timestamp = "2024-05-01T10:00:00+00:00".to_string();
    assert_eq!(validate_full(&blocks), Err(BlockValidationError::InvalidHash));
}

#[test]
fn timestamps_must_go_forward() {
    let blocks = chain_at(&[T2, T1, T3], 1);
    let second = blocks[1].header().current_hash().clone();
    let third = blocks[2].header().current_hash().clone();
    assert_eq!(validate_single(&blocks, &second), Err(BlockValidationError::InvalidTimestamp));
    assert_eq!(validate_single(&blocks, &third), Ok(()));
    assert_eq!(validate_full(&blocks), Err(BlockValidationError::InvalidTimestamp));
    assert_eq!(validate_range(&blocks, &third, &third), Ok(()));
    assert_eq!(
        validate_range(&blocks, &second, &third),
        Err(BlockValidationError::InvalidTimestamp)
    );
    assert_eq!(check_block(&blocks, 0), Ok(()));
    assert_eq!(check_block(&blocks, 1), Err(BlockValidationError::InvalidTimestamp));
    assert_eq!(check_block(&blocks, 2), Ok(()));

    let standing = chain_at(&[T1, T1], 1);
    assert_eq!(validate_full(&standing), Err(BlockValidationError::InvalidTimestamp));
}

#[test]
fn missing_predecessor_is_reported() {
    let mut blocks = chain_at(&[T1, T2, T3], 1);
    let third = blocks[2].header().current_hash().clone();
    let orphan = blocks.remove(1);
    assert_eq!(validate_single(&blocks, &third), Err(BlockValidationError::PreviousBlockNotFound));
    assert_eq!(validate_full(&blocks), Err(BlockValidationError::PreviousBlockNotFound));
    assert_eq!(
        check_predecessor(&blocks, &orphan),
        Ok(())
    );
    assert_eq!(
        check_predecessor(&blocks, &blocks[0]),
        Err(BlockValidationError::PreviousBlockNotFound)
    );
}

#[test]
fn first_failure_in_order_decides() {
    let mut blocks = chain_at(&[T3, T2, T1], 1);
    assert_eq!(validate_full(&blocks), Err(BlockValidationError::InvalidTimestamp));
    blocks[1].header.nonce ^= 1;
    assert_eq!(validate_full(&blocks), Err(BlockValidationError::InvalidHash));
    assert_eq!(check_walk(&blocks, 2, 2), Err(BlockValidationError::InvalidTimestamp));
    assert_eq!(check_walk(&blocks, 0, 0), Ok(()));
    assert_eq!(check_walk(&blocks, 1, 0), Ok(()));
    assert_eq!(check_walk(&blocks, 0, 2), Err(BlockValidationError::InvalidHash));
}

#[test]
fn hashes_resolve_to_their_first_block() {
    let mut blocks = chain_at(&[T1, T2, T3], 1);
    let first = blocks[0].header().current_hash().clone();
    let second = blocks[1].header().current_hash().clone();
    assert_eq!(find_block_index(&blocks, &second), Some(1));
    assert_eq!(find_block_index(&blocks, "unknown"), None);
    assert_eq!(find_indices(&blocks, &second, &first), Some((1, 0)));
    assert_eq!(find_indices(&blocks, &second, "unknown"), None);
    assert_eq!(find_indices(&blocks, "unknown", &first), None);

    let duplicate = blocks[0].clone();
    blocks.push(duplicate);
    assert_eq!(find_block_index(&blocks, &first), Some(0));
    assert_eq!(find_indices(&blocks, &first, &first), Some((0, 0)));
}

#[test]
fn validation_of_few_blocks() {
    let none: Vec<Block> = Vec::new();
    assert_eq!(validate_full(&none), Err(BlockValidationError::InsufficientBlocks));
    assert_eq!(validate_single(&none, "x"), Err(BlockValidationError::BlockNotFound));
    assert_eq!(validate_range(&none, "x", "y"), Err(BlockValidationError::RangeIndexFault));

    let mut lone = chain_at(&[T1], 1);
    let hash = lone[0].header().current_hash().clone();
    assert_eq!(validate_full(&lone), Err(BlockValidationError::InsufficientBlocks));
    assert_eq!(validate_single(&lone, &hash), Err(BlockValidationError::InsufficientBlocks));
    assert_eq!(validate_range(&lone, &hash, &hash), Err(BlockValidationError::InsufficientBlocks));
    lone[0].header.nonce ^= 1;
    assert_eq!(validate_full(&lone), Err(BlockValidationError::InsufficientBlocks));
    assert_eq!(validate_single(&lone, &hash), Err(BlockValidationError::InsufficientBlocks));
    assert_eq!(validate_range(&lone, &hash, &hash), Err(BlockValidationError::InsufficientBlocks));
}

#[test]
fn block_built_by_hand_is_checked_like_any_other() {
    let body = BlockBody { transactions: vec![] };
    let timestamp = T1.to_string();
    let previous = "0".repeat(64);
    let hash = HashHelper::generate_hash(&previous, 0, &timestamp, &body.transactions, 5);
    let header = BlockHeader {
        timestamp,
        previous_hash: previous,
        current_hash: hash,
        nonce: 5,
        difficulty: 0,
    };
    let block = Block { header, body };
    assert!(HashHelper::is_valid_hash(&block));
    assert_eq!(block.header().nonce(), 5);
}

#[test]
fn texts_are_ordered_by_their_bytes() {
    assert!(bytes_are_less(b"", b"a"));
    assert!(!bytes_are_less(b"", b""));
    assert!(!bytes_are_less(b"a", b""));
    assert!(bytes_are_less(b"a", b"ab"));
    assert!(!bytes_are_less(b"ab", b"a"));
    assert!(bytes_are_less(b"ab", b"b"));
    assert!(!bytes_are_less(b"b", b"ab"));
    assert!(!bytes_are_less(b"abc", b"abc"));
    assert!(bytes_are_less(&[1, 255], &[2, 0]));
    assert!(text_is_before(T1, T2));
    assert!(!text_is_before(T2, T1));
    assert!(!text_is_before(T1, T1));
    assert!(text_is_before("2024-05-01T10:00:01+00:00", "2024-05-01T10:00:01.000001+00:00"));
    assert!(text_is_before("2024-05-01T10:00:01.123+00:00", "2024-05-01T10:00:01.123456+00:00"));
    assert!(bytes_are_equal(b"abc", b"abc"));
    assert!(!bytes_are_equal(b"abc", b"abd"));
    assert!(!bytes_are_equal(b"abc", b"ab"));
    assert!(bytes_are_equal(b"", b""));
    assert!(texts_are_equal("héllo", "héllo"));
    assert!(!texts_are_equal("héllo", "hello"));
}

#[test]
fn walk_past_the_end_finds_no_block() {
    let blocks = chain_at(&[T1, T2, T3], 1);
    assert_eq!(check_block(&blocks, 2), Ok(()));
    assert_eq!(check_block(&blocks, 3), Err(BlockValidationError::BlockNotFound));
    assert_eq!(check_block(&blocks, usize::MAX), Err(BlockValidationError::BlockNotFound));
    assert_eq!(check_walk(&blocks, 0, 2), Ok(()));
    assert_eq!(check_walk(&blocks, 1, 3), Err(BlockValidationError::BlockNotFound));
    assert_eq!(check_walk(&blocks, 0, usize::MAX), Err(BlockValidationError::BlockNotFound));
    assert_eq!(check_walk(&blocks, usize::MAX, usize::MAX), Err(BlockValidationError::BlockNotFound));
    assert_eq!(check_walk(&blocks, usize::MAX, 0), Ok(()));
}
