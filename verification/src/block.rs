//! Blocks, their digest, and the proof-of-work search that seals them.

use vstd::prelude::*;
use vstd::bytes::spec_u64_to_le_bytes;
use vstd::string::StringExecFns;
use crate::clock::now_rfc3339;
use crate::codec::{encode_transactions, transaction_list_bytes, transactions_fit};
use crate::config::{BLOCKCHAIN_INITIAL_DIFFICULTY, BLOCKCHAIN_INITIAL_NONCE};
use crate::digest::{
    digest_meets_difficulty, hex_string, lemma_digest_text_is_64_long, meets_difficulty, sha256,
    sha256_digest, to_hex,
};
use crate::encoding::{framed_text, put_text, put_u64, text_fits};
use crate::transaction::{clone_transactions, transaction_views, Transaction, TransactionView};

verus! {

/// What identifies and seals a block.
#[derive(Debug)]
pub struct BlockHeader {
    pub timestamp: String,
    pub previous_hash: String,
    pub current_hash: String,
    pub nonce: u64,
    pub difficulty: u8,
}

/// The transactions a block carries, in order.
#[derive(Debug)]
pub struct BlockBody {
    pub transactions: Vec<Transaction>,
}

/// A header and the body it seals.
#[derive(Debug)]
pub struct Block {
    pub header: BlockHeader,
    pub body: BlockBody,
}

/// Why a block or a chain failed validation.
#[derive(Debug, Clone, Copy, PartialEq, Eq, Structural)]
pub enum BlockValidationError {
    BlockNotFound,
    InsufficientBlocks,
    InvalidHash,
    PreviousBlockNotFound,
    PreviousHashMismatch,
    InvalidTimestamp,
    RangeIndexFault,
}

/// What a validation error says of itself.
pub open spec fn error_text(error: BlockValidationError) -> Seq<char> {
    match error {
        BlockValidationError::BlockNotFound => "Block not found with the specified hash"@,
        BlockValidationError::InsufficientBlocks => "Blockchain must have at least 2 blocks"@,
        BlockValidationError::InvalidHash => "Invalid block hash format or value"@,
        BlockValidationError::PreviousBlockNotFound => "Previous block not found in chain"@,
        BlockValidationError::PreviousHashMismatch => "Previous hash mismatch"@,
        BlockValidationError::InvalidTimestamp
            => "Block timestamp must be greater than previous block"@,
        BlockValidationError::RangeIndexFault
            => "Hash `from_hash` index needs to be lower than `to_hash`"@,
    }
}

impl BlockValidationError {
    /// The error in words.
    pub fn message(&self) -> (text: String)
        ensures
            text@ == error_text(*self),
    {
        match self {
            BlockValidationError::BlockNotFound => String::from_str(
                "Block not found with the specified hash",
            ),
            BlockValidationError::InsufficientBlocks => String::from_str(
                "Blockchain must have at least 2 blocks",
            ),
            BlockValidationError::InvalidHash => String::from_str(
                "Invalid block hash format or value",
            ),
            BlockValidationError::PreviousBlockNotFound => String::from_str(
                "Previous block not found in chain",
            ),
            BlockValidationError::PreviousHashMismatch => String::from_str("Previous hash mismatch"),
            BlockValidationError::InvalidTimestamp => String::from_str(
                "Block timestamp must be greater than previous block",
            ),
            BlockValidationError::RangeIndexFault => String::from_str(
                "Hash `from_hash` index needs to be lower than `to_hash`",
            ),
        }
    }
}

/// Mathematical value of a [`BlockHeader`].
pub struct BlockHeaderView {
    pub timestamp: Seq<char>,
    pub previous_hash: Seq<char>,
    pub current_hash: Seq<char>,
    pub nonce: u64,
    pub difficulty: u8,
}

/// Mathematical value of a [`Block`].
pub struct BlockView {
    pub header: BlockHeaderView,
    pub transactions: Seq<TransactionView>,
}

impl View for BlockHeader {
    type V = BlockHeaderView;

    open spec fn view(&self) -> BlockHeaderView {
        BlockHeaderView {
            timestamp: self.timestamp@,
            previous_hash: self.previous_hash@,
            current_hash: self.current_hash@,
            nonce: self.nonce,
            difficulty: self.difficulty,
        }
    }
}

impl View for BlockBody {
    type V = Seq<TransactionView>;

    open spec fn view(&self) -> Seq<TransactionView> {
        transaction_views(self.transactions@)
    }
}

impl View for Block {
    type V = BlockView;

    open spec fn view(&self) -> BlockView {
        BlockView { header: self.header@, transactions: self.body@ }
    }
}

/// The values of a sequence of blocks, in order.
pub open spec fn block_views(blocks: Seq<Block>) -> Seq<BlockView> {
    Seq::new(blocks.len(), |i: int| blocks[i]@)
}

/// The value of a block that may be absent.
pub open spec fn optional_block_view(block: Option<Block>) -> Option<BlockView> {
    match block {
        Some(block) => Some(block@),
        None => None,
    }
}

impl Clone for BlockHeader {
    fn clone(&self) -> (copy: Self)
        ensures
            copy@ == self@,
    {
        BlockHeader {
            timestamp: self.timestamp.clone(),
            previous_hash: self.previous_hash.clone(),
            current_hash: self.current_hash.clone(),
            nonce: self.nonce,
            difficulty: self.difficulty,
        }
    }
}

impl Clone for BlockBody {
    fn clone(&self) -> (copy: Self)
        ensures
            copy@ == self@,
    {
        BlockBody { transactions: clone_transactions(&self.transactions) }
    }
}

impl Clone for Block {
    fn clone(&self) -> (copy: Self)
        ensures
            copy@ == self@,
    {
        Block { header: self.header.clone(), body: self.body.clone() }
    }
}

/// The previous hash of a genesis block: 64 times `'0'`.
pub open spec fn genesis_previous_hash() -> Seq<char> {
    Seq::new(64, |i: int| '0')
}

/// The part of a block's preimage that does not change during the search:
/// previous hash, difficulty, timestamp and transactions, in that order.
pub open spec fn block_prefix(
    previous_hash: Seq<char>,
    difficulty: u8,
    timestamp: Seq<char>,
    transactions: Seq<TransactionView>,
) -> Seq<u8> {
    framed_text(previous_hash) + seq![difficulty] + framed_text(timestamp)
        + transaction_list_bytes(transactions)
}

/// The bytes a block's digest is taken over: the prefix, then the nonce.
pub open spec fn block_preimage(
    previous_hash: Seq<char>,
    difficulty: u8,
    timestamp: Seq<char>,
    transactions: Seq<TransactionView>,
    nonce: u64,
) -> Seq<u8> {
    block_prefix(previous_hash, difficulty, timestamp, transactions) + spec_u64_to_le_bytes(nonce)
}

/// The hash of a block's contents: SHA-256 of the preimage, in lowercase hex.
pub open spec fn block_hash(
    previous_hash: Seq<char>,
    difficulty: u8,
    timestamp: Seq<char>,
    transactions: Seq<TransactionView>,
    nonce: u64,
) -> Seq<char> {
    hex_string(sha256(block_preimage(previous_hash, difficulty, timestamp, transactions, nonce))@)
}

/// A block whose texts and transactions are short enough for their lengths
/// to be framed in eight bytes. Every block that was hashed is.
pub open spec fn block_fits(block: BlockView) -> bool {
    &&& text_fits(block.header.previous_hash)
    &&& text_fits(block.header.timestamp)
    &&& block.transactions.len() <= u64::MAX
    &&& transactions_fit(block.transactions)
}

/// The preimage that a block's recorded fields give.
pub open spec fn recorded_preimage(block: BlockView) -> Seq<u8> {
    block_preimage(
        block.header.previous_hash,
        block.header.difficulty,
        block.header.timestamp,
        block.transactions,
        block.header.nonce,
    )
}

/// The hash that a block's recorded fields give.
pub open spec fn recomputed_hash(block: BlockView) -> Seq<char> {
    hex_string(sha256(recorded_preimage(block))@)
}

/// A block's stored hash is valid when its recorded fields give it again.
pub open spec fn hash_is_valid(block: BlockView) -> bool {
    block.header.current_hash == recomputed_hash(block)
}

/// A block is sealed when its stored hash is valid and meets its difficulty.
pub open spec fn is_sealed(block: BlockView) -> bool {
    &&& hash_is_valid(block)
    &&& meets_difficulty(block.header.current_hash, block.header.difficulty as nat)
}

/// Whether `nonce` gives a hash that meets the difficulty.
pub open spec fn nonce_seals(
    previous_hash: Seq<char>,
    difficulty: u8,
    timestamp: Seq<char>,
    transactions: Seq<TransactionView>,
    nonce: u64,
) -> bool {
    meets_difficulty(
        block_hash(previous_hash, difficulty, timestamp, transactions, nonce),
        difficulty as nat,
    )
}

/// What a search over the nonces from zero upwards comes to: the block with
/// the first nonce that seals, or nothing when no nonce does.
pub open spec fn search_outcome(
    previous_hash: Seq<char>,
    transactions: Seq<TransactionView>,
    difficulty: u8,
    timestamp: Seq<char>,
    sealed: Option<BlockView>,
) -> bool {
    match sealed {
        Some(block) => {
            &&& block.header.previous_hash == previous_hash
            &&& block.header.difficulty == difficulty
            &&& block.header.timestamp == timestamp
            &&& block.transactions == transactions
            &&& is_sealed(block)
            &&& block_fits(block)
            &&& forall|earlier: u64|
                earlier < block.header.nonce ==> !nonce_seals(
                    previous_hash,
                    difficulty,
                    timestamp,
                    transactions,
                    earlier,
                )
        },
        None => forall|nonce: u64|
            !nonce_seals(previous_hash, difficulty, timestamp, transactions, nonce),
    }
}

/// Hashing of block contents.
pub struct HashHelper;

impl HashHelper {
    /// The hash of the five fields that make a block: SHA-256 over their
    /// encoding, rendered as 64 lowercase hex characters.
    pub fn generate_hash(
        previous_hash: &String,
        difficulty: u8,
        timestamp: &String,
        transactions: &Vec<Transaction>,
        nonce: u64,
    ) -> (hash: String)
        ensures
            hash@ == block_hash(
                previous_hash@,
                difficulty,
                timestamp@,
                transaction_views(transactions@),
                nonce,
            ),
            hash@.len() == 64,
            text_fits(previous_hash@),
            text_fits(timestamp@),
            transactions@.len() <= u64::MAX,
            transactions_fit(transaction_views(transactions@)),
    {
        let mut preimage = encode_prefix(previous_hash, difficulty, timestamp, transactions);
        put_u64(&mut preimage, nonce);
        let digest = sha256_digest(preimage.as_slice());
        to_hex(digest.as_slice())
    }

    /// Whether the block is sealed: its stored hash is what its own fields
    /// give, and starts with as many zeros as its difficulty asks for.
    pub fn is_sealed_block(block: &Block) -> (sealed: bool)
        ensures
            sealed == is_sealed(block@),
            block_fits(block@),
    {
        let mut preimage = encode_prefix(
            &block.header.previous_hash,
            block.header.difficulty,
            &block.header.timestamp,
            &block.body.transactions,
        );
        put_u64(&mut preimage, block.header.nonce);
        let digest = sha256_digest(preimage.as_slice());
        let hash = to_hex(digest.as_slice());
        hash == block.header.current_hash && digest_meets_difficulty(
            &digest,
            block.header.difficulty,
        )
    }

    /// Recomputes the hash from the block's own fields and compares it with
    /// the stored one. The search is not run again.
    pub fn is_valid_hash(block: &Block) -> (valid: bool)
        ensures
            valid == hash_is_valid(block@),
            block_fits(block@),
    {
        let hash = Self::generate_hash(
            &block.header.previous_hash,
            block.header.difficulty,
            &block.header.timestamp,
            &block.body.transactions,
            block.header.nonce,
        );
        hash == block.header.current_hash
    }
}

/// The encoded prefix of a block's preimage.
fn encode_prefix(
    previous_hash: &String,
    difficulty: u8,
    timestamp: &String,
    transactions: &Vec<Transaction>,
) -> (prefix: Vec<u8>)
    ensures
        prefix@ == block_prefix(
            previous_hash@,
            difficulty,
            timestamp@,
            transaction_views(transactions@),
        ),
        text_fits(previous_hash@),
        text_fits(timestamp@),
        transactions@.len() <= u64::MAX,
        transactions_fit(transaction_views(transactions@)),
{
    let mut prefix: Vec<u8> = Vec::new();
    put_text(&mut prefix, previous_hash.as_str());
    prefix.push(difficulty);
    put_text(&mut prefix, timestamp.as_str());
    encode_transactions(&mut prefix, transactions);
    assert(prefix@ =~= block_prefix(
        previous_hash@,
        difficulty,
        timestamp@,
        transaction_views(transactions@),
    ));
    prefix
}

/// The text of 64 zeros that stands before a genesis block.
pub fn genesis_previous_hash_text() -> (text: String)
    ensures
        text@ == genesis_previous_hash(),
{
    let zeros = "0000000000000000000000000000000000000000000000000000000000000000";
    proof {
        reveal_strlit("0000000000000000000000000000000000000000000000000000000000000000");
    }
    assert(zeros@ =~= genesis_previous_hash());
    zeros.to_owned()
}

impl Block {
    /// Seals a block over `transactions` on top of `previous_hash`, with the
    /// time of the call as its timestamp. `None` when no nonce seals it.
    pub fn new(previous_hash: &String, transactions: &Vec<Transaction>, blockchain_difficulty: u8)
        -> (sealed: Option<Block>)
        ensures
            exists|timestamp: Seq<char>|
                search_outcome(
                    previous_hash@,
                    transaction_views(transactions@),
                    blockchain_difficulty,
                    timestamp,
                    optional_block_view(sealed),
                ),
            blockchain_difficulty == 0 ==> sealed is Some && sealed->0.header.nonce == 0,
            blockchain_difficulty > 64 ==> sealed is None,
    {
        Block::create_data_block(previous_hash, transactions, blockchain_difficulty)
    }

    pub fn header(&self) -> (header: &BlockHeader)
        ensures
            header == self.header,
    {
        &self.header
    }

    pub fn body(&self) -> (body: &BlockBody)
        ensures
            body == self.body,
    {
        &self.body
    }

    /// Seals the first block of a chain: its previous hash is 64 zeros, its
    /// difficulty the initial one, and its one transaction the reward.
    pub fn create_genesis_block(coinbase_transaction: Transaction) -> (sealed: Option<Block>)
        ensures
            exists|timestamp: Seq<char>|
                search_outcome(
                    genesis_previous_hash(),
                    seq![coinbase_transaction@],
                    BLOCKCHAIN_INITIAL_DIFFICULTY,
                    timestamp,
                    optional_block_view(sealed),
                ),
    {
        let previous_hash = genesis_previous_hash_text();
        let timestamp = now_rfc3339();
        let mut transactions: Vec<Transaction> = Vec::new();
        transactions.push(coinbase_transaction);
        assert(transaction_views(transactions@) =~= seq![coinbase_transaction@]);
        Block::seal_at(&previous_hash, &transactions, BLOCKCHAIN_INITIAL_DIFFICULTY, timestamp)
    }

    /// Seals a block over `transactions` on top of `previous_hash`, with the
    /// time of the call as its timestamp. `None` when no nonce seals it.
    pub fn create_data_block(
        previous_hash: &String,
        transactions: &Vec<Transaction>,
        blockchain_difficulty: u8,
    ) -> (sealed: Option<Block>)
        ensures
            exists|timestamp: Seq<char>|
                search_outcome(
                    previous_hash@,
                    transaction_views(transactions@),
                    blockchain_difficulty,
                    timestamp,
                    optional_block_view(sealed),
                ),
            blockchain_difficulty == 0 ==> sealed is Some && sealed->0.header.nonce == 0,
            blockchain_difficulty > 64 ==> sealed is None,
    {
        let timestamp = now_rfc3339();
        Block::seal_at(previous_hash, transactions, blockchain_difficulty, timestamp)
    }

    /// The proof-of-work search at a given timestamp. Nonces are tried from
    /// zero upwards; the block is built with the first whose hash starts with
    /// `blockchain_difficulty` zeros. `None` when no nonce does, which is
    /// known at once for a difficulty above the 64 characters of a hash.
    pub fn seal_at(
        previous_hash: &String,
        transactions: &Vec<Transaction>,
        blockchain_difficulty: u8,
        timestamp: String,
    ) -> (sealed: Option<Block>)
        ensures
            search_outcome(
                previous_hash@,
                transaction_views(transactions@),
                blockchain_difficulty,
                timestamp@,
                optional_block_view(sealed),
            ),
            blockchain_difficulty == 0 ==> sealed is Some && sealed->0.header.nonce == 0,
            blockchain_difficulty > 64 ==> sealed is None,
    {
        let ghost views = transaction_views(transactions@);
        if blockchain_difficulty > 64 {
            proof {
                assert forall|nonce: u64|
                    !nonce_seals(
                        previous_hash@,
                        blockchain_difficulty,
                        timestamp@,
                        views,
                        nonce,
                    ) by {
                    lemma_digest_text_is_64_long(
                        sha256(
                            block_preimage(
                                previous_hash@,
                                blockchain_difficulty,
                                timestamp@,
                                views,
                                nonce,
                            ),
                        ),
                        blockchain_difficulty as nat,
                    );
                }
            }
            return None;
        }
        let prefix = encode_prefix(previous_hash, blockchain_difficulty, &timestamp, transactions);
        let mut nonce: u64 = BLOCKCHAIN_INITIAL_NONCE;
        loop
            invariant
                prefix@ == block_prefix(previous_hash@, blockchain_difficulty, timestamp@, views),
                views == transaction_views(transactions@),
                text_fits(previous_hash@),
                text_fits(timestamp@),
                views.len() <= u64::MAX,
                transactions_fit(views),
                forall|earlier: u64|
                    earlier < nonce ==> !nonce_seals(
                        previous_hash@,
                        blockchain_difficulty,
                        timestamp@,
                        views,
                        earlier,
                    ),
            decreases u64::MAX - nonce,
        {
            let mut preimage = prefix.clone();
            put_u64(&mut preimage, nonce);
            assert(preimage@ =~= block_preimage(
                previous_hash@,
                blockchain_difficulty,
                timestamp@,
                views,
                nonce,
            ));
            let digest = sha256_digest(preimage.as_slice());
            if digest_meets_difficulty(&digest, blockchain_difficulty) {
                assert(blockchain_difficulty == 0 ==> nonce_seals(
                    previous_hash@,
                    blockchain_difficulty,
                    timestamp@,
                    views,
                    0,
                ));
                let header = BlockHeader {
                    previous_hash: previous_hash.clone(),
                    difficulty: blockchain_difficulty,
                    nonce,
                    timestamp,
                    current_hash: to_hex(digest.as_slice()),
                };
                let body = BlockBody { transactions: clone_transactions(transactions) };
                return Some(Block { header, body });
            }
            if nonce == u64::MAX {
                return None;
            }
            nonce += 1;
        }
    }
}

/// BlockHeader structure
impl BlockHeader {
    pub fn current_hash(&self) -> (hash: &String)
        ensures
            hash@ == self@.current_hash,
    {
        &self.current_hash
    }

    pub fn previous_hash(&self) -> (hash: &String)
        ensures
            hash@ == self@.previous_hash,
    {
        &self.previous_hash
    }

    pub fn difficulty(&self) -> (difficulty: u8)
        ensures
            difficulty == self@.difficulty,
    {
        self.difficulty
    }

    pub fn timestamp(&self) -> (timestamp: &String)
        ensures
            timestamp@ == self@.timestamp,
    {
        &self.timestamp
    }

    pub fn nonce(&self) -> (nonce: u64)
        ensures
            nonce == self@.nonce,
    {
        self.nonce
    }
}

/// BlockBody structure
impl BlockBody {
    pub fn transactions(&self) -> (transactions: &Vec<Transaction>)
        ensures
            transaction_views(transactions@) == self@,
    {
        &self.transactions
    }
}

} // verus!
