//! The chain: an append-only sequence of sealed blocks, with the ledger, the
//! index of unspent outputs and the pool of pending inputs that go with it.

use vstd::prelude::*;
use vstd::string::StringExecFns;
use crate::block::{
    block_fits, block_views, genesis_previous_hash, is_sealed, search_outcome, Block,
    BlockValidationError, BlockView, HashHelper,
};
use crate::clock::now_rfc3339;
use crate::config::{BLOCKCHAIN_INITIAL_DIFFICULTY, WEBSOCKET_URI};
use crate::text::texts_are_equal;
use crate::transaction::{
    clone_transactions, input_views, output_views, transaction_views, Transaction,
    TransactionInput, TransactionInputView, TransactionOutput, TransactionOutputView,
    TransactionView,
};
use crate::validation::{
    find_indices, full_chain_verdict, hash_indices, range_verdict, single_block_verdict,
    validate_full, validate_range, validate_single,
};

verus! {

/// Settings of a node.
#[derive(Debug)]
pub struct BlockchainConfig {
    difficulty: u8,
    /// Address on which the node listens.
    pub addr: String,
}

/// Mathematical value of a [`BlockchainConfig`].
pub struct BlockchainConfigView {
    pub difficulty: u8,
    pub addr: Seq<char>,
}

impl View for BlockchainConfig {
    type V = BlockchainConfigView;

    closed spec fn view(&self) -> BlockchainConfigView {
        BlockchainConfigView { difficulty: self.difficulty, addr: self.addr@ }
    }
}

impl Clone for BlockchainConfig {
    fn clone(&self) -> (copy: Self)
        ensures
            copy@ == self@,
    {
        BlockchainConfig { difficulty: self.difficulty, addr: self.addr.clone() }
    }
}

impl BlockchainConfig {
    /// The initial difficulty, and an address: one that the system picks at
    /// bind time when `dynamic`, the fixed one otherwise.
    pub fn new(dynamic: bool) -> (config: Self)
        ensures
            config@.difficulty == BLOCKCHAIN_INITIAL_DIFFICULTY,
            config@.addr == if dynamic {
                "127.0.0.1:0"@
            } else {
                WEBSOCKET_URI@
            },
    {
        let difficulty = BLOCKCHAIN_INITIAL_DIFFICULTY;
        let addr = if dynamic {
            String::from_str("127.0.0.1:0")
        } else {
            String::from_str(WEBSOCKET_URI)
        };
        BlockchainConfig { addr, difficulty }
    }

    pub fn difficulty(&self) -> (difficulty: u8)
        ensures
            difficulty == self@.difficulty,
    {
        self.difficulty
    }

    pub fn addr(&self) -> (addr: &String)
        ensures
            addr@ == self@.addr,
    {
        &self.addr
    }
}

/// Why a block could not be added.
#[derive(Debug, Clone, Copy, PartialEq, Eq, Structural)]
pub enum LedgerError {
    /// The reward transaction is missing, or has no output to credit.
    NoRewardOutput,
    /// No nonce gives a hash that meets the difficulty.
    NonceSpaceExhausted,
    /// The block was not built on the current tip at the tip's difficulty.
    NotOnTip,
    /// The block's stored hash is not valid or does not meet its difficulty.
    NotSealed,
}

/// What a ledger error says of itself.
pub open spec fn ledger_error_text(error: LedgerError) -> Seq<char> {
    match error {
        LedgerError::NoRewardOutput => "Reward transaction has no output to credit"@,
        LedgerError::NonceSpaceExhausted => "No nonce seals the block at this difficulty"@,
        LedgerError::NotOnTip => "Block is not built on the tip of the chain"@,
        LedgerError::NotSealed => "Block is not sealed"@,
    }
}

impl LedgerError {
    /// The error in words.
    pub fn message(&self) -> (text: String)
        ensures
            text@ == ledger_error_text(*self),
    {
        match self {
            LedgerError::NoRewardOutput => String::from_str(
                "Reward transaction has no output to credit",
            ),
            LedgerError::NonceSpaceExhausted => String::from_str(
                "No nonce seals the block at this difficulty",
            ),
            LedgerError::NotOnTip => String::from_str("Block is not built on the tip of the chain"),
            LedgerError::NotSealed => String::from_str("Block is not sealed"),
        }
    }
}

/// The unspent outputs of one address, oldest first.
#[derive(Debug)]
struct UtxoEntry {
    address: String,
    outputs: Vec<TransactionOutput>,
}

impl UtxoEntry {
    fn duplicate(&self) -> (copy: Self)
        ensures
            copy.address@ == self.address@,
            output_views(copy.outputs@) == output_views(self.outputs@),
    {
        let outputs = self.outputs.clone();
        assert(output_views(outputs@) =~= output_views(self.outputs@));
        UtxoEntry { address: self.address.clone(), outputs }
    }
}

/// The chain and the state derived from it.
#[derive(Debug)]
pub struct Blockchain {
    /// Mined blocks, genesis first.
    blocks: Vec<Block>,
    /// Pending inputs, in order of arrival.
    mempool: Vec<TransactionInput>,
    /// Unspent outputs by address; no address occurs twice.
    utxo: Vec<UtxoEntry>,
    /// Every transaction absorbed into a block, in order.
    ledger: Vec<Transaction>,
    config: BlockchainConfig,
}

/// Mathematical value of a [`Blockchain`].
pub struct BlockchainView {
    pub blocks: Seq<BlockView>,
    pub mempool: Seq<TransactionInputView>,
    pub utxo: Map<Seq<char>, Seq<TransactionOutputView>>,
    pub ledger: Seq<TransactionView>,
    pub config: BlockchainConfigView,
}

/// Some entry is kept for `address`.
spec fn holds_address(entries: Seq<UtxoEntry>, address: Seq<char>) -> bool {
    exists|i: int| 0 <= i < entries.len() && entries[i].address@ == address
}

/// The index of an entry kept for `address`.
spec fn entry_index(entries: Seq<UtxoEntry>, address: Seq<char>) -> int {
    choose|i: int| 0 <= i < entries.len() && entries[i].address@ == address
}

/// No address has two entries.
spec fn addresses_distinct(entries: Seq<UtxoEntry>) -> bool {
    forall|i: int, j: int|
        0 <= i < j < entries.len() ==> entries[i].address@ != entries[j].address@
}

/// The entries as a map from address to outputs.
spec fn entries_map(entries: Seq<UtxoEntry>) -> Map<Seq<char>, Seq<TransactionOutputView>> {
    Map::new(
        |address: Seq<char>| holds_address(entries, address),
        |address: Seq<char>| output_views(entries[entry_index(entries, address)].outputs@),
    )
}

proof fn lemma_entry_index(entries: Seq<UtxoEntry>, i: int)
    requires
        addresses_distinct(entries),
        0 <= i < entries.len(),
    ensures
        holds_address(entries, entries[i].address@),
        entry_index(entries, entries[i].address@) == i,
{
    let chosen = entry_index(entries, entries[i].address@);
    if chosen < i {
        assert(entries[chosen].address@ != entries[i].address@);
    } else if i < chosen {
        assert(entries[i].address@ != entries[chosen].address@);
    }
}

/// The index of unspent outputs after `output` was credited to `address`:
/// appended to what the address holds, or the first it holds.
pub open spec fn credited(
    utxo: Map<Seq<char>, Seq<TransactionOutputView>>,
    address: Seq<char>,
    output: TransactionOutputView,
) -> Map<Seq<char>, Seq<TransactionOutputView>> {
    utxo.insert(
        address,
        if utxo.dom().contains(address) {
            utxo[address].push(output)
        } else {
            seq![output]
        },
    )
}

/// Every block is sealed and can be framed, the first stands on 64 zeros,
/// and each later one on the stored hash of the block before it.
pub open spec fn sealed_and_linked(blocks: Seq<BlockView>) -> bool {
    &&& forall|i: int| 0 <= i < blocks.len() ==> is_sealed(#[trigger] blocks[i])
    &&& forall|i: int| 0 <= i < blocks.len() ==> block_fits(#[trigger] blocks[i])
    &&& blocks.len() > 0 ==> blocks[0].header.previous_hash == genesis_previous_hash()
    &&& forall|i: int|
        0 < i < blocks.len() ==> (#[trigger] blocks[i]).header.previous_hash == blocks[i
            - 1].header.current_hash
}

/// The ledger holds the first transaction of each block, block by block.
pub open spec fn ledger_follows(ledger: Seq<TransactionView>, blocks: Seq<BlockView>) -> bool {
    &&& ledger.len() == blocks.len()
    &&& forall|i: int|
        0 <= i < blocks.len() ==> (#[trigger] blocks[i]).transactions.len() > 0 && ledger[i]
            == blocks[i].transactions[0]
}

/// How a chain stands after an attempt to add a block over the reward
/// `reward` at time `timestamp`: on success one block more, sealed on the
/// tip at the tip's difficulty, and the reward folded into ledger and
/// unspent outputs; on failure the chain as it was.
pub open spec fn block_added(
    before: BlockchainView,
    after: BlockchainView,
    reward: TransactionView,
    timestamp: Seq<char>,
    outcome: Result<(), LedgerError>,
) -> bool {
    let tip = before.blocks.last();
    match outcome {
        Ok(()) => {
            &&& reward.outputs.len() > 0
            &&& after.blocks.len() == before.blocks.len() + 1
            &&& after.blocks.drop_last() == before.blocks
            &&& search_outcome(
                tip.header.current_hash,
                seq![reward],
                tip.header.difficulty,
                timestamp,
                Some(after.blocks.last()),
            )
            &&& after.ledger == before.ledger.push(reward)
            &&& after.utxo == credited(
                before.utxo,
                reward.outputs[0].recipient_address,
                reward.outputs[0],
            )
            &&& after.mempool == before.mempool
            &&& after.config == before.config
        },
        Err(LedgerError::NoRewardOutput) => reward.outputs.len() == 0 && after == before,
        Err(LedgerError::NonceSpaceExhausted) => {
            &&& reward.outputs.len() > 0
            &&& search_outcome(
                tip.header.current_hash,
                seq![reward],
                tip.header.difficulty,
                timestamp,
                None,
            )
            &&& after == before
        },
        Err(_) => false,
    }
}

/// Why a block sealed elsewhere cannot go on top of the chain, if it
/// cannot: it carries no reward to fold, or it was not built on the tip at
/// the tip's difficulty, or it is not sealed; asked in this order.
pub open spec fn append_refusal(blocks: Seq<BlockView>, block: BlockView) -> Option<LedgerError> {
    let tip = blocks.last();
    if block.transactions.len() == 0 || block.transactions[0].outputs.len() == 0 {
        Some(LedgerError::NoRewardOutput)
    } else if block.header.previous_hash != tip.header.current_hash || block.header.difficulty
        != tip.header.difficulty {
        Some(LedgerError::NotOnTip)
    } else if !is_sealed(block) {
        Some(LedgerError::NotSealed)
    } else {
        None
    }
}

/// How a chain stands after an attempt to append a block sealed elsewhere:
/// where nothing speaks against it, the block on top and its reward folded
/// into ledger and unspent outputs; otherwise the chain as it was.
pub open spec fn block_appended(
    before: BlockchainView,
    after: BlockchainView,
    block: BlockView,
    outcome: Result<(), LedgerError>,
) -> bool {
    match outcome {
        Ok(()) => {
            &&& append_refusal(before.blocks, block) is None
            &&& after.blocks == before.blocks.push(block)
            &&& after.ledger == before.ledger.push(block.transactions[0])
            &&& after.utxo == credited(
                before.utxo,
                block.transactions[0].outputs[0].recipient_address,
                block.transactions[0].outputs[0],
            )
            &&& after.mempool == before.mempool
            &&& after.config == before.config
        },
        Err(error) => append_refusal(before.blocks, block) == Some(error) && after == before,
    }
}

/// What building a chain over the reward `reward` at time `timestamp` comes
/// to: a chain of the sealed genesis block alone, with the reward as the one
/// ledger entry and the one unspent output; or the reason why not.
pub open spec fn chain_built(
    config: BlockchainConfigView,
    reward: TransactionView,
    timestamp: Seq<char>,
    outcome: Result<BlockchainView, LedgerError>,
) -> bool {
    match outcome {
        Ok(chain) => {
            &&& reward.outputs.len() > 0
            &&& chain.blocks.len() == 1
            &&& search_outcome(
                genesis_previous_hash(),
                seq![reward],
                BLOCKCHAIN_INITIAL_DIFFICULTY,
                timestamp,
                Some(chain.blocks[0]),
            )
            &&& chain.ledger == seq![reward]
            &&& chain.utxo == Map::<Seq<char>, Seq<TransactionOutputView>>::empty().insert(
                reward.outputs[0].recipient_address,
                seq![reward.outputs[0]],
            )
            &&& chain.mempool == Seq::<TransactionInputView>::empty()
            &&& chain.config == config
        },
        Err(LedgerError::NoRewardOutput) => reward.outputs.len() == 0,
        Err(LedgerError::NonceSpaceExhausted) => {
            &&& reward.outputs.len() > 0
            &&& search_outcome(
                genesis_previous_hash(),
                seq![reward],
                BLOCKCHAIN_INITIAL_DIFFICULTY,
                timestamp,
                None,
            )
        },
        Err(_) => false,
    }
}

/// The value of a chain that may have failed to build.
pub open spec fn built_view(outcome: Result<Blockchain, LedgerError>) -> Result<
    BlockchainView,
    LedgerError,
> {
    match outcome {
        Ok(chain) => Ok(chain@),
        Err(error) => Err(error),
    }
}

impl View for Blockchain {
    type V = BlockchainView;

    closed spec fn view(&self) -> BlockchainView {
        BlockchainView {
            blocks: block_views(self.blocks@),
            mempool: input_views(self.mempool@),
            utxo: entries_map(self.utxo@),
            ledger: transaction_views(self.ledger@),
            config: self.config@,
        }
    }
}

impl Blockchain {
    /// The chain holds its genesis block, every block is sealed and linked
    /// to the one before it, the ledger follows the blocks, and the index of
    /// unspent outputs keeps one entry per address.
    pub closed spec fn well_formed(&self) -> bool {
        &&& self.blocks@.len() > 0
        &&& addresses_distinct(self.utxo@)
        &&& sealed_and_linked(block_views(self.blocks@))
        &&& ledger_follows(transaction_views(self.ledger@), block_views(self.blocks@))
    }

    /// What well-formedness says of the chain's value.
    pub proof fn lemma_well_formed(&self)
        requires
            self.well_formed(),
        ensures
            self@.blocks.len() > 0,
            sealed_and_linked(self@.blocks),
            ledger_follows(self@.ledger, self@.blocks),
    {
    }

    /// Update the unspent outputs of `address` with a new output.
    fn update_utxo_with_transaction(&mut self, address: String, transaction_output: TransactionOutput)
        requires
            addresses_distinct(old(self).utxo@),
        ensures
            addresses_distinct(final(self).utxo@),
            entries_map(final(self).utxo@) == credited(
                entries_map(old(self).utxo@),
                address@,
                transaction_output@,
            ),
            final(self).blocks == old(self).blocks,
            final(self).ledger == old(self).ledger,
            final(self).mempool == old(self).mempool,
            final(self).config == old(self).config,
    {
        let ghost before = self.utxo@;
        let mut i: usize = 0;
        while i < self.utxo.len()
            invariant
                i <= self.utxo@.len(),
                self.utxo@ == before,
                forall|j: int| 0 <= j < i ==> before[j].address@ != address@,
            ensures
                i < self.utxo@.len() ==> before[i as int].address@ == address@,
            decreases self.utxo@.len() - i,
        {
            if texts_are_equal(self.utxo[i].address.as_str(), address.as_str()) {
                break;
            }
            i += 1;
        }
        if i < self.utxo.len() {
            self.utxo[i].outputs.push(transaction_output);
            let ghost after = self.utxo@;
            proof {
                assert(after.len() == before.len());
                assert(forall|j: int| 0 <= j < after.len() ==> after[j].address@ == before[j].address@);
                assert(forall|j: int| 0 <= j < after.len() && j != i ==> after[j] == before[j]);
                assert(output_views(after[i as int].outputs@) =~= output_views(
                    before[i as int].outputs@,
                ).push(transaction_output@));
                assert(addresses_distinct(after));
                lemma_entry_index(before, i as int);
                lemma_entry_index(after, i as int);
                assert forall|a: Seq<char>| holds_address(after, a) == holds_address(before, a) by {
                    if holds_address(before, a) {
                        let k = entry_index(before, a);
                        assert(after[k].address@ == a);
                    }
                    if holds_address(after, a) {
                        let k = entry_index(after, a);
                        assert(before[k].address@ == a);
                    }
                }
                assert forall|a: Seq<char>| holds_address(after, a) && a != address@ implies entries_map(
                    after,
                )[a] == entries_map(before)[a] by {
                    assert(holds_address(before, a));
                    let k = entry_index(before, a);
                    assert(before[k].address@ == a);
                    assert(after[k].address@ == a);
                    assert(k != i);
                    lemma_entry_index(before, k);
                    lemma_entry_index(after, k);
                    assert(after[k] == before[k]);
                }
                assert(entries_map(after) =~= credited(
                    entries_map(before),
                    address@,
                    transaction_output@,
                ));
            }
        } else {
            self.utxo.push(UtxoEntry { address, outputs: vec![transaction_output] });
            let ghost after = self.utxo@;
            proof {
                assert(!holds_address(before, address@));
                assert(output_views(after[i as int].outputs@) =~= seq![transaction_output@]);
                lemma_entry_index(after, i as int);
                assert forall|a: Seq<char>| holds_address(after, a) == (holds_address(before, a) || a
                    == address@) by {
                    if holds_address(before, a) {
                        let k = entry_index(before, a);
                        assert(after[k].address@ == a);
                    }
                    if holds_address(after, a) && a != address@ {
                        let k = entry_index(after, a);
                        assert(before[k].address@ == a);
                    }
                }
                assert forall|a: Seq<char>| holds_address(before, a) implies entries_map(after)[a]
                    == entries_map(before)[a] by {
                    let k = entry_index(before, a);
                    lemma_entry_index(before, k);
                    lemma_entry_index(after, k);
                }
                assert(entries_map(after) =~= credited(
                    entries_map(before),
                    address@,
                    transaction_output@,
                ));
            }
        }
    }

    /// Push the whole transaction to ledger
    fn push_transaction_to_ledger(&mut self, transaction: Transaction)
        ensures
            transaction_views(final(self).ledger@) == transaction_views(old(self).ledger@).push(
                transaction@,
            ),
            final(self).blocks == old(self).blocks,
            final(self).utxo == old(self).utxo,
            final(self).mempool == old(self).mempool,
            final(self).config == old(self).config,
    {
        self.ledger.push(transaction);
        assert(transaction_views(self.ledger@) =~= transaction_views(old(self).ledger@).push(
            transaction@,
        ));
    }

    /// Push newly mined block to the blocks vector of a blockchain
    fn push_new_block(&mut self, block: Block)
        ensures
            block_views(final(self).blocks@) == block_views(old(self).blocks@).push(block@),
            final(self).ledger == old(self).ledger,
            final(self).utxo == old(self).utxo,
            final(self).mempool == old(self).mempool,
            final(self).config == old(self).config,
    {
        self.blocks.push(block);
        assert(block_views(self.blocks@) =~= block_views(old(self).blocks@).push(block@));
    }

    /// Folds the reward of a sealed block into the derived state: its first
    /// transaction goes to the ledger, and that transaction's first output
    /// to the unspent outputs of its recipient.
    fn reward_block_finder(&mut self, block: &Block)
        requires
            addresses_distinct(old(self).utxo@),
            block@.transactions.len() > 0,
            block@.transactions[0].outputs.len() > 0,
        ensures
            addresses_distinct(final(self).utxo@),
            transaction_views(final(self).ledger@) == transaction_views(old(self).ledger@).push(
                block@.transactions[0],
            ),
            entries_map(final(self).utxo@) == credited(
                entries_map(old(self).utxo@),
                block@.transactions[0].outputs[0].recipient_address,
                block@.transactions[0].outputs[0],
            ),
            final(self).blocks == old(self).blocks,
            final(self).mempool == old(self).mempool,
            final(self).config == old(self).config,
    {
        let transactions = block.body().transactions();
        let coinbase_transaction = transactions[0].clone();
        let outputs = coinbase_transaction.outputs();
        let coinbase_transaction_output = outputs[0].clone();
        let recipient_address = coinbase_transaction_output.recipient_address.clone();
        self.push_transaction_to_ledger(coinbase_transaction);
        self.update_utxo_with_transaction(recipient_address, coinbase_transaction_output);
    }

    /// Builds a chain at a given time: seals the genesis block over
    /// `genesis_reward` at the initial difficulty and folds its reward.
    pub fn build_at(config: BlockchainConfig, genesis_reward: Transaction, timestamp: String) -> (outcome:
        Result<Blockchain, LedgerError>)
        ensures
            chain_built(config@, genesis_reward@, timestamp@, built_view(outcome)),
            outcome is Ok ==> outcome->Ok_0.well_formed(),
    {
        if genesis_reward.outputs().len() == 0 {
            return Err(LedgerError::NoRewardOutput);
        }
        let ghost reward = genesis_reward@;
        let previous_hash = crate::block::genesis_previous_hash_text();
        let mut transactions: Vec<Transaction> = Vec::new();
        transactions.push(genesis_reward);
        assert(transaction_views(transactions@) =~= seq![reward]);
        match Block::seal_at(&previous_hash, &transactions, BLOCKCHAIN_INITIAL_DIFFICULTY, timestamp) {
            None => Err(LedgerError::NonceSpaceExhausted),
            Some(genesis_block) => {
                let mut blockchain = Blockchain {
                    blocks: Vec::new(),
                    config,
                    mempool: Vec::new(),
                    utxo: Vec::new(),
                    ledger: Vec::new(),
                };
                assert(entries_map(blockchain.utxo@) =~= Map::<
                    Seq<char>,
                    Seq<TransactionOutputView>,
                >::empty());
                blockchain.reward_block_finder(&genesis_block);
                blockchain.push_new_block(genesis_block);
                proof {
                    assert(blockchain@.blocks =~= seq![genesis_block@]);
                    assert(blockchain@.ledger =~= seq![reward]);
                    assert(blockchain@.mempool =~= Seq::<TransactionInputView>::empty());
                }
                Ok(blockchain)
            },
        }
    }

    /// Builds a chain from scratch: seals the genesis block over
    /// `genesis_reward` with the time of the call as its timestamp, and folds
    /// its reward. Fails when the reward has no output, or when no nonce
    /// seals the block.
    pub fn build(config: BlockchainConfig, genesis_reward: Transaction) -> (outcome: Result<
        Blockchain,
        LedgerError,
    >)
        ensures
            exists|timestamp: Seq<char>|
                chain_built(config@, genesis_reward@, timestamp, built_view(outcome)),
            outcome is Ok ==> outcome->Ok_0.well_formed(),
    {
        let timestamp = now_rfc3339();
        Blockchain::build_at(config, genesis_reward, timestamp)
    }

    /// Returns blockchain configuration
    pub fn config(&self) -> (config: &BlockchainConfig)
        ensures
            config@ == self@.config,
    {
        &self.config
    }

    /// Mines a block over `coinbase_transaction` at a given time, on the
    /// current tip and at the tip's difficulty, appends it and folds its
    /// reward.
    pub fn add_block_at(&mut self, coinbase_transaction: Transaction, timestamp: String) -> (outcome:
        Result<(), LedgerError>)
        requires
            old(self).well_formed(),
        ensures
            final(self).well_formed(),
            block_added(old(self)@, final(self)@, coinbase_transaction@, timestamp@, outcome),
    {
        if coinbase_transaction.outputs().len() == 0 {
            return Err(LedgerError::NoRewardOutput);
        }
        let ghost reward = coinbase_transaction@;
        let ghost before = self@;
        let last_block_header = &self.blocks[self.blocks.len() - 1].header;
        let mut transactions: Vec<Transaction> = Vec::new();
        transactions.push(coinbase_transaction);
        assert(transaction_views(transactions@) =~= seq![reward]);
        let sealed = Block::seal_at(
            &last_block_header.current_hash,
            &transactions,
            last_block_header.difficulty,
            timestamp,
        );
        match sealed {
            None => Err(LedgerError::NonceSpaceExhausted),
            Some(new_block) => {
                self.reward_block_finder(&new_block);
                self.push_new_block(new_block);
                proof {
                    assert(self@.blocks.drop_last() =~= before.blocks);
                    assert(self@.blocks.last() == new_block@);
                }
                Ok(())
            },
        }
    }

    /// The stored hash and the difficulty of the last block: what a block
    /// must be sealed on to go on top of the chain.
    pub fn tip(&self) -> (tip: (String, u8))
        requires
            self.well_formed(),
        ensures
            tip.0@ == self@.blocks.last().header.current_hash,
            tip.1 == self@.blocks.last().header.difficulty,
    {
        let last_block_header = &self.blocks[self.blocks.len() - 1].header;
        (last_block_header.current_hash.clone(), last_block_header.difficulty)
    }

    /// Puts a block that was sealed elsewhere on top of the chain and folds
    /// its reward, provided that it carries a reward, was built on the
    /// current tip at the tip's difficulty, and is sealed. Otherwise the
    /// chain is as it was.
    pub fn append_block(&mut self, block: Block) -> (outcome: Result<(), LedgerError>)
        requires
            old(self).well_formed(),
        ensures
            final(self).well_formed(),
            block_appended(old(self)@, final(self)@, block@, outcome),
    {
        let ghost before = self@;
        if block.body.transactions.len() == 0 || block.body.transactions[0].outputs().len() == 0 {
            return Err(LedgerError::NoRewardOutput);
        }
        let last_block_header = &self.blocks[self.blocks.len() - 1].header;
        if !texts_are_equal(
            block.header.previous_hash.as_str(),
            last_block_header.current_hash.as_str(),
        ) || block.header.difficulty != last_block_header.difficulty {
            return Err(LedgerError::NotOnTip);
        }
        if !HashHelper::is_sealed_block(&block) {
            return Err(LedgerError::NotSealed);
        }
        self.reward_block_finder(&block);
        self.push_new_block(block);
        proof {
            assert(self@.blocks.drop_last() =~= before.blocks);
            assert(self@.blocks.last() == block@);
        }
        Ok(())
    }

    /// Mines a new block over `coinbase_transaction`, with the time of the
    /// call as its timestamp, on the current tip and at the tip's
    /// difficulty; appends it and folds its reward. On failure the chain is
    /// as it was.
    pub fn add_block(&mut self, coinbase_transaction: Transaction) -> (outcome: Result<
        (),
        LedgerError,
    >)
        requires
            old(self).well_formed(),
        ensures
            final(self).well_formed(),
            exists|timestamp: Seq<char>|
                block_added(old(self)@, final(self)@, coinbase_transaction@, timestamp, outcome),
    {
        let timestamp = now_rfc3339();
        self.add_block_at(coinbase_transaction, timestamp)
    }

    /// Validates a single block by checking several factors: the block is
    /// found by `hash`, the chain has more than one block, the block's hash
    /// is valid, its predecessor is found by its previous hash, and its
    /// timestamp is later than the predecessor's. The chain is not changed.
    pub fn validate_single_block(&mut self, hash: &String) -> (verdict: Result<
        (),
        BlockValidationError,
    >)
        ensures
            *final(self) == *old(self),
            verdict == single_block_verdict(old(self)@.blocks, hash@),
    {
        validate_single(&self.blocks, hash.as_str())
    }

    /// Validates the full chain by looping through every block, in order;
    /// the first block is not checked against a predecessor. The chain is
    /// not changed.
    pub fn validate_full_chain(&mut self) -> (verdict: Result<(), BlockValidationError>)
        ensures
            *final(self) == *old(self),
            verdict == full_chain_verdict(old(self)@.blocks),
    {
        validate_full(&self.blocks)
    }

    /// Validates the blocks between `from_hash` and `to_hash`, both
    /// included. A range that runs backwards is empty and passes. The chain
    /// is not changed.
    pub fn validate_range_chain(&mut self, from_hash: &str, to_hash: &str) -> (verdict: Result<
        (),
        BlockValidationError,
    >)
        ensures
            *final(self) == *old(self),
            verdict == range_verdict(old(self)@.blocks, from_hash@, to_hash@),
    {
        validate_range(&self.blocks, from_hash, to_hash)
    }

    /// Finds the index of the first block that stores `from_hash` and of the
    /// first that stores `to_hash`; `None` if either is absent.
    pub fn find_hash_indices(&self, from_hash: &str, to_hash: &str) -> (found: Option<
        (usize, usize),
    >)
        ensures
            match found {
                Some((from_index, to_index)) => hash_indices(self@.blocks, from_hash@, to_hash@)
                    == Some((from_index as int, to_index as int)),
                None => hash_indices(self@.blocks, from_hash@, to_hash@) is None,
            },
    {
        find_indices(&self.blocks, from_hash, to_hash)
    }

    /// Returns copy of the blocks
    pub fn blocks(&self) -> (blocks: Vec<Block>)
        ensures
            block_views(blocks@) == self@.blocks,
    {
        let blocks = self.blocks.clone();
        assert(block_views(blocks@) =~= block_views(self.blocks@));
        blocks
    }

    /// Returns copy of the ledger
    pub fn ledger(&self) -> (ledger: Vec<Transaction>)
        ensures
            transaction_views(ledger@) == self@.ledger,
    {
        clone_transactions(&self.ledger)
    }

    /// Returns copy of the pending inputs
    pub fn mempool(&self) -> (mempool: Vec<TransactionInput>)
        ensures
            input_views(mempool@) == self@.mempool,
    {
        let mempool = self.mempool.clone();
        assert(input_views(mempool@) =~= input_views(self.mempool@));
        mempool
    }

    /// Takes a pending input into the pool, behind those already there.
    /// Nothing is deduplicated or reordered.
    pub fn submit_pending(&mut self, input: TransactionInput)
        ensures
            final(self)@ == (BlockchainView {
                mempool: old(self)@.mempool.push(input@),
                ..old(self)@
            }),
            old(self).well_formed() ==> final(self).well_formed(),
    {
        self.mempool.push(input);
        assert(input_views(self.mempool@) =~= input_views(old(self).mempool@).push(input@));
    }

    /// Returns copy of the unspent outputs of `address`, oldest first; none
    /// for an address that was never credited.
    pub fn unspent_outputs(&self, address: &str) -> (outputs: Vec<TransactionOutput>)
        requires
            self.well_formed(),
        ensures
            output_views(outputs@) == if self@.utxo.dom().contains(address@) {
                self@.utxo[address@]
            } else {
                Seq::<TransactionOutputView>::empty()
            },
    {
        let mut i: usize = 0;
        while i < self.utxo.len()
            invariant
                i <= self.utxo@.len(),
                addresses_distinct(self.utxo@),
                forall|j: int| 0 <= j < i ==> self.utxo@[j].address@ != address@,
            decreases self.utxo@.len() - i,
        {
            if texts_are_equal(self.utxo[i].address.as_str(), address) {
                proof {
                    lemma_entry_index(self.utxo@, i as int);
                }
                let outputs = self.utxo[i].outputs.clone();
                assert(output_views(outputs@) =~= output_views(self.utxo@[i as int].outputs@));
                return outputs;
            }
            i += 1;
        }
        let outputs: Vec<TransactionOutput> = Vec::new();
        assert(output_views(outputs@) =~= Seq::<TransactionOutputView>::empty());
        outputs
    }

    /// Returns the addresses that hold unspent outputs, each once, in the
    /// order in which they were first credited.
    pub fn utxo_addresses(&self) -> (addresses: Vec<String>)
        requires
            self.well_formed(),
        ensures
            forall|address: Seq<char>|
                self@.utxo.dom().contains(address) <==> exists|i: int|
                    0 <= i < addresses@.len() && addresses@[i]@ == address,
            forall|i: int, j: int|
                0 <= i < j < addresses@.len() ==> addresses@[i]@ != addresses@[j]@,
    {
        let mut addresses: Vec<String> = Vec::new();
        let mut i: usize = 0;
        while i < self.utxo.len()
            invariant
                i <= self.utxo@.len(),
                addresses@.len() == i,
                forall|j: int| 0 <= j < i ==> addresses@[j]@ == self.utxo@[j].address@,
            decreases self.utxo@.len() - i,
        {
            addresses.push(self.utxo[i].address.clone());
            i += 1;
        }
        proof {
            assert forall|address: Seq<char>|
                self@.utxo.dom().contains(address) <==> exists|i: int|
                    0 <= i < addresses@.len() && addresses@[i]@ == address by {
                if holds_address(self.utxo@, address) {
                    let k = entry_index(self.utxo@, address);
                    assert(addresses@[k]@ == address);
                }
                if exists|i: int| 0 <= i < addresses@.len() && addresses@[i]@ == address {
                    let k = choose|i: int| 0 <= i < addresses@.len() && addresses@[i]@ == address;
                    assert(self.utxo@[k].address@ == address);
                }
            }
        }
        addresses
    }

    /// Nothing is held open by a chain, so there is nothing to close.
    pub fn shutdown(&mut self)
        ensures
            *final(self) == *old(self),
    {
    }
}

impl Clone for Blockchain {
    fn clone(&self) -> (copy: Self)
        ensures
            self.well_formed() ==> copy.well_formed() && copy@ == self@,
    {
        let blocks = self.blocks.clone();
        let mempool = self.mempool.clone();
        let ledger = clone_transactions(&self.ledger);
        let mut utxo: Vec<UtxoEntry> = Vec::new();
        let mut i: usize = 0;
        while i < self.utxo.len()
            invariant
                i <= self.utxo@.len(),
                utxo@.len() == i,
                forall|j: int|
                    0 <= j < i ==> utxo@[j].address@ == self.utxo@[j].address@ && output_views(
                        utxo@[j].outputs@,
                    ) == output_views(self.utxo@[j].outputs@),
            decreases self.utxo@.len() - i,
        {
            utxo.push(self.utxo[i].duplicate());
            i += 1;
        }
        proof {
            assert(block_views(blocks@) =~= block_views(self.blocks@));
            assert(input_views(mempool@) =~= input_views(self.mempool@));
            assert forall|a: Seq<char>| holds_address(utxo@, a) == holds_address(self.utxo@, a) by {
                if holds_address(self.utxo@, a) {
                    let k = entry_index(self.utxo@, a);
                    assert(utxo@[k].address@ == a);
                }
                if holds_address(utxo@, a) {
                    let k = entry_index(utxo@, a);
                    assert(self.utxo@[k].address@ == a);
                }
            }
            if self.well_formed() {
                assert(addresses_distinct(utxo@));
                assert forall|a: Seq<char>| holds_address(utxo@, a) implies entries_map(utxo@)[a]
                    == entries_map(self.utxo@)[a] by {
                    let k = entry_index(utxo@, a);
                    assert(self.utxo@[k].address@ == a);
                    lemma_entry_index(utxo@, k);
                    lemma_entry_index(self.utxo@, k);
                }
                assert(entries_map(utxo@) =~= entries_map(self.utxo@));
            }
        }
        Blockchain { blocks, mempool, utxo, ledger, config: self.config.clone() }
    }
}

} // verus!
