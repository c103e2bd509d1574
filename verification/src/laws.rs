//! What holds of every chain: the laws of sealing, growth and validation,
//! each stated over the models that the functions' contracts use, and
//! proved.

use vstd::prelude::*;
use vstd::bytes::spec_u64_to_le_bytes;
use crate::block::{
    block_fits, hash_is_valid, is_sealed, recorded_preimage, BlockValidationError, BlockView,
};
use crate::codec::{lemma_transaction_list_cancels, transaction_list_bytes};
use crate::encoding::{
    framed_text, lemma_framed_text_cancels, lemma_same_length_cancels, lemma_u64_cancels,
};
use crate::blockchain::{
    block_added, block_appended, sealed_and_linked, Blockchain, BlockchainView, LedgerError,
};
use crate::digest::{lemma_hex_string_injective, sha256};
use crate::text::{lemma_text_before_transitive, text_before};
use crate::transaction::TransactionView;
use crate::validation::{
    block_verdict, first_index_of, full_chain_verdict, has_hash, hash_indices, is_first_with_hash,
    lemma_first_index, lemma_walk_step, predecessor_verdict, range_verdict, single_block_verdict,
    walk_verdict,
};

verus! {

/// Each block's timestamp is strictly later than that of the block before.
pub open spec fn chronological(blocks: Seq<BlockView>) -> bool {
    forall|i: int|
        0 < i < blocks.len() ==> text_before(
            blocks[i - 1].header.timestamp,
            (#[trigger] blocks[i]).header.timestamp,
        )
}

/// In a chronological chain every block is later than every block before it.
proof fn lemma_chronological_pairs(blocks: Seq<BlockView>, j: int, i: int)
    requires
        chronological(blocks),
        0 <= j < i < blocks.len(),
    ensures
        text_before(blocks[j].header.timestamp, blocks[i].header.timestamp),
    decreases i - j,
{
    assert(text_before(blocks[i - 1].header.timestamp, blocks[i].header.timestamp));
    if j < i - 1 {
        lemma_chronological_pairs(blocks, j, i - 1);
        lemma_text_before_transitive(
            blocks[j].header.timestamp,
            blocks[i - 1].header.timestamp,
            blocks[i].header.timestamp,
        );
    }
}

/// Where a block at or below `i` stores `hash`, some block is the first to
/// store it, and it stands at or below `i`.
proof fn lemma_first_exists(blocks: Seq<BlockView>, hash: Seq<char>, i: int)
    requires
        0 <= i < blocks.len(),
        blocks[i].header.current_hash == hash,
    ensures
        is_first_with_hash(blocks, hash, first_index_of(blocks, hash)),
        first_index_of(blocks, hash) <= i,
    decreases i,
{
    if exists|k: int| 0 <= k < i && blocks[k].header.current_hash == hash {
        let k = choose|k: int| 0 <= k < i && blocks[k].header.current_hash == hash;
        lemma_first_exists(blocks, hash, k);
    } else {
        assert(is_first_with_hash(blocks, hash, i));
        lemma_first_index(blocks, hash, i);
    }
}

/// A walk reports the first failure in the order of the chain: it passes
/// exactly when every block of the range passes, and what it reports
/// otherwise is the verdict on a block before which every block passes.
pub proof fn law_walk_reports_the_first_failure(blocks: Seq<BlockView>, from: int, to: int)
    ensures
        walk_verdict(blocks, from, to) is Ok <==> forall|k: int|
            from <= k <= to ==> block_verdict(blocks, k) is Ok,
        walk_verdict(blocks, from, to) is Err ==> exists|k: int|
            {
                &&& from <= k <= to
                &&& #[trigger] block_verdict(blocks, k) == walk_verdict(blocks, from, to)
                &&& forall|j: int| from <= j < k ==> block_verdict(blocks, j) is Ok
            },
    decreases
            (if from <= to {
                to - from + 1
            } else {
                0
            }),
{
    lemma_walk_step(blocks, from, to);
    if from <= to {
        law_walk_reports_the_first_failure(blocks, from + 1, to);
        if block_verdict(blocks, from) is Ok {
            if walk_verdict(blocks, from, to) is Err {
                let k = choose|k: int|
                    {
                        &&& from + 1 <= k <= to
                        &&& #[trigger] block_verdict(blocks, k) == walk_verdict(
                            blocks,
                            from + 1,
                            to,
                        )
                        &&& forall|j: int| from + 1 <= j < k ==> block_verdict(blocks, j) is Ok
                    };
                assert(block_verdict(blocks, k) == walk_verdict(blocks, from, to));
                assert forall|j: int| from <= j < k implies block_verdict(blocks, j) is Ok by {
                    if j > from {
                    }
                }
            } else {
                assert forall|k: int| from <= k <= to implies block_verdict(blocks, k) is Ok by {
                    if k > from {
                    }
                }
            }
        } else {
            assert(block_verdict(blocks, from) == walk_verdict(blocks, from, to));
        }
    }
}

/// In a sealed, linked and chronological chain every block passes.
proof fn lemma_block_passes(blocks: Seq<BlockView>, index: int)
    requires
        sealed_and_linked(blocks),
        chronological(blocks),
        0 <= index < blocks.len(),
    ensures
        block_verdict(blocks, index) is Ok,
        index > 0 ==> predecessor_verdict(blocks, blocks[index]) is Ok,
{
    assert(is_sealed(blocks[index]));
    if index > 0 {
        let wanted = blocks[index].header.previous_hash;
        assert(blocks[index - 1].header.current_hash == wanted);
        lemma_first_exists(blocks, wanted, index - 1);
        let found = first_index_of(blocks, wanted);
        lemma_chronological_pairs(blocks, found, index);
    }
}

/// A chain that was only ever built and extended, and whose clock never
/// stood still or went back, validates in full once it holds more than its
/// genesis block.
pub proof fn law_untampered_chain_validates(chain: Blockchain)
    requires
        chain.well_formed(),
        chronological(chain@.blocks),
        chain@.blocks.len() > 1,
    ensures
        full_chain_verdict(chain@.blocks) is Ok,
{
    chain.lemma_well_formed();
    let blocks = chain@.blocks;
    assert forall|k: int| 0 <= k <= blocks.len() - 1 implies block_verdict(blocks, k) is Ok by {
        lemma_block_passes(blocks, k);
    }
    law_walk_reports_the_first_failure(blocks, 0, blocks.len() - 1);
}

/// In such a chain every block but the genesis block validates on its own,
/// when looked up by a hash that no earlier block stores.
pub proof fn law_untampered_block_validates(chain: Blockchain, index: int)
    requires
        chain.well_formed(),
        chronological(chain@.blocks),
        0 < index < chain@.blocks.len(),
        is_first_with_hash(chain@.blocks, chain@.blocks[index].header.current_hash, index),
    ensures
        single_block_verdict(chain@.blocks, chain@.blocks[index].header.current_hash) is Ok,
{
    chain.lemma_well_formed();
    let blocks = chain@.blocks;
    lemma_first_index(blocks, blocks[index].header.current_hash, index);
    lemma_block_passes(blocks, index);
}

/// In such a chain a range between two stored hashes validates, and the
/// walk covers the blocks from the first that stores the one hash to the
/// first that stores the other.
pub proof fn law_untampered_range_validates(
    chain: Blockchain,
    from_hash: Seq<char>,
    to_hash: Seq<char>,
)
    requires
        chain.well_formed(),
        chronological(chain@.blocks),
        chain@.blocks.len() > 1,
        has_hash(chain@.blocks, from_hash),
        has_hash(chain@.blocks, to_hash),
    ensures
        range_verdict(chain@.blocks, from_hash, to_hash) is Ok,
        range_verdict(chain@.blocks, from_hash, to_hash) == walk_verdict(
            chain@.blocks,
            first_index_of(chain@.blocks, from_hash),
            first_index_of(chain@.blocks, to_hash),
        ),
{
    chain.lemma_well_formed();
    let blocks = chain@.blocks;
    let i = choose|i: int| 0 <= i < blocks.len() && blocks[i].header.current_hash == from_hash;
    let j = choose|j: int| 0 <= j < blocks.len() && blocks[j].header.current_hash == to_hash;
    lemma_first_exists(blocks, from_hash, i);
    lemma_first_exists(blocks, to_hash, j);
    let from = first_index_of(blocks, from_hash);
    let to = first_index_of(blocks, to_hash);
    assert forall|k: int| from <= k <= to implies block_verdict(blocks, k) is Ok by {
        lemma_block_passes(blocks, k);
    }
    law_walk_reports_the_first_failure(blocks, from, to);
}

/// A range with a hash that no block stores, on either side, is a range
/// index fault.
pub proof fn law_unknown_range_hash_faults(
    blocks: Seq<BlockView>,
    from_hash: Seq<char>,
    to_hash: Seq<char>,
)
    requires
        !has_hash(blocks, from_hash) || !has_hash(blocks, to_hash),
    ensures
        range_verdict(blocks, from_hash, to_hash) == Err::<(), BlockValidationError>(
            BlockValidationError::RangeIndexFault,
        ),
{
}

/// A hash that no block stores is not found.
pub proof fn law_unknown_hash_is_not_found(blocks: Seq<BlockView>, hash: Seq<char>)
    requires
        !has_hash(blocks, hash),
    ensures
        single_block_verdict(blocks, hash) == Err::<(), BlockValidationError>(
            BlockValidationError::BlockNotFound,
        ),
{
}

/// On a chain of one block every validation that gets as far as the blocks
/// reports too few of them, whether or not that block's hash is valid: the
/// full validation always, the validation of a block found by its hash, and
/// that of a range whose two hashes are found.
pub proof fn law_lone_genesis_is_insufficient(
    blocks: Seq<BlockView>,
    hash: Seq<char>,
    from_hash: Seq<char>,
    to_hash: Seq<char>,
)
    requires
        blocks.len() == 1,
    ensures
        full_chain_verdict(blocks) == Err::<(), BlockValidationError>(
            BlockValidationError::InsufficientBlocks,
        ),
        has_hash(blocks, hash) ==> single_block_verdict(blocks, hash) == Err::<
            (),
            BlockValidationError,
        >(BlockValidationError::InsufficientBlocks),
        has_hash(blocks, from_hash) && has_hash(blocks, to_hash) ==> range_verdict(
            blocks,
            from_hash,
            to_hash,
        ) == Err::<(), BlockValidationError>(BlockValidationError::InsufficientBlocks),
{
}

/// Each successful addition makes the chain one block longer and leaves the
/// blocks before it as they were; each failed one leaves it as it was.
pub proof fn law_addition_grows_by_one(
    before: BlockchainView,
    after: BlockchainView,
    reward: TransactionView,
    timestamp: Seq<char>,
    outcome: Result<(), LedgerError>,
)
    requires
        block_added(before, after, reward, timestamp, outcome),
    ensures
        outcome is Ok ==> after.blocks.len() == before.blocks.len() + 1,
        outcome is Ok ==> forall|i: int|
            0 <= i < before.blocks.len() ==> after.blocks[i] == before.blocks[i],
        outcome is Err ==> after.blocks == before.blocks,
{
    if outcome is Ok {
        assert forall|i: int| 0 <= i < before.blocks.len() implies after.blocks[i]
            == before.blocks[i] by {
            assert(after.blocks.drop_last()[i] == after.blocks[i]);
        }
    }
}

/// Each successful append makes the chain one block longer and leaves the
/// blocks before it as they were; each refused one leaves it as it was.
pub proof fn law_append_grows_by_one(
    before: BlockchainView,
    after: BlockchainView,
    block: BlockView,
    outcome: Result<(), LedgerError>,
)
    requires
        block_appended(before, after, block, outcome),
    ensures
        outcome is Ok ==> after.blocks.len() == before.blocks.len() + 1,
        outcome is Ok ==> forall|i: int|
            0 <= i < before.blocks.len() ==> after.blocks[i] == before.blocks[i],
        outcome is Err ==> after.blocks == before.blocks,
{
}

/// A block appended with a timestamp later than the tip's keeps a
/// chronological chain chronological.
pub proof fn law_append_keeps_chronology(
    before: BlockchainView,
    after: BlockchainView,
    block: BlockView,
)
    requires
        before.blocks.len() > 0,
        chronological(before.blocks),
        block_appended(before, after, block, Ok(())),
        text_before(before.blocks.last().header.timestamp, block.header.timestamp),
    ensures
        chronological(after.blocks),
{
    assert forall|i: int| 0 < i < after.blocks.len() implies text_before(
        after.blocks[i - 1].header.timestamp,
        (#[trigger] after.blocks[i]).header.timestamp,
    ) by {
        if i < before.blocks.len() {
            assert(text_before(
                before.blocks[i - 1].header.timestamp,
                before.blocks[i].header.timestamp,
            ));
        }
    }
}

/// A block added at a time later than the tip's keeps a chronological chain
/// chronological.
pub proof fn law_addition_keeps_chronology(
    before: BlockchainView,
    after: BlockchainView,
    reward: TransactionView,
    timestamp: Seq<char>,
)
    requires
        before.blocks.len() > 0,
        chronological(before.blocks),
        block_added(before, after, reward, timestamp, Ok(())),
        text_before(before.blocks.last().header.timestamp, timestamp),
    ensures
        chronological(after.blocks),
{
    assert forall|i: int| 0 < i < after.blocks.len() implies text_before(
        after.blocks[i - 1].header.timestamp,
        (#[trigger] after.blocks[i]).header.timestamp,
    ) by {
        assert(after.blocks.drop_last()[i - 1] == after.blocks[i - 1]);
        if i < before.blocks.len() {
            assert(after.blocks.drop_last()[i] == after.blocks[i]);
            assert(text_before(
                before.blocks[i - 1].header.timestamp,
                before.blocks[i].header.timestamp,
            ));
        }
    }
}

/// A block that was changed after sealing while its stored hash was left as
/// it was no longer has a valid hash, unless the changed contents have the
/// very digest of the sealed ones.
pub proof fn law_tampering_invalidates_hash(sealed: BlockView, tampered: BlockView)
    requires
        hash_is_valid(sealed),
        tampered.header.current_hash == sealed.header.current_hash,
        sha256(recorded_preimage(tampered)) != sha256(recorded_preimage(sealed)),
    ensures
        !hash_is_valid(tampered),
{
    let kept = sha256(recorded_preimage(sealed));
    let changed = sha256(recorded_preimage(tampered));
    if hash_is_valid(tampered) {
        lemma_hex_string_injective(kept@, changed@);
        assert(kept =~= changed);
    }
}

/// Validating a block whose hash is not valid reports an invalid hash, in
/// every chain of more than one block.
pub proof fn law_invalid_hash_is_reported(blocks: Seq<BlockView>, index: int)
    requires
        blocks.len() > 1,
        is_first_with_hash(blocks, blocks[index].header.current_hash, index),
        !hash_is_valid(blocks[index]),
    ensures
        single_block_verdict(blocks, blocks[index].header.current_hash) == Err::<
            (),
            BlockValidationError,
        >(BlockValidationError::InvalidHash),
{
    lemma_first_index(blocks, blocks[index].header.current_hash, index);
}

/// What is hashed pins what was recorded: two blocks with the same preimage
/// have the same previous hash, difficulty, timestamp, transactions and
/// nonce. So every change to one of these changes what is hashed.
pub proof fn law_preimage_pins_the_contents(a: BlockView, b: BlockView)
    requires
        block_fits(a),
        block_fits(b),
        recorded_preimage(a) == recorded_preimage(b),
    ensures
        a.header.previous_hash == b.header.previous_hash,
        a.header.difficulty == b.header.difficulty,
        a.header.timestamp == b.header.timestamp,
        a.header.nonce == b.header.nonce,
        a.transactions == b.transactions,
{
    let none = Seq::<u8>::empty();
    let nonce_a = spec_u64_to_le_bytes(a.header.nonce) + none;
    let nonce_b = spec_u64_to_le_bytes(b.header.nonce) + none;
    let listed_a = transaction_list_bytes(a.transactions) + nonce_a;
    let listed_b = transaction_list_bytes(b.transactions) + nonce_b;
    let stamped_a = framed_text(a.header.timestamp) + listed_a;
    let stamped_b = framed_text(b.header.timestamp) + listed_b;
    let graded_a = seq![a.header.difficulty] + stamped_a;
    let graded_b = seq![b.header.difficulty] + stamped_b;
    assert(recorded_preimage(a) =~= framed_text(a.header.previous_hash) + graded_a);
    assert(recorded_preimage(b) =~= framed_text(b.header.previous_hash) + graded_b);
    lemma_framed_text_cancels(a.header.previous_hash, graded_a, b.header.previous_hash, graded_b);
    lemma_same_length_cancels(
        seq![a.header.difficulty],
        stamped_a,
        seq![b.header.difficulty],
        stamped_b,
    );
    assert(seq![a.header.difficulty][0] == seq![b.header.difficulty][0]);
    lemma_framed_text_cancels(a.header.timestamp, listed_a, b.header.timestamp, listed_b);
    lemma_transaction_list_cancels(a.transactions, nonce_a, b.transactions, nonce_b);
    lemma_u64_cancels(a.header.nonce, none, b.header.nonce, none);
}

/// A walk never reports a previous hash mismatch.
proof fn lemma_walk_reports_no_mismatch(blocks: Seq<BlockView>, from: int, to: int)
    ensures
        walk_verdict(blocks, from, to) != Err::<(), BlockValidationError>(
            BlockValidationError::PreviousHashMismatch,
        ),
    decreases
            (if from <= to {
                to - from + 1
            } else {
                0
            }),
{
    lemma_walk_step(blocks, from, to);
    if from <= to {
        lemma_walk_reports_no_mismatch(blocks, from + 1, to);
    }
}

/// A predecessor is looked up by the very hash it must store, so no
/// validation ever reports a previous hash mismatch.
pub proof fn law_previous_hash_mismatch_is_never_reported(
    blocks: Seq<BlockView>,
    hash: Seq<char>,
    from_hash: Seq<char>,
    to_hash: Seq<char>,
)
    ensures
        single_block_verdict(blocks, hash) != Err::<(), BlockValidationError>(
            BlockValidationError::PreviousHashMismatch,
        ),
        full_chain_verdict(blocks) != Err::<(), BlockValidationError>(
            BlockValidationError::PreviousHashMismatch,
        ),
        range_verdict(blocks, from_hash, to_hash) != Err::<(), BlockValidationError>(
            BlockValidationError::PreviousHashMismatch,
        ),
{
    lemma_walk_reports_no_mismatch(blocks, 0, blocks.len() - 1);
    if hash_indices(blocks, from_hash, to_hash) is Some {
        let (from, to) = hash_indices(blocks, from_hash, to_hash)->0;
        lemma_walk_reports_no_mismatch(blocks, from, to);
    }
}

} // verus!
