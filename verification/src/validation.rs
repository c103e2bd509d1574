//! Validation of a sequence of blocks: one block, the whole chain, or a
//! range between two hashes.
//!
//! A block is looked up by its stored hash, and so is its predecessor: the
//! first block whose stored hash is the block's previous hash.

use vstd::prelude::*;
use crate::block::{block_views, hash_is_valid, Block, BlockValidationError, BlockView, HashHelper};
use crate::text::{text_before, text_is_before, texts_are_equal};

verus! {

/// Some block of `blocks` stores `hash`.
pub open spec fn has_hash(blocks: Seq<BlockView>, hash: Seq<char>) -> bool {
    exists|i: int| 0 <= i < blocks.len() && blocks[i].header.current_hash == hash
}

/// Block `i` stores `hash`, and no block before it does.
pub open spec fn is_first_with_hash(blocks: Seq<BlockView>, hash: Seq<char>, i: int) -> bool {
    &&& 0 <= i < blocks.len()
    &&& blocks[i].header.current_hash == hash
    &&& forall|j: int| 0 <= j < i ==> blocks[j].header.current_hash != hash
}

/// The index of the first block that stores `hash`, where there is one.
pub open spec fn first_index_of(blocks: Seq<BlockView>, hash: Seq<char>) -> int {
    choose|i: int| is_first_with_hash(blocks, hash, i)
}

/// There is at most one first block with a given hash, and `first_index_of`
/// names it.
pub proof fn lemma_first_index(blocks: Seq<BlockView>, hash: Seq<char>, i: int)
    requires
        is_first_with_hash(blocks, hash, i),
    ensures
        first_index_of(blocks, hash) == i,
        has_hash(blocks, hash),
{
    let chosen = first_index_of(blocks, hash);
    assert(is_first_with_hash(blocks, hash, chosen));
    if chosen < i {
        assert(blocks[chosen].header.current_hash != hash);
    } else if i < chosen {
        assert(blocks[i].header.current_hash != hash);
    }
}

/// The checks of a block against its predecessor: the predecessor is found
/// by the block's previous hash, and its timestamp is strictly earlier.
pub open spec fn predecessor_verdict(blocks: Seq<BlockView>, block: BlockView) -> Result<
    (),
    BlockValidationError,
> {
    if !has_hash(blocks, block.header.previous_hash) {
        Err(BlockValidationError::PreviousBlockNotFound)
    } else if !text_before(
        blocks[first_index_of(blocks, block.header.previous_hash)].header.timestamp,
        block.header.timestamp,
    ) {
        Err(BlockValidationError::InvalidTimestamp)
    } else {
        Ok(())
    }
}

/// The verdict on the block at `index` within a chain walk: there must be
/// such a block, its hash must be valid, and every block but the first is
/// checked against its predecessor.
pub open spec fn block_verdict(blocks: Seq<BlockView>, index: int) -> Result<
    (),
    BlockValidationError,
> {
    if !(0 <= index < blocks.len()) {
        Err(BlockValidationError::BlockNotFound)
    } else if !hash_is_valid(blocks[index]) {
        Err(BlockValidationError::InvalidHash)
    } else if index == 0 {
        Ok(())
    } else {
        predecessor_verdict(blocks, blocks[index])
    }
}

/// The verdict on the blocks from `from` to `to`, both included: that of the
/// first block that fails, `Ok` when none does or the range is empty.
#[verifier::opaque]
pub open spec fn walk_verdict(blocks: Seq<BlockView>, from: int, to: int) -> Result<
    (),
    BlockValidationError,
>
    decreases
            (if from <= to {
                to - from + 1
            } else {
                0
            }),
{
    if from > to {
        Ok(())
    } else {
        match block_verdict(blocks, from) {
            Err(error) => Err(error),
            Ok(()) => walk_verdict(blocks, from + 1, to),
        }
    }
}

/// One step of a walk: an empty range passes; otherwise the first block
/// decides, or hands on to the rest.
pub proof fn lemma_walk_step(blocks: Seq<BlockView>, from: int, to: int)
    ensures
        from > to ==> walk_verdict(blocks, from, to) == Ok::<(), BlockValidationError>(()),
        from <= to ==> walk_verdict(blocks, from, to) == match block_verdict(blocks, from) {
            Err(error) => Err(error),
            Ok(()) => walk_verdict(blocks, from + 1, to),
        },
{
    reveal(walk_verdict);
}

/// The verdict on the one block that stores `hash`.
pub open spec fn single_block_verdict(blocks: Seq<BlockView>, hash: Seq<char>) -> Result<
    (),
    BlockValidationError,
> {
    if !has_hash(blocks, hash) {
        Err(BlockValidationError::BlockNotFound)
    } else if blocks.len() <= 1 {
        Err(BlockValidationError::InsufficientBlocks)
    } else if !hash_is_valid(blocks[first_index_of(blocks, hash)]) {
        Err(BlockValidationError::InvalidHash)
    } else {
        predecessor_verdict(blocks, blocks[first_index_of(blocks, hash)])
    }
}

/// The verdict on the whole chain.
pub open spec fn full_chain_verdict(blocks: Seq<BlockView>) -> Result<(), BlockValidationError> {
    if blocks.len() <= 1 {
        Err(BlockValidationError::InsufficientBlocks)
    } else {
        walk_verdict(blocks, 0, blocks.len() - 1)
    }
}

/// The indices that two hashes resolve to, where both are stored.
pub open spec fn hash_indices(blocks: Seq<BlockView>, from_hash: Seq<char>, to_hash: Seq<char>)
    -> Option<(int, int)> {
    if has_hash(blocks, from_hash) && has_hash(blocks, to_hash) {
        Some((first_index_of(blocks, from_hash), first_index_of(blocks, to_hash)))
    } else {
        None
    }
}

/// The verdict on the range between two hashes. A range whose first index
/// lies behind its last is empty and passes.
pub open spec fn range_verdict(blocks: Seq<BlockView>, from_hash: Seq<char>, to_hash: Seq<char>)
    -> Result<(), BlockValidationError> {
    match hash_indices(blocks, from_hash, to_hash) {
        None => Err(BlockValidationError::RangeIndexFault),
        Some((from_index, to_index)) => if blocks.len() <= 1 {
            Err(BlockValidationError::InsufficientBlocks)
        } else {
            walk_verdict(blocks, from_index, to_index)
        },
    }
}

/// The index of the first block that stores `hash`.
pub fn find_block_index(blocks: &Vec<Block>, hash: &str) -> (found: Option<usize>)
    ensures
        match found {
            Some(index) => is_first_with_hash(block_views(blocks@), hash@, index as int),
            None => !has_hash(block_views(blocks@), hash@),
        },
{
    let mut i: usize = 0;
    while i < blocks.len()
        invariant
            i <= blocks.len(),
            forall|j: int| 0 <= j < i ==> block_views(blocks@)[j].header.current_hash != hash@,
        decreases blocks.len() - i,
    {
        if texts_are_equal(blocks[i].header.current_hash.as_str(), hash) {
            return Some(i);
        }
        i += 1;
    }
    None
}

/// Checks `block` against its predecessor in `blocks`.
pub fn check_predecessor(blocks: &Vec<Block>, block: &Block) -> (verdict: Result<
    (),
    BlockValidationError,
>)
    ensures
        verdict == predecessor_verdict(block_views(blocks@), block@),
{
    match find_block_index(blocks, block.header.previous_hash.as_str()) {
        None => Err(BlockValidationError::PreviousBlockNotFound),
        Some(index) => {
            proof {
                lemma_first_index(block_views(blocks@), block@.header.previous_hash, index as int);
            }
            let previous = &blocks[index];
            if text_is_before(previous.header.timestamp.as_str(), block.header.timestamp.as_str()) {
                Ok(())
            } else {
                Err(BlockValidationError::InvalidTimestamp)
            }
        },
    }
}

/// Checks the block at `index` as one step of a chain walk.
pub fn check_block(blocks: &Vec<Block>, index: usize) -> (verdict: Result<
    (),
    BlockValidationError,
>)
    ensures
        verdict == block_verdict(block_views(blocks@), index as int),
{
    if index >= blocks.len() {
        return Err(BlockValidationError::BlockNotFound);
    }
    let block = &blocks[index];
    if !HashHelper::is_valid_hash(block) {
        Err(BlockValidationError::InvalidHash)
    } else if index == 0 {
        Ok(())
    } else {
        check_predecessor(blocks, block)
    }
}

/// Walks the blocks from `from` to `to`, both included, and stops at the
/// first that fails.
pub fn check_walk(blocks: &Vec<Block>, from: usize, to: usize) -> (verdict: Result<
    (),
    BlockValidationError,
>)
    ensures
        verdict == walk_verdict(block_views(blocks@), from as int, to as int),
{
    let ghost views = block_views(blocks@);
    proof {
        lemma_walk_step(views, from as int, to as int);
    }
    if from > to {
        return Ok(());
    }
    let mut index: usize = from;
    loop
        invariant
            from <= index <= to,
            views == block_views(blocks@),
            walk_verdict(views, from as int, to as int) == walk_verdict(
                views,
                index as int,
                to as int,
            ),
        decreases to - index,
    {
        proof {
            lemma_walk_step(views, index as int, to as int);
            lemma_walk_step(views, index + 1, to as int);
        }
        match check_block(blocks, index) {
            Err(error) => {
                return Err(error);
            },
            Ok(()) => {},
        }
        if index == to {
            return Ok(());
        }
        index += 1;
    }
}

/// Validates the one block that stores `hash`.
pub fn validate_single(blocks: &Vec<Block>, hash: &str) -> (verdict: Result<
    (),
    BlockValidationError,
>)
    ensures
        verdict == single_block_verdict(block_views(blocks@), hash@),
{
    match find_block_index(blocks, hash) {
        None => Err(BlockValidationError::BlockNotFound),
        Some(index) => {
            proof {
                lemma_first_index(block_views(blocks@), hash@, index as int);
            }
            if blocks.len() <= 1 {
                return Err(BlockValidationError::InsufficientBlocks);
            }
            let block = &blocks[index];
            if !HashHelper::is_valid_hash(block) {
                return Err(BlockValidationError::InvalidHash);
            }
            check_predecessor(blocks, block)
        },
    }
}

/// Validates every block, in order.
pub fn validate_full(blocks: &Vec<Block>) -> (verdict: Result<(), BlockValidationError>)
    ensures
        verdict == full_chain_verdict(block_views(blocks@)),
{
    if blocks.len() <= 1 {
        return Err(BlockValidationError::InsufficientBlocks);
    }
    check_walk(blocks, 0, blocks.len() - 1)
}

/// Resolves two hashes to the indices of the first blocks that store them.
pub fn find_indices(blocks: &Vec<Block>, from_hash: &str, to_hash: &str) -> (found: Option<
    (usize, usize),
>)
    ensures
        match found {
            Some((from_index, to_index)) => {
                &&& hash_indices(block_views(blocks@), from_hash@, to_hash@) == Some(
                    (from_index as int, to_index as int),
                )
                &&& from_index < blocks@.len()
                &&& to_index < blocks@.len()
            },
            None => hash_indices(block_views(blocks@), from_hash@, to_hash@) is None,
        },
{
    let from_index = find_block_index(blocks, from_hash);
    let to_index = find_block_index(blocks, to_hash);
    match (from_index, to_index) {
        (Some(from_index), Some(to_index)) => {
            proof {
                lemma_first_index(block_views(blocks@), from_hash@, from_index as int);
                lemma_first_index(block_views(blocks@), to_hash@, to_index as int);
            }
            Some((from_index, to_index))
        },
        _ => None,
    }
}

/// Validates the blocks between the two hashes, both included.
pub fn validate_range(blocks: &Vec<Block>, from_hash: &str, to_hash: &str) -> (verdict: Result<
    (),
    BlockValidationError,
>)
    ensures
        verdict == range_verdict(block_views(blocks@), from_hash@, to_hash@),
{
    match find_indices(blocks, from_hash, to_hash) {
        None => Err(BlockValidationError::RangeIndexFault),
        Some((from_index, to_index)) => {
            if blocks.len() <= 1 {
                return Err(BlockValidationError::InsufficientBlocks);
            }
            check_walk(blocks, from_index, to_index)
        },
    }
}

} // verus!
