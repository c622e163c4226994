//! The test data: bytes that a seed determines, produced block by block.

use rand::{RngCore, SeedableRng};
use rand_chacha::ChaCha8Rng;
use vstd::prelude::*;

verus! {

/// I/O buffer size. Files are written and verified in 1 MiB blocks.
pub const IO_BLOCK_SIZE: usize = 1024 * 1024;

/// The generator `rand_chacha::ChaCha8Rng`.
#[verifier::external_type_specification]
#[verifier::external_body]
pub struct ExChaCha8Rng(ChaCha8Rng);

/// The bytes that a generator will give out, by their distance from the next.
pub uninterp spec fn upcoming(rng: ChaCha8Rng) -> Map<int, u8>;

/// The bytes that `ChaCha8Rng::seed_from_u64` makes of a seed, by their offset.
pub uninterp spec fn keystream(seed: u64) -> Map<int, u8>;

/// `ChaCha8Rng::seed_from_u64` expands the seed to a key and stands at the start
/// of the key's stream: all that the generator gives out is a function of the
/// seed.
#[verifier::external_body]
fn seeded(seed: u64) -> (rng: ChaCha8Rng)
    ensures
        upcoming(rng) == keystream(seed),
{
    ChaCha8Rng::seed_from_u64(seed)
}

/// The number of bytes that a request for `len` bytes takes from a generator,
/// which gives out whole words of four.
pub open spec fn words_taken(len: nat) -> int {
    (len as int + 3) / 4 * 4
}

/// `RngCore::fill_bytes` of `ChaCha8Rng` fills the buffer with the generator's
/// next bytes. It takes whole words of four bytes from the generator and drops
/// what is left of the last one.
#[verifier::external_body]
fn fill(rng: &mut ChaCha8Rng, buffer: &mut [u8])
    ensures
        final(buffer)@.len() == old(buffer)@.len(),
        forall|i: int|
            0 <= i < old(buffer)@.len() ==> #[trigger] final(buffer)@[i] == upcoming(*old(rng))[i],
        forall|i: int|
            0 <= i ==> #[trigger] upcoming(*final(rng))[i] == upcoming(*old(rng))[i + words_taken(
                old(buffer)@.len(),
            )],
{
    rng.fill_bytes(buffer)
}

/// The first bytes of the data for a seed.
pub open spec fn pattern(seed: u64, len: nat) -> Seq<u8> {
    Seq::new(len, |i: int| keystream(seed)[i])
}

/// The part of the data for a seed between two offsets.
pub open spec fn pattern_range(seed: u64, from: int, to: int) -> Seq<u8> {
    Seq::new((to - from) as nat, |i: int| keystream(seed)[from + i])
}

/// The data for a seed is one sequence: what follows a beginning extends it.
pub proof fn pattern_extends(seed: u64, from: int, to: int)
    requires
        0 <= from <= to,
    ensures
        pattern(seed, from as nat) + pattern_range(seed, from, to) == pattern(seed, to as nat),
        pattern(seed, to as nat).subrange(from, to) == pattern_range(seed, from, to),
{
    assert(pattern(seed, from as nat) + pattern_range(seed, from, to) =~= pattern(
        seed,
        to as nat,
    ));
    assert(pattern(seed, to as nat).subrange(from, to) =~= pattern_range(seed, from, to));
}

/// The end of the block that begins at an offset of a file.
pub open spec fn block_end(offset: int, size: int) -> int {
    if size - offset < IO_BLOCK_SIZE {
        size
    } else {
        offset + IO_BLOCK_SIZE
    }
}

/// A source of the data for a seed, up to a size, in blocks.
pub struct BlockSource {
    rng: ChaCha8Rng,
    seed: u64,
    size: u64,
    offset: u64,
}

impl BlockSource {
    /// The seed.
    pub closed spec fn seed(self) -> u64 {
        self.seed
    }

    /// The size of all blocks together.
    pub closed spec fn size(self) -> u64 {
        self.size
    }

    /// Where the next block begins.
    pub closed spec fn offset(self) -> u64 {
        self.offset
    }

    /// The generator stands where the next block begins, unless there is none.
    pub closed spec fn valid(self) -> bool {
        &&& self.offset <= self.size
        &&& self.offset < self.size ==> forall|i: int|
            0 <= i ==> #[trigger] upcoming(self.rng)[i] == keystream(self.seed)[self.offset + i]
        &&& self.offset < self.size ==> self.offset % 4 == 0
    }

    /// The source of the data for a seed, from its beginning.
    pub fn new(seed: u64, size: u64) -> (source: BlockSource)
        ensures
            source.valid(),
            source.seed() == seed,
            source.size() == size,
            source.offset() == 0,
    {
        BlockSource { rng: seeded(seed), seed, size, offset: 0 }
    }

    /// Where the next block begins.
    pub fn position(&self) -> (offset: u64)
        ensures
            offset == self.offset(),
    {
        self.offset
    }

    /// The length of the next block: 0 if all blocks have been given out.
    pub fn next_len(&self) -> (len: usize)
        requires
            self.valid(),
        ensures
            len == block_end(self.offset() as int, self.size() as int) - self.offset(),
            len <= IO_BLOCK_SIZE,
            self.offset() + len <= self.size(),
            len == 0 <==> self.offset() == self.size(),
    {
        let remaining: u64 = self.size - self.offset;
        if remaining < IO_BLOCK_SIZE as u64 {
            remaining as usize
        } else {
            IO_BLOCK_SIZE
        }
    }

    /// Gives out the next block.
    pub fn next_block(&mut self) -> (block: Vec<u8>)
        requires
            old(self).valid(),
        ensures
            final(self).valid(),
            final(self).seed() == old(self).seed(),
            final(self).size() == old(self).size(),
            final(self).offset() == block_end(old(self).offset() as int, old(self).size() as int),
            block@ == pattern_range(
                old(self).seed(),
                old(self).offset() as int,
                final(self).offset() as int,
            ),
    {
        let len: usize = self.next_len();
        let mut block: Vec<u8> = vec![0u8; len];
        fill(&mut self.rng, block.as_mut_slice());
        self.offset = self.offset + len as u64;
        assert(block@ =~= pattern_range(
            old(self).seed(),
            old(self).offset() as int,
            self.offset as int,
        ));
        block
    }
}

/// Test data is what the generator makes of the seed, byte for byte from its
/// start: nothing repeats that the generator does not repeat, and each offset has
/// its own byte.
pub proof fn data_is_the_keystream(seed: u64, from: int, to: int, i: int)
    requires
        0 <= from <= to,
        0 <= i < to - from,
    ensures
        pattern(seed, to as nat).len() == to,
        pattern(seed, to as nat)[from + i] == keystream(seed)[from + i],
        pattern_range(seed, from, to).len() == to - from,
        pattern_range(seed, from, to)[i] == keystream(seed)[from + i],
{
}

/// A block ends one MiB behind its beginning, or at the end of the file if that
/// comes first.
pub proof fn blocks_are_of_one_megabyte(offset: int, size: int)
    requires
        0 <= offset <= size,
    ensures
        block_end(offset, size) <= offset + 1048576,
        block_end(offset, size) <= size,
        block_end(offset, size) == offset + 1048576 || block_end(offset, size) == size,
        offset < size ==> offset < block_end(offset, size),
{
}

} // verus!
