use rand::rngs::StdRng;
use rand::{RngCore, SeedableRng};
use vstd::prelude::*;

verus! {

/// Size of one overwrite write call: one mebibyte.
pub const BLOCK_BYTES: usize = 1048576;

#[verifier::external_type_specification]
#[verifier::external_body]
pub struct ExStdRng(StdRng);

/// The byte pattern of one overwrite pass.
#[derive(Clone, Copy, Debug, PartialEq, Eq, Structural)]
pub enum Fill {
    /// Every byte 0x00.
    Zeros,
    /// Every byte 0xFF.
    Ones,
    /// Bytes drawn from the overwrite's own pseudo-random generator.
    Random,
}

/// `b` is a block of the given pattern: one mebibyte, every byte fixed by the
/// pattern for the two constant fills.
pub open spec fn block_of(fill: Fill, b: Seq<u8>) -> bool {
    &&& b.len() == BLOCK_BYTES
    &&& fill is Zeros ==> forall|i: int| 0 <= i < b.len() ==> b[i] == 0u8
    &&& fill is Ones ==> forall|i: int| 0 <= i < b.len() ==> b[i] == 0xFFu8
}

/// Relies on `SeedableRng::seed_from_u64` for rand's `StdRng`: a generator whose
/// output is determined by the seed.
#[verifier::external_body]
fn seeded_rng(seed: u64) -> StdRng {
    StdRng::seed_from_u64(seed)
}

/// Relies on `SeedableRng::try_from_os_rng` for rand's `StdRng`: a generator
/// seeded from the operating system, or `None` where no entropy could be had.
#[verifier::external_body]
fn entropy_rng() -> Option<StdRng> {
    StdRng::try_from_os_rng().ok()
}

/// Relies on `RngCore::fill_bytes` for rand's `StdRng`: it overwrites the bytes
/// of the buffer in place and leaves its length as it was.
#[verifier::external_body]
fn fill_random(rng: &mut StdRng, buf: &mut Vec<u8>)
    ensures
        final(buf)@.len() == old(buf)@.len(),
{
    rng.fill_bytes(buf.as_mut_slice())
}

/// The source of overwrite blocks for one sanitization: it owns its own
/// generator, so no state is shared between overwrites.
pub struct PatternSource {
    rng: StdRng,
}

impl PatternSource {
    /// A source whose random blocks are reproducible from `seed`.
    pub fn from_seed(seed: u64) -> (s: PatternSource) {
        PatternSource { rng: seeded_rng(seed) }
    }

    /// A source seeded from the operating system's entropy, if it can provide any.
    pub fn from_entropy() -> (s: Option<PatternSource>) {
        match entropy_rng() {
            Some(rng) => Some(PatternSource { rng }),
            None => None,
        }
    }

    /// One block of the pattern `fill`; a random block is drawn afresh on each call.
    pub fn block(&mut self, fill: Fill) -> (b: Vec<u8>)
        ensures
            block_of(fill, b@),
    {
        match fill {
            Fill::Zeros => {
                let b = vec![0u8; BLOCK_BYTES];
                assert(forall|i: int| 0 <= i < b@.len() ==> b@[i] == 0u8);
                b
            },
            Fill::Ones => {
                let b = vec![0xFFu8; BLOCK_BYTES];
                assert(forall|i: int| 0 <= i < b@.len() ==> b@[i] == 0xFFu8);
                b
            },
            Fill::Random => {
                let mut b = vec![0u8; BLOCK_BYTES];
                fill_random(&mut self.rng, &mut b);
                b
            },
        }
    }
}

} // verus!
