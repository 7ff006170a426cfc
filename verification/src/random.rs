//! The random source behind the scatter of spawned coins.

use vstd::prelude::*;

verus! {

/// Number of distinct values of a unit sample: a sample `n` stands for the
/// fraction `n / UNIT_SAMPLES` of the half-open unit interval.
pub const UNIT_SAMPLES: u32 = 0x100_0000;

/// `rand::random::<u32>`: one word from the thread-local generator. Nothing
/// is claimed of the word.
#[verifier::external_body]
fn random_word() -> (word: u32) {
    rand::random::<u32>()
}

/// The unit sample that a random word stands for: its upper 24 bits.
pub open spec fn spec_unit_sample(word: u32) -> u32 {
    (word / 256) as u32
}

/// Reduces a random word to a unit sample.
pub fn unit_sample(word: u32) -> (sample: u32)
    ensures
        sample == spec_unit_sample(word),
        sample < UNIT_SAMPLES,
{
    word / 256
}

/// Two random words for the launch of one coin: one for its speed, one for
/// its heading.
#[derive(Clone, Copy, Debug, PartialEq, Eq, Structural)]
pub struct Scatter {
    pub speed: u32,
    pub spread: u32,
}

/// The scatter at place `i`; zero words where the scatters have run out.
pub open spec fn spec_scatter_at(scatters: Seq<Scatter>, i: int) -> Scatter {
    if 0 <= i < scatters.len() {
        scatters[i]
    } else {
        Scatter { speed: 0, spread: 0 }
    }
}

/// Reads the scatter at place `i`; zero words where the scatters have run
/// out.
pub fn scatter_at(scatters: &Vec<Scatter>, i: usize) -> (scatter: Scatter)
    ensures
        scatter == spec_scatter_at(scatters@, i as int),
{
    if i < scatters.len() {
        scatters[i]
    } else {
        Scatter { speed: 0, spread: 0 }
    }
}

/// Draws `count` scatters from the random source, the speed word of each
/// before its heading word.
pub fn random_scatters(count: usize) -> (scatters: Vec<Scatter>)
    ensures
        scatters.len() == count,
{
    let mut scatters: Vec<Scatter> = Vec::new();
    while scatters.len() < count
        invariant
            scatters.len() <= count,
        decreases count - scatters.len(),
    {
        let speed = random_word();
        let spread = random_word();
        scatters.push(Scatter { speed, spread });
    }
    scatters
}

} // verus!
