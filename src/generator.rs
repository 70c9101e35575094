use vstd::prelude::*;
use rand::distributions::Alphanumeric;
use rand::rngs::StdRng;
use rand::{Rng, SeedableRng};

verus! {

/// The text that a `StdRng` seeded with `seed` draws, `len` alphanumeric
/// characters long.
pub uninterp spec fn random_content(seed: u64, len: nat) -> Seq<char>;

pub open spec fn is_alphanumeric(c: char) -> bool {
    ('0' <= c && c <= '9') || ('a' <= c && c <= 'z') || ('A' <= c && c <= 'Z')
}

pub open spec fn all_alphanumeric(s: Seq<char>) -> bool {
    forall|i: int| 0 <= i < s.len() ==> is_alphanumeric(#[trigger] s[i])
}

/// Relies on rand's `StdRng::seed_from_u64` and the `Alphanumeric`
/// distribution: `length` draws, each one of `A-Z`, `a-z`, `0-9`, the whole
/// sequence fixed by the seed.
#[verifier::external_body]
fn sample_alphanumeric(seed: u64, length: usize) -> (r: String)
    ensures
        r@ == random_content(seed, length as nat),
        r@.len() == length,
        all_alphanumeric(r@),
{
    let mut rng: StdRng = SeedableRng::seed_from_u64(seed);
    std::iter::repeat(()).map(|()| rng.sample(Alphanumeric)).take(length).collect()
}

/// The pseudo-random content of a file, a function of `(seed, length)` alone.
pub fn generate(seed: u64, length: usize) -> (r: String)
    ensures
        r@ == random_content(seed, length as nat),
        r@.len() == length,
        all_alphanumeric(r@),
{
    sample_alphanumeric(seed, length)
}

/// Generation is deterministic: equal seeds and lengths give equal content,
/// of exactly the requested length.
pub proof fn lemma_generate_deterministic(seed: u64, length: usize, a: Seq<char>, b: Seq<char>)
    requires
        a == random_content(seed, length as nat),
        b == random_content(seed, length as nat),
    ensures
        a == b,
{
}

} // verus!
