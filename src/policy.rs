use vstd::prelude::*;
use rand::{thread_rng, Rng};

verus! {

/// The smallest size drawn for a new file.
pub const MIN_FILE_SIZE: u64 = 512;

/// The bound, not reached, of the sizes drawn for a new file (8 MiB).
pub const MAX_FILE_SIZE: u64 = 8388608;

/// The free space that is always kept: half of the volume.
pub open spec fn reserve(total: u64) -> u64 {
    total / 2
}

/// The size chosen for a drawn candidate: none when free space is at or
/// below the reserve, else the candidate capped by the headroom above it.
pub open spec fn size_for(total: u64, free: u64, candidate: u64) -> Option<u64> {
    if free <= reserve(total) {
        None
    } else if free - reserve(total) < candidate {
        Some((free - reserve(total)) as u64)
    } else {
        Some(candidate)
    }
}

/// Relies on rand's `thread_rng().gen_range(low, high)`: a value in `[low, high)`.
#[verifier::external_body]
fn draw_candidate() -> (r: u64)
    ensures
        MIN_FILE_SIZE <= r < MAX_FILE_SIZE,
{
    thread_rng().gen_range(MIN_FILE_SIZE, MAX_FILE_SIZE)
}

/// The size of the next file for a drawn candidate, or `None` for "no room".
pub fn size_from_candidate(total_space: u64, free_space: u64, candidate: u64) -> (r: Option<u64>)
    ensures
        r == size_for(total_space, free_space, candidate),
        r is None <==> free_space <= reserve(total_space),
        r matches Some(s) ==> s <= free_space - reserve(total_space) && s <= candidate,
{
    let reserve = total_space / 2;
    if free_space <= reserve {
        None
    } else if free_space - reserve < candidate {
        Some(free_space - reserve)
    } else {
        Some(candidate)
    }
}

/// The size of the next file, drawn at random in `[MIN_FILE_SIZE, MAX_FILE_SIZE)`
/// and capped by the headroom above the reserve; `None` when there is no room.
pub fn next_file_size(total_space: u64, free_space: u64) -> (r: Option<u64>)
    ensures
        r is None <==> free_space <= reserve(total_space),
        r matches Some(s) ==> exists|c: u64|
            MIN_FILE_SIZE <= c < MAX_FILE_SIZE && r == #[trigger] size_for(total_space, free_space, c),
        r matches Some(s) ==> s <= free_space - reserve(total_space) && s < MAX_FILE_SIZE,
        r matches Some(s) ==> s >= MIN_FILE_SIZE || s == free_space - reserve(total_space),
{
    let c = draw_candidate();
    let r = size_from_candidate(total_space, free_space, c);
    assert(MIN_FILE_SIZE <= c < MAX_FILE_SIZE && r == size_for(total_space, free_space, c));
    r
}

/// A file of the size the policy chooses never takes free space below half
/// of the volume. Stated for a volume of an even number of bytes: for an odd
/// one the reserve is the half rounded down, as `size_from_candidate` states.
pub proof fn lemma_reserve_kept(total_space: u64, free_space: u64, candidate: u64)
    requires
        total_space % 2 == 0,
    ensures
        size_for(total_space, free_space, candidate) matches Some(s) ==> 2 * (free_space - s)
            >= total_space,
{
}

} // verus!
