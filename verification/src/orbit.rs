use vstd::prelude::*;

#[allow(unused_imports)]
use rand::RngExt;

verus! {

/// Calls `rand::rng()` and `RngExt::random_range(0..n)`: a number drawn
/// from the thread's random generator. Claimed: it lies in `0..n`
/// (`random_range` panics on an empty range, hence `n > 0`). Not stated:
/// which number comes out; it depends on the generator's state.
#[verifier::external_body]
fn random_below(n: u32) -> (r: u32)
    requires
        n > 0,
    ensures
        r < n,
{
    rand::rng().random_range(0..n)
}

/// A random day of each orbit: for each period (in days), a day drawn in
/// `0..period`, in order.
pub fn random_start_days(days_per_orbit: &[u32]) -> (days: Vec<u32>)
    requires
        forall|k: int| 0 <= k < days_per_orbit@.len() ==> #[trigger] days_per_orbit@[k] > 0,
    ensures
        days@.len() == days_per_orbit@.len(),
        forall|k: int| 0 <= k < days@.len() ==> #[trigger] days@[k] < days_per_orbit@[k],
{
    let mut days: Vec<u32> = Vec::new();
    let mut i: usize = 0;
    while i < days_per_orbit.len()
        invariant
            forall|k: int| 0 <= k < days_per_orbit@.len() ==> #[trigger] days_per_orbit@[k] > 0,
            0 <= i <= days_per_orbit@.len(),
            days@.len() == i,
            forall|k: int| 0 <= k < i ==> #[trigger] days@[k] < days_per_orbit@[k],
        decreases days_per_orbit@.len() - i,
    {
        let day: u32 = random_below(days_per_orbit[i]);
        days.push(day);
        i = i + 1;
    }
    days
}

/// Whether every count of `days` can move on by `day` days.
pub open spec fn can_advance(days: Seq<u32>, day: u32) -> bool {
    forall|k: int| 0 <= k < days.len() ==> #[trigger] days[k] + day <= u32::MAX
}

/// Whether every count of `days` can move on by `day` days.
pub fn advance_fits(days: &[u32], day: u32) -> (ok: bool)
    ensures
        ok == can_advance(days@, day),
{
    let mut i: usize = 0;
    while i < days.len()
        invariant
            0 <= i <= days@.len(),
            forall|k: int| 0 <= k < i ==> #[trigger] days@[k] + day <= u32::MAX,
        decreases days@.len() - i,
    {
        if days[i] > u32::MAX - day {
            return false;
        }
        i = i + 1;
    }
    true
}

/// Moves every count of days on by `day` days.
pub fn advance_days(days: &mut Vec<u32>, day: u32)
    requires
        can_advance(old(days)@, day),
    ensures
        final(days)@.len() == old(days)@.len(),
        forall|k: int|
            0 <= k < final(days)@.len() ==> #[trigger] final(days)@[k] == old(days)@[k] + day,
{
    let mut i: usize = 0;
    while i < days.len()
        invariant
            0 <= i <= days@.len(),
            days@.len() == old(days)@.len(),
            can_advance(old(days)@, day),
            forall|k: int| 0 <= k < i ==> #[trigger] days@[k] == old(days)@[k] + day,
            forall|k: int| i <= k < days@.len() ==> #[trigger] days@[k] == old(days)@[k],
        decreases days@.len() - i,
    {
        let d: u32 = days[i];
        assert(d == old(days)@[i as int]);
        days.set(i, d + day);
        i = i + 1;
    }
}

} // verus!
