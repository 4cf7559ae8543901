use vstd::prelude::*;

verus! {

/// Assigns each loaded profile to a batch group, given the acquisition
/// timestamps sorted ascending.  A profile joins its predecessor's group
/// exactly when the two timestamps lie within the merge threshold;
/// otherwise it opens the next group.  Group ids are consecutive and
/// start at zero, so ungrouped profiles come out as singleton groups.
pub fn merge_groups(times_millis: &Vec<u64>, threshold_millis: u64) -> (r: Vec<usize>)
    requires
        forall|i: int|
            0 <= i + 1 < times_millis@.len() ==> #[trigger] times_millis@[i] <= times_millis@[i
                + 1],
    ensures
        r@.len() == times_millis@.len(),
        times_millis@.len() > 0 ==> r@[0] == 0,
        forall|i: int|
            1 <= i < r@.len() ==> #[trigger] r@[i] == (if times_millis@[i] - times_millis@[i - 1]
                <= threshold_millis {
                r@[i - 1] as int
            } else {
                r@[i - 1] + 1
            }),
{
    let mut r: Vec<usize> = Vec::new();
    let n = times_millis.len();
    if n == 0 {
        return r;
    }
    r.push(0);
    let mut i: usize = 1;
    while i < n
        invariant
            1 <= i <= n,
            n == times_millis@.len(),
            r@.len() == i,
            r@[0] == 0,
            forall|k: int| 0 <= k < i ==> #[trigger] r@[k] <= k,
            forall|k: int|
                0 <= k + 1 < times_millis@.len() ==> #[trigger] times_millis@[k]
                    <= times_millis@[k + 1],
            forall|k: int|
                1 <= k < i ==> #[trigger] r@[k] == (if times_millis@[k] - times_millis@[k - 1]
                    <= threshold_millis {
                    r@[k - 1] as int
                } else {
                    r@[k - 1] + 1
                }),
        decreases n - i,
    {
        let prev = r[i - 1];
        let gap_small = times_millis[i] - times_millis[i - 1] <= threshold_millis;
        if gap_small {
            r.push(prev);
        } else {
            r.push(prev + 1);
        }
        i = i + 1;
    }
    r
}

} // verus!
