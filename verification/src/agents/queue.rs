//! Lists that keep only their newest entries.

use std::collections::VecDeque;
use vstd::prelude::*;

verus! {

/// The last `max` entries of a list.
pub open spec fn newest<T>(s: Seq<T>, max: nat) -> Seq<T> {
    if s.len() <= max {
        s
    } else {
        s.skip(s.len() - max)
    }
}

/// Adds an entry at the end and drops from the front what is too much.
pub fn push_bounded<T>(v: &mut VecDeque<T>, x: T, max: usize)
    ensures
        final(v)@ == newest(old(v)@.push(x), max as nat),
{
    v.push_back(x);
    let ghost all = v@;
    proof {
        assert(all.skip(0) =~= all);
    }
    while v.len() > max
        invariant
            v@ == all.skip(all.len() - v@.len()),
            v@.len() <= all.len(),
            v@.len() >= max || v@ == all,
        decreases v.len(),
    {
        let ghost before = v@;
        let _ = v.pop_front();
        proof {
            assert(v@ =~= before.skip(1));
            assert(v@ =~= all.skip(all.len() - v@.len()));
        }
    }
}

/// However much is added, a bounded list never grows beyond its bound, and the
/// newest entry is always there.
pub proof fn bounded_lists_stay_bounded<T>(s: Seq<T>, x: T, max: nat)
    requires
        max > 0,
    ensures
        newest(s.push(x), max).len() <= max,
        newest(s.push(x), max).last() == x,
{
}

} // verus!
