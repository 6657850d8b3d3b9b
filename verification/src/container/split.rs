//! Placing the parts of a split layout along an axis, and the hints each container is drawn with.
use crate::widget::widget::RenderingHints;
use vstd::prelude::*;

verus! {

/// Placing parts of lengths `spaces` one after the other from `p` on an axis that ends at
/// `end`, each part followed by a separator cell where it ends before `end`: the range of each
/// part and the positions of the separators; `None` where a part would reach past `end`.
pub open spec fn spec_split_positions(p: int, end: int, spaces: Seq<u32>) -> Option<(Seq<(int, int)>, Seq<int>)>
    decreases spaces.len(),
{
    if spaces.len() == 0 {
        Some((Seq::empty(), Seq::empty()))
    } else {
        let q = p + spaces[0];
        if q > end {
            None
        } else {
            let next = if q < end { q + 1 } else { q };
            let seps = if q < end { seq![q] } else { Seq::<int>::empty() };
            match spec_split_positions(next, end, spaces.drop_first()) {
                Some((rs, ss)) => Some((seq![(p, q)] + rs, seps + ss)),
                None => None,
            }
        }
    }
}

/// The view of a list of ranges.
pub open spec fn spec_ranges(v: Seq<(i32, i32)>) -> Seq<(int, int)> {
    v.map_values(|r: (i32, i32)| (r.0 as int, r.1 as int))
}

/// The view of a list of positions.
pub open spec fn spec_positions(v: Seq<i32>) -> Seq<int> {
    v.map_values(|x: i32| x as int)
}

/// Where the parts of a split layout go on the axis from `start` to `end` (see
/// `spec_split_positions`): the ranges of the parts and the positions of the separators, or
/// `None` where a part would reach past `end`.
pub fn split_positions(start: i32, end: i32, spaces: &Vec<u32>) -> (r: Option<(Vec<(i32, i32)>, Vec<i32>)>)
    requires
        start <= end,
    ensures
        match spec_split_positions(start as int, end as int, spaces@) {
            Some((rs, ss)) => r matches Some((a, b)) && spec_ranges(a@) == rs && spec_positions(b@) == ss,
            None => r is None,
        },
{
    let mut ranges: Vec<(i32, i32)> = Vec::new();
    let mut seps: Vec<i32> = Vec::new();
    let mut p: i32 = start;
    let mut i: usize = 0;
    let ghost total = spec_split_positions(start as int, end as int, spaces@);
    proof {
        assert(spaces@.skip(0) =~= spaces@);
        assert(spec_ranges(ranges@) =~= Seq::<(int, int)>::empty());
        assert(spec_positions(seps@) =~= Seq::<int>::empty());
    }
    while i < spaces.len()
        invariant
            i <= spaces@.len(),
            start <= p <= end,
            total == spec_split_positions(start as int, end as int, spaces@),
            match spec_split_positions(p as int, end as int, spaces@.skip(i as int)) {
                Some((rs, ss)) => total == Some((spec_ranges(ranges@) + rs, spec_positions(seps@) + ss)),
                None => total is None,
            },
        decreases spaces@.len() - i,
    {
        proof {
            assert(spaces@.skip(i as int)[0] == spaces@[i as int]);
            assert(spaces@.skip(i as int).drop_first() =~= spaces@.skip(i + 1));
        }
        let ghost p0 = p as int;
        let q: i64 = p as i64 + spaces[i] as i64;
        if q > end as i64 {
            return None;
        }
        let q = q as i32;
        let ghost old_r = spec_ranges(ranges@);
        let ghost old_s = spec_positions(seps@);
        ranges.push((p, q));
        proof {
            assert(spec_ranges(ranges@) =~= old_r.push((p as int, q as int)));
        }
        if q < end {
            seps.push(q);
            proof {
                assert(spec_positions(seps@) =~= old_s.push(q as int));
            }
            p = q + 1;
        } else {
            p = q;
        }
        proof {
            let rest = spec_split_positions(p as int, end as int, spaces@.skip(i + 1));
            let seps1 = if (q as int) < end { seq![q as int] } else { Seq::<int>::empty() };
            match rest {
                Some((rs, ss)) => {
                    assert(old_r + (seq![(p0, q as int)] + rs) =~= spec_ranges(ranges@) + rs);
                    assert(old_s + (seps1 + ss) =~= spec_positions(seps@) + ss);
                },
                None => {},
            }
        }
        i = i + 1;
    }
    proof {
        assert(spaces@.skip(i as int) =~= Seq::<u32>::empty());
        assert(spec_ranges(ranges@) + Seq::<(int, int)>::empty() =~= spec_ranges(ranges@));
        assert(spec_positions(seps@) + Seq::<int>::empty() =~= spec_positions(seps@));
    }
    Some((ranges, seps))
}

/// The hints a container is drawn with: the given ones for the active container, the same but
/// inactive for every other.
pub fn container_hints(hints: RenderingHints, is_active: bool) -> (r: RenderingHints)
    ensures
        r == if is_active { hints } else { RenderingHints { active: false, ..hints } },
{
    if is_active {
        hints
    } else {
        hints.active(false)
    }
}

} // verus!
