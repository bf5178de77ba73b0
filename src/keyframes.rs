//! Locating a sampling time among an animation track's keyframes, with
//! wrap-around from the last keyframe back to the first.
use vstd::prelude::*;

verus! {

/// A sampling time as its integer part and whether it lies strictly after it:
/// `whole` itself when `fractional` is false, strictly between `whole` and
/// `whole + 1` when it is true.
#[derive(Clone, Copy, Debug, PartialEq, Eq, Structural)]
pub struct FrameTime {
    pub whole: i64,
    pub fractional: bool,
}

/// Keyframe time `k` is at or before `t`.
pub open spec fn at_or_before(k: u32, t: FrameTime) -> bool {
    k as int <= t.whole
}

/// `t` is strictly before keyframe time `k`.
pub open spec fn time_before(t: FrameTime, k: u32) -> bool {
    t.whole < k as int
}

/// `t` is strictly after keyframe time `k`.
pub open spec fn time_after(t: FrameTime, k: u32) -> bool {
    if t.fractional {
        t.whole >= k as int
    } else {
        t.whole > k as int
    }
}

/// `i` is the first keyframe with the earliest time.
pub open spec fn is_first_earliest(ts: Seq<u32>, i: int) -> bool {
    &&& 0 <= i < ts.len()
    &&& forall|j: int| 0 <= j < ts.len() ==> ts[i] <= #[trigger] ts[j]
    &&& forall|j: int| 0 <= j < i ==> ts[i] < #[trigger] ts[j]
}

/// `i` is the last keyframe with the latest time.
pub open spec fn is_last_latest(ts: Seq<u32>, i: int) -> bool {
    &&& 0 <= i < ts.len()
    &&& forall|j: int| 0 <= j < ts.len() ==> #[trigger] ts[j] <= ts[i]
    &&& forall|j: int| i < j < ts.len() ==> #[trigger] ts[j] < ts[i]
}

/// `i` is the first of the latest keyframes at or before `t`.
pub open spec fn is_before(ts: Seq<u32>, t: FrameTime, i: int) -> bool {
    &&& 0 <= i < ts.len()
    &&& at_or_before(ts[i], t)
    &&& forall|j: int| 0 <= j < ts.len() && at_or_before(#[trigger] ts[j], t) ==> ts[j] <= ts[i]
    &&& forall|j: int| 0 <= j < i && at_or_before(#[trigger] ts[j], t) ==> ts[j] < ts[i]
}

/// `i` is the first of the earliest keyframes after `t`.
pub open spec fn is_after(ts: Seq<u32>, t: FrameTime, i: int) -> bool {
    &&& 0 <= i < ts.len()
    &&& !at_or_before(ts[i], t)
    &&& forall|j: int| 0 <= j < ts.len() && !at_or_before(#[trigger] ts[j], t) ==> ts[i] <= ts[j]
    &&& forall|j: int| 0 <= j < i && !at_or_before(#[trigger] ts[j], t) ==> ts[i] < ts[j]
}

/// The keyframes on either side of `t` (by position in `ts`) and whether the
/// pair wraps around: none for an empty track; the only keyframe, alone, for a
/// track of one; the last and the first keyframe, wrapping, when `t` lies
/// before the earliest or after the latest time or when only one side has a
/// keyframe; else the latest keyframe at or before `t` and the earliest after it.
pub open spec fn surrounding_ok(ts: Seq<u32>, t: FrameTime, r: (Option<usize>, Option<usize>, bool)) -> bool {
    if ts.len() == 0 {
        r == (None::<usize>, None::<usize>, false)
    } else if ts.len() == 1 {
        r == (Some(0usize), None::<usize>, false)
    } else {
        let wraps = (exists|i: int| 0 <= i < ts.len() && time_before(t, #[trigger] ts[i]) && forall|j: int|
            0 <= j < ts.len() ==> ts[i] <= #[trigger] ts[j]) || (exists|i: int|
            0 <= i < ts.len() && time_after(t, #[trigger] ts[i]) && forall|j: int|
                0 <= j < ts.len() ==> #[trigger] ts[j] <= ts[i]) || (forall|j: int|
            0 <= j < ts.len() ==> at_or_before(#[trigger] ts[j], t)) || (forall|j: int|
            0 <= j < ts.len() ==> !at_or_before(#[trigger] ts[j], t));
        if wraps {
            &&& r.2
            &&& r.0 matches Some(l) && is_last_latest(ts, l as int)
            &&& r.1 matches Some(f) && is_first_earliest(ts, f as int)
        } else {
            &&& !r.2
            &&& r.0 matches Some(b) && is_before(ts, t, b as int)
            &&& r.1 matches Some(a) && is_after(ts, t, a as int)
        }
    }
}

/// Find the keyframes around time `t` among keyframe times `ts`.
pub fn surrounding_keyframes(ts: &Vec<u32>, t: FrameTime) -> (r: (Option<usize>, Option<usize>, bool))
    ensures
        surrounding_ok(ts@, t, r),
{
    let n = ts.len();
    if n == 0 {
        return (None, None, false);
    }
    if n == 1 {
        return (Some(0), None, false);
    }
    let mut first: usize = 0;
    let mut last: usize = 0;
    let mut i: usize = 1;
    while i < n
        invariant
            n == ts@.len(),
            1 <= i <= n,
            first < i,
            last < i,
            forall|j: int| 0 <= j < i ==> ts@[first as int] <= #[trigger] ts@[j],
            forall|j: int| 0 <= j < first ==> ts@[first as int] < #[trigger] ts@[j],
            forall|j: int| 0 <= j < i ==> #[trigger] ts@[j] <= ts@[last as int],
            forall|j: int| last < j < i ==> #[trigger] ts@[j] < ts@[last as int],
        decreases n - i,
    {
        if ts[i] < ts[first] {
            first = i;
        }
        if ts[i] >= ts[last] {
            last = i;
        }
        i = i + 1;
    }
    let first_time = ts[first];
    let last_time = ts[last];
    let before_first = t.whole < first_time as i64;
    let after_last = if t.fractional {
        t.whole >= last_time as i64
    } else {
        t.whole > last_time as i64
    };
    if before_first || after_last {
        return (Some(last), Some(first), true);
    }
    let mut before: Option<usize> = None;
    let mut after: Option<usize> = None;
    let mut k: usize = 0;
    while k < n
        invariant
            n == ts@.len(),
            k <= n,
            before matches Some(b) ==> b < k && at_or_before(ts@[b as int], t)
                && (forall|j: int| 0 <= j < k && at_or_before(#[trigger] ts@[j], t) ==> ts@[j] <= ts@[b as int])
                && (forall|j: int| 0 <= j < b && at_or_before(#[trigger] ts@[j], t) ==> ts@[j] < ts@[b as int]),
            before is None ==> forall|j: int| 0 <= j < k ==> !at_or_before(#[trigger] ts@[j], t),
            after matches Some(a) ==> a < k && !at_or_before(ts@[a as int], t)
                && (forall|j: int| 0 <= j < k && !at_or_before(#[trigger] ts@[j], t) ==> ts@[a as int] <= ts@[j])
                && (forall|j: int| 0 <= j < a && !at_or_before(#[trigger] ts@[j], t) ==> ts@[a as int] < ts@[j]),
            after is None ==> forall|j: int| 0 <= j < k ==> at_or_before(#[trigger] ts@[j], t),
        decreases n - k,
    {
        let kt = ts[k];
        if (kt as i64) <= t.whole {
            match before {
                Some(b) => {
                    if kt > ts[b] {
                        before = Some(k);
                    }
                },
                None => {
                    before = Some(k);
                },
            }
        } else {
            match after {
                Some(a) => {
                    if kt < ts[a] {
                        after = Some(k);
                    }
                },
                None => {
                    after = Some(k);
                },
            }
        }
        k = k + 1;
    }
    proof {
        assert(forall|j: int| 0 <= j < n ==> ts@[first as int] <= #[trigger] ts@[j]);
        assert(!time_before(t, ts@[first as int]));
        assert(!time_after(t, ts@[last as int]));
        assert(!(exists|i: int| 0 <= i < ts@.len() && time_before(t, #[trigger] ts@[i]) && forall|j: int|
            0 <= j < ts@.len() ==> ts@[i] <= #[trigger] ts@[j]));
        assert(!(exists|i: int| 0 <= i < ts@.len() && time_after(t, #[trigger] ts@[i]) && forall|j: int|
            0 <= j < ts@.len() ==> #[trigger] ts@[j] <= ts@[i]));
    }
    match (before, after) {
        (Some(b), Some(a)) => {
            proof {
                assert(!at_or_before(ts@[a as int], t));
                assert(at_or_before(ts@[b as int], t));
            }
            (Some(b), Some(a), false)
        },
        _ => (Some(last), Some(first), true),
    }
}

} // verus!
