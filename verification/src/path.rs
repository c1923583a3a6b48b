//! Paths: positions along a list of way points.
use crate::colour::{
    blend, bracket, fraction, is_lower, is_upper, lemma_bracket_unique, lemma_lower_unique,
    lemma_upper_unique, mix, progress,
};
use crate::fixed::Point;
use vstd::prelude::*;

verus! {

/// Component by component, the point `s` of the way from `from` to `to`.
pub open spec fn mix_point(from: Point, to: Point, s: int) -> Point {
    Point { x: mix(from.x as int, to.x as int, s) as i64, y: mix(from.y as int, to.y as int, s) as i64 }
}

/// The keys of a path, in its order.
pub open spec fn path_keys(stops: Seq<(Point, i64)>) -> Seq<i64> {
    Seq::new(stops.len(), |i: int| stops[i].1)
}

/// The position on a path at `point`: between the last key below `point`
/// and the first key at or above it, in proportion on the straight line
/// between the two way points; the way point of the nearest end where
/// `point` lies before all keys or after all of them.
pub open spec fn along(stops: Seq<(Point, i64)>, point: int) -> Point {
    let keys = path_keys(stops);
    if exists|i: int| is_lower(keys, point, i) {
        let l = choose|i: int| is_lower(keys, point, i);
        if exists|j: int| is_upper(keys, point, j) {
            let u = choose|j: int| is_upper(keys, point, j);
            mix_point(stops[l].0, stops[u].0, progress(stops[l].1 as int, stops[u].1 as int, point))
        } else {
            stops[l].0
        }
    } else {
        let u = choose|j: int| is_upper(keys, point, j);
        stops[u].0
    }
}

/// The position on a path at `point`.
///
/// The path is a list of way points, each with its key. Between the last key
/// below `point` and the first key at or above it the position lies in
/// proportion on the straight line between the two way points; where `point`
/// lies before all keys or after all of them, the position is the way point
/// of the nearest end.
pub fn interpolate_path(points: &[(Point, i64)], point: i64) -> (p: Point)
    requires
        points.len() > 0,
    ensures
        p == along(points@, point as int),
{
    let mut keys: Vec<i64> = Vec::new();
    let mut i: usize = 0;
    while i < points.len()
        invariant
            i <= points.len(),
            keys@.len() == i,
            forall|k: int| 0 <= k < i ==> keys@[k] == points@[k].1,
        decreases points.len() - i,
    {
        keys.push(points[i].1);
        i += 1;
    }
    assert(keys@ =~= path_keys(points@));
    let (lower, upper) = bracket(&keys, point);
    match (lower, upper) {
        (Some(l), Some(u)) => {
            let from = points[l].0;
            let to = points[u].0;
            let s = fraction(points[l].1, points[u].1, point);
            proof {
                lemma_bracket_unique(keys@, point as int, l as int, u as int);
            }
            Point { x: blend(from.x, to.x, s), y: blend(from.y, to.y, s) }
        },
        (Some(l), None) => {
            proof {
                lemma_lower_unique(keys@, point as int, l as int);
                assert forall|j: int| !is_upper(keys@, point as int, j) by {
                    if is_upper(keys@, point as int, j) {
                        assert(keys@[j] < point);
                    }
                }
            }
            points[l].0
        },
        (None, Some(u)) => {
            proof {
                lemma_upper_unique(keys@, point as int, u as int);
                assert forall|i: int| !is_lower(keys@, point as int, i) by {
                    if is_lower(keys@, point as int, i) {
                        assert(keys@[i] >= point);
                    }
                }
            }
            points[u].0
        },
        (None, None) => {
            assert(keys@[0] >= point);
            assert(keys@[0] < point);
            points[0].0
        },
    }
}

} // verus!
