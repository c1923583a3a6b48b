//! Colours and gradients.
use crate::fixed::{floor_div, narrow, sat, wide_mul, ONE};
use vstd::prelude::*;

verus! {

/// Red, green, blue and opacity, each from zero to [`ONE`].
#[derive(PartialEq, Eq, Clone, Copy, Structural, Debug)]
pub struct Colour {
    pub r: i64,
    pub g: i64,
    pub b: i64,
    pub a: i64,
}

/// How far `point` lies from `lower` towards `upper`, from zero to [`ONE`].
pub open spec fn progress(lower: int, upper: int, point: int) -> int {
    (point - lower) * (ONE as int) / (upper - lower)
}

/// The value that lies `s` of the way from `from` to `to`.
pub open spec fn mix(from: int, to: int, s: int) -> int {
    sat((from * (ONE - s) + to * s) / (ONE as int))
}

/// Component by component, the colour `s` of the way from `from` to `to`.
pub open spec fn mix_colour(from: Colour, to: Colour, s: int) -> Colour {
    Colour {
        r: mix(from.r as int, to.r as int, s) as i64,
        g: mix(from.g as int, to.g as int, s) as i64,
        b: mix(from.b as int, to.b as int, s) as i64,
        a: mix(from.a as int, to.a as int, s) as i64,
    }
}

/// `i` is the last key that lies strictly below `point`.
pub open spec fn is_lower(keys: Seq<i64>, point: int, i: int) -> bool {
    &&& 0 <= i < keys.len()
    &&& keys[i] < point
    &&& forall|j: int| i < j < keys.len() ==> keys[j] >= point
}

/// `i` is the first key that lies at or above `point`.
pub open spec fn is_upper(keys: Seq<i64>, point: int, i: int) -> bool {
    &&& 0 <= i < keys.len()
    &&& keys[i] >= point
    &&& forall|j: int| 0 <= j < i ==> keys[j] < point
}

/// No key lies strictly below `point`.
pub open spec fn none_below(keys: Seq<i64>, point: int) -> bool {
    forall|j: int| 0 <= j < keys.len() ==> keys[j] >= point
}

/// No key lies at or above `point`.
pub open spec fn none_above(keys: Seq<i64>, point: int) -> bool {
    forall|j: int| 0 <= j < keys.len() ==> keys[j] < point
}

/// The keys of a gradient, in its order.
pub open spec fn colour_keys(stops: Seq<(Colour, i64)>) -> Seq<i64> {
    Seq::new(stops.len(), |i: int| stops[i].1)
}

/// The colour of a gradient at `point`.
///
/// Between the last key below `point` and the first key at or above it the
/// colour is mixed in proportion; where `point` lies before all keys or
/// after all of them, the colour is that of the nearest end.
pub open spec fn gradient(stops: Seq<(Colour, i64)>, point: int) -> Colour {
    let keys = colour_keys(stops);
    if exists|i: int| is_lower(keys, point, i) {
        let l = choose|i: int| is_lower(keys, point, i);
        if exists|j: int| is_upper(keys, point, j) {
            let u = choose|j: int| is_upper(keys, point, j);
            mix_colour(stops[l].0, stops[u].0, progress(stops[l].1 as int, stops[u].1 as int, point))
        } else {
            stops[l].0
        }
    } else {
        let u = choose|j: int| is_upper(keys, point, j);
        stops[u].0
    }
}

/// The last stop below `point` and the first at or above it, where they exist.
pub fn bracket(keys: &Vec<i64>, point: i64) -> (r: (Option<usize>, Option<usize>))
    ensures
        match r.0 {
            Some(i) => is_lower(keys@, point as int, i as int),
            None => none_below(keys@, point as int),
        },
        match r.1 {
            Some(i) => is_upper(keys@, point as int, i as int),
            None => none_above(keys@, point as int),
        },
{
    let ghost ks = keys@;
    let mut lower: Option<usize> = None;
    let mut upper: Option<usize> = None;
    let mut i: usize = 0;
    while i < keys.len()
        invariant
            i <= keys.len(),
            ks == keys@,
            match lower {
                Some(l) => l < i && ks[l as int] < point && forall|j: int|
                    l < j < i ==> ks[j] >= point,
                None => forall|j: int| 0 <= j < i ==> ks[j] >= point,
            },
            match upper {
                Some(u) => u < i && ks[u as int] >= point && forall|j: int|
                    0 <= j < u ==> ks[j] < point,
                None => forall|j: int| 0 <= j < i ==> ks[j] < point,
            },
        decreases keys.len() - i,
    {
        if keys[i] < point {
            lower = Some(i);
        } else if upper.is_none() {
            upper = Some(i);
        }
        i += 1;
    }
    (lower, upper)
}

/// How far `point` lies between two keys, from zero to [`ONE`].
pub fn fraction(lower: i64, upper: i64, point: i64) -> (s: i64)
    requires
        lower < point <= upper,
    ensures
        s == progress(lower as int, upper as int, point as int),
        0 <= s <= ONE,
{
    let span: i128 = upper as i128 - lower as i128;
    let gone: i128 = point as i128 - lower as i128;
    let q: i128 = floor_div(gone * 1_000_000, span);
    proof {
        let g = gone as int;
        let sp = span as int;
        assert(0 <= g * ONE / sp <= ONE) by (nonlinear_arith)
            requires
                0 < g <= sp,
                ONE == 1_000_000,
        ;
    }
    q as i64
}

/// The value that lies `s` of the way from `from` to `to`.
pub fn blend(from: i64, to: i64, s: i64) -> (v: i64)
    requires
        0 <= s <= ONE,
    ensures
        v == mix(from as int, to as int, s as int),
{
    let a: i128 = wide_mul(from, ONE - s);
    let b: i128 = wide_mul(to, s);
    assert(-0x8000_0000_0000_0000 * 1_000_000 <= a <= 0x8000_0000_0000_0000 * 1_000_000)
        by (nonlinear_arith)
        requires
            a == from * (ONE - s),
            0 <= ONE - s <= 1_000_000,
            -0x8000_0000_0000_0000 <= from <= 0x8000_0000_0000_0000,
    ;
    assert(-0x8000_0000_0000_0000 * 1_000_000 <= b <= 0x8000_0000_0000_0000 * 1_000_000)
        by (nonlinear_arith)
        requires
            b == to * s,
            0 <= s <= 1_000_000,
            -0x8000_0000_0000_0000 <= to <= 0x8000_0000_0000_0000,
    ;
    narrow(floor_div(a + b, ONE as i128))
}

/// The colour of a gradient at `point`.
///
/// The gradient is a list of colours, each with its key. Between the last key
/// below `point` and the first key at or above it the colour is mixed in
/// proportion; where `point` lies before all keys or after all of them, the
/// colour is that of the nearest end.
pub fn interpolate_colour(colours: &[(Colour, i64)], point: i64) -> (c: Colour)
    requires
        colours.len() > 0,
    ensures
        c == gradient(colours@, point as int),
{
    let mut keys: Vec<i64> = Vec::new();
    let mut i: usize = 0;
    while i < colours.len()
        invariant
            i <= colours.len(),
            keys@.len() == i,
            forall|k: int| 0 <= k < i ==> keys@[k] == colours@[k].1,
        decreases colours.len() - i,
    {
        keys.push(colours[i].1);
        i += 1;
    }
    assert(keys@ =~= colour_keys(colours@));
    let (lower, upper) = bracket(&keys, point);
    match (lower, upper) {
        (Some(l), Some(u)) => {
            let from = colours[l].0;
            let to = colours[u].0;
            let s = fraction(colours[l].1, colours[u].1, point);
            proof {
                lemma_bracket_unique(keys@, point as int, l as int, u as int);
            }
            Colour {
                r: blend(from.r, to.r, s),
                g: blend(from.g, to.g, s),
                b: blend(from.b, to.b, s),
                a: blend(from.a, to.a, s),
            }
        },
        (Some(l), None) => {
            proof {
                lemma_lower_unique(keys@, point as int, l as int);
                assert forall|j: int| !is_upper(keys@, point as int, j) by {
                    if is_upper(keys@, point as int, j) {
                        assert(keys@[j] < point);
                    }
                }
            }
            colours[l].0
        },
        (None, Some(u)) => {
            proof {
                lemma_upper_unique(keys@, point as int, u as int);
                assert forall|i: int| !is_lower(keys@, point as int, i) by {
                    if is_lower(keys@, point as int, i) {
                        assert(keys@[i] >= point);
                    }
                }
            }
            colours[u].0
        },
        (None, None) => {
            assert(keys@[0] >= point);
            assert(keys@[0] < point);
            colours[0].0
        },
    }
}

/// At most one key is the last one below `point`.
pub proof fn lemma_lower_unique(keys: Seq<i64>, point: int, l: int)
    requires
        is_lower(keys, point, l),
    ensures
        forall|i: int| is_lower(keys, point, i) ==> i == l,
        (choose|i: int| is_lower(keys, point, i)) == l,
{
}

/// At most one key is the first one at or above `point`.
pub proof fn lemma_upper_unique(keys: Seq<i64>, point: int, u: int)
    requires
        is_upper(keys, point, u),
    ensures
        forall|j: int| is_upper(keys, point, j) ==> j == u,
        (choose|j: int| is_upper(keys, point, j)) == u,
{
}

/// The two keys that bracket `point` are unique.
pub proof fn lemma_bracket_unique(keys: Seq<i64>, point: int, l: int, u: int)
    requires
        is_lower(keys, point, l),
        is_upper(keys, point, u),
    ensures
        forall|i: int| is_lower(keys, point, i) ==> i == l,
        forall|j: int| is_upper(keys, point, j) ==> j == u,
        (choose|i: int| is_lower(keys, point, i)) == l,
        (choose|j: int| is_upper(keys, point, j)) == u,
{
}

/// Halfway between two keys at zero and at one, a gradient of two colours
/// gives the midpoint of each component, rounded down.
pub proof fn lemma_midpoint(c0: Colour, c1: Colour)
    ensures
        gradient(seq![(c0, 0i64), (c1, ONE)], ONE as int / 2) == (Colour {
            r: ((c0.r + c1.r) / 2) as i64,
            g: ((c0.g + c1.g) / 2) as i64,
            b: ((c0.b + c1.b) / 2) as i64,
            a: ((c0.a + c1.a) / 2) as i64,
        }),
{
    let stops = seq![(c0, 0i64), (c1, ONE)];
    let keys = colour_keys(stops);
    assert(is_lower(keys, ONE as int / 2, 0));
    assert(is_upper(keys, ONE as int / 2, 1));
    lemma_bracket_unique(keys, ONE as int / 2, 0, 1);
    assert(progress(0, ONE as int, ONE as int / 2) == ONE as int / 2);
    lemma_half_mix(c0.r, c1.r);
    lemma_half_mix(c0.g, c1.g);
    lemma_half_mix(c0.b, c1.b);
    lemma_half_mix(c0.a, c1.a);
}

/// Mixing two values half and half gives their mean, rounded down.
pub proof fn lemma_half_mix(a: i64, b: i64)
    ensures
        mix(a as int, b as int, ONE as int / 2) == (a + b) / 2,
        i64::MIN <= (a + b) / 2 <= i64::MAX,
{
    assert((a * 500_000 + b * 500_000) / 1_000_000 == (a + b) / 2) by {
        let n = a + b;
        assert(a * 500_000 + b * 500_000 == 500_000 * n);
        assert((500_000 * n) / 1_000_000 == n / 2) by (nonlinear_arith);
    }
}

/// At or below the first key and above the last one, a gradient whose keys
/// ascend gives the colour of that end, exactly.
pub proof fn lemma_ends_clamp(stops: Seq<(Colour, i64)>, point: int)
    requires
        stops.len() > 0,
        forall|i: int, j: int| 0 <= i < j < stops.len() ==> stops[i].1 <= stops[j].1,
    ensures
        point <= stops[0].1 ==> gradient(stops, point) == stops[0].0,
        point > stops[stops.len() - 1].1 ==> gradient(stops, point) == stops[stops.len() - 1].0,
{
    let keys = colour_keys(stops);
    let last = stops.len() - 1;
    if point <= stops[0].1 {
        assert(is_upper(keys, point, 0));
        lemma_upper_unique(keys, point, 0);
        assert forall|i: int| !is_lower(keys, point, i) by {
            if is_lower(keys, point, i) {
                assert(keys[0] <= keys[i] || i == 0);
            }
        }
    }
    if point > stops[last].1 {
        assert(keys[last] < point);
        assert(is_lower(keys, point, last));
        lemma_lower_unique(keys, point, last);
        assert forall|j: int| !is_upper(keys, point, j) by {
            if is_upper(keys, point, j) {
                assert(keys[j] <= keys[last] || j == last);
            }
        }
    }
}

} // verus!
