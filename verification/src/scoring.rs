//! How a delivered meal is held against an order.
//!
//! The toppings of the order are taken in their order. Each one claims the
//! first delivered topping of its category that is still unclaimed. What is
//! claimed is compared with what was asked for; what nobody claims counts as
//! wrong.
use crate::fixed::ONE;
use crate::geometry::least;
use crate::kinds::{Filling, Mood, Portion, Topping, BURNT, UNDERCOOKED};
use vstd::prelude::*;

verus! {

/// The square of the widest difference in cook level that still matters.
pub const WORST_SQUARE: i64 = 40_000_000_000;

/// What has been found out about a delivery so far.
pub struct Tally {
    /// What was delivered and not yet claimed.
    pub pool: Seq<Portion>,
    pub score: int,
    pub has_filling: bool,
    pub sick: bool,
    pub missing: int,
    pub wrong: int,
    pub burnt: int,
}

/// What a difference `d` in cook level takes off the score: twenty-five times
/// its square, and at most one whole point.
pub open spec fn penalty(d: int) -> int {
    25 * least(d * d, WORST_SQUARE as int) / 1_000_000
}

/// The points for a claimed topping: one, less the penalties of both sides.
pub open spec fn closeness(want: Portion, got: Portion) -> int {
    ONE - penalty(got.rare - want.rare) - penalty(got.done - want.done)
}

/// How many of the two sides of a topping are burnt.
pub open spec fn scorch(got: Portion) -> int {
    (if got.done > BURNT {
        1int
    } else {
        0int
    }) + (if got.rare > BURNT {
        1int
    } else {
        0int
    })
}

/// A sausage that is not cooked through.
pub open spec fn raw_sausage(got: Portion) -> bool {
    got.kind == Topping::Filling(Filling::Sausage) && got.rare < UNDERCOOKED
}

/// `i` is the first topping of the pool that can stand for `want`.
pub open spec fn is_first_match(pool: Seq<Portion>, want: Topping, i: int) -> bool {
    &&& 0 <= i < pool.len()
    &&& pool[i].kind.answers(want)
    &&& forall|j: int| 0 <= j < i ==> !(#[trigger] pool[j]).kind.answers(want)
}

/// Nothing in the pool can stand for `want`.
pub open spec fn no_match(pool: Seq<Portion>, want: Topping) -> bool {
    forall|j: int| 0 <= j < pool.len() ==> !(#[trigger] pool[j]).kind.answers(want)
}

/// The first topping of the pool that can stand for `want`, if there is one.
pub open spec fn first_match(pool: Seq<Portion>, want: Topping) -> Option<int> {
    if exists|i: int| is_first_match(pool, want, i) {
        Some(choose|i: int| is_first_match(pool, want, i))
    } else {
        None
    }
}

/// The tally before anything was claimed.
pub open spec fn opened(meal: Seq<Portion>) -> Tally {
    Tally {
        pool: meal,
        score: 0,
        has_filling: false,
        sick: false,
        missing: 0,
        wrong: 0,
        burnt: 0,
    }
}

/// The tally after `got` was claimed for `want` and taken out of the pool.
pub open spec fn claimed(t: Tally, want: Portion, got: Portion) -> Tally {
    match want.kind {
        Topping::Filling(filling) => {
            if got.kind == Topping::Filling(filling) {
                Tally {
                    has_filling: true,
                    sick: t.sick || raw_sausage(got),
                    burnt: t.burnt + scorch(got),
                    score: t.score + closeness(want, got),
                    ..t
                }
            } else if filling == Filling::VeggiePatty && got.rare < UNDERCOOKED {
                Tally { sick: true, ..t }
            } else {
                Tally { missing: t.missing + 1, wrong: t.wrong + 1, ..t }
            }
        },
        Topping::Onion => Tally {
            burnt: t.burnt + scorch(got),
            score: t.score + closeness(want, got),
            ..t
        },
        Topping::Condiment(_) => t,
    }
}

/// The tally after one topping of the order was looked for.
pub open spec fn served(t: Tally, want: Portion) -> Tally {
    match first_match(t.pool, want.kind) {
        Some(i) => claimed(Tally { pool: t.pool.remove(i), ..t }, want, t.pool[i]),
        None => Tally { missing: t.missing + 1, score: t.score - ONE, ..t },
    }
}

/// The tally after the first `k` toppings of the order were looked for.
pub open spec fn served_upto(meal: Seq<Portion>, order: Seq<Portion>, k: int) -> Tally
    decreases k,
{
    if k <= 0 {
        opened(meal)
    } else {
        served(served_upto(meal, order, k - 1), order[k - 1])
    }
}

/// The tally after the first `k` toppings that nobody claimed were counted.
pub open spec fn swept_upto(t: Tally, k: int) -> Tally
    decreases k,
{
    if k <= 0 {
        t
    } else {
        let before = swept_upto(t, k - 1);
        let got = t.pool[k - 1];
        Tally {
            wrong: before.wrong + 1,
            sick: before.sick || raw_sausage(got),
            burnt: before.burnt + scorch(got),
            ..before
        }
    }
}

/// The mood that a finished tally gives, for an order of `n` toppings.
pub open spec fn verdict(t: Tally, n: int) -> Mood {
    let faults = t.missing + t.wrong + t.burnt;
    if t.sick {
        Mood::Sick
    } else if !t.has_filling {
        Mood::Sad
    } else if 2 * t.score < -(ONE * n) || faults > 3 {
        Mood::Sad
    } else if 10 * t.score < ONE * n || faults > 0 {
        Mood::Neutral
    } else {
        Mood::Happy
    }
}

/// The finished tally of a delivery.
pub open spec fn tallied(order: Seq<Portion>, meal: Seq<Portion>) -> Tally {
    let t = served_upto(meal, order, order.len() as int);
    swept_upto(t, t.pool.len() as int)
}

/// The mood of a customer who ordered `order` and was handed `meal`.
pub open spec fn judged(order: Seq<Portion>, meal: Seq<Portion>) -> Mood {
    verdict(tallied(order, meal), order.len() as int)
}

/// What the difference between two cook levels takes off the score.
pub fn penalty_of(got: i64, want: i64) -> (p: i64)
    ensures
        p == penalty(got - want),
        0 <= p <= ONE,
{
    let d: i128 = got as i128 - want as i128;
    if d >= 200_000 || d <= -200_000 {
        assert(d * d >= WORST_SQUARE) by (nonlinear_arith)
            requires
                d >= 200_000 || d <= -200_000,
        ;
        ONE
    } else {
        assert(0 <= d * d < WORST_SQUARE) by (nonlinear_arith)
            requires
                -200_000 < d < 200_000,
        ;
        let square: i128 = d * d;
        (25 * square / 1_000_000) as i64
    }
}

/// The points for a claimed topping.
pub fn closeness_of(want: &Portion, got: &Portion) -> (c: i64)
    ensures
        c == closeness(*want, *got),
        -ONE <= c <= ONE,
{
    ONE - penalty_of(got.rare, want.rare) - penalty_of(got.done, want.done)
}

/// How many of the two sides of a topping are burnt.
pub fn scorch_of(got: &Portion) -> (n: i128)
    ensures
        n == scorch(*got),
        0 <= n <= 2,
{
    let a: i128 = if got.done > BURNT { 1 } else { 0 };
    let b: i128 = if got.rare > BURNT { 1 } else { 0 };
    a + b
}

/// Whether the topping is a sausage that is not cooked through.
pub fn is_raw_sausage(got: &Portion) -> (raw: bool)
    ensures
        raw == raw_sausage(*got),
{
    match got.kind {
        Topping::Filling(Filling::Sausage) => got.rare < UNDERCOOKED,
        _ => false,
    }
}

/// The place of the first topping in the pool that can stand for `want`.
pub fn find_match(pool: &Vec<Portion>, want: &Topping) -> (found: Option<usize>)
    ensures
        found matches Some(i) ==> is_first_match(pool@, *want, i as int),
        found is None ==> no_match(pool@, *want),
        found == match first_match(pool@, *want) {
            Some(i) => Some(i as usize),
            None => None,
        },
{
    let mut i: usize = 0;
    while i < pool.len()
        invariant
            i <= pool.len(),
            forall|j: int| 0 <= j < i ==> !(#[trigger] pool@[j]).kind.answers(*want),
        decreases pool.len() - i,
    {
        if pool[i].kind.matches_category(want) {
            proof {
                lemma_first_match_is(pool@, *want, i as int);
            }
            return Some(i);
        }
        i += 1;
    }
    proof {
        lemma_first_match_none(pool@, *want);
    }
    None
}

/// Where `i` is the first match, `first_match` names it.
pub proof fn lemma_first_match_is(pool: Seq<Portion>, want: Topping, i: int)
    requires
        is_first_match(pool, want, i),
    ensures
        first_match(pool, want) == Some(i),
{
    let c = choose|c: int| is_first_match(pool, want, c);
    assert(is_first_match(pool, want, c));
    if c < i {
        assert(!pool[c].kind.answers(want));
    }
    if i < c {
        assert(!pool[i].kind.answers(want));
    }
}

/// Where nothing matches, `first_match` names nothing.
pub proof fn lemma_first_match_none(pool: Seq<Portion>, want: Topping)
    requires
        no_match(pool, want),
    ensures
        first_match(pool, want) is None,
{
    if exists|i: int| is_first_match(pool, want, i) {
        let c = choose|c: int| is_first_match(pool, want, c);
        assert(!pool[c].kind.answers(want));
    }
}

/// The mood of a customer who ordered `order` and is handed `meal`.
pub fn judge(order: &Vec<Portion>, meal: &Vec<Portion>) -> (mood: Mood)
    ensures
        mood == judged(order@, meal@),
{
    let mut pool: Vec<Portion> = Vec::new();
    let mut c: usize = 0;
    while c < meal.len()
        invariant
            c <= meal.len(),
            pool@ == meal@.subrange(0, c as int),
        decreases meal.len() - c,
    {
        pool.push(meal[c]);
        assert(pool@ =~= meal@.subrange(0, c + 1));
        c += 1;
    }
    assert(pool@ =~= meal@);
    let mut score: i128 = 0;
    let mut has_filling = false;
    let mut sick = false;
    let mut missing: i128 = 0;
    let mut wrong: i128 = 0;
    let mut burnt: i128 = 0;
    let mut k: usize = 0;
    while k < order.len()
        invariant
            k <= order.len(),
            served_upto(meal@, order@, k as int) == (Tally {
                pool: pool@,
                score: score as int,
                has_filling,
                sick,
                missing: missing as int,
                wrong: wrong as int,
                burnt: burnt as int,
            }),
            -(k * ONE) <= score <= k * ONE,
            0 <= missing <= k,
            0 <= wrong <= k,
            0 <= burnt <= 2 * k,
        decreases order.len() - k,
    {
        let want = order[k];
        let ghost before = served_upto(meal@, order@, k as int);
        assert(served_upto(meal@, order@, k + 1) == served(before, want));
        match find_match(&pool, &want.kind) {
            Some(i) => {
                let got = pool.remove(i);
                match want.kind {
                    Topping::Filling(filling) => {
                        let same = match got.kind {
                            Topping::Filling(other) => other == filling,
                            _ => false,
                        };
                        if same {
                            has_filling = true;
                            if is_raw_sausage(&got) {
                                sick = true;
                            }
                            burnt = burnt + scorch_of(&got);
                            score = score + closeness_of(&want, &got) as i128;
                        } else if filling == Filling::VeggiePatty && got.rare < UNDERCOOKED {
                            sick = true;
                        } else {
                            missing = missing + 1;
                            wrong = wrong + 1;
                        }
                    },
                    Topping::Onion => {
                        burnt = burnt + scorch_of(&got);
                        score = score + closeness_of(&want, &got) as i128;
                    },
                    Topping::Condiment(_) => {},
                }
            },
            None => {
                missing = missing + 1;
                score = score - ONE as i128;
            },
        }
        k += 1;
    }
    let ghost served_all = served_upto(meal@, order@, order@.len() as int);
    let mut j: usize = 0;
    while j < pool.len()
        invariant
            j <= pool.len(),
            k == order.len(),
            served_all.pool == pool@,
            swept_upto(served_all, j as int) == (Tally {
                pool: pool@,
                score: score as int,
                has_filling,
                sick,
                missing: missing as int,
                wrong: wrong as int,
                burnt: burnt as int,
            }),
            -(k * ONE) <= score <= k * ONE,
            0 <= missing <= k,
            0 <= wrong <= k + j,
            0 <= burnt <= 2 * k + 2 * j,
        decreases pool.len() - j,
    {
        let got = pool[j];
        wrong = wrong + 1;
        if is_raw_sausage(&got) {
            sick = true;
        }
        burnt = burnt + scorch_of(&got);
        j += 1;
    }
    let n: i128 = order.len() as i128;
    let faults: i128 = missing + wrong + burnt;
    if sick {
        Mood::Sick
    } else if !has_filling {
        Mood::Sad
    } else if 2 * score < -(ONE as i128 * n) || faults > 3 {
        Mood::Sad
    } else if 10 * score < ONE as i128 * n || faults > 0 {
        Mood::Neutral
    } else {
        Mood::Happy
    }
}


/// How many of the first `k` toppings are fillings or onion: those that
/// score.
pub open spec fn hearty(order: Seq<Portion>, k: int) -> int
    decreases k,
{
    if k <= 0 {
        0
    } else if order[k - 1].kind is Condiment {
        hearty(order, k - 1)
    } else {
        hearty(order, k - 1) + 1
    }
}

/// Whether there is a filling among the first `k` toppings.
pub open spec fn any_filling(order: Seq<Portion>, k: int) -> bool
    decreases k,
{
    if k <= 0 {
        false
    } else {
        order[k - 1].kind is Filling || any_filling(order, k - 1)
    }
}

/// A topping that gives no cause for complaint: no side of a filling or of
/// onion is burnt, and a sausage is cooked through.
pub open spec fn well_done(p: Portion) -> bool {
    &&& !(p.kind is Condiment) ==> p.rare <= BURNT && p.done <= BURNT
    &&& !raw_sausage(p)
}

/// A filling or onion with a burnt side.
pub open spec fn charred(p: Portion) -> bool {
    !(p.kind is Condiment) && p.done > BURNT
}

/// The faults counted so far.
pub open spec fn faults(t: Tally) -> int {
    t.missing + t.wrong + t.burnt
}

proof fn lemma_any_filling(order: Seq<Portion>, k: int, i: int)
    requires
        0 <= i < k <= order.len(),
        order[i].kind is Filling,
    ensures
        any_filling(order, k),
    decreases k,
{
    if i < k - 1 {
        lemma_any_filling(order, k - 1, i);
    }
}

proof fn lemma_exact_meal_tally(order: Seq<Portion>, k: int)
    requires
        0 <= k <= order.len(),
        forall|i: int| 0 <= i < order.len() ==> well_done(#[trigger] order[i]),
    ensures
        served_upto(order, order, k) == (Tally {
            pool: order.subrange(k, order.len() as int),
            score: ONE * hearty(order, k),
            has_filling: any_filling(order, k),
            sick: false,
            missing: 0,
            wrong: 0,
            burnt: 0,
        }),
    decreases k,
{
    if k == 0 {
        assert(order.subrange(0, order.len() as int) =~= order);
    } else {
        lemma_exact_meal_tally(order, k - 1);
        let before = served_upto(order, order, k - 1);
        let want = order[k - 1];
        assert(before.pool[0] == want);
        assert(want.kind.answers(want.kind));
        assert(is_first_match(before.pool, want.kind, 0));
        lemma_first_match_is(before.pool, want.kind, 0);
        assert(before.pool.remove(0) =~= order.subrange(k, order.len() as int));
        assert(well_done(want));
        assert(penalty(0) == 0);
        assert(closeness(want, want) == ONE);
        assert(scorch(want) == 0 || want.kind is Condiment);
    }
}

/// A meal that is the order itself, topping by topping and cook level by
/// cook level, makes the customer happy: where no filling or onion of it is
/// burnt and no sausage is raw, where it holds a filling, and where at least
/// a tenth of its toppings are fillings or onion.
pub proof fn lemma_exact_meal_is_happy(order: Seq<Portion>)
    requires
        forall|i: int| 0 <= i < order.len() ==> well_done(#[trigger] order[i]),
        exists|i: int| 0 <= i < order.len() && (#[trigger] order[i]).kind is Filling,
        10 * hearty(order, order.len() as int) >= order.len(),
    ensures
        judged(order, order) == Mood::Happy,
{
    let n = order.len() as int;
    lemma_exact_meal_tally(order, n);
    let i = choose|i: int| 0 <= i < order.len() && (#[trigger] order[i]).kind is Filling;
    lemma_any_filling(order, n, i);
    let t = served_upto(order, order, n);
    assert(t.pool.len() == 0);
    assert(swept_upto(t, 0) == t);
}

/// What holds of a tally once a charred topping was delivered: it is still
/// in the pool, or it has made the customer sick, or a fault was counted.
pub open spec fn noticed(t: Tally, b: Portion) -> bool {
    &&& t.missing >= 0
    &&& t.wrong >= 0
    &&& t.burnt >= 0
    &&& (t.pool.contains(b) || t.sick || faults(t) > 0)
}

proof fn lemma_served_notices(t: Tally, want: Portion, b: Portion)
    requires
        noticed(t, b),
        charred(b),
    ensures
        noticed(served(t, want), b),
{
    if first_match(t.pool, want.kind) is Some {
        let j = first_match(t.pool, want.kind)->Some_0;
        assert(is_first_match(t.pool, want.kind, j));
        let got = t.pool[j];
        let rest = t.pool.remove(j);
        assert(scorch(got) >= 0);
        if t.pool.contains(b) && got != b {
            let m = choose|m: int| 0 <= m < t.pool.len() && t.pool[m] == b;
            if m < j {
                assert(rest[m] == b);
            } else {
                assert(rest[m - 1] == b);
            }
            assert(rest.contains(b));
        }
        if got == b {
            assert(scorch(got) >= 1);
        }
    }
}

proof fn lemma_served_upto_notices(meal: Seq<Portion>, order: Seq<Portion>, k: int, i: int)
    requires
        0 <= i < meal.len(),
        charred(meal[i]),
        0 <= k,
    ensures
        noticed(served_upto(meal, order, k), meal[i]),
    decreases k,
{
    if k == 0 {
        assert(meal.contains(meal[i]));
    } else {
        lemma_served_upto_notices(meal, order, k - 1, i);
        lemma_served_notices(served_upto(meal, order, k - 1), order[k - 1], meal[i]);
    }
}

proof fn lemma_swept_notices(t: Tally, b: Portion, k: int)
    requires
        noticed(t, b),
        charred(b),
        0 <= k <= t.pool.len(),
    ensures
        swept_upto(t, k).missing >= 0,
        swept_upto(t, k).wrong >= k,
        swept_upto(t, k).burnt >= 0,
        swept_upto(t, k).pool == t.pool,
        swept_upto(t, k).has_filling == t.has_filling,
        t.sick ==> swept_upto(t, k).sick,
        faults(swept_upto(t, k)) >= faults(t) + k,
    decreases k,
{
    if k > 0 {
        lemma_swept_notices(t, b, k - 1);
        assert(scorch(t.pool[k - 1]) >= 0);
    }
}

/// A meal with a burnt filling or burnt onion never makes a customer happy,
/// whatever was ordered.
pub proof fn lemma_burnt_meal_never_happy(order: Seq<Portion>, meal: Seq<Portion>, i: int)
    requires
        0 <= i < meal.len(),
        charred(meal[i]),
    ensures
        judged(order, meal) != Mood::Happy,
{
    let b = meal[i];
    lemma_served_upto_notices(meal, order, order.len() as int, i);
    let t = served_upto(meal, order, order.len() as int);
    lemma_swept_notices(t, b, t.pool.len() as int);
    if t.pool.contains(b) {
        assert(t.pool.len() > 0);
    }
}

/// A single sausage that is burnt on both sides, handed to a customer who
/// asked for a single sausage done just right, leaves the customer sad.
pub proof fn lemma_burnt_sausage_makes_sad(want: Portion, got: Portion)
    requires
        want.kind == Topping::Filling(Filling::Sausage),
        got.kind == Topping::Filling(Filling::Sausage),
        want.rare == ONE,
        want.done == ONE,
        got.rare >= BURNT + 200_000,
        got.done >= BURNT + 200_000,
    ensures
        judged(seq![want], seq![got]) == Mood::Sad,
{
    let order = seq![want];
    let meal = seq![got];
    assert(served_upto(meal, order, 0) == opened(meal));
    assert(is_first_match(meal, want.kind, 0));
    lemma_first_match_is(meal, want.kind, 0);
    let t1 = served_upto(meal, order, 1);
    assert(t1 == served(opened(meal), want));
    assert(meal.remove(0) =~= Seq::<Portion>::empty());
    let d1 = got.rare - want.rare;
    let d2 = got.done - want.done;
    assert(d1 * d1 >= WORST_SQUARE) by (nonlinear_arith)
        requires
            d1 >= 200_000,
    ;
    assert(d2 * d2 >= WORST_SQUARE) by (nonlinear_arith)
        requires
            d2 >= 200_000,
    ;
    assert(penalty(d1) == ONE);
    assert(penalty(d2) == ONE);
    assert(t1.score == -ONE);
    assert(t1.pool.len() == 0);
    assert(swept_upto(t1, 0) == t1);
}

} // verus!
