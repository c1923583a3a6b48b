use sizzle::kinds::{Condiment, Filling, Mood, Portion, Topping};
use sizzle::scoring::{closeness_of, find_match, is_raw_sausage, judge, penalty_of, scorch_of};

fn sausage(rare: i64, done: i64) -> Portion {
    Portion { kind: Topping::Filling(Filling::Sausage), rare, done }
}

fn patty(rare: i64, done: i64) -> Portion {
    Portion { kind: Topping::Filling(Filling::VeggiePatty), rare, done }
}

fn onion(rare: i64, done: i64) -> Portion {
    Portion { kind: Topping::Onion, rare, done }
}

fn squirt(c: Condiment) -> Portion {
    Portion { kind: Topping::Condiment(c), rare: 0, done: 0 }
}

#[test]
fn penalty_is_twenty_five_times_the_square() {
    assert_eq!(penalty_of(1_100_000, 1_000_000), 250_000);
    assert_eq!(penalty_of(1_000_000, 1_100_000), 250_000);
    assert_eq!(penalty_of(1_000_000, 1_000_000), 0);
    assert_eq!(penalty_of(1_150_000, 1_000_000), 562_500);
    assert_eq!(penalty_of(1_000_001, 1_000_000), 0);
    assert_eq!(penalty_of(1_000_300, 1_000_000), 2);
}

#[test]
fn penalty_is_capped_at_one() {
    assert_eq!(penalty_of(1_200_000, 1_000_000), 1_000_000);
    assert_eq!(penalty_of(1_199_999, 1_000_000), 999_990);
    assert_eq!(penalty_of(5_000_000, 1_000_000), 1_000_000);
    assert_eq!(penalty_of(i64::MAX, i64::MIN), 1_000_000);
    assert_eq!(penalty_of(i64::MIN, i64::MAX), 1_000_000);
}

#[test]
fn closeness_takes_both_sides_into_account() {
    let want = sausage(1_000_000, 1_000_000);
    assert_eq!(closeness_of(&want, &sausage(1_000_000, 1_000_000)), 1_000_000);
    assert_eq!(closeness_of(&want, &sausage(1_000_000, 1_100_000)), 750_000);
    assert_eq!(closeness_of(&want, &sausage(900_000, 1_100_000)), 500_000);
    assert_eq!(closeness_of(&want, &sausage(0, 3_000_000)), -1_000_000);
}

#[test]
fn scorch_counts_the_burnt_sides() {
    assert_eq!(scorch_of(&sausage(1_000_000, 1_400_000)), 0);
    assert_eq!(scorch_of(&sausage(1_000_000, 1_400_001)), 1);
    assert_eq!(scorch_of(&sausage(1_500_000, 1_600_000)), 2);
}

#[test]
fn only_a_sausage_can_be_raw() {
    assert!(is_raw_sausage(&sausage(699_999, 1_000_000)));
    assert!(!is_raw_sausage(&sausage(700_000, 1_000_000)));
    assert!(!is_raw_sausage(&patty(0, 0)));
    assert!(!is_raw_sausage(&onion(0, 0)));
}

#[test]
fn find_match_takes_the_first_of_the_category() {
    let pool = vec![
        squirt(Condiment::Mustard),
        patty(1_000_000, 1_000_000),
        sausage(1_000_000, 1_000_000),
        squirt(Condiment::Sauce),
    ];
    assert_eq!(find_match(&pool, &Topping::Filling(Filling::Sausage)), Some(1));
    assert_eq!(find_match(&pool, &Topping::Filling(Filling::VeggiePatty)), Some(1));
    assert_eq!(find_match(&pool, &Topping::Condiment(Condiment::Sauce)), Some(3));
    assert_eq!(find_match(&pool, &Topping::Condiment(Condiment::Mustard)), Some(0));
    assert_eq!(find_match(&pool, &Topping::Onion), None);
}

#[test]
fn burnt_sausage_for_a_perfect_one_is_sad() {
    let order = vec![sausage(1_000_000, 1_000_000)];
    let meal = vec![sausage(1_600_000, 1_600_000)];
    assert_eq!(judge(&order, &meal), Mood::Sad);
}

#[test]
fn exact_meal_is_happy() {
    let order = vec![
        sausage(1_000_000, 1_000_000),
        sausage(1_000_000, 1_000_000),
        onion(900_000, 900_000),
        squirt(Condiment::Sauce),
        squirt(Condiment::Mustard),
    ];
    assert_eq!(judge(&order, &order.clone()), Mood::Happy);
}

#[test]
fn exact_meal_of_one_filling_and_two_condiments_is_happy() {
    let order = vec![
        patty(1_200_000, 1_200_000),
        squirt(Condiment::Sauce),
        squirt(Condiment::Mustard),
    ];
    assert_eq!(judge(&order, &order.clone()), Mood::Happy);
}

#[test]
fn slightly_off_is_still_happy() {
    let order = vec![sausage(1_000_000, 1_000_000)];
    assert_eq!(judge(&order, &vec![sausage(1_100_000, 1_100_000)]), Mood::Happy);
}

#[test]
fn further_off_is_neutral_and_then_sad() {
    let order = vec![sausage(1_000_000, 1_000_000)];
    assert_eq!(judge(&order, &vec![sausage(1_150_000, 1_150_000)]), Mood::Neutral);
    assert_eq!(judge(&order, &vec![sausage(1_190_000, 1_190_000)]), Mood::Sad);
}

#[test]
fn score_thresholds_are_strict() {
    let order = vec![sausage(1_000_000, 1_000_000), squirt(Condiment::Sauce)];
    let meal = |level: i64| vec![sausage(1_000_000, level), squirt(Condiment::Sauce)];
    assert_eq!(judge(&order, &meal(1_178_885)), Mood::Happy);
    assert_eq!(judge(&order, &meal(1_178_886)), Mood::Neutral);
}

#[test]
fn raw_sausage_makes_sick() {
    let order = vec![sausage(1_000_000, 1_000_000)];
    assert_eq!(judge(&order, &vec![sausage(600_000, 1_000_000)]), Mood::Sick);
    assert_eq!(judge(&order, &vec![sausage(700_000, 1_000_000)]), Mood::Neutral);
}

#[test]
fn raw_sausage_that_was_not_asked_for_makes_sick() {
    let order = vec![patty(1_000_000, 1_000_000)];
    let meal = vec![patty(1_000_000, 1_000_000), sausage(100_000, 100_000)];
    assert_eq!(judge(&order, &meal), Mood::Sick);
}

#[test]
fn raw_patty_does_not_make_sick() {
    let order = vec![patty(1_000_000, 1_000_000)];
    assert_eq!(judge(&order, &vec![patty(0, 0)]), Mood::Sad);
}

#[test]
fn raw_sausage_for_a_patty_makes_sick() {
    let order = vec![patty(1_000_000, 1_000_000)];
    assert_eq!(judge(&order, &vec![sausage(500_000, 1_000_000)]), Mood::Sick);
}

#[test]
fn cooked_sausage_for_a_patty_is_the_wrong_filling() {
    let order = vec![patty(1_000_000, 1_000_000)];
    assert_eq!(judge(&order, &vec![sausage(1_000_000, 1_000_000)]), Mood::Sad);
}

#[test]
fn patty_for_a_sausage_is_the_wrong_filling() {
    let order = vec![sausage(1_000_000, 1_000_000)];
    assert_eq!(judge(&order, &vec![patty(1_000_000, 1_000_000)]), Mood::Sad);
}

#[test]
fn wrong_filling_beside_a_right_one_is_neutral() {
    let order = vec![sausage(1_000_000, 1_000_000), sausage(1_000_000, 1_000_000)];
    let meal = vec![sausage(1_000_000, 1_000_000), patty(1_000_000, 1_000_000)];
    assert_eq!(judge(&order, &meal), Mood::Neutral);
}

#[test]
fn missing_condiment_is_neutral() {
    let order = vec![sausage(1_000_000, 1_000_000), squirt(Condiment::Sauce)];
    assert_eq!(judge(&order, &vec![sausage(1_000_000, 1_000_000)]), Mood::Neutral);
}

#[test]
fn other_condiment_counts_as_missing_and_as_wrong() {
    let order = vec![sausage(1_000_000, 1_000_000), squirt(Condiment::Sauce)];
    let meal = vec![sausage(1_000_000, 1_000_000), squirt(Condiment::Mustard)];
    assert_eq!(judge(&order, &meal), Mood::Neutral);
}

#[test]
fn unasked_extra_is_neutral() {
    let order = vec![sausage(1_000_000, 1_000_000)];
    let meal = vec![sausage(1_000_000, 1_000_000), onion(1_000_000, 1_000_000)];
    assert_eq!(judge(&order, &meal), Mood::Neutral);
}

#[test]
fn more_than_three_faults_are_sad() {
    let order = vec![sausage(1_000_000, 1_000_000)];
    let meal = vec![
        sausage(1_000_000, 1_000_000),
        onion(1_000_000, 1_000_000),
        squirt(Condiment::Sauce),
        squirt(Condiment::Mustard),
    ];
    assert_eq!(judge(&order, &meal), Mood::Neutral);
    let mut more = meal.clone();
    more.push(onion(1_000_000, 1_000_000));
    assert_eq!(judge(&order, &more), Mood::Sad);
}

#[test]
fn no_filling_at_all_is_sad() {
    let order = vec![sausage(1_000_000, 1_000_000)];
    assert_eq!(judge(&order, &Vec::new()), Mood::Sad);
    assert_eq!(judge(&Vec::new(), &Vec::new()), Mood::Sad);
    let onion_only = vec![onion(1_000_000, 1_000_000)];
    assert_eq!(judge(&onion_only, &onion_only.clone()), Mood::Sad);
}

#[test]
fn burnt_onion_is_counted() {
    let order = vec![sausage(1_000_000, 1_000_000), onion(1_300_000, 1_300_000)];
    let meal = vec![sausage(1_000_000, 1_000_000), onion(1_300_000, 1_450_000)];
    assert_eq!(judge(&order, &meal), Mood::Neutral);
}

#[test]
fn two_sausages_in_the_other_order_are_matched_crosswise() {
    let order = vec![sausage(800_000, 800_000), sausage(1_200_000, 1_200_000)];
    let meal = vec![sausage(1_200_000, 1_200_000), sausage(800_000, 800_000)];
    assert_eq!(judge(&order, &meal), Mood::Sad);
    assert_eq!(judge(&order, &order.clone()), Mood::Happy);
}
