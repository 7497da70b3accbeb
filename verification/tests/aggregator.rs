use ireina::datasources::aggregator::{
    aggregate, aggregate_of, can_aggregate, try_aggregate, Answers, MergeError,
};
use ireina::datasources::{Aggregator, TickerData, TickerDataSource};
use ireina::decimal::Price;
use ireina::median::MeanOutOfRange;

fn price(text: &str) -> Price {
    Price::parse(text).unwrap()
}

fn sample(last: Option<&str>, prev: Option<&str>, errors: &[&str]) -> TickerData {
    TickerData {
        last_price: last.map(price),
        prev_price: prev.map(price),
        insufficient_data: last.is_none(),
        errors: errors.iter().map(|e| e.to_string()).collect(),
    }
}

fn largest() -> Price {
    Price::new(false, u32::MAX, u32::MAX, u32::MAX, 0).unwrap()
}

#[test]
fn no_members_give_no_prices_and_too_little() {
    let answer = aggregate(&vec![]);
    assert_eq!(
        answer,
        TickerData { last_price: None, prev_price: None, insufficient_data: true, errors: vec![] }
    );
}

#[test]
fn two_of_three_are_too_few() {
    let samples = vec![
        sample(Some("10"), Some("9"), &[]),
        sample(None, None, &["down"]),
        sample(Some("12"), Some("11"), &[]),
    ];
    let answer = aggregate(&samples);
    assert!(answer.insufficient_data);
    assert_eq!(answer.last_price, Some(price("11")));
    assert_eq!(answer.prev_price, Some(price("10")));
    assert_eq!(answer.errors, vec!["down".to_string()]);
}

#[test]
fn three_of_three_are_enough() {
    let samples = vec![
        sample(Some("10"), None, &[]),
        sample(Some("30"), None, &[]),
        sample(Some("20"), None, &[]),
    ];
    let answer = aggregate(&samples);
    assert!(!answer.insufficient_data);
    assert_eq!(answer.last_price, Some(price("20")));
    assert_eq!(answer.prev_price, None);
}

#[test]
fn four_of_five_are_enough() {
    let samples = vec![
        sample(Some("1"), None, &[]),
        sample(Some("2"), None, &[]),
        sample(None, None, &["timeout"]),
        sample(Some("8"), None, &[]),
        sample(Some("9"), None, &[]),
    ];
    let answer = aggregate(&samples);
    assert!(!answer.insufficient_data);
    assert_eq!(answer.last_price, Some(price("5")));
}

#[test]
fn two_of_five_are_too_few_and_three_are_enough() {
    let none = sample(None, None, &[]);
    let some = sample(Some("1"), None, &[]);
    let two = vec![some.clone(), none.clone(), some.clone(), none.clone(), none.clone()];
    assert!(aggregate(&two).insufficient_data);
    let three = vec![some.clone(), none.clone(), some.clone(), none.clone(), some.clone()];
    assert!(!aggregate(&three).insufficient_data);
}

#[test]
fn both_of_two_are_enough_and_one_is_not() {
    let both = vec![sample(Some("1"), None, &[]), sample(Some("2"), None, &[])];
    assert!(!aggregate(&both).insufficient_data);
    let one = vec![sample(Some("1"), None, &[]), sample(None, None, &[])];
    assert!(aggregate(&one).insufficient_data);
    let single = vec![sample(Some("1"), None, &[])];
    assert!(!aggregate(&single).insufficient_data);
}

#[test]
fn the_members_flags_do_not_count() {
    let mut doubtful = sample(Some("4"), None, &[]);
    doubtful.insufficient_data = true;
    let answer = aggregate(&vec![doubtful]);
    assert!(!answer.insufficient_data);
}

#[test]
fn latest_and_previous_prices_are_gathered_apart() {
    let samples = vec![
        sample(Some("10"), None, &[]),
        sample(None, Some("7"), &[]),
        sample(Some("20"), Some("9"), &[]),
        sample(Some("40"), Some("8"), &[]),
    ];
    let answer = aggregate(&samples);
    assert_eq!(answer.last_price, Some(price("20")));
    assert_eq!(answer.prev_price, Some(price("8")));
    assert!(!answer.insufficient_data);
}

#[test]
fn errors_come_in_the_members_order_and_are_all_kept() {
    let samples = vec![
        sample(None, None, &["a", "b"]),
        sample(Some("1"), None, &[]),
        sample(None, None, &["a"]),
        sample(None, None, &["c", "a"]),
    ];
    let answer = aggregate(&samples);
    let expected: Vec<String> = ["a", "b", "a", "c", "a"].iter().map(|e| e.to_string()).collect();
    assert_eq!(answer.errors, expected);
}

#[test]
fn a_mean_beyond_the_range_is_reported() {
    let huge = TickerData {
        last_price: Some(largest()),
        prev_price: None,
        insufficient_data: false,
        errors: vec![],
    };
    let samples = vec![huge.clone(), huge.clone()];
    assert!(!can_aggregate(&samples));
    assert_eq!(try_aggregate(&samples), Err(MeanOutOfRange));
    let odd = vec![huge.clone(), huge.clone(), huge];
    assert!(can_aggregate(&odd));
    assert_eq!(try_aggregate(&odd).unwrap().last_price, Some(largest()));
}

#[test]
fn try_aggregate_agrees_with_aggregate() {
    let samples = vec![sample(Some("3"), Some("1"), &["x"]), sample(Some("5"), Some("2"), &[])];
    assert_eq!(try_aggregate(&samples), Ok(aggregate(&samples)));
    assert_eq!(aggregate(&samples).last_price, Some(price("4")));
}

#[test]
fn an_aggregate_can_be_a_member() {
    let inner = aggregate(&vec![sample(Some("10"), None, &["e1"]), sample(Some("20"), None, &[])]);
    let outer = aggregate(&vec![inner, sample(Some("5"), None, &["e2"])]);
    assert_eq!(outer.last_price, Some(price("10")));
    assert_eq!(outer.errors, vec!["e1".to_string(), "e2".to_string()]);
    assert!(!outer.insufficient_data);
}

#[test]
fn an_aggregator_keeps_its_members_and_merges_their_answers() {
    let aggregator = Aggregator::new(vec!["first", "second", "third"]);
    assert_eq!(aggregator.len(), 3);
    assert_eq!(aggregator.sources(), &vec!["first", "second", "third"]);
    let samples = vec![
        sample(Some("1"), None, &[]),
        sample(Some("2"), None, &[]),
        sample(Some("9"), None, &[]),
    ];
    assert_eq!(aggregator.merge(&samples), Ok(aggregate(&samples)));
    assert_eq!(aggregator.merge(&samples).unwrap().last_price, Some(price("2")));
}

#[test]
fn an_aggregator_refuses_a_wrong_number_of_answers() {
    let aggregator = Aggregator::new(vec![1u8, 2u8]);
    assert_eq!(aggregator.merge(&vec![sample(Some("1"), None, &[])]), Err(MergeError::WrongCount));
    assert_eq!(aggregator.merge(&vec![]), Err(MergeError::WrongCount));
}

#[test]
fn an_aggregator_reports_a_mean_beyond_the_range() {
    let huge = TickerData {
        last_price: None,
        prev_price: Some(largest()),
        insufficient_data: true,
        errors: vec![],
    };
    let aggregator = Aggregator::new(vec![(), ()]);
    assert_eq!(aggregator.merge(&vec![huge.clone(), huge]), Err(MergeError::MeanOutOfRange));
}

#[test]
fn an_aggregator_without_members_answers_with_too_little() {
    let aggregator: Aggregator<u8> = Aggregator::new(vec![]);
    let answer = aggregator.merge(&vec![]).unwrap();
    assert!(answer.insufficient_data);
    assert_eq!(answer.last_price, None);
    assert_eq!(answer.prev_price, None);
    assert!(answer.errors.is_empty());
}

#[test]
fn answers_are_taken_where_their_medians_can_be_held() {
    let samples = vec![sample(Some("1"), None, &["e"]), sample(Some("2"), Some("3"), &[])];
    let answers = Answers::new(samples.clone()).unwrap();
    assert_eq!(answers.samples(), &samples);
    let huge = TickerData {
        last_price: Some(largest()),
        prev_price: None,
        insufficient_data: false,
        errors: vec![],
    };
    assert_eq!(Answers::new(vec![huge.clone(), huge]).err(), Some(MeanOutOfRange));
}

#[test]
fn an_aggregator_is_a_source_that_keeps_nothing() {
    let mut aggregator = Aggregator::new(vec!["a", "b", "c"]);
    assert_eq!(aggregator.cached(0), None);
    let samples = vec![
        sample(Some("10"), Some("9"), &[]),
        sample(None, None, &["down"]),
        sample(Some("12"), Some("11"), &[]),
    ];
    let answer = aggregator.get_ticker_data(5, &Answers::new(samples.clone()).unwrap());
    assert_eq!(answer, aggregate(&samples));
    assert!(answer.insufficient_data);
    assert_eq!(aggregator.cached(5), None);
    assert_eq!(aggregator.cached(6), None);
    assert_eq!(aggregator.sources(), &vec!["a", "b", "c"]);
}

#[test]
fn a_member_without_an_answer_counts_as_one_that_reports_nothing() {
    let mut aggregator = Aggregator::new(vec![(), (), ()]);
    let samples = vec![sample(Some("1"), None, &[]), sample(Some("3"), None, &[])];
    let answer = aggregator.get_ticker_data(0, &Answers::new(samples.clone()).unwrap());
    assert!(answer.insufficient_data);
    assert_eq!(answer.last_price, Some(price("2")));
    assert_eq!(answer, aggregate_of(3, &samples));
    assert!(!aggregate_of(2, &samples).insufficient_data);
    assert!(aggregate_of(0, &samples).insufficient_data);
}

#[test]
fn aggregators_answer_in_tiers() {
    let mut metals = Aggregator::new(vec!["futures", "spot"]);
    let mut all = Aggregator::new(vec!["metals", "other"]);
    let inner = metals.get_ticker_data(
        1,
        &Answers::new(vec![sample(Some("2300"), None, &[]), sample(None, None, &["spot: down"])])
            .unwrap(),
    );
    assert!(inner.insufficient_data);
    let outer = all.get_ticker_data(
        2,
        &Answers::new(vec![inner, sample(Some("2310"), None, &["other: slow"])]).unwrap(),
    );
    assert_eq!(outer.last_price, Some(price("2305")));
    assert!(!outer.insufficient_data);
    assert_eq!(outer.errors, vec!["spot: down".to_string(), "other: slow".to_string()]);
}
