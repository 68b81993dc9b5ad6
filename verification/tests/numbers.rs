use polymarket_tracker::number::are_comparable;
use polymarket_tracker::number::greatest_of;
use polymarket_tracker::number::least_of;
use polymarket_tracker::number::Number;
use polymarket_tracker::number::HALF_BITS;
use polymarket_tracker::number::WIN_PRICE_BITS;
use polymarket_tracker::number::ZERO_BITS;

fn number(x: f64) -> Number {
    Number::from_bits(x.to_bits())
}

fn readings(xs: &[f64]) -> Vec<Option<Number>> {
    let mut all = Vec::new();
    for x in xs {
        all.push(Some(number(*x)));
    }
    all
}

#[test]
fn comparisons_agree_with_floats() {
    let samples = [
        0.0,
        -0.0,
        1.0,
        -1.0,
        0.5,
        0.75,
        0.8,
        0.95,
        0.9500000000000001,
        1e-320,
        -1e-320,
        1e300,
        -1e300,
        f64::MIN_POSITIVE,
        f64::MAX,
        f64::MIN,
        f64::INFINITY,
        f64::NEG_INFINITY,
        f64::NAN,
        -f64::NAN,
    ];
    for a in samples {
        for b in samples {
            assert_eq!(number(a).is_less_than(&number(b)), a < b, "{} < {}", a, b);
        }
        assert_eq!(number(a).has_value(), !a.is_nan());
    }
}

#[test]
fn constants_are_the_numbers_they_name() {
    assert_eq!(f64::from_bits(WIN_PRICE_BITS), 0.95);
    assert_eq!(f64::from_bits(HALF_BITS), 0.5);
    assert_eq!(f64::from_bits(ZERO_BITS), 0.0);
}

#[test]
fn least_and_greatest_of_readings() {
    let all = readings(&[0.4, 0.2, 0.9, 0.2]);
    assert_eq!(least_of(&all), Some(number(0.2)));
    assert_eq!(greatest_of(&all), Some(number(0.9)));
}

#[test]
fn unread_texts_are_passed_over() {
    let all = vec![None, Some(number(0.7)), None, Some(number(0.3)), None];
    assert_eq!(least_of(&all), Some(number(0.3)));
    assert_eq!(greatest_of(&all), Some(number(0.7)));
    let none = vec![None, None];
    assert_eq!(least_of(&none), None);
    assert_eq!(greatest_of(&none), None);
    assert_eq!(least_of(&Vec::new()), None);
}

#[test]
fn ties_go_to_the_first_least_and_the_last_greatest() {
    let all = readings(&[0.0, -0.0]);
    assert_eq!(least_of(&all), Some(number(0.0)));
    assert_eq!(greatest_of(&all), Some(number(-0.0)));
}

#[test]
fn readings_without_value_are_comparable_only_alone() {
    assert!(are_comparable(&readings(&[f64::NAN])));
    assert!(!are_comparable(&readings(&[f64::NAN, 0.5])));
    assert!(are_comparable(&readings(&[0.5, 0.6])));
    assert!(are_comparable(&vec![None, Some(number(f64::NAN)), None]));
    assert!(are_comparable(&Vec::new()));
}
