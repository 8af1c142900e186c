use orderbook_trial_task::orderbook::{average_price_of_order_book, parse_price, AveragePrice, QueryError};

const UNIT: u64 = 100_000_000;

fn units(values: &[u64]) -> Vec<u64> {
    values.iter().map(|v| v * UNIT).collect()
}

fn mean_f32(a: &AveragePrice) -> f32 {
    (a.total_units as f32 / UNIT as f32) / a.levels as f32
}

#[test]
fn test_average_price() {
    let asks: Vec<f32> = vec![1f32, 2f32, 3f32, 4f32];
    let bids: Vec<f32> = vec![1f32, 2f32, 3f32, 4f32, 5f32];
    let sum = |values: &Vec<f32>| values.iter().fold(0f32, |acc, v| acc + v);
    let setup_avg_price = (sum(&asks) + sum(&bids)) / (asks.len() + bids.len()) as f32;

    let price = average_price_of_order_book(units(&[1, 2, 3, 4]), units(&[1, 2, 3, 4, 5]))
        .expect("a non-empty book has an average");
    assert_eq!(mean_f32(&price), setup_avg_price);
}

#[test]
fn average_is_sum_over_count() {
    let price = average_price_of_order_book(units(&[1, 2, 3, 4]), units(&[1, 2, 3, 4, 5])).unwrap();
    // (1 + 2 + 3 + 4) + (1 + 2 + 3 + 4 + 5) = 25 over 9 levels
    assert_eq!(price, AveragePrice { total_units: 25 * UNIT as u128, levels: 9 });
    assert_eq!(price.mean_units(), 277_777_777);
    assert_eq!(price.whole_and_fraction(), (2, 77_777_777));
    assert!((mean_f32(&price) - 2.7778).abs() < 0.0001);
}

#[test]
fn average_of_one_side_only() {
    let price = average_price_of_order_book(vec![], vec![5, 7]).unwrap();
    assert_eq!(price, AveragePrice { total_units: 12, levels: 2 });
    assert_eq!(price.mean_units(), 6);
}

#[test]
fn average_of_largest_prices() {
    let price = average_price_of_order_book(vec![u64::MAX, u64::MAX], vec![u64::MAX]).unwrap();
    assert_eq!(price.total_units, 3 * u64::MAX as u128);
    assert_eq!(price.mean_units(), u64::MAX as u128);
    assert_eq!(price.whole_and_fraction(), (184_467_440_737, 9_551_615));
}

#[test]
fn empty_book_is_an_error() {
    assert_eq!(average_price_of_order_book(vec![], vec![]), Err(QueryError::EmptyOrderBook));
}

#[test]
fn parses_whole_and_fractional_prices() {
    assert_eq!(parse_price("1"), Some(100_000_000));
    assert_eq!(parse_price("27123.45"), Some(2_712_345_000_000));
    assert_eq!(parse_price("27123.45000000"), Some(2_712_345_000_000));
    assert_eq!(parse_price("0.00000001"), Some(1));
    assert_eq!(parse_price("007.5"), Some(750_000_000));
}

#[test]
fn parses_largest_price() {
    assert_eq!(parse_price("184467440737.09551615"), Some(u64::MAX));
    assert_eq!(parse_price("184467440737.09551616"), None);
    assert_eq!(parse_price("184467440738"), None);
}

#[test]
fn rejects_text_that_is_no_price() {
    assert_eq!(parse_price(""), None);
    assert_eq!(parse_price(".5"), None);
    assert_eq!(parse_price("5."), None);
    assert_eq!(parse_price("1.2.3"), None);
    assert_eq!(parse_price("1.123456789"), None);
    assert_eq!(parse_price("-1"), None);
    assert_eq!(parse_price("1e5"), None);
    assert_eq!(parse_price(" 1"), None);
}
