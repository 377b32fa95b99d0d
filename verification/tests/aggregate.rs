use teller::aggregate::aggregate;
use teller::aggregate::aggregate_bucket;
use teller::aggregate::passes_filter;
use teller::aggregate::SignFilter;
use teller::bucket::MonthBucket;
use teller::client::TellerClientError;
use teller::client::Transaction;

fn transaction(amount: &str) -> Transaction {
    Transaction {
        description: String::new(),
        date: "2015-01-01".to_string(),
        counterparty: "SHOP".to_string(),
        amount: amount.to_string(),
    }
}

fn transactions(amounts: &[&str]) -> Vec<Transaction> {
    amounts.iter().map(|a| transaction(a)).collect()
}

fn month(label: &str, amounts: &[&str]) -> MonthBucket {
    MonthBucket { label: label.to_string(), transactions: transactions(amounts) }
}

#[test]
fn an_empty_bucket_sums_to_zero_under_every_filter() {
    let none = vec![];
    assert_eq!(Ok(0), aggregate_bucket(SignFilter::All, &none));
    assert_eq!(Ok(0), aggregate_bucket(SignFilter::DebitsOnly, &none));
    assert_eq!(Ok(0), aggregate_bucket(SignFilter::CreditsOnly, &none));
}

#[test]
fn the_filter_picks_the_amounts_by_their_sign() {
    let some = transactions(&["-10.00", "25.50", "-0.01", "0.00", "4.49"]);
    assert_eq!(Ok(1998), aggregate_bucket(SignFilter::All, &some));
    assert_eq!(Ok(-1001), aggregate_bucket(SignFilter::DebitsOnly, &some));
    assert_eq!(Ok(2999), aggregate_bucket(SignFilter::CreditsOnly, &some));
}

#[test]
fn zero_counts_only_where_everything_counts() {
    assert!(passes_filter(SignFilter::All, 0));
    assert!(!passes_filter(SignFilter::DebitsOnly, 0));
    assert!(!passes_filter(SignFilter::CreditsOnly, 0));
    assert!(passes_filter(SignFilter::DebitsOnly, -1));
    assert!(!passes_filter(SignFilter::DebitsOnly, 1));
    assert!(passes_filter(SignFilter::CreditsOnly, 1));
    assert!(!passes_filter(SignFilter::CreditsOnly, -1));
}

#[test]
fn one_amount_that_cannot_be_read_fails_the_total() {
    let some = transactions(&["-10.00", "ten pounds", "5.00"]);
    assert_eq!(Err(TellerClientError::DecodeError), aggregate_bucket(SignFilter::All, &some));
    assert_eq!(
        Err(TellerClientError::DecodeError),
        aggregate_bucket(SignFilter::DebitsOnly, &some)
    );
    let too_large = transactions(&["92233720368547758.08"]);
    assert_eq!(
        Err(TellerClientError::DecodeError),
        aggregate_bucket(SignFilter::CreditsOnly, &too_large)
    );
}

#[test]
fn a_total_beyond_sixty_four_bits_fails() {
    let large = transactions(&["92233720368547758.07", "0.01"]);
    assert_eq!(
        Err(TellerClientError::ArithmeticOverflow),
        aggregate_bucket(SignFilter::All, &large)
    );
    assert_eq!(Ok(0), aggregate_bucket(SignFilter::DebitsOnly, &large));
    let balanced = transactions(&["92233720368547758.07", "0.01", "-0.01"]);
    assert_eq!(Ok(i64::MAX), aggregate_bucket(SignFilter::All, &balanced));
    let small = transactions(&["-92233720368547758.08", "-0.01"]);
    assert_eq!(
        Err(TellerClientError::ArithmeticOverflow),
        aggregate_bucket(SignFilter::DebitsOnly, &small)
    );
}

#[test]
fn buckets_are_reduced_in_their_order() {
    let buckets = vec![
        month("01-2015", &["-23.97"]),
        month("02-2015", &[]),
        month("03-2015", &["100.00", "-40.00"]),
    ];
    assert_eq!(
        Ok(vec![
            ("01-2015".to_string(), -2397),
            ("02-2015".to_string(), 0),
            ("03-2015".to_string(), 6000)
        ]),
        aggregate(SignFilter::All, &buckets)
    );
    assert_eq!(
        Ok(vec![
            ("01-2015".to_string(), -2397),
            ("02-2015".to_string(), 0),
            ("03-2015".to_string(), -4000)
        ]),
        aggregate(SignFilter::DebitsOnly, &buckets)
    );
    assert_eq!(
        Ok(vec![
            ("01-2015".to_string(), 0),
            ("02-2015".to_string(), 0),
            ("03-2015".to_string(), 10000)
        ]),
        aggregate(SignFilter::CreditsOnly, &buckets)
    );
    assert_eq!(Ok(vec![]), aggregate(SignFilter::All, &vec![]));
}

#[test]
fn the_first_bucket_that_fails_decides_the_error() {
    let buckets = vec![
        month("01-2015", &["1.00"]),
        month("02-2015", &["92233720368547758.07", "0.01"]),
        month("03-2015", &["garbled"]),
    ];
    assert_eq!(
        Err(TellerClientError::ArithmeticOverflow),
        aggregate(SignFilter::All, &buckets)
    );
    assert_eq!(Err(TellerClientError::DecodeError), aggregate(SignFilter::DebitsOnly, &buckets));
}
