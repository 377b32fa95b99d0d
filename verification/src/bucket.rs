//! Grouping of transactions by calendar month.
//!
//! A range of dates is cut into its calendar months, one bucket for each,
//! whether or not anything happened in it.

use vstd::prelude::*;
use vstd::string::*;
use crate::client::Transaction;
use crate::client::parse_utc_date_from_transaction;
use crate::date::Date;
use crate::date::DateView;
use crate::date::month_key_text;

verus! {

/// The transactions of one calendar month, under the label of that month.
#[derive(Debug, Clone)]
pub struct MonthBucket {
    pub label: String,
    pub transactions: Vec<Transaction>,
}

/// The number of calendar months that the range from `from` to `to`
/// touches; none where `to` lies in an earlier month than `from`.
pub open spec fn months_spanned(from: DateView, to: DateView) -> int {
    if from.month_index() <= to.month_index() {
        to.month_index() - from.month_index() + 1
    } else {
        0
    }
}

/// The label of the month with the given index, counted from January of the
/// year zero.
pub open spec fn month_key_of_index(index: int) -> Seq<char> {
    month_key_text(index / 12, index % 12 + 1)
}

/// The label of the month in which the transaction falls, where its date can
/// be read.
pub open spec fn transaction_key(t: Transaction) -> Option<Seq<char>> {
    match t.day() {
        Some(day) => Some(month_key_text(day.year, day.month)),
        None => None,
    }
}

/// The transactions whose month label is `key`, in their order.
pub open spec fn with_key(transactions: Seq<Transaction>, key: Seq<char>) -> Seq<Transaction>
    decreases transactions.len(),
{
    if transactions.len() == 0 {
        Seq::empty()
    } else if transaction_key(transactions.last()) == Some(key) {
        with_key(transactions.drop_last(), key).push(transactions.last())
    } else {
        with_key(transactions.drop_last(), key)
    }
}

/// The month label of each transaction, none where its date cannot be read.
fn month_keys(transactions: &Vec<Transaction>) -> (keys: Vec<Option<String>>)
    ensures
        keys.len() == transactions.len(),
        forall|i: int|
            0 <= i < keys.len() ==> match (#[trigger] keys[i]) {
                Some(key) => transaction_key(transactions[i]) == Some(key@),
                None => transaction_key(transactions[i]) is None,
            },
{
    let mut keys: Vec<Option<String>> = Vec::new();
    let mut i: usize = 0;
    while i < transactions.len()
        invariant
            i <= transactions.len(),
            keys.len() == i,
            forall|k: int|
                0 <= k < i ==> match (#[trigger] keys[k]) {
                    Some(key) => transaction_key(transactions[k]) == Some(key@),
                    None => transaction_key(transactions[k]) is None,
                },
        decreases transactions.len() - i,
    {
        let key = match parse_utc_date_from_transaction(&transactions[i]) {
            Some(day) => Some(day.month_key()),
            None => None,
        };
        keys.push(key);
        i += 1;
    }
    keys
}

/// The transactions whose month label is `label`, copied in their order.
fn collect_month(transactions: &Vec<Transaction>, keys: &Vec<Option<String>>, label: &String) -> (r:
    Vec<Transaction>)
    requires
        keys.len() == transactions.len(),
        forall|i: int|
            0 <= i < keys.len() ==> match (#[trigger] keys[i]) {
                Some(key) => transaction_key(transactions[i]) == Some(key@),
                None => transaction_key(transactions[i]) is None,
            },
    ensures
        r@ == with_key(transactions@, label@),
{
    let mut out: Vec<Transaction> = Vec::new();
    let mut i: usize = 0;
    while i < transactions.len()
        invariant
            i <= transactions.len(),
            keys.len() == transactions.len(),
            forall|k: int|
                0 <= k < keys.len() ==> match (#[trigger] keys[k]) {
                    Some(key) => transaction_key(transactions[k]) == Some(key@),
                    None => transaction_key(transactions[k]) is None,
                },
            out@ == with_key(transactions@.take(i as int), label@),
        decreases transactions.len() - i,
    {
        let matches = match &keys[i] {
            Some(key) => *key == *label,
            None => false,
        };
        proof {
            let next = transactions@.take(i + 1);
            assert(next.drop_last() =~= transactions@.take(i as int));
        }
        if matches {
            out.push(transactions[i].duplicate());
        }
        i += 1;
    }
    assert(transactions@.take(transactions.len() as int) =~= transactions@);
    out
}

/// Cuts the range from `from` to `to` into calendar months and puts each
/// transaction into the bucket of its month.
///
/// There is one bucket for every month that the range touches, from the
/// month of `from` onwards, also for a month without transactions. A
/// transaction belongs to the bucket whose label is the label of its own
/// date; one whose date cannot be read, or lies outside the range, belongs
/// to none.
pub fn bucket(transactions: &Vec<Transaction>, from: &Date, to: &Date) -> (r: Vec<MonthBucket>)
    ensures
        r.len() == months_spanned(from@, to@),
        forall|i: int|
            0 <= i < r.len() ==> (#[trigger] r[i]).label@ == month_key_of_index(
                from@.month_index() + i,
            ),
        forall|i: int|
            0 <= i < r.len() ==> (#[trigger] r[i]).transactions@ == with_key(
                transactions@,
                month_key_of_index(from@.month_index() + i),
            ),
{
    let keys = month_keys(transactions);
    let mut buckets: Vec<MonthBucket> = Vec::new();
    let last: i64 = to.month_number();
    let first: i64 = from.month_number();
    let mut current: Date = from.first_of_month();
    let mut going: bool = first <= last;
    while going
        invariant
            first == from@.month_index(),
            last == to@.month_index(),
            last <= 9999 * 12 + 11,
            current@.is_valid(),
            going ==> current@.month_index() == first + buckets.len() && first + buckets.len()
                <= last,
            !going ==> buckets.len() == months_spanned(from@, to@),
            keys.len() == transactions.len(),
            forall|k: int|
                0 <= k < keys.len() ==> match (#[trigger] keys[k]) {
                    Some(key) => transaction_key(transactions[k]) == Some(key@),
                    None => transaction_key(transactions[k]) is None,
                },
            forall|i: int|
                0 <= i < buckets.len() ==> (#[trigger] buckets[i]).label@ == month_key_of_index(
                    first + i,
                ),
            forall|i: int|
                0 <= i < buckets.len() ==> (#[trigger] buckets[i]).transactions@ == with_key(
                    transactions@,
                    month_key_of_index(first + i),
                ),
        decreases (if going { 1 + last - first - buckets.len() } else { 0 }),
    {
        let label = current.month_key();
        let number = current.month_number();
        let members = collect_month(transactions, &keys, &label);
        buckets.push(MonthBucket { label, transactions: members });
        if number < last {
            match current.first_of_next_month() {
                Some(next) => {
                    current = next;
                },
                None => {
                    going = false;
                },
            }
        } else {
            going = false;
        }
    }
    buckets
}

/// Two months have the same label only where they are the same month.
pub proof fn lemma_month_key_injective(year: int, month: int, other_year: int, other_month: int)
    requires
        0 <= year <= 9999,
        1 <= month <= 12,
        0 <= other_year <= 9999,
        1 <= other_month <= 12,
        month_key_text(year, month) == month_key_text(other_year, other_month),
    ensures
        year == other_year,
        month == other_month,
{
    let a = month_key_text(year, month);
    let b = month_key_text(other_year, other_month);
    assert(a[0] == b[0]);
    assert(a[1] == b[1]);
    assert(a[3] == b[3]);
    assert(a[4] == b[4]);
    assert(a[5] == b[5]);
    assert(a[6] == b[6]);
}

/// A transaction belongs to the bucket of a month exactly where its date
/// lies in that month.
pub proof fn lemma_bucket_holds_its_month(t: Transaction, index: int)
    requires
        0 <= index <= 9999 * 12 + 11,
        t.day() is Some,
    ensures
        t.day()->0.is_valid(),
        transaction_key(t) == Some(month_key_of_index(index)) <==> t.day()->0.month_index()
            == index,
{
    let day = t.day()->0;
    if transaction_key(t) == Some(month_key_of_index(index)) {
        lemma_month_key_injective(day.year, day.month, index / 12, index % 12 + 1);
    }
}

/// A range that does not end before the month in which it starts has one
/// bucket more than there are months between its ends.
pub proof fn lemma_months_spanned(from: DateView, to: DateView)
    requires
        from.month_index() <= to.month_index(),
    ensures
        months_spanned(from, to) == to.month_index() - from.month_index() + 1,
        months_spanned(from, to) >= 1,
{
}

} // verus!
