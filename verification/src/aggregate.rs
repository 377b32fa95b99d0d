//! Totals per month under a sign filter, and the balances that follow from
//! them.

use vstd::prelude::*;
use vstd::string::*;
use crate::bucket::MonthBucket;
use crate::client::TellerClientError;
use crate::client::Transaction;
use crate::money::minor_units_of;
use crate::money::parsed_minor_units;
use crate::money::to_minor_units;

verus! {

/// Which transactions count towards a total.
#[derive(Debug, Clone, Copy, PartialEq, Eq, Structural)]
pub enum SignFilter {
    /// Every transaction.
    All,
    /// Only money going out: negative amounts.
    DebitsOnly,
    /// Only money coming in: positive amounts.
    CreditsOnly,
}

/// Whether an amount counts under the filter.
pub open spec fn passes(filter: SignFilter, amount: int) -> bool {
    match filter {
        SignFilter::All => true,
        SignFilter::DebitsOnly => amount < 0,
        SignFilter::CreditsOnly => amount > 0,
    }
}

/// Tells whether an amount counts under the filter.
pub fn passes_filter(filter: SignFilter, amount: i64) -> (r: bool)
    ensures
        r == passes(filter, amount as int),
{
    match filter {
        SignFilter::All => true,
        SignFilter::DebitsOnly => amount < 0,
        SignFilter::CreditsOnly => amount > 0,
    }
}

/// Whether the amount of the transaction can be read as minor units.
pub open spec fn has_amount(t: Transaction) -> bool {
    parsed_minor_units(t.amount@) is Ok
}

/// Whether the amount of every transaction can be read.
pub open spec fn all_have_amounts(transactions: Seq<Transaction>) -> bool {
    forall|i: int| 0 <= i < transactions.len() ==> has_amount(#[trigger] transactions[i])
}

/// What the transaction adds to a total under the filter.
pub open spec fn contribution(filter: SignFilter, t: Transaction) -> int {
    if passes(filter, minor_units_of(t.amount@)) {
        minor_units_of(t.amount@)
    } else {
        0
    }
}

/// The sum of the amounts that count under the filter.
pub open spec fn filtered_sum(filter: SignFilter, transactions: Seq<Transaction>) -> int
    decreases transactions.len(),
{
    if transactions.len() == 0 {
        0
    } else {
        filtered_sum(filter, transactions.drop_last()) + contribution(filter, transactions.last())
    }
}

/// The total of a group of transactions under the filter: a decode error
/// where an amount cannot be read, else the sum, where it fits in 64 bits.
pub open spec fn bucket_total(filter: SignFilter, transactions: Seq<Transaction>) -> Result<
    i64,
    TellerClientError,
> {
    if !all_have_amounts(transactions) {
        Err(TellerClientError::DecodeError)
    } else if i64::MIN <= filtered_sum(filter, transactions) <= i64::MAX {
        Ok(filtered_sum(filter, transactions) as i64)
    } else {
        Err(TellerClientError::ArithmeticOverflow)
    }
}

/// Sums the amounts of the transactions that count under the filter.
///
/// One amount that cannot be read makes the whole total fail, whether or
/// not it would count.
pub fn aggregate_bucket(filter: SignFilter, transactions: &Vec<Transaction>) -> (r: Result<
    i64,
    TellerClientError,
>)
    ensures
        r == bucket_total(filter, transactions@),
{
    let mut sum: i128 = 0;
    let mut i: usize = 0;
    while i < transactions.len()
        invariant
            i <= transactions.len(),
            all_have_amounts(transactions@.take(i as int)),
            sum == filtered_sum(filter, transactions@.take(i as int)),
            -(i as int) * 0x8000_0000_0000_0000 <= sum <= (i as int) * 0x8000_0000_0000_0000,
        decreases transactions.len() - i,
    {
        proof {
            let next = transactions@.take(i + 1);
            assert(next.drop_last() =~= transactions@.take(i as int));
        }
        match to_minor_units(transactions[i].amount.as_str()) {
            Err(_) => {
                return Err(TellerClientError::DecodeError);
            },
            Ok(amount) => {
                if passes_filter(filter, amount) {
                    sum = sum + amount as i128;
                }
            },
        }
        i += 1;
    }
    assert(transactions@.take(transactions.len() as int) =~= transactions@);
    if sum < i64::MIN as i128 || sum > i64::MAX as i128 {
        Err(TellerClientError::ArithmeticOverflow)
    } else {
        Ok(sum as i64)
    }
}

/// What goes out and what comes in add up to the net of all transactions;
/// what goes out is never positive and what comes in never negative.
pub proof fn lemma_debits_and_credits(transactions: Seq<Transaction>)
    ensures
        filtered_sum(SignFilter::All, transactions) == filtered_sum(
            SignFilter::DebitsOnly,
            transactions,
        ) + filtered_sum(SignFilter::CreditsOnly, transactions),
        filtered_sum(SignFilter::DebitsOnly, transactions) <= 0,
        filtered_sum(SignFilter::CreditsOnly, transactions) >= 0,
    decreases transactions.len(),
{
    if transactions.len() > 0 {
        lemma_debits_and_credits(transactions.drop_last());
    }
}

/// An empty group has the total zero under every filter.
pub proof fn lemma_empty_bucket_total(filter: SignFilter)
    ensures
        bucket_total(filter, Seq::empty()) == Ok::<i64, TellerClientError>(0),
{
}

/// The totals of the buckets in their order, each under the label of its
/// bucket; the error of the first bucket whose total fails.
pub open spec fn totals_of(filter: SignFilter, buckets: Seq<MonthBucket>) -> Result<
    Seq<(String, i64)>,
    TellerClientError,
>
    decreases buckets.len(),
{
    if buckets.len() == 0 {
        Ok(Seq::empty())
    } else {
        match totals_of(filter, buckets.drop_last()) {
            Err(e) => Err(e),
            Ok(earlier) => match bucket_total(filter, buckets.last().transactions@) {
                Err(e) => Err(e),
                Ok(total) => Ok(earlier.push((buckets.last().label, total))),
            },
        }
    }
}

/// Reduces each bucket to its total under the filter, in the order of the
/// buckets.
pub fn aggregate(filter: SignFilter, buckets: &Vec<MonthBucket>) -> (r: Result<
    Vec<(String, i64)>,
    TellerClientError,
>)
    ensures
        match totals_of(filter, buckets@) {
            Ok(totals) => r matches Ok(v) && v@ == totals,
            Err(e) => r matches Err(f) && f == e,
        },
{
    let mut out: Vec<(String, i64)> = Vec::new();
    let mut i: usize = 0;
    while i < buckets.len()
        invariant
            i <= buckets.len(),
            totals_of(filter, buckets@.take(i as int)) == Ok::<
                Seq<(String, i64)>,
                TellerClientError,
            >(out@),
        decreases buckets.len() - i,
    {
        proof {
            let next = buckets@.take(i + 1);
            assert(next.drop_last() =~= buckets@.take(i as int));
        }
        match aggregate_bucket(filter, &buckets[i].transactions) {
            Err(e) => {
                proof {
                    lemma_totals_fail_on(filter, buckets@, i + 1);
                }
                return Err(e);
            },
            Ok(total) => {
                out.push((buckets[i].label.clone(), total));
            },
        }
        i += 1;
    }
    assert(buckets@.take(buckets.len() as int) =~= buckets@);
    Ok(out)
}

/// Where the totals of the first `n` buckets fail, the totals of all fail in
/// the same way.
proof fn lemma_totals_fail_on(filter: SignFilter, buckets: Seq<MonthBucket>, n: int)
    requires
        0 <= n <= buckets.len(),
        totals_of(filter, buckets.take(n)) is Err,
    ensures
        totals_of(filter, buckets) == totals_of(filter, buckets.take(n)),
    decreases buckets.len() - n,
{
    if n < buckets.len() {
        let next = buckets.take(n + 1);
        assert(next.drop_last() =~= buckets.take(n));
        lemma_totals_fail_on(filter, buckets, n + 1);
    } else {
        assert(buckets.take(n) =~= buckets);
    }
}

} // verus!
