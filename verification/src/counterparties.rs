//! Spending per counterparty: debit transactions grouped by the name of the
//! other side, summed, and ranked from the smallest spend to the largest.

use vstd::prelude::*;
use vstd::string::*;
use std::cmp::Ordering;
use itertools::Itertools;
use crate::aggregate::all_have_amounts;
use crate::aggregate::has_amount;
use crate::client::TellerClientError;
use crate::client::Transaction;
use crate::money::minor_units_of;
use crate::money::parsed_minor_units;
use crate::money::to_minor_units;

verus! {

/// What was spent with one counterparty, in minor units and without sign.
#[derive(Debug, Clone)]
pub struct CounterpartyTotal {
    pub counterparty: String,
    pub amount: i64,
}

/// Whether the transaction takes money out of the account.
pub open spec fn is_debit(t: Transaction) -> bool {
    minor_units_of(t.amount@) < 0
}

/// The transactions that take money out, in their order.
pub open spec fn debits(transactions: Seq<Transaction>) -> Seq<Transaction>
    decreases transactions.len(),
{
    if transactions.len() == 0 {
        Seq::empty()
    } else if is_debit(transactions.last()) {
        debits(transactions.drop_last()).push(transactions.last())
    } else {
        debits(transactions.drop_last())
    }
}

/// Keeps the transactions that take money out. Every amount is read, and
/// one that cannot be read fails the whole.
pub fn keep_debits(transactions: &Vec<Transaction>) -> (r: Result<
    Vec<Transaction>,
    TellerClientError,
>)
    ensures
        all_have_amounts(transactions@) ==> (r matches Ok(v) && v@ == debits(transactions@)),
        !all_have_amounts(transactions@) ==> (r matches Err(e) && e
            == TellerClientError::DecodeError),
{
    let mut out: Vec<Transaction> = Vec::new();
    let mut i: usize = 0;
    while i < transactions.len()
        invariant
            i <= transactions.len(),
            all_have_amounts(transactions@.take(i as int)),
            out@ == debits(transactions@.take(i as int)),
        decreases transactions.len() - i,
    {
        proof {
            let next = transactions@.take(i + 1);
            assert(next.drop_last() =~= transactions@.take(i as int));
        }
        match to_minor_units(transactions[i].amount.as_str()) {
            Err(_) => {
                return Err(TellerClientError::DecodeError);
            },
            Ok(amount) => {
                if amount < 0 {
                    out.push(transactions[i].duplicate());
                }
            },
        }
        i += 1;
    }
    assert(transactions@.take(transactions.len() as int) =~= transactions@);
    Ok(out)
}

/// Whether one of `names` reads `name`.
pub open spec fn has_name(names: Seq<String>, name: Seq<char>) -> bool {
    exists|i: int| 0 <= i < names.len() && (#[trigger] names[i])@ == name
}

/// The counterparties of the transactions, each once, in the order in which
/// they first occur. Two names are the same where they read the same,
/// character for character.
pub open spec fn names_seen(transactions: Seq<Transaction>) -> Seq<String>
    decreases transactions.len(),
{
    if transactions.len() == 0 {
        Seq::empty()
    } else {
        let before = names_seen(transactions.drop_last());
        if has_name(before, transactions.last().counterparty@) {
            before
        } else {
            before.push(transactions.last().counterparty)
        }
    }
}

/// The date and amount of each transaction with the counterparty `name`, in
/// their order.
pub open spec fn entries_of(transactions: Seq<Transaction>, name: Seq<char>) -> Seq<
    (String, String),
>
    decreases transactions.len(),
{
    if transactions.len() == 0 {
        Seq::empty()
    } else if transactions.last().counterparty@ == name {
        entries_of(transactions.drop_last(), name).push(
            (transactions.last().date, transactions.last().amount),
        )
    } else {
        entries_of(transactions.drop_last(), name)
    }
}

/// Tells whether one of `names` reads as `name` does.
fn contains_name(names: &Vec<String>, name: &String) -> (r: bool)
    ensures
        r == has_name(names@, name@),
{
    let mut i: usize = 0;
    while i < names.len()
        invariant
            i <= names.len(),
            forall|k: int| 0 <= k < i ==> (#[trigger] names[k])@ != name@,
        decreases names.len() - i,
    {
        if names[i] == *name {
            return true;
        }
        i += 1;
    }
    false
}

/// The counterparties of the transactions, each once, in the order in which
/// they first occur.
fn counterparty_names(transactions: &Vec<Transaction>) -> (r: Vec<String>)
    ensures
        r@ == names_seen(transactions@),
{
    let mut names: Vec<String> = Vec::new();
    let mut i: usize = 0;
    while i < transactions.len()
        invariant
            i <= transactions.len(),
            names@ == names_seen(transactions@.take(i as int)),
        decreases transactions.len() - i,
    {
        proof {
            let next = transactions@.take(i + 1);
            assert(next.drop_last() =~= transactions@.take(i as int));
        }
        if !contains_name(&names, &transactions[i].counterparty) {
            names.push(transactions[i].counterparty.clone());
        }
        i += 1;
    }
    assert(transactions@.take(transactions.len() as int) =~= transactions@);
    names
}

/// The date and amount of each transaction with the counterparty `name`.
fn collect_entries(transactions: &Vec<Transaction>, name: &String) -> (r: Vec<(String, String)>)
    ensures
        r@ == entries_of(transactions@, name@),
{
    let mut out: Vec<(String, String)> = Vec::new();
    let mut i: usize = 0;
    while i < transactions.len()
        invariant
            i <= transactions.len(),
            out@ == entries_of(transactions@.take(i as int), name@),
        decreases transactions.len() - i,
    {
        proof {
            let next = transactions@.take(i + 1);
            assert(next.drop_last() =~= transactions@.take(i as int));
        }
        if transactions[i].counterparty == *name {
            out.push((transactions[i].date.clone(), transactions[i].amount.clone()));
        }
        i += 1;
    }
    assert(transactions@.take(transactions.len() as int) =~= transactions@);
    out
}

/// Groups the transactions by counterparty.
///
/// The result has one entry for each counterparty, in the order in which
/// the counterparties first occur; the entry holds the date and the amount
/// of each transaction with that counterparty, in their order.
pub fn convert_to_counterparty_to_date_amount_list(transactions: &Vec<Transaction>) -> (r: Vec<
    (String, Vec<(String, String)>),
>)
    ensures
        r.len() == names_seen(transactions@).len(),
        forall|i: int|
            0 <= i < r.len() ==> (#[trigger] r[i]).0 == names_seen(transactions@)[i] && r[i].1@
                == entries_of(transactions@, r[i].0@),
{
    let names = counterparty_names(transactions);
    let mut out: Vec<(String, Vec<(String, String)>)> = Vec::new();
    let mut i: usize = 0;
    while i < names.len()
        invariant
            i <= names.len(),
            names@ == names_seen(transactions@),
            out.len() == i,
            forall|k: int|
                0 <= k < i ==> (#[trigger] out[k]).0 == names[k] && out[k].1@ == entries_of(
                    transactions@,
                    out[k].0@,
                ),
        decreases names.len() - i,
    {
        let entries = collect_entries(transactions, &names[i]);
        out.push((names[i].clone(), entries));
        i += 1;
    }
    out
}

/// Whether the amount of every entry can be read.
pub open spec fn entries_readable(entries: Seq<(String, String)>) -> bool {
    forall|i: int|
        0 <= i < entries.len() ==> parsed_minor_units((#[trigger] entries[i]).1@) is Ok
}

/// The sum of the amounts of the entries.
pub open spec fn entry_sum(entries: Seq<(String, String)>) -> int
    decreases entries.len(),
{
    if entries.len() == 0 {
        0
    } else {
        entry_sum(entries.drop_last()) + minor_units_of(entries.last().1@)
    }
}

/// The sum of the amounts of the entries without its sign: a decode error
/// where an amount cannot be read, an overflow where it exceeds 64 bits.
pub open spec fn group_magnitude(entries: Seq<(String, String)>) -> Result<
    i64,
    TellerClientError,
> {
    let sum = entry_sum(entries);
    let magnitude = if sum < 0 {
        -sum
    } else {
        sum
    };
    if !entries_readable(entries) {
        Err(TellerClientError::DecodeError)
    } else if magnitude <= i64::MAX {
        Ok(magnitude as i64)
    } else {
        Err(TellerClientError::ArithmeticOverflow)
    }
}

/// Sums the amounts of the entries and drops the sign.
pub fn magnitude_of_entries(entries: &Vec<(String, String)>) -> (r: Result<i64, TellerClientError>)
    ensures
        r == group_magnitude(entries@),
{
    let mut sum: i128 = 0;
    let mut i: usize = 0;
    while i < entries.len()
        invariant
            i <= entries.len(),
            entries_readable(entries@.take(i as int)),
            sum == entry_sum(entries@.take(i as int)),
            -(i as int) * 0x8000_0000_0000_0000 <= sum <= (i as int) * 0x8000_0000_0000_0000,
        decreases entries.len() - i,
    {
        proof {
            let next = entries@.take(i + 1);
            assert(next.drop_last() =~= entries@.take(i as int));
        }
        match to_minor_units(entries[i].1.as_str()) {
            Err(_) => {
                return Err(TellerClientError::DecodeError);
            },
            Ok(amount) => {
                sum = sum + amount as i128;
            },
        }
        i += 1;
    }
    assert(entries@.take(entries.len() as int) =~= entries@);
    let magnitude: i128 = if sum < 0 {
        -sum
    } else {
        sum
    };
    if magnitude <= i64::MAX as i128 {
        Ok(magnitude as i64)
    } else {
        Err(TellerClientError::ArithmeticOverflow)
    }
}

/// The total of each of `names` over the transactions, in the order of the
/// names; the error of the first name whose total fails.
pub open spec fn totals_for(transactions: Seq<Transaction>, names: Seq<String>) -> Result<
    Seq<CounterpartyTotal>,
    TellerClientError,
>
    decreases names.len(),
{
    if names.len() == 0 {
        Ok(Seq::empty())
    } else {
        match totals_for(transactions, names.drop_last()) {
            Err(e) => Err(e),
            Ok(earlier) => match group_magnitude(entries_of(transactions, names.last()@)) {
                Err(e) => Err(e),
                Ok(amount) => Ok(
                    earlier.push(CounterpartyTotal { counterparty: names.last(), amount }),
                ),
            },
        }
    }
}

/// The spend per counterparty before it is put in order: of the debit
/// transactions, one total for each counterparty, in the order in which the
/// counterparties first occur.
pub open spec fn spend_per_counterparty(transactions: Seq<Transaction>) -> Result<
    Seq<CounterpartyTotal>,
    TellerClientError,
> {
    if !all_have_amounts(transactions) {
        Err(TellerClientError::DecodeError)
    } else {
        totals_for(debits(transactions), names_seen(debits(transactions)))
    }
}

/// The totals with the amount `amount`, in their order.
pub open spec fn with_amount(totals: Seq<CounterpartyTotal>, amount: i64) -> Seq<
    CounterpartyTotal,
>
    decreases totals.len(),
{
    if totals.len() == 0 {
        Seq::empty()
    } else if totals.last().amount == amount {
        with_amount(totals.drop_last(), amount).push(totals.last())
    } else {
        with_amount(totals.drop_last(), amount)
    }
}

/// Whether the amounts never fall from one total to the next.
pub open spec fn is_ascending(totals: Seq<CounterpartyTotal>) -> bool {
    forall|i: int, j: int|
        0 <= i < j < totals.len() ==> (#[trigger] totals[i]).amount <= (#[trigger] totals[j]).amount
}

/// Whether `output` is `input` put in ascending order of amount, with
/// totals of equal amount left in the order they had.
pub open spec fn is_ranking_of(input: Seq<CounterpartyTotal>, output: Seq<CounterpartyTotal>) -> bool {
    &&& output.len() == input.len()
    &&& is_ascending(output)
    &&& forall|amount: i64| #[trigger] with_amount(output, amount) == with_amount(input, amount)
}

/// The ranking of the totals: there is only one.
pub open spec fn ranked(totals: Seq<CounterpartyTotal>) -> Seq<CounterpartyTotal> {
    choose|ranking: Seq<CounterpartyTotal>| is_ranking_of(totals, ranking)
}

/// The totals at every place of `totals` are among those with their amount.
proof fn lemma_with_amount_has(totals: Seq<CounterpartyTotal>, i: int)
    requires
        0 <= i < totals.len(),
    ensures
        with_amount(totals, totals[i].amount).len() > 0,
    decreases totals.len(),
{
    if i < totals.len() - 1 {
        lemma_with_amount_has(totals.drop_last(), i);
    }
}

/// Where there are totals with an amount, one of them stands at some place.
proof fn lemma_with_amount_from(totals: Seq<CounterpartyTotal>, amount: i64) -> (i: int)
    requires
        with_amount(totals, amount).len() > 0,
    ensures
        0 <= i < totals.len(),
        totals[i].amount == amount,
    decreases totals.len(),
{
    if totals.last().amount == amount {
        totals.len() - 1
    } else {
        lemma_with_amount_from(totals.drop_last(), amount)
    }
}

/// The last of ascending totals has an amount that none of the others
/// exceeds; so an amount that occurs among them does not exceed it.
proof fn lemma_last_is_largest(totals: Seq<CounterpartyTotal>, amount: i64)
    requires
        is_ascending(totals),
        with_amount(totals, amount).len() > 0,
    ensures
        totals.len() > 0,
        amount <= totals.last().amount,
{
    let i = lemma_with_amount_from(totals, amount);
}

/// Two ascending sequences of totals that hold, for every amount, the same
/// totals in the same order are the same sequence.
proof fn lemma_same_groups_same_order(a: Seq<CounterpartyTotal>, b: Seq<CounterpartyTotal>)
    requires
        a.len() == b.len(),
        is_ascending(a),
        is_ascending(b),
        forall|amount: i64| #[trigger] with_amount(a, amount) == with_amount(b, amount),
    ensures
        a == b,
    decreases a.len(),
{
    if a.len() > 0 {
        let m = a.last().amount;
        let k = b.last().amount;
        lemma_with_amount_has(a, a.len() - 1);
        lemma_last_is_largest(b, m);
        lemma_last_is_largest(a, k);
        let shorter_a = a.drop_last();
        let shorter_b = b.drop_last();
        let group_a = with_amount(shorter_a, m).push(a.last());
        let group_b = with_amount(shorter_b, m).push(b.last());
        assert(group_a.last() == group_b.last());
        assert(group_b.drop_last() =~= with_amount(shorter_b, m));
        assert forall|amount: i64| #[trigger]
            with_amount(shorter_a, amount) == with_amount(shorter_b, amount) by {
            if amount != m {
                assert(with_amount(a, amount) == with_amount(b, amount));
            }
        }
        lemma_same_groups_same_order(shorter_a, shorter_b);
        assert(b =~= shorter_b.push(b.last()));
    }
}

/// Totals have only one ranking: the order by amount, with equal amounts
/// left as they stood, settles the place of every total.
pub proof fn lemma_ranking_unique(
    input: Seq<CounterpartyTotal>,
    a: Seq<CounterpartyTotal>,
    b: Seq<CounterpartyTotal>,
)
    requires
        is_ranking_of(input, a),
        is_ranking_of(input, b),
    ensures
        a == b,
{
    lemma_same_groups_same_order(a, b);
}

/// How the amounts of two totals compare.
pub fn compare_amounts(a: &CounterpartyTotal, b: &CounterpartyTotal) -> (r: Ordering)
    ensures
        (r == Ordering::Less) == (a.amount < b.amount),
        (r == Ordering::Equal) == (a.amount == b.amount),
        (r == Ordering::Greater) == (a.amount > b.amount),
{
    if a.amount < b.amount {
        Ordering::Less
    } else if a.amount == b.amount {
        Ordering::Equal
    } else {
        Ordering::Greater
    }
}

/// Calls `itertools::Itertools::sorted_by`, which collects the items and
/// sorts them with the stable `sort_by` of slices. With the amounts
/// compared, the result holds the same totals in ascending order of amount,
/// and totals of equal amount keep their order.
#[verifier::external_body]
fn sorted_by_amount(totals: Vec<CounterpartyTotal>) -> (r: Vec<CounterpartyTotal>)
    ensures
        is_ranking_of(totals@, r@),
{
    totals.into_iter().sorted_by(|a, b| compare_amounts(a, b))
}

/// Ranks the counterparties by what was spent with them, the smallest spend
/// first.
///
/// Only debit transactions count. They are grouped by the exact name of the
/// counterparty, and the amounts of each group are summed and stripped of
/// their sign. Counterparties with equal spend stand in the order in which
/// they first occur among the debit transactions.
pub fn rank(transactions: &Vec<Transaction>) -> (r: Result<
    Vec<CounterpartyTotal>,
    TellerClientError,
>)
    ensures
        match spend_per_counterparty(transactions@) {
            Ok(totals) => r matches Ok(v) && is_ranking_of(totals, v@) && v@ == ranked(totals),
            Err(e) => r matches Err(f) && f == e,
        },
{
    let outgoing = match keep_debits(transactions) {
        Ok(outgoing) => outgoing,
        Err(e) => {
            return Err(e);
        },
    };
    let groups = convert_to_counterparty_to_date_amount_list(&outgoing);
    let ghost names = names_seen(outgoing@);
    let mut totals: Vec<CounterpartyTotal> = Vec::new();
    let mut i: usize = 0;
    while i < groups.len()
        invariant
            i <= groups.len(),
            groups.len() == names.len(),
            all_have_amounts(transactions@),
            outgoing@ == debits(transactions@),
            names == names_seen(outgoing@),
            forall|k: int|
                0 <= k < groups.len() ==> (#[trigger] groups[k]).0 == names[k] && groups[k].1@
                    == entries_of(outgoing@, groups[k].0@),
            totals_for(outgoing@, names.take(i as int)) == Ok::<
                Seq<CounterpartyTotal>,
                TellerClientError,
            >(totals@),
        decreases groups.len() - i,
    {
        proof {
            let next = names.take(i + 1);
            assert(next.drop_last() =~= names.take(i as int));
        }
        match magnitude_of_entries(&groups[i].1) {
            Err(e) => {
                proof {
                    lemma_totals_for_fail_on(outgoing@, names, i + 1);
                }
                return Err(e);
            },
            Ok(amount) => {
                totals.push(CounterpartyTotal { counterparty: groups[i].0.clone(), amount });
            },
        }
        i += 1;
    }
    assert(names.take(names.len() as int) =~= names);
    let ghost unordered = totals@;
    let ranking = sorted_by_amount(totals);
    proof {
        lemma_ranking_unique(unordered, ranking@, ranked(unordered));
    }
    Ok(ranking)
}

/// Where the totals of the first `n` names fail, the totals of all names
/// fail in the same way.
proof fn lemma_totals_for_fail_on(transactions: Seq<Transaction>, names: Seq<String>, n: int)
    requires
        0 <= n <= names.len(),
        totals_for(transactions, names.take(n)) is Err,
    ensures
        totals_for(transactions, names) == totals_for(transactions, names.take(n)),
    decreases names.len() - n,
{
    if n < names.len() {
        let next = names.take(n + 1);
        assert(next.drop_last() =~= names.take(n));
        lemma_totals_for_fail_on(transactions, names, n + 1);
    } else {
        assert(names.take(n) =~= names);
    }
}

} // verus!
