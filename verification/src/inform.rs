//! The reports: what is worked out of an account and its transactions for
//! display.

use vstd::prelude::*;
use vstd::string::*;
use crate::aggregate::SignFilter;
use crate::aggregate::aggregate;
use crate::aggregate::aggregate_bucket;
use crate::aggregate::bucket_total;
use crate::aggregate::totals_of;
use crate::balance::HistoricalAmount;
use crate::balance::net_amounts;
use crate::balance::opening_balance;
use crate::balance::openings_fit;
use crate::balance::reconstruct;
use crate::bucket::MonthBucket;
use crate::bucket::bucket;
use crate::bucket::month_key_of_index;
use crate::bucket::months_spanned;
use crate::bucket::with_key;
use crate::cli::Interval;
use crate::cli::Timeframe;
use crate::client::Account;
use crate::client::TellerClientError;
use crate::client::Transaction;
use crate::client::all_dated;
use crate::client::parse_utc_date_from_transaction;
use crate::counterparties::CounterpartyTotal;
use crate::counterparties::rank;
use crate::counterparties::ranked;
use crate::counterparties::spend_per_counterparty;
use crate::date::Date;
use crate::date::DateView;
use crate::date::days_before;
use crate::money::decimal_text;
use crate::money::parsed_minor_units;
use crate::money::to_decimal_string;
use crate::money::to_minor_units;

verus! {

/// A label and an amount as decimal text.
pub type IntervalAmount = (String, String);

/// Balances over time.
pub type Balances = HistoricalAmountsWithCurrency;

/// Outgoings over time.
pub type Outgoings = HistoricalAmountsWithCurrency;

/// Incomings over time.
pub type Incomings = HistoricalAmountsWithCurrency;

/// Amounts over time, oldest first, in one currency.
#[derive(Debug, Clone)]
pub struct HistoricalAmountsWithCurrency {
    pub historical_amounts: Vec<IntervalAmount>,
    pub currency: String,
}

impl HistoricalAmountsWithCurrency {
    /// The given amounts in the given currency.
    pub fn new(historical_amounts: Vec<IntervalAmount>, currency: &str) -> (r:
        HistoricalAmountsWithCurrency)
        ensures
            r.historical_amounts == historical_amounts,
            r.currency@ == currency@,
    {
        HistoricalAmountsWithCurrency { historical_amounts, currency: String::from_str(currency) }
    }
}

/// Transactions and the currency of their account.
#[derive(Debug, Clone)]
pub struct TransactionsWithCurrrency {
    pub transactions: Vec<Transaction>,
    pub currency: String,
}

impl TransactionsWithCurrrency {
    /// The given transactions in the given currency.
    pub fn new(transactions: Vec<Transaction>, currency: &str) -> (r: TransactionsWithCurrrency)
        ensures
            r.transactions == transactions,
            r.currency@ == currency@,
    {
        TransactionsWithCurrrency { transactions, currency: String::from_str(currency) }
    }
}

/// Counterparties with what was spent with each, as decimal text, in one
/// currency.
#[derive(Debug, Clone)]
pub struct CounterpartiesWithCurrrency {
    pub counterparties: Vec<(String, String)>,
    pub currency: String,
}

impl CounterpartiesWithCurrrency {
    /// The given counterparties in the given currency.
    pub fn new(counterparties: Vec<(String, String)>, currency: &str) -> (r:
        CounterpartiesWithCurrrency)
        ensures
            r.counterparties == counterparties,
            r.currency@ == currency@,
    {
        CounterpartiesWithCurrrency { counterparties, currency: String::from_str(currency) }
    }
}

/// An amount as decimal text, and its currency.
#[derive(Debug, Clone)]
pub struct Money {
    pub amount: String,
    pub currency: String,
}

impl Money {
    /// The given amount in the given currency.
    pub fn new(amount: &str, currency: &str) -> (r: Money)
        ensures
            r.amount@ == amount@,
            r.currency@ == currency@,
    {
        Money { amount: String::from_str(amount), currency: String::from_str(currency) }
    }

    /// The text that shows the money: the amount alone, or the amount, a
    /// space and the currency.
    pub open spec fn display_text(self, hide_currency: bool) -> Seq<char> {
        if hide_currency {
            self.amount@
        } else {
            self.amount@ + seq![' '] + self.currency@
        }
    }

    /// The text that shows the money, with or without its currency.
    pub fn get_balance_for_display(&self, hide_currency: &bool) -> (r: String)
        ensures
            r@ == self.display_text(*hide_currency),
    {
        if *hide_currency {
            self.amount.clone()
        } else {
            let mut shown = self.amount.clone();
            shown.push(' ');
            shown.append(self.currency.as_str());
            shown
        }
    }
}

/// The balance of an account as money.
pub fn get_account_balance(account: &Account) -> (r: Money)
    ensures
        r.amount@ == account.balance@,
        r.currency@ == account.currency@,
{
    Money::new(account.balance.as_str(), account.currency.as_str())
}

/// Transactions together with the currency of their account.
pub fn get_transactions_with_currency(account: &Account, transactions: Vec<Transaction>) -> (r:
    TransactionsWithCurrrency)
    ensures
        r.transactions == transactions,
        r.currency@ == account.currency@,
{
    TransactionsWithCurrrency::new(transactions, account.currency.as_str())
}

/// The range of dates that a timeframe covers when it ends on `today`: from
/// the day that lies its length before `today`, to `today`. There is none
/// where that day lies before the year zero.
pub fn timeframe_to_date_range(timeframe: &Timeframe, today: &Date) -> (r: Option<(Date, Date)>)
    ensures
        r is Some <==> days_before(today@, timeframe.days()) is Some,
        r matches Some(range) ==> Some(range.0@) == days_before(today@, timeframe.days())
            && range.1 == *today,
{
    match today.minus_days(timeframe.days()) {
        Some(from) => Some((from, *today)),
        None => None,
    }
}

/// The total under the filter of the month with the given index: of the
/// transactions whose month label is the label of that month.
pub open spec fn month_total(filter: SignFilter, transactions: Seq<Transaction>, index: int) -> Result<
    i64,
    TellerClientError,
> {
    bucket_total(filter, with_key(transactions, month_key_of_index(index)))
}

/// The totals under the filter of `count` months in a row, the first of
/// which has the index `first`; the error of the first month whose total
/// fails.
pub open spec fn monthly_totals(
    filter: SignFilter,
    transactions: Seq<Transaction>,
    first: int,
    count: int,
) -> Result<Seq<i64>, TellerClientError>
    decreases count,
{
    if count <= 0 {
        Ok(Seq::empty())
    } else {
        match monthly_totals(filter, transactions, first, count - 1) {
            Err(e) => Err(e),
            Ok(earlier) => match month_total(filter, transactions, first + count - 1) {
                Err(e) => Err(e),
                Ok(total) => Ok(earlier.push(total)),
            },
        }
    }
}

/// The totals of the first `n` buckets of a range are the totals of its
/// first `n` months.
proof fn lemma_totals_by_month(
    filter: SignFilter,
    transactions: Seq<Transaction>,
    first: int,
    buckets: Seq<MonthBucket>,
    n: int,
)
    requires
        0 <= n <= buckets.len(),
        forall|i: int|
            0 <= i < buckets.len() ==> (#[trigger] buckets[i]).transactions@ == with_key(
                transactions,
                month_key_of_index(first + i),
            ),
    ensures
        match monthly_totals(filter, transactions, first, n) {
            Err(e) => totals_of(filter, buckets.take(n)) == Err::<
                Seq<(String, i64)>,
                TellerClientError,
            >(e),
            Ok(totals) => {
                &&& totals_of(filter, buckets.take(n)) matches Ok(v)
                &&& net_amounts(v) == totals
                &&& v.len() == n
                &&& forall|i: int| 0 <= i < n ==> (#[trigger] v[i]).0 == buckets[i].label
            },
        },
    decreases n,
{
    if n > 0 {
        lemma_totals_by_month(filter, transactions, first, buckets, n - 1);
        let prefix = buckets.take(n);
        assert(prefix.drop_last() =~= buckets.take(n - 1));
        match monthly_totals(filter, transactions, first, n - 1) {
            Err(e) => {},
            Ok(earlier) => {
                let before = totals_of(filter, buckets.take(n - 1))->Ok_0;
                match month_total(filter, transactions, first + n - 1) {
                    Err(e) => {},
                    Ok(total) => {
                        let v = before.push((buckets[n - 1].label, total));
                    },
                }
            },
        }
    }
}

/// The total under the filter of every calendar month that the range from
/// `from` to `to` touches, oldest first, each under the label of its month.
pub fn monthly_nets(
    filter: SignFilter,
    transactions: &Vec<Transaction>,
    from: &Date,
    to: &Date,
) -> (r: Result<Vec<(String, i64)>, TellerClientError>)
    ensures
        match monthly_totals(
            filter,
            transactions@,
            from@.month_index(),
            months_spanned(from@, to@),
        ) {
            Err(e) => r matches Err(f) && f == e,
            Ok(totals) => {
                &&& r matches Ok(v)
                &&& net_amounts(v@) == totals
                &&& v.len() == months_spanned(from@, to@)
                &&& forall|i: int|
                    0 <= i < v.len() ==> (#[trigger] v[i]).0@ == month_key_of_index(
                        from@.month_index() + i,
                    )
            },
        },
{
    let buckets = bucket(transactions, from, to);
    proof {
        lemma_totals_by_month(
            filter,
            transactions@,
            from@.month_index(),
            buckets@,
            buckets.len() as int,
        );
        assert(buckets@.take(buckets.len() as int) =~= buckets@);
    }
    aggregate(filter, &buckets)
}

/// Writes each amount as decimal text, under its label.
fn format_amounts(amounts: &Vec<HistoricalAmount>) -> (r: Vec<IntervalAmount>)
    ensures
        r.len() == amounts.len(),
        forall|i: int|
            0 <= i < r.len() ==> (#[trigger] r[i]).0 == amounts[i].label && r[i].1@
                == decimal_text(amounts[i].amount as int),
{
    let mut out: Vec<IntervalAmount> = Vec::new();
    let mut i: usize = 0;
    while i < amounts.len()
        invariant
            i <= amounts.len(),
            out.len() == i,
            forall|k: int|
                0 <= k < i ==> (#[trigger] out[k]).0 == amounts[k].label && out[k].1@
                    == decimal_text(amounts[k].amount as int),
        decreases amounts.len() - i,
    {
        out.push((amounts[i].label.clone(), to_decimal_string(amounts[i].amount)));
        i += 1;
    }
    out
}

/// Whether `report` shows the opening balance of each of the months from
/// the index `first` on, followed by the balance of today under `current`.
pub open spec fn is_balance_report(
    report: HistoricalAmountsWithCurrency,
    currency: Seq<char>,
    current: int,
    nets: Seq<i64>,
    first: int,
) -> bool {
    &&& report.currency@ == currency
    &&& report.historical_amounts.len() == nets.len() + 1
    &&& forall|i: int|
        0 <= i < nets.len() ==> (#[trigger] report.historical_amounts[i]).0@
            == month_key_of_index(first + i) && report.historical_amounts[i].1@ == decimal_text(
            opening_balance(current, nets, i),
        )
    &&& report.historical_amounts[nets.len() as int].0@ == "current"@
    &&& report.historical_amounts[nets.len() as int].1@ == decimal_text(current)
}

/// The balance of the account at the start of every calendar month from
/// `from` to `to`, oldest first, and the balance of today last.
///
/// The balance of today is taken from the account. Going back month by
/// month, the net of all transactions of a month is taken off the balance
/// that followed it. An amount that cannot be read fails the report, and so
/// does a balance that does not fit in 64 bits.
pub fn get_balances(
    account: &Account,
    transactions: &Vec<Transaction>,
    interval: &Interval,
    from: &Date,
    to: &Date,
) -> (r: Result<Balances, TellerClientError>)
    ensures
        match parsed_minor_units(account.balance@) {
            Err(_) => r matches Err(f) && f == TellerClientError::DecodeError,
            Ok(current) => match monthly_totals(
                SignFilter::All,
                transactions@,
                from@.month_index(),
                months_spanned(from@, to@),
            ) {
                Err(e) => r matches Err(f) && f == e,
                Ok(nets) => if openings_fit(current as int, nets) {
                    r matches Ok(report) && is_balance_report(
                        report,
                        account.currency@,
                        current as int,
                        nets,
                        from@.month_index(),
                    )
                } else {
                    r matches Err(f) && f == TellerClientError::ArithmeticOverflow
                },
            },
        },
{
    let current = match to_minor_units(account.balance.as_str()) {
        Ok(current) => current,
        Err(_) => {
            return Err(TellerClientError::DecodeError);
        },
    };
    let nets = match monthly_nets(SignFilter::All, transactions, from, to) {
        Ok(nets) => nets,
        Err(e) => {
            return Err(e);
        },
    };
    let history = match reconstruct(current, &nets) {
        Ok(history) => history,
        Err(e) => {
            return Err(e);
        },
    };
    let shown = format_amounts(&history);
    Ok(HistoricalAmountsWithCurrency::new(shown, account.currency.as_str()))
}

/// An amount without its sign.
pub open spec fn magnitude(amount: int) -> int {
    if amount < 0 {
        -amount
    } else {
        amount
    }
}

/// What a report of monthly amounts shows for the total `total`: the total
/// itself, or the total without its sign.
pub open spec fn shown_amount(strip_sign: bool, total: int) -> int {
    if strip_sign {
        magnitude(total)
    } else {
        total
    }
}

/// Whether every amount that the report is to show fits in 64 bits.
pub open spec fn amounts_fit(strip_sign: bool, totals: Seq<i64>) -> bool {
    forall|i: int|
        0 <= i < totals.len() ==> shown_amount(strip_sign, (#[trigger] totals[i]) as int)
            <= i64::MAX
}

/// Whether `report` shows, for each of the months from the index `first`
/// on, the total of the month under the label of the month.
pub open spec fn is_flow_report(
    report: HistoricalAmountsWithCurrency,
    currency: Seq<char>,
    strip_sign: bool,
    totals: Seq<i64>,
    first: int,
) -> bool {
    &&& report.currency@ == currency
    &&& report.historical_amounts.len() == totals.len()
    &&& forall|i: int|
        0 <= i < totals.len() ==> (#[trigger] report.historical_amounts[i]).0@
            == month_key_of_index(first + i) && report.historical_amounts[i].1@ == decimal_text(
            shown_amount(strip_sign, totals[i] as int),
        )
}

/// Writes the total of each month as decimal text, with or without its
/// sign.
fn flow_report(nets: &Vec<(String, i64)>, strip_sign: bool, currency: &str) -> (r: Result<
    HistoricalAmountsWithCurrency,
    TellerClientError,
>)
    ensures
        amounts_fit(strip_sign, net_amounts(nets@)) ==> {
            &&& r matches Ok(report)
            &&& report.currency@ == currency@
            &&& report.historical_amounts.len() == nets.len()
            &&& forall|i: int|
                0 <= i < nets.len() ==> (#[trigger] report.historical_amounts[i]).0 == nets[i].0
                    && report.historical_amounts[i].1@ == decimal_text(
                    shown_amount(strip_sign, nets[i].1 as int),
                )
        },
        !amounts_fit(strip_sign, net_amounts(nets@)) ==> (r matches Err(f) && f
            == TellerClientError::ArithmeticOverflow),
{
    let mut out: Vec<IntervalAmount> = Vec::new();
    let mut i: usize = 0;
    while i < nets.len()
        invariant
            i <= nets.len(),
            out.len() == i,
            forall|k: int|
                0 <= k < i ==> shown_amount(strip_sign, (#[trigger] net_amounts(nets@)[k]) as int)
                    <= i64::MAX,
            forall|k: int|
                0 <= k < i ==> (#[trigger] out[k]).0 == nets[k].0 && out[k].1@ == decimal_text(
                    shown_amount(strip_sign, nets[k].1 as int),
                ),
        decreases nets.len() - i,
    {
        let total = nets[i].1;
        assert(net_amounts(nets@)[i as int] == total);
        let shown: i64 = if strip_sign && total < 0 {
            if total == i64::MIN {
                return Err(TellerClientError::ArithmeticOverflow);
            }
            -total
        } else {
            total
        };
        out.push((nets[i].0.clone(), to_decimal_string(shown)));
        i += 1;
    }
    Ok(HistoricalAmountsWithCurrency::new(out, currency))
}

/// What a report of the monthly totals under `filter` must be.
pub open spec fn is_monthly_flow(
    r: Result<HistoricalAmountsWithCurrency, TellerClientError>,
    filter: SignFilter,
    strip_sign: bool,
    account: Account,
    transactions: Seq<Transaction>,
    from: DateView,
    to: DateView,
) -> bool {
    match monthly_totals(filter, transactions, from.month_index(), months_spanned(from, to)) {
        Err(e) => r matches Err(f) && f == e,
        Ok(totals) => if amounts_fit(strip_sign, totals) {
            r matches Ok(report) && is_flow_report(
                report,
                account.currency@,
                strip_sign,
                totals,
                from.month_index(),
            )
        } else {
            r matches Err(f) && f == TellerClientError::ArithmeticOverflow
        },
    }
}

/// The monthly totals under the filter as a report.
fn monthly_flow(
    filter: SignFilter,
    strip_sign: bool,
    account: &Account,
    transactions: &Vec<Transaction>,
    from: &Date,
    to: &Date,
) -> (r: Result<HistoricalAmountsWithCurrency, TellerClientError>)
    ensures
        is_monthly_flow(r, filter, strip_sign, *account, transactions@, from@, to@),
{
    let nets = match monthly_nets(filter, transactions, from, to) {
        Ok(nets) => nets,
        Err(e) => {
            return Err(e);
        },
    };
    flow_report(&nets, strip_sign, account.currency.as_str())
}

/// What went out of the account in every calendar month from `from` to
/// `to`, oldest first: the sum of the negative amounts of the month,
/// without its sign.
pub fn get_outgoings(
    account: &Account,
    transactions: &Vec<Transaction>,
    interval: &Interval,
    from: &Date,
    to: &Date,
) -> (r: Result<Outgoings, TellerClientError>)
    ensures
        is_monthly_flow(r, SignFilter::DebitsOnly, true, *account, transactions@, from@, to@),
{
    monthly_flow(SignFilter::DebitsOnly, true, account, transactions, from, to)
}

/// What came into the account in every calendar month from `from` to `to`,
/// oldest first: the sum of the positive amounts of the month.
pub fn get_incomings(
    account: &Account,
    transactions: &Vec<Transaction>,
    interval: &Interval,
    from: &Date,
    to: &Date,
) -> (r: Result<Incomings, TellerClientError>)
    ensures
        is_monthly_flow(r, SignFilter::CreditsOnly, false, *account, transactions@, from@, to@),
{
    monthly_flow(SignFilter::CreditsOnly, false, account, transactions, from, to)
}

/// Whether `day` lies in the window of the month of `month`: from the first
/// day of that month to the first day of the next, both included.
pub open spec fn in_month_window(month: DateView, day: DateView) -> bool {
    let start = DateView { year: month.year, month: month.month, day: 1 };
    &&& !day.is_before(start)
    &&& match start.next_month_start() {
        Some(end) => !end.is_before(day),
        None => true,
    }
}

/// The transactions whose date lies in the window of the month of `month`,
/// in their order.
pub open spec fn window_of(transactions: Seq<Transaction>, month: DateView) -> Seq<Transaction>
    decreases transactions.len(),
{
    if transactions.len() == 0 {
        Seq::empty()
    } else {
        let earlier = window_of(transactions.drop_last(), month);
        match transactions.last().day() {
            Some(day) => if in_month_window(month, day) {
                earlier.push(transactions.last())
            } else {
                earlier
            },
            None => earlier,
        }
    }
}

/// The total under the filter of the transactions in the window of a month:
/// a decode error where a date or an amount in the window cannot be read.
pub open spec fn month_flow(filter: SignFilter, transactions: Seq<Transaction>, month: DateView) -> Result<
    i64,
    TellerClientError,
> {
    if !all_dated(transactions) {
        Err(TellerClientError::DecodeError)
    } else {
        bucket_total(filter, window_of(transactions, month))
    }
}

/// The transactions in the window of the month of `month`.
fn month_window(transactions: &Vec<Transaction>, month: &Date) -> (r: Result<
    Vec<Transaction>,
    TellerClientError,
>)
    ensures
        all_dated(transactions@) ==> (r matches Ok(v) && v@ == window_of(
            transactions@,
            month@,
        )),
        !all_dated(transactions@) ==> (r matches Err(f) && f == TellerClientError::DecodeError),
{
    let start = month.first_of_month();
    let end = start.first_of_next_month();
    let mut out: Vec<Transaction> = Vec::new();
    let mut i: usize = 0;
    while i < transactions.len()
        invariant
            i <= transactions.len(),
            start@ == (DateView { year: month@.year, month: month@.month, day: 1 }),
            end is Some <==> start@.next_month_start() is Some,
            end matches Some(d) ==> Some(d@) == start@.next_month_start(),
            all_dated(transactions@.take(i as int)),
            out@ == window_of(transactions@.take(i as int), month@),
        decreases transactions.len() - i,
    {
        proof {
            let next = transactions@.take(i + 1);
            assert(next.drop_last() =~= transactions@.take(i as int));
        }
        match parse_utc_date_from_transaction(&transactions[i]) {
            None => {
                return Err(TellerClientError::DecodeError);
            },
            Some(day) => {
                let late_enough = !day.is_before(&start);
                let early_enough = match &end {
                    Some(limit) => !limit.is_before(&day),
                    None => true,
                };
                if late_enough && early_enough {
                    out.push(transactions[i].duplicate());
                }
            },
        }
        i += 1;
    }
    assert(transactions@.take(transactions.len() as int) =~= transactions@);
    Ok(out)
}

/// What a report of the total of one month under `filter` must be.
pub open spec fn is_month_flow(
    r: Result<Money, TellerClientError>,
    filter: SignFilter,
    strip_sign: bool,
    account: Account,
    transactions: Seq<Transaction>,
    month: DateView,
) -> bool {
    match month_flow(filter, transactions, month) {
        Err(e) => r matches Err(f) && f == e,
        Ok(total) => if shown_amount(strip_sign, total as int) <= i64::MAX {
            &&& r matches Ok(money)
            &&& money.amount@ == decimal_text(shown_amount(strip_sign, total as int))
            &&& money.currency@ == account.currency@
        } else {
            r matches Err(f) && f == TellerClientError::ArithmeticOverflow
        },
    }
}

/// The total of one month under the filter as money.
fn month_money(
    filter: SignFilter,
    strip_sign: bool,
    account: &Account,
    transactions: &Vec<Transaction>,
    for_month: &Date,
) -> (r: Result<Money, TellerClientError>)
    ensures
        is_month_flow(r, filter, strip_sign, *account, transactions@, for_month@),
{
    let window = match month_window(transactions, for_month) {
        Ok(window) => window,
        Err(e) => {
            return Err(e);
        },
    };
    let total = match aggregate_bucket(filter, &window) {
        Ok(total) => total,
        Err(e) => {
            return Err(e);
        },
    };
    let shown: i64 = if strip_sign && total < 0 {
        if total == i64::MIN {
            return Err(TellerClientError::ArithmeticOverflow);
        }
        -total
    } else {
        total
    };
    let text = to_decimal_string(shown);
    Ok(Money::new(text.as_str(), account.currency.as_str()))
}

/// What went out of the account in the month of `for_month`: the sum of the
/// negative amounts in the window of that month, without its sign.
pub fn get_outgoing(account: &Account, transactions: &Vec<Transaction>, for_month: &Date) -> (r:
    Result<Money, TellerClientError>)
    ensures
        is_month_flow(r, SignFilter::DebitsOnly, true, *account, transactions@, for_month@),
{
    month_money(SignFilter::DebitsOnly, true, account, transactions, for_month)
}

/// What came into the account in the month of `for_month`: the sum of the
/// positive amounts in the window of that month.
pub fn get_incoming(account: &Account, transactions: &Vec<Transaction>, for_month: &Date) -> (r:
    Result<Money, TellerClientError>)
    ensures
        is_month_flow(r, SignFilter::CreditsOnly, false, *account, transactions@, for_month@),
{
    month_money(SignFilter::CreditsOnly, false, account, transactions, for_month)
}

/// Whether `shown` writes the totals of `ranking`, one for one.
pub open spec fn shows_ranking(shown: Seq<(String, String)>, ranking: Seq<CounterpartyTotal>) -> bool {
    &&& shown.len() == ranking.len()
    &&& forall|i: int|
        0 <= i < shown.len() ==> (#[trigger] shown[i]).0 == ranking[i].counterparty && shown[i].1@
            == decimal_text(ranking[i].amount as int)
}

/// The counterparties that money went to, with what was spent with each as
/// decimal text, the smallest spend first.
pub fn get_counterparties(account: &Account, transactions: &Vec<Transaction>) -> (r: Result<
    CounterpartiesWithCurrrency,
    TellerClientError,
>)
    ensures
        match spend_per_counterparty(transactions@) {
            Err(e) => r matches Err(f) && f == e,
            Ok(totals) => {
                &&& r matches Ok(report)
                &&& report.currency@ == account.currency@
                &&& shows_ranking(report.counterparties@, ranked(totals))
            },
        },
{
    let ranking = match rank(transactions) {
        Ok(ranking) => ranking,
        Err(e) => {
            return Err(e);
        },
    };
    let mut shown: Vec<(String, String)> = Vec::new();
    let mut i: usize = 0;
    while i < ranking.len()
        invariant
            i <= ranking.len(),
            shown.len() == i,
            spend_per_counterparty(transactions@) matches Ok(totals) && ranking@ == ranked(
                totals,
            ),
            forall|k: int|
                0 <= k < i ==> (#[trigger] shown[k]).0 == ranking[k].counterparty && shown[k].1@
                    == decimal_text(ranking[k].amount as int),
        decreases ranking.len() - i,
    {
        shown.push((ranking[i].counterparty.clone(), to_decimal_string(ranking[i].amount)));
        i += 1;
    }
    Ok(CounterpartiesWithCurrrency::new(shown, account.currency.as_str()))
}

} // verus!
