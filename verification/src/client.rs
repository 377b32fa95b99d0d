//! Accounts and transactions as the banking API delivers them, and the
//! paging rules by which a window of transactions is retrieved.
//!
//! The retrieval itself is input and output and happens elsewhere. Here is
//! what decides it: after each page, whether another one is asked for, and
//! in the end which transactions are handed on and in what order.

use vstd::prelude::*;
use vstd::string::*;
use crate::date::Date;
use crate::date::DateView;
use crate::date::date_of_text;
use crate::date::generate_utc_date_from_date_str;
use crate::money::nat_digits;
use crate::money::number_text;

verus! {

/// How a request to the banking API, or the reading of its answer, failed.
#[derive(Debug, Clone, Copy, PartialEq, Eq, Structural)]
pub enum TellerClientError {
    /// The API refused the token.
    AuthenticationError,
    /// The network, or reading from it, failed.
    TransportError,
    /// An answer, or a field of a record, could not be read.
    DecodeError,
    /// A sum of amounts does not fit in 64 bits.
    ArithmeticOverflow,
}

impl TellerClientError {
    /// A short text for the error.
    pub fn description(&self) -> (r: String)
        ensures
            r@ == match *self {
                TellerClientError::AuthenticationError => "Could not authenticate"@,
                TellerClientError::TransportError => "Could not reach the server"@,
                TellerClientError::DecodeError => "Could not read the answer"@,
                TellerClientError::ArithmeticOverflow => "Amounts out of range"@,
            },
    {
        match self {
            TellerClientError::AuthenticationError => String::from_str("Could not authenticate"),
            TellerClientError::TransportError => String::from_str("Could not reach the server"),
            TellerClientError::DecodeError => String::from_str("Could not read the answer"),
            TellerClientError::ArithmeticOverflow => String::from_str("Amounts out of range"),
        }
    }
}

/// The address of the list of accounts.
pub open spec fn accounts_address() -> Seq<char> {
    "https://api.teller.io"@ + "/accounts"@
}

/// The address of the account with the identifier `account_id`.
pub open spec fn account_address(account_id: Seq<char>) -> Seq<char> {
    accounts_address() + "/"@ + account_id
}

/// The address of page `page` of the transactions of an account, in pages
/// of `page_size` transactions.
pub open spec fn transactions_address(account_id: Seq<char>, page_size: u32, page: u32) -> Seq<
    char,
> {
    account_address(account_id) + "/transactions?page_size="@ + nat_digits(page_size as nat)
        + "&page="@ + nat_digits(page as nat)
}

/// Writes the address of the list of accounts.
pub fn accounts_url() -> (r: String)
    ensures
        r@ == accounts_address(),
{
    let mut url = String::from_str("https://api.teller.io");
    url.append("/accounts");
    url
}

/// Writes the address of an account.
pub fn account_url(account_id: &str) -> (r: String)
    ensures
        r@ == account_address(account_id@),
{
    let mut url = accounts_url();
    url.append("/");
    url.append(account_id);
    url
}

/// Writes the address of a page of the transactions of an account.
pub fn transactions_url(account_id: &str, page_size: u32, page: u32) -> (r: String)
    ensures
        r@ == transactions_address(account_id@, page_size, page),
{
    let mut url = account_url(account_id);
    url.append("/transactions?page_size=");
    url.append(number_text(page_size as u64).as_str());
    url.append("&page=");
    url.append(number_text(page as u64).as_str());
    url
}

/// What the status code of an answer means for a request: every code from
/// 400 to 499 counts as a refused token, whatever else it may say.
pub fn check_status(status: u16) -> (r: Result<(), TellerClientError>)
    ensures
        r == (if 400 <= status <= 499 {
            Err::<(), TellerClientError>(TellerClientError::AuthenticationError)
        } else {
            Ok::<(), TellerClientError>(())
        }),
{
    if 400 <= status && status <= 499 {
        Err(TellerClientError::AuthenticationError)
    } else {
        Ok(())
    }
}

/// What a report does where its transactions could not be retrieved.
#[derive(Debug, Clone, Copy, PartialEq, Eq, Structural)]
pub enum OnFetchFailure {
    /// The report fails as the retrieval did.
    Propagate,
    /// The report is made as if the account had no transactions.
    TreatAsEmpty,
}

/// Applies the policy to the outcome of a retrieval.
pub fn settle_fetch(policy: OnFetchFailure, outcome: Result<Vec<Transaction>, TellerClientError>) -> (r:
    Result<Vec<Transaction>, TellerClientError>)
    ensures
        match outcome {
            Ok(transactions) => r == Ok::<Vec<Transaction>, TellerClientError>(transactions),
            Err(e) => match policy {
                OnFetchFailure::Propagate => r == Err::<Vec<Transaction>, TellerClientError>(e),
                OnFetchFailure::TreatAsEmpty => r matches Ok(v) && v@ == Seq::<Transaction>::empty(),
            },
        },
{
    match outcome {
        Ok(transactions) => Ok(transactions),
        Err(e) => match policy {
            OnFetchFailure::Propagate => Err(e),
            OnFetchFailure::TreatAsEmpty => Ok(Vec::new()),
        },
    }
}

/// A bank account as of one retrieval.
#[derive(Debug, Clone)]
pub struct Account {
    pub name: String,
    pub institution: String,
    pub id: String,
    pub currency: String,
    pub bank_code: String,
    pub balance: String,
    pub account_number_last_4: String,
}

/// One movement on an account. The amount is a signed decimal text, the
/// date is written as `YYYY-MM-DD`.
#[derive(Debug, Clone)]
pub struct Transaction {
    pub description: String,
    pub date: String,
    pub counterparty: String,
    pub amount: String,
}

impl Transaction {
    /// The day of the transaction, where its date text can be read.
    pub open spec fn day(self) -> Option<DateView> {
        date_of_text(self.date@)
    }

    /// A copy of the transaction.
    pub fn duplicate(&self) -> (r: Transaction)
        ensures
            r == *self,
    {
        Transaction {
            description: self.description.clone(),
            date: self.date.clone(),
            counterparty: self.counterparty.clone(),
            amount: self.amount.clone(),
        }
    }
}

/// A copy of each transaction of `transactions`, in the same order.
pub fn duplicate_all(transactions: &Vec<Transaction>) -> (r: Vec<Transaction>)
    ensures
        r@ == transactions@,
{
    let mut out: Vec<Transaction> = Vec::new();
    let mut i: usize = 0;
    while i < transactions.len()
        invariant
            i <= transactions.len(),
            out@ == transactions@.take(i as int),
        decreases transactions.len() - i,
    {
        out.push(transactions[i].duplicate());
        i += 1;
    }
    out
}

/// Reads the date of a transaction.
pub fn parse_utc_date_from_transaction(t: &Transaction) -> (r: Option<Date>)
    ensures
        r is Some <==> t.day() is Some,
        r matches Some(date) ==> Some(date@) == t.day(),
{
    generate_utc_date_from_date_str(t.date.as_str())
}

/// Whether a transaction dated on the cutoff day itself belongs to the
/// window.
#[derive(Debug, Clone, Copy, PartialEq, Eq, Structural)]
pub enum CutoffRule {
    /// The window starts on the cutoff day.
    OnOrAfter,
    /// The window starts on the day after the cutoff day.
    StrictlyAfter,
}

/// Whether a day lies in the window that starts at `cutoff`.
pub open spec fn within_cutoff(rule: CutoffRule, cutoff: DateView, day: DateView) -> bool {
    match rule {
        CutoffRule::OnOrAfter => !day.is_before(cutoff),
        CutoffRule::StrictlyAfter => cutoff.is_before(day),
    }
}

/// Whether the transaction has a readable date that lies in the window.
pub open spec fn is_kept(rule: CutoffRule, cutoff: DateView, t: Transaction) -> bool {
    t.day() matches Some(day) && within_cutoff(rule, cutoff, day)
}

/// Whether the date of every transaction can be read.
pub open spec fn all_dated(transactions: Seq<Transaction>) -> bool {
    forall|i: int| 0 <= i < transactions.len() ==> (#[trigger] transactions[i]).day() is Some
}

/// The transactions in the window, in the reverse of the order in which
/// they were delivered: the feed delivers the newest first, so this is from
/// the oldest to the newest.
pub open spec fn selected(rule: CutoffRule, cutoff: DateView, delivered: Seq<Transaction>) -> Seq<
    Transaction,
>
    decreases delivered.len(),
{
    if delivered.len() == 0 {
        Seq::empty()
    } else if is_kept(rule, cutoff, delivered.last()) {
        seq![delivered.last()] + selected(rule, cutoff, delivered.drop_last())
    } else {
        selected(rule, cutoff, delivered.drop_last())
    }
}

/// The transactions in the window, in the order in which they were
/// delivered.
pub open spec fn within_window(rule: CutoffRule, cutoff: DateView, delivered: Seq<Transaction>) -> Seq<
    Transaction,
>
    decreases delivered.len(),
{
    if delivered.len() == 0 {
        Seq::empty()
    } else if is_kept(rule, cutoff, delivered.last()) {
        within_window(rule, cutoff, delivered.drop_last()).push(delivered.last())
    } else {
        within_window(rule, cutoff, delivered.drop_last())
    }
}

/// The selected transactions are those in the window, turned round.
pub proof fn lemma_selected_is_window_reversed(
    rule: CutoffRule,
    cutoff: DateView,
    delivered: Seq<Transaction>,
)
    ensures
        selected(rule, cutoff, delivered) == within_window(rule, cutoff, delivered).reverse(),
    decreases delivered.len(),
{
    if delivered.len() > 0 {
        lemma_selected_is_window_reversed(rule, cutoff, delivered.drop_last());
        let shorter = within_window(rule, cutoff, delivered.drop_last());
        if is_kept(rule, cutoff, delivered.last()) {
            assert(shorter.push(delivered.last()).reverse() =~= seq![delivered.last()]
                + shorter.reverse());
        }
    }
}

/// What a retrieval that delivered `delivered` in all hands on: the
/// selected transactions, or a decode error where a date cannot be read.
pub open spec fn fetch_outcome(rule: CutoffRule, cutoff: DateView, delivered: Seq<Transaction>) -> Result<
    Seq<Transaction>,
    TellerClientError,
> {
    if all_dated(delivered) {
        Ok(selected(rule, cutoff, delivered))
    } else {
        Err(TellerClientError::DecodeError)
    }
}

/// What a page means for the retrieval.
#[derive(Debug, Clone, Copy, PartialEq, Eq, Structural)]
pub enum PageVerdict {
    /// The page is empty, or its last transaction is older than the cutoff:
    /// no further page can hold anything of the window.
    Last,
    /// The last transaction of the page is not older than the cutoff.
    More,
    /// The date of the last transaction of the page cannot be read.
    Unreadable,
}

/// The verdict on a page: pages run from newer to older, so the last
/// transaction of a page is its oldest.
pub open spec fn page_verdict(cutoff: DateView, page: Seq<Transaction>) -> PageVerdict {
    if page.len() == 0 {
        PageVerdict::Last
    } else {
        match page.last().day() {
            None => PageVerdict::Unreadable,
            Some(day) => if day.is_before(cutoff) {
                PageVerdict::Last
            } else {
                PageVerdict::More
            },
        }
    }
}

/// Gives the verdict on a page.
pub fn judge_page(cutoff: &Date, page: &Vec<Transaction>) -> (r: PageVerdict)
    ensures
        r == page_verdict(cutoff@, page@),
{
    if page.len() == 0 {
        PageVerdict::Last
    } else {
        match parse_utc_date_from_transaction(&page[page.len() - 1]) {
            None => PageVerdict::Unreadable,
            Some(day) => if day.is_before(cutoff) {
                PageVerdict::Last
            } else {
                PageVerdict::More
            },
        }
    }
}

/// Tells whether a day lies in the window that starts at `cutoff`.
pub fn is_within_cutoff(rule: CutoffRule, cutoff: &Date, day: &Date) -> (r: bool)
    ensures
        r == within_cutoff(rule, cutoff@, day@),
{
    match rule {
        CutoffRule::OnOrAfter => !day.is_before(cutoff),
        CutoffRule::StrictlyAfter => cutoff.is_before(day),
    }
}

/// Hands on what a finished retrieval delivered: drops what lies outside
/// the window and turns the rest round, so that the oldest comes first.
pub fn select_delivered(rule: CutoffRule, cutoff: &Date, delivered: Vec<Transaction>) -> (r: Result<
    Vec<Transaction>,
    TellerClientError,
>)
    ensures
        match fetch_outcome(rule, cutoff@, delivered@) {
            Ok(kept) => r matches Ok(v) && v@ == kept,
            Err(e) => r == Err::<Vec<Transaction>, TellerClientError>(e),
        },
{
    let mut rest = delivered;
    let mut out: Vec<Transaction> = Vec::new();
    while rest.len() > 0
        invariant
            out@ + selected(rule, cutoff@, rest@) == selected(rule, cutoff@, delivered@),
            all_dated(delivered@) <==> all_dated(rest@),
        decreases rest.len(),
    {
        let ghost before = rest@;
        let t = rest.pop().unwrap();
        match parse_utc_date_from_transaction(&t) {
            None => {
                return Err(TellerClientError::DecodeError);
            },
            Some(day) => {
                assert(all_dated(before) <==> all_dated(rest@)) by {
                    if all_dated(rest@) {
                        assert forall|i: int| 0 <= i < before.len() implies (
                        #[trigger] before[i]).day() is Some by {
                            if i < rest@.len() {
                                assert(before[i] == rest@[i]);
                            }
                        }
                    } else {
                        let i = choose|i: int| 0 <= i < rest@.len() && !(rest@[i].day() is Some);
                    }
                }
                if is_within_cutoff(rule, cutoff, &day) {
                    out.push(t);
                }
            },
        }
    }
    Ok(out)
}

/// The number of transactions asked for in one page.
pub const PAGE_SIZE: u32 = 250;

/// A retrieval in progress: the window, the number of the page that is
/// asked for next, and what the earlier pages delivered.
pub struct TransactionFetcher {
    pub cutoff: Date,
    pub rule: CutoffRule,
    pub page: u32,
    pub delivered: Vec<Transaction>,
}

/// What follows an answer of the feed.
pub enum FetchStep {
    /// The page `page` of the fetcher inside is to be requested.
    Request(TransactionFetcher),
    /// The retrieval is over; these are the transactions of the window,
    /// oldest first.
    Complete(Vec<Transaction>),
    /// The retrieval is over and has failed as a whole.
    Fail(TellerClientError),
}

impl TransactionFetcher {
    /// A retrieval that starts by asking for page 1.
    pub fn new(cutoff: Date, rule: CutoffRule) -> (r: TransactionFetcher)
        ensures
            r.cutoff == cutoff,
            r.rule == rule,
            r.page == 1,
            r.delivered@ == Seq::<Transaction>::empty(),
    {
        TransactionFetcher { cutoff, rule, page: 1, delivered: Vec::new() }
    }

    /// Whether another page is asked for after `page` has arrived.
    pub open spec fn goes_on(self, page: Seq<Transaction>) -> bool {
        page_verdict(self.cutoff@, page) == PageVerdict::More && self.page < u32::MAX
    }

    /// Takes the answer to the request for page `self.page`.
    ///
    /// A failed request fails the whole retrieval, and so does a page whose
    /// last date cannot be read. After a page that is empty or reaches
    /// behind the cutoff, the retrieval completes with all that was
    /// delivered; otherwise the next page is asked for.
    pub fn step(self, answer: Result<Vec<Transaction>, TellerClientError>) -> (r: FetchStep)
        ensures
            match answer {
                Err(e) => r matches FetchStep::Fail(f) && f == e,
                Ok(page) => if page_verdict(self.cutoff@, page@) == PageVerdict::Unreadable {
                    r matches FetchStep::Fail(f) && f == TellerClientError::DecodeError
                } else if self.goes_on(page@) {
                    &&& r matches FetchStep::Request(next)
                    &&& next.cutoff == self.cutoff
                    &&& next.rule == self.rule
                    &&& next.page == self.page + 1
                    &&& next.delivered@ == self.delivered@ + page@
                } else {
                    match fetch_outcome(self.rule, self.cutoff@, self.delivered@ + page@) {
                        Ok(kept) => r matches FetchStep::Complete(v) && v@ == kept,
                        Err(e) => r matches FetchStep::Fail(f) && f == e,
                    }
                },
            },
    {
        match answer {
            Err(e) => FetchStep::Fail(e),
            Ok(page) => {
                let mut page = page;
                let verdict = judge_page(&self.cutoff, &page);
                let mut delivered = self.delivered;
                match verdict {
                    PageVerdict::Unreadable => FetchStep::Fail(TellerClientError::DecodeError),
                    PageVerdict::More => {
                        delivered.append(&mut page);
                        if self.page < u32::MAX {
                            FetchStep::Request(
                                TransactionFetcher {
                                    cutoff: self.cutoff,
                                    rule: self.rule,
                                    page: self.page + 1,
                                    delivered,
                                },
                            )
                        } else {
                            finish(self.rule, &self.cutoff, delivered)
                        }
                    },
                    PageVerdict::Last => {
                        delivered.append(&mut page);
                        finish(self.rule, &self.cutoff, delivered)
                    },
                }
            },
        }
    }
}

/// Ends a retrieval with all that was delivered.
fn finish(rule: CutoffRule, cutoff: &Date, delivered: Vec<Transaction>) -> (r: FetchStep)
    ensures
        match fetch_outcome(rule, cutoff@, delivered@) {
            Ok(kept) => r matches FetchStep::Complete(v) && v@ == kept,
            Err(e) => r matches FetchStep::Fail(f) && f == e,
        },
{
    match select_delivered(rule, cutoff, delivered) {
        Ok(kept) => FetchStep::Complete(kept),
        Err(e) => FetchStep::Fail(e),
    }
}

/// The transactions of the pages of a feed, as a feed holds them.
pub open spec fn page_of(answer: Result<Vec<Transaction>, TellerClientError>) -> Result<
    Seq<Transaction>,
    TellerClientError,
> {
    match answer {
        Ok(page) => Ok(page@),
        Err(e) => Err(e),
    }
}

/// What a retrieval gives on a feed whose answer to the request for page
/// `n + 1` is `feed[n]`, and which has no transactions beyond its last
/// answer; `next` answers have been taken and `delivered` is what they held.
pub open spec fn replay(
    rule: CutoffRule,
    cutoff: DateView,
    feed: Seq<Result<Vec<Transaction>, TellerClientError>>,
    next: int,
    delivered: Seq<Transaction>,
) -> Result<Seq<Transaction>, TellerClientError>
    decreases feed.len() - next,
{
    if next < 0 || next >= feed.len() {
        fetch_outcome(rule, cutoff, delivered)
    } else {
        match page_of(feed[next]) {
            Err(e) => Err(e),
            Ok(page) => match page_verdict(cutoff, page) {
                PageVerdict::Unreadable => Err(TellerClientError::DecodeError),
                PageVerdict::Last => fetch_outcome(rule, cutoff, delivered + page),
                PageVerdict::More => if next + 1 < u32::MAX {
                    replay(rule, cutoff, feed, next + 1, delivered + page)
                } else {
                    fetch_outcome(rule, cutoff, delivered + page)
                },
            },
        }
    }
}

/// Runs a whole retrieval on a feed that is held in memory: `feed[n]` is the
/// answer to the request for page `n + 1`, and every further page is empty.
pub fn fetch_from(
    feed: &Vec<Result<Vec<Transaction>, TellerClientError>>,
    cutoff: Date,
    rule: CutoffRule,
) -> (r: Result<Vec<Transaction>, TellerClientError>)
    ensures
        match replay(rule, cutoff@, feed@, 0, Seq::empty()) {
            Ok(kept) => r matches Ok(v) && v@ == kept,
            Err(e) => r matches Err(f) && f == e,
        },
{
    let mut fetcher = TransactionFetcher::new(cutoff, rule);
    loop
        invariant
            fetcher.cutoff == cutoff,
            fetcher.rule == rule,
            1 <= fetcher.page,
            replay(rule, cutoff@, feed@, fetcher.page - 1, fetcher.delivered@) == replay(
                rule,
                cutoff@,
                feed@,
                0,
                Seq::empty(),
            ),
        decreases u32::MAX - fetcher.page,
    {
        let index = (fetcher.page - 1) as usize;
        let answer: Result<Vec<Transaction>, TellerClientError> = if index < feed.len() {
            match &feed[index] {
                Ok(page) => Ok(duplicate_all(page)),
                Err(e) => Err(*e),
            }
        } else {
            Ok(Vec::new())
        };
        match fetcher.step(answer) {
            FetchStep::Request(next) => {
                fetcher = next;
            },
            FetchStep::Complete(kept) => {
                return Ok(kept);
            },
            FetchStep::Fail(e) => {
                return Err(e);
            },
        }
    }
}

/// A retrieval hands on only transactions whose date lies in the window.
pub proof fn lemma_selected_are_kept(rule: CutoffRule, cutoff: DateView, delivered: Seq<Transaction>)
    ensures
        forall|i: int|
            0 <= i < selected(rule, cutoff, delivered).len() ==> is_kept(
                rule,
                cutoff,
                #[trigger] selected(rule, cutoff, delivered)[i],
            ),
    decreases delivered.len(),
{
    if delivered.len() > 0 {
        lemma_selected_are_kept(rule, cutoff, delivered.drop_last());
        let rest = selected(rule, cutoff, delivered.drop_last());
        let all = selected(rule, cutoff, delivered);
        assert forall|i: int| 0 <= i < all.len() implies is_kept(rule, cutoff, #[trigger] all[i]) by {
            if is_kept(rule, cutoff, delivered.last()) {
                if i > 0 {
                    assert(all[i] == rest[i - 1]);
                }
            } else {
                assert(all[i] == rest[i]);
            }
        }
    }
}

/// Whatever the feed holds, a retrieval that succeeds hands on only
/// transactions whose date lies in the window.
pub proof fn lemma_replay_only_kept(
    rule: CutoffRule,
    cutoff: DateView,
    feed: Seq<Result<Vec<Transaction>, TellerClientError>>,
    next: int,
    delivered: Seq<Transaction>,
)
    ensures
        replay(rule, cutoff, feed, next, delivered) matches Ok(kept) ==> forall|i: int|
            0 <= i < kept.len() ==> is_kept(rule, cutoff, #[trigger] kept[i]),
    decreases feed.len() - next,
{
    if next < 0 || next >= feed.len() {
        lemma_selected_are_kept(rule, cutoff, delivered);
    } else {
        match page_of(feed[next]) {
            Err(e) => {},
            Ok(page) => {
                lemma_selected_are_kept(rule, cutoff, delivered + page);
                if page_verdict(cutoff, page) == PageVerdict::More && next + 1 < u32::MAX {
                    lemma_replay_only_kept(rule, cutoff, feed, next + 1, delivered + page);
                }
            },
        }
    }
}

/// Whether every transaction has a readable date and none is newer than one
/// before it.
pub open spec fn is_newest_first(transactions: Seq<Transaction>) -> bool {
    &&& all_dated(transactions)
    &&& forall|i: int, j: int|
        0 <= i < j < transactions.len() ==> !(#[trigger] transactions[i]).day()->0.is_before(
            (#[trigger] transactions[j]).day()->0,
        )
}

/// Whether every transaction has a readable date and none is older than one
/// before it.
pub open spec fn is_oldest_first(transactions: Seq<Transaction>) -> bool {
    &&& all_dated(transactions)
    &&& forall|i: int, j: int|
        0 <= i < j < transactions.len() ==> !(#[trigger] transactions[j]).day()->0.is_before(
            (#[trigger] transactions[i]).day()->0,
        )
}

/// Every selected transaction is one of those delivered.
proof fn lemma_selected_from(
    rule: CutoffRule,
    cutoff: DateView,
    delivered: Seq<Transaction>,
    i: int,
) -> (k: int)
    requires
        0 <= i < selected(rule, cutoff, delivered).len(),
    ensures
        0 <= k < delivered.len(),
        selected(rule, cutoff, delivered)[i] == delivered[k],
    decreases delivered.len(),
{
    if is_kept(rule, cutoff, delivered.last()) {
        if i == 0 {
            delivered.len() - 1
        } else {
            lemma_selected_from(rule, cutoff, delivered.drop_last(), i - 1)
        }
    } else {
        lemma_selected_from(rule, cutoff, delivered.drop_last(), i)
    }
}

/// Where the feed delivers the newest transactions first, the result of a
/// retrieval runs from the oldest to the newest.
pub proof fn lemma_selected_oldest_first(
    rule: CutoffRule,
    cutoff: DateView,
    delivered: Seq<Transaction>,
)
    requires
        is_newest_first(delivered),
    ensures
        is_oldest_first(selected(rule, cutoff, delivered)),
    decreases delivered.len(),
{
    let all = selected(rule, cutoff, delivered);
    if delivered.len() > 0 {
        let shorter = delivered.drop_last();
        lemma_selected_oldest_first(rule, cutoff, shorter);
        let offset: int = if is_kept(rule, cutoff, delivered.last()) {
            1
        } else {
            0
        };
        assert forall|i: int, j: int| 0 <= i < j < all.len() implies !(#[trigger] all[j]).day()->0.is_before(
            (#[trigger] all[i]).day()->0,
        ) by {
            if offset == 1 && i == 0 {
                let k = lemma_selected_from(rule, cutoff, shorter, j - 1);
            }
        }
    }
}

/// A feed whose first page is empty gives an empty result and no error.
pub proof fn lemma_empty_first_page(
    rule: CutoffRule,
    cutoff: DateView,
    feed: Seq<Result<Vec<Transaction>, TellerClientError>>,
)
    requires
        feed.len() == 0 || page_of(feed[0]) == Ok::<Seq<Transaction>, TellerClientError>(
            Seq::empty(),
        ),
    ensures
        replay(rule, cutoff, feed, 0, Seq::empty()) == Ok::<Seq<Transaction>, TellerClientError>(
            Seq::empty(),
        ),
{
}

} // verus!
