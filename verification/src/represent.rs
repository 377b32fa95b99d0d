//! The texts in which accounts, transactions and amounts are shown.
//!
//! Tables are written with a tab between the cells of a row and a line feed
//! after each row, and are then aligned into columns.

use vstd::prelude::*;
use vstd::string::*;
use std::io::Write;
use tabwriter::TabWriter;
use crate::cli::OutputFormat;
use crate::client::Account;
use crate::client::Transaction;
use crate::config::Config;
use crate::inform::HistoricalAmountsWithCurrency;
use crate::money::nat_digits;
use crate::money::number_text;

verus! {

/// The text that `tabwriter` makes of a table: the same cells, padded with
/// spaces so that the cells of a column start at the same place.
pub uninterp spec fn aligned_table(table: Seq<char>) -> Seq<char>;

/// Writes the table through a `tabwriter::TabWriter` with its default
/// widths and takes what it has written. The contract only gives that text
/// its name: it is a function of the table alone.
#[verifier::external_body]
pub fn to_aligned_table(table_str: &str) -> (r: String)
    ensures
        r@ == aligned_table(table_str@),
{
    let mut tw = TabWriter::new(Vec::new());
    write!(&mut tw, "{}", table_str).unwrap();
    tw.flush().unwrap();
    String::from_utf8(tw.unwrap()).unwrap()
}

/// The row of the table of accounts for the account at place `index`.
pub open spec fn account_row(index: int, account: Account, config: Config) -> Seq<char> {
    nat_digits((index + 1) as nat) + " "@ + config.alias_of(account.id@) + "\t****"@
        + account.account_number_last_4@ + "\t"@ + account.balance@ + "\t"@ + account.currency@
        + "\n"@
}

/// The rows of the table of accounts, one for each account.
pub open spec fn account_rows(accounts: Seq<Account>, config: Config) -> Seq<char>
    decreases accounts.len(),
{
    if accounts.len() == 0 {
        Seq::empty()
    } else {
        account_rows(accounts.drop_last(), config) + account_row(
            accounts.len() - 1,
            accounts.last(),
            config,
        )
    }
}

/// The table of accounts: a heading, and for each account its row number
/// with its alias, the end of its number, and its balance with the currency.
pub open spec fn accounts_table(accounts: Seq<Account>, config: Config) -> Seq<char> {
    "row\taccount no.\tbalance\n"@ + account_rows(accounts, config)
}

/// Writes the table of accounts.
pub fn list_accounts_table(accounts: &Vec<Account>, config: &Config) -> (r: String)
    ensures
        r@ == accounts_table(accounts@, *config),
{
    let mut table = String::new();
    table.append("row\taccount no.\tbalance\n");
    let ghost heading = table@;
    let mut i: usize = 0;
    while i < accounts.len()
        invariant
            i <= accounts.len(),
            heading == "row\taccount no.\tbalance\n"@,
            table@ == heading + account_rows(accounts@.take(i as int), *config),
        decreases accounts.len() - i,
    {
        proof {
            let next = accounts@.take(i + 1);
            assert(next.drop_last() =~= accounts@.take(i as int));
        }
        let account = &accounts[i];
        let number = number_text(i as u64 + 1);
        table.append(number.as_str());
        table.append(" ");
        table.append(config.get_account_alias_for_id(account.id.as_str()));
        table.append("\t****");
        table.append(account.account_number_last_4.as_str());
        table.append("\t");
        table.append(account.balance.as_str());
        table.append("\t");
        table.append(account.currency.as_str());
        table.append("\n");
        i += 1;
    }
    assert(accounts@.take(accounts.len() as int) =~= accounts@);
    table
}

/// The table of accounts, aligned.
pub fn represent_list_accounts(accounts: &Vec<Account>, config: &Config) -> (r: String)
    ensures
        r@ == aligned_table(accounts_table(accounts@, *config)),
{
    let table = list_accounts_table(accounts, config);
    to_aligned_table(table.as_str())
}

/// The label of a labelled amount, or its amount.
pub open spec fn cell(entry: (String, String), amount: bool) -> Seq<char> {
    if amount {
        entry.1@
    } else {
        entry.0@
    }
}

/// The labels of the entries, or their amounts, with `separator` between
/// one and the next.
pub open spec fn joined_cells(entries: Seq<(String, String)>, amount: bool, separator: Seq<char>) -> Seq<
    char,
>
    decreases entries.len(),
{
    if entries.len() == 0 {
        Seq::empty()
    } else if entries.len() == 1 {
        cell(entries[0], amount)
    } else {
        joined_cells(entries.drop_last(), amount, separator) + separator + cell(
            entries.last(),
            amount,
        )
    }
}

/// The amounts of the entries, each with a tab before it.
pub open spec fn tabbed_amounts(entries: Seq<(String, String)>) -> Seq<char>
    decreases entries.len(),
{
    if entries.len() == 0 {
        Seq::empty()
    } else {
        tabbed_amounts(entries.drop_last()) + "\t"@ + entries.last().1@
    }
}

/// Writes the labels of the entries, or their amounts, with the separator
/// between one and the next.
fn join_cells(entries: &Vec<(String, String)>, amount: bool, separator: &str) -> (r: String)
    ensures
        r@ == joined_cells(entries@, amount, separator@),
{
    let mut out = String::new();
    let mut i: usize = 0;
    while i < entries.len()
        invariant
            i <= entries.len(),
            out@ == joined_cells(entries@.take(i as int), amount, separator@),
        decreases entries.len() - i,
    {
        proof {
            let next = entries@.take(i + 1);
            assert(next.drop_last() =~= entries@.take(i as int));
            if i == 0 {
            }
        }
        if i > 0 {
            out.append(separator);
        }
        if amount {
            out.append(entries[i].1.as_str());
        } else {
            out.append(entries[i].0.as_str());
        }
        i += 1;
    }
    assert(entries@.take(entries.len() as int) =~= entries@);
    out
}

/// The amounts in one line, with a space between one and the next.
pub open spec fn spark_line(report: HistoricalAmountsWithCurrency) -> Seq<char> {
    joined_cells(report.historical_amounts@, true, " "@)
}

/// The table of amounts over time: a row of the labels, and under it a row
/// that starts with the kind of amount and the currency and goes on with
/// the amounts.
pub open spec fn amounts_table(amount_type: Seq<char>, report: HistoricalAmountsWithCurrency) -> Seq<
    char,
> {
    "\t"@ + joined_cells(report.historical_amounts@, false, "\t"@) + "\n"@ + amount_type + " ("@
        + report.currency@ + ")"@ + tabbed_amounts(report.historical_amounts@)
}

/// Writes the table of amounts over time.
pub fn list_amounts_table(amount_type: &str, hac: &HistoricalAmountsWithCurrency) -> (r: String)
    ensures
        r@ == amounts_table(amount_type@, *hac),
{
    let mut table = String::new();
    table.append("\t");
    let labels = join_cells(&hac.historical_amounts, false, "\t");
    table.append(labels.as_str());
    table.append("\n");
    table.append(amount_type);
    table.append(" (");
    table.append(hac.currency.as_str());
    table.append(")");
    let ghost start = table@;
    let mut i: usize = 0;
    while i < hac.historical_amounts.len()
        invariant
            i <= hac.historical_amounts.len(),
            table@ == start + tabbed_amounts(hac.historical_amounts@.take(i as int)),
        decreases hac.historical_amounts.len() - i,
    {
        proof {
            let next = hac.historical_amounts@.take(i + 1);
            assert(next.drop_last() =~= hac.historical_amounts@.take(i as int));
        }
        table.append("\t");
        table.append(hac.historical_amounts[i].1.as_str());
        i += 1;
    }
    assert(hac.historical_amounts@.take(hac.historical_amounts.len() as int)
        =~= hac.historical_amounts@);
    table
}

/// Amounts over time as text: in one line for the spark format, as an
/// aligned table otherwise.
pub fn represent_list_amounts(
    amount_type: &str,
    hac: &HistoricalAmountsWithCurrency,
    output: &OutputFormat,
) -> (r: String)
    ensures
        r@ == match *output {
            OutputFormat::Spark => spark_line(*hac),
            OutputFormat::Standard => aligned_table(amounts_table(amount_type@, *hac)),
        },
{
    match output {
        OutputFormat::Spark => join_cells(&hac.historical_amounts, true, " "),
        OutputFormat::Standard => {
            let table = list_amounts_table(amount_type, hac);
            to_aligned_table(table.as_str())
        },
    }
}

/// The row of the table of transactions for the transaction at place
/// `index`.
pub open spec fn transaction_row(index: int, t: Transaction, show_description: bool) -> Seq<char> {
    let cells = nat_digits((index + 1) as nat) + "\t"@ + t.date@ + "\t"@ + t.counterparty@ + "\t"@
        + t.amount@;
    if show_description {
        cells + "\t"@ + t.description@ + "\n"@
    } else {
        cells + "\n"@
    }
}

/// The rows of the table of transactions, one for each transaction.
pub open spec fn transaction_rows(transactions: Seq<Transaction>, show_description: bool) -> Seq<
    char,
>
    decreases transactions.len(),
{
    if transactions.len() == 0 {
        Seq::empty()
    } else {
        transaction_rows(transactions.drop_last(), show_description) + transaction_row(
            transactions.len() - 1,
            transactions.last(),
            show_description,
        )
    }
}

/// The heading of the table of transactions.
pub open spec fn transactions_heading(currency: Seq<char>, show_description: bool) -> Seq<char> {
    if show_description {
        "row\tdate\tcounterparty\tamount ("@ + currency + ")\tdescription\n"@
    } else {
        "row\tdate\tcounterparty\tamount ("@ + currency + ")\n"@
    }
}

/// The table of transactions: a heading, and for each transaction its row
/// number, date, counterparty and amount, and its description where that is
/// asked for.
pub open spec fn transactions_table(
    transactions: Seq<Transaction>,
    currency: Seq<char>,
    show_description: bool,
) -> Seq<char> {
    transactions_heading(currency, show_description) + transaction_rows(
        transactions,
        show_description,
    )
}

/// Writes the table of transactions.
pub fn list_transactions_table(
    transactions: &Vec<Transaction>,
    currency: &str,
    show_description: &bool,
) -> (r: String)
    ensures
        r@ == transactions_table(transactions@, currency@, *show_description),
{
    let mut table = String::new();
    table.append("row\tdate\tcounterparty\tamount (");
    table.append(currency);
    if *show_description {
        table.append(")\tdescription\n");
    } else {
        table.append(")\n");
    }
    let ghost heading = table@;
    let mut i: usize = 0;
    while i < transactions.len()
        invariant
            i <= transactions.len(),
            table@ == heading + transaction_rows(transactions@.take(i as int), *show_description),
        decreases transactions.len() - i,
    {
        proof {
            let next = transactions@.take(i + 1);
            assert(next.drop_last() =~= transactions@.take(i as int));
        }
        let t = &transactions[i];
        let number = number_text(i as u64 + 1);
        table.append(number.as_str());
        table.append("\t");
        table.append(t.date.as_str());
        table.append("\t");
        table.append(t.counterparty.as_str());
        table.append("\t");
        table.append(t.amount.as_str());
        if *show_description {
            table.append("\t");
            table.append(t.description.as_str());
        }
        table.append("\n");
        i += 1;
    }
    assert(transactions@.take(transactions.len() as int) =~= transactions@);
    table
}

/// The table of transactions, aligned.
pub fn represent_list_transactions(
    transactions: &Vec<Transaction>,
    currency: &str,
    show_description: &bool,
) -> (r: String)
    ensures
        r@ == aligned_table(transactions_table(transactions@, currency@, *show_description)),
{
    let table = list_transactions_table(transactions, currency, show_description);
    to_aligned_table(table.as_str())
}

/// How many of `total` counterparties are shown when `count` are asked for:
/// as many as asked for, but no more than there are and no fewer than none.
pub open spec fn shown_count(total: int, count: int) -> int {
    if count <= 0 {
        0
    } else if count >= total {
        total
    } else {
        count
    }
}

/// The row of the table of counterparties at place `index` of those shown.
pub open spec fn counterparty_row(index: int, entry: (String, String)) -> Seq<char> {
    nat_digits((index + 1) as nat) + "\t"@ + entry.0@ + "\t"@ + entry.1@ + "\n"@
}

/// The rows of the table of counterparties, one for each entry.
pub open spec fn counterparty_rows(entries: Seq<(String, String)>) -> Seq<char>
    decreases entries.len(),
{
    if entries.len() == 0 {
        Seq::empty()
    } else {
        counterparty_rows(entries.drop_last()) + counterparty_row(
            entries.len() - 1,
            entries.last(),
        )
    }
}

/// The table of counterparties: a heading, and a numbered row for each of
/// the last `count` counterparties, which are those with the largest spend.
pub open spec fn counterparties_table(
    counterparties: Seq<(String, String)>,
    currency: Seq<char>,
    count: int,
) -> Seq<char> {
    let shown = shown_count(counterparties.len() as int, count);
    "row\tcounterparty\tamount ("@ + currency + ")\n"@ + counterparty_rows(
        counterparties.skip(counterparties.len() - shown),
    )
}

/// Writes the table of counterparties.
pub fn list_counterparties_table(
    counterparties: &Vec<(String, String)>,
    currency: &str,
    count: &i64,
) -> (r: String)
    ensures
        r@ == counterparties_table(counterparties@, currency@, *count as int),
{
    let total = counterparties.len();
    let shown: usize = if *count <= 0 {
        0
    } else if *count as u64 >= total as u64 {
        total
    } else {
        *count as usize
    };
    let skipped = total - shown;
    let mut table = String::new();
    table.append("row\tcounterparty\tamount (");
    table.append(currency);
    table.append(")\n");
    let ghost heading = table@;
    let ghost rest = counterparties@.skip(skipped as int);
    let mut i: usize = 0;
    while i < shown
        invariant
            i <= shown,
            skipped + shown == total,
            total == counterparties.len(),
            rest == counterparties@.skip(skipped as int),
            table@ == heading + counterparty_rows(rest.take(i as int)),
        decreases shown - i,
    {
        proof {
            let next = rest.take(i + 1);
            assert(next.drop_last() =~= rest.take(i as int));
        }
        let entry = &counterparties[skipped + i];
        let number = number_text(i as u64 + 1);
        table.append(number.as_str());
        table.append("\t");
        table.append(entry.0.as_str());
        table.append("\t");
        table.append(entry.1.as_str());
        table.append("\n");
        i += 1;
    }
    assert(rest.take(shown as int) =~= rest);
    table
}

/// The table of counterparties, aligned.
pub fn represent_list_counterparties(
    counterparties: &Vec<(String, String)>,
    currency: &str,
    count: &i64,
) -> (r: String)
    ensures
        r@ == aligned_table(counterparties_table(counterparties@, currency@, *count as int)),
{
    let table = list_counterparties_table(counterparties, currency, count);
    to_aligned_table(table.as_str())
}

} // verus!
