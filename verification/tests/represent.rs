use teller::cli::OutputFormat;
use teller::client::Account;
use teller::client::Transaction;
use teller::config::Config;
use teller::inform::HistoricalAmountsWithCurrency;
use teller::represent::list_accounts_table;
use teller::represent::list_amounts_table;
use teller::represent::list_counterparties_table;
use teller::represent::list_transactions_table;
use teller::represent::represent_list_accounts;
use teller::represent::represent_list_amounts;
use teller::represent::represent_list_counterparties;
use teller::represent::represent_list_transactions;
use teller::represent::to_aligned_table;

fn account(id: &str, last_4: &str, balance: &str) -> Account {
    Account {
        name: "name".to_string(),
        institution: "bank".to_string(),
        id: id.to_string(),
        currency: "GBP".to_string(),
        bank_code: "000000".to_string(),
        balance: balance.to_string(),
        account_number_last_4: last_4.to_string(),
    }
}

fn transaction(date: &str, counterparty: &str, amount: &str, description: &str) -> Transaction {
    Transaction {
        description: description.to_string(),
        date: date.to_string(),
        counterparty: counterparty.to_string(),
        amount: amount.to_string(),
    }
}

fn pairs(entries: &[(&str, &str)]) -> Vec<(String, String)> {
    entries.iter().map(|(a, b)| (a.to_string(), b.to_string())).collect()
}

#[test]
fn tables_are_aligned_into_columns() {
    assert_eq!("a    b\nccc  d\n", to_aligned_table("a\tb\nccc\td\n"));
    assert_eq!("no tabs at all", to_aligned_table("no tabs at all"));
    assert_eq!("", to_aligned_table(""));
    assert_eq!("x   y   z\nxx  y   zzz", to_aligned_table("x\ty\tz\nxx\ty\tzzz"));
}

#[test]
fn accounts_are_listed_with_their_aliases() {
    let config = Config::new("token", "id-1", "id-2", "");
    let accounts = vec![
        account("id-2", "1234", "10.00"),
        account("id-1", "5678", "-2.50"),
        account("id-3", "9012", "0.00"),
    ];
    assert_eq!(
        "row\taccount no.\tbalance\n\
         1 (savings)\t****1234\t10.00\tGBP\n\
         2 (current)\t****5678\t-2.50\tGBP\n\
         3 \t****9012\t0.00\tGBP\n",
        list_accounts_table(&accounts, &config)
    );
    assert_eq!("row\taccount no.\tbalance\n", list_accounts_table(&vec![], &config));
    assert_eq!(
        "row          account no.  balance\n\
         1 (savings)  ****1234     10.00  GBP\n\
         2 (current)  ****5678     -2.50  GBP\n\
         3            ****9012     0.00   GBP\n",
        represent_list_accounts(&accounts, &config)
    );
}

#[test]
fn the_row_numbers_go_beyond_nine() {
    let config = Config::new_with_auth_token_only("token");
    let accounts: Vec<Account> = (0..12).map(|_| account("x", "0000", "1.00")).collect();
    let table = list_accounts_table(&accounts, &config);
    let rows: Vec<&str> = table.lines().collect();
    assert_eq!(13, rows.len());
    assert_eq!("9 \t****0000\t1.00\tGBP", rows[9]);
    assert_eq!("10 \t****0000\t1.00\tGBP", rows[10]);
    assert_eq!("12 \t****0000\t1.00\tGBP", rows[12]);
}

#[test]
fn amounts_are_listed_under_their_labels() {
    let report = HistoricalAmountsWithCurrency::new(
        pairs(&[("11-2015", "1010.00"), ("12-2015", "950.00"), ("current", "1000.00")]),
        "GBP",
    );
    assert_eq!(
        "\t11-2015\t12-2015\tcurrent\nbalance (GBP)\t1010.00\t950.00\t1000.00",
        list_amounts_table("balance", &report)
    );
    assert_eq!(
        "               11-2015  12-2015  current\nbalance (GBP)  1010.00  950.00   1000.00",
        represent_list_amounts("balance", &report, &OutputFormat::Standard)
    );
    assert_eq!(
        "1010.00 950.00 1000.00",
        represent_list_amounts("balance", &report, &OutputFormat::Spark)
    );
}

#[test]
fn a_report_without_amounts_is_listed_too() {
    let report = HistoricalAmountsWithCurrency::new(vec![], "EUR");
    assert_eq!("\t\noutgoing (EUR)", list_amounts_table("outgoing", &report));
    assert_eq!("", represent_list_amounts("outgoing", &report, &OutputFormat::Spark));
    let one = HistoricalAmountsWithCurrency::new(pairs(&[("01-2015", "5.00")]), "EUR");
    assert_eq!("\t01-2015\nincoming (EUR)\t5.00", list_amounts_table("incoming", &one));
    assert_eq!("5.00", represent_list_amounts("incoming", &one, &OutputFormat::Spark));
}

#[test]
fn transactions_are_listed_with_or_without_descriptions() {
    let transactions = vec![
        transaction("2016-01-20", "SHOP", "-10.00", "card payment"),
        transaction("2016-01-21", "EMPLOYER", "2000.00", "salary"),
    ];
    assert_eq!(
        "row\tdate\tcounterparty\tamount (GBP)\n\
         1\t2016-01-20\tSHOP\t-10.00\n\
         2\t2016-01-21\tEMPLOYER\t2000.00\n",
        list_transactions_table(&transactions, "GBP", &false)
    );
    assert_eq!(
        "row\tdate\tcounterparty\tamount (GBP)\tdescription\n\
         1\t2016-01-20\tSHOP\t-10.00\tcard payment\n\
         2\t2016-01-21\tEMPLOYER\t2000.00\tsalary\n",
        list_transactions_table(&transactions, "GBP", &true)
    );
    assert_eq!(
        "row  date        counterparty  amount (GBP)\n\
         1    2016-01-20  SHOP          -10.00\n\
         2    2016-01-21  EMPLOYER      2000.00\n",
        represent_list_transactions(&transactions, "GBP", &false)
    );
    assert_eq!(
        "row\tdate\tcounterparty\tamount (USD)\n",
        list_transactions_table(&vec![], "USD", &false)
    );
}

#[test]
fn the_counterparties_with_the_largest_spend_are_listed() {
    let counterparties = pairs(&[("A", "1.00"), ("B", "2.00"), ("C", "3.00"), ("D", "4.00")]);
    assert_eq!(
        "row\tcounterparty\tamount (GBP)\n1\tC\t3.00\n2\tD\t4.00\n",
        list_counterparties_table(&counterparties, "GBP", &2)
    );
    assert_eq!(
        "row\tcounterparty\tamount (GBP)\n1\tA\t1.00\n2\tB\t2.00\n3\tC\t3.00\n4\tD\t4.00\n",
        list_counterparties_table(&counterparties, "GBP", &4)
    );
    assert_eq!(
        list_counterparties_table(&counterparties, "GBP", &4),
        list_counterparties_table(&counterparties, "GBP", &10)
    );
    assert_eq!(
        list_counterparties_table(&counterparties, "GBP", &4),
        list_counterparties_table(&counterparties, "GBP", &i64::MAX)
    );
    assert_eq!(
        "row\tcounterparty\tamount (GBP)\n",
        list_counterparties_table(&counterparties, "GBP", &0)
    );
    assert_eq!(
        "row\tcounterparty\tamount (GBP)\n",
        list_counterparties_table(&counterparties, "GBP", &-3)
    );
    assert_eq!(
        "row  counterparty  amount (GBP)\n1    D             4.00\n",
        represent_list_counterparties(&counterparties, "GBP", &1)
    );
}
