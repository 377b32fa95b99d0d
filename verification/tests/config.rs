use teller::cli::AccountType;
use teller::client::Account;
use teller::config::alias_questions;
use teller::config::auth_token_question;
use teller::config::parse_row_number;
use teller::config::Config;
use teller::inquirer::Answer;
use teller::inquirer::Question;

#[test]
fn can_instantiate_config() {
    let expected_auth_token = "fake-auth-token";
    let expected_current = "current-id";
    let expected_savings = "savings-id";
    let expected_business = "business-id";

    let config = Config::new(expected_auth_token, expected_current, expected_savings, expected_business);

    assert_eq!(expected_auth_token, config.auth_token);
    assert_eq!(expected_current, config.current);
    assert_eq!(expected_savings, config.savings);
    assert_eq!(expected_business, config.business);
}

#[test]
fn can_get_account_id_from_config() {
    let expected_auth_token = "fake-auth-token";
    let expected_current = "current-id";
    let expected_savings = "savings-id";
    let expected_business = "business-id";

    let config = Config::new(expected_auth_token, expected_current, expected_savings, expected_business);

    assert_eq!("savings-id", config.get_account_id(&AccountType::Savings));
}

#[test]
fn can_get_account_alias_from_config() {
    let expected_auth_token = "fake-auth-token";
    let expected_current = "current-id";
    let expected_savings = "savings-id";
    let expected_business = "business-id";

    let config = Config::new(expected_auth_token, expected_current, expected_savings, expected_business);

    assert_eq!("(savings)", config.get_account_alias_for_id(&expected_savings));
}

#[test]
fn every_alias_has_its_account() {
    let config = Config::new("token", "c", "s", "b");
    assert_eq!("c", config.get_account_id(&AccountType::Current));
    assert_eq!("s", config.get_account_id(&AccountType::Savings));
    assert_eq!("b", config.get_account_id(&AccountType::Business));
    assert_eq!("c", config.get_account_id(&AccountType::Unset));
    assert_eq!("c", config.get_account_id(&AccountType::Unknown("holiday".to_string())));
}

#[test]
fn every_account_has_its_alias() {
    let config = Config::new("token", "c", "s", "b");
    assert_eq!("(current)", config.get_account_alias_for_id("c"));
    assert_eq!("(savings)", config.get_account_alias_for_id("s"));
    assert_eq!("(business)", config.get_account_alias_for_id("b"));
    assert_eq!("", config.get_account_alias_for_id("x"));
}

#[test]
fn the_first_alias_of_an_account_is_given() {
    let config = Config::new("token", "same", "same", "b");
    assert_eq!("(current)", config.get_account_alias_for_id("same"));
}

#[test]
fn a_token_alone_leaves_the_aliases_empty() {
    let config = Config::new_with_auth_token_only("token");
    assert_eq!("token", config.auth_token);
    assert_eq!("", config.current);
    assert_eq!("", config.savings);
    assert_eq!("", config.business);
    assert_eq!("(current)", config.get_account_alias_for_id(""));
}

fn account(id: &str) -> Account {
    Account {
        name: "name".to_string(),
        institution: "bank".to_string(),
        id: id.to_string(),
        currency: "GBP".to_string(),
        bank_code: "000000".to_string(),
        balance: "1.00".to_string(),
        account_number_last_4: "0000".to_string(),
    }
}

fn accounts() -> Vec<Account> {
    vec![account("first"), account("second"), account("third")]
}

fn answers(given: &[(&str, &str)]) -> Vec<Answer> {
    given.iter().map(|(name, value)| Answer::new(name, value)).collect()
}

fn aliases(config: &Config) -> (String, String, String) {
    (config.current.clone(), config.savings.clone(), config.business.clone())
}

fn named(current: &str, savings: &str, business: &str) -> (String, String, String) {
    (current.to_string(), savings.to_string(), business.to_string())
}

#[test]
fn row_numbers_are_read() {
    assert_eq!(Some(3), parse_row_number("3"));
    assert_eq!(Some(0), parse_row_number("0"));
    assert_eq!(Some(12), parse_row_number("012"));
    assert_eq!(Some(7), parse_row_number("+7"));
    assert_eq!(Some(u32::MAX), parse_row_number("4294967295"));
    assert_eq!(None, parse_row_number("4294967296"));
    assert_eq!(None, parse_row_number("99999999999999999999999999"));
    assert_eq!(None, parse_row_number(""));
    assert_eq!(None, parse_row_number("+"));
    assert_eq!(None, parse_row_number("-1"));
    assert_eq!(None, parse_row_number("3 "));
    assert_eq!(None, parse_row_number("three"));
    assert_eq!(None, parse_row_number("1+"));
}

#[test]
fn aliases_are_taken_from_the_answers() {
    let config = Config::new_with_auth_token_only("token");
    let given = answers(&[("current", "2"), ("savings", "1"), ("business", "3")]);
    let config = config.with_aliases_from(&accounts(), &given).unwrap();
    assert_eq!("token", config.auth_token);
    assert_eq!(named("second", "first", "third"), aliases(&config));
}

#[test]
fn an_alias_without_an_answer_stays_as_it_is() {
    let config = Config::new("token", "old-current", "old-savings", "old-business");
    let given = answers(&[("current", "1"), ("savings", "3")]);
    let config = config.with_aliases_from(&accounts(), &given).unwrap();
    assert_eq!(named("first", "third", "old-business"), aliases(&config));
    let config = config.with_aliases_from(&accounts(), &vec![]).unwrap();
    assert_eq!(named("first", "third", "old-business"), aliases(&config));
}

#[test]
fn a_search_that_finds_nothing_ends_the_searches() {
    let config = Config::new("token", "old-current", "old-savings", "old-business");
    let given = answers(&[("current", "1"), ("business", "1")]);
    let config = config.with_aliases_from(&accounts(), &given).unwrap();
    assert_eq!(named("first", "old-savings", "old-business"), aliases(&config));
}

#[test]
fn each_search_starts_behind_the_answer_found_before() {
    let config = Config::new("token", "c", "s", "b");
    let given = answers(&[("savings", "1"), ("business", "2")]);
    let unchanged = config.clone().with_aliases_from(&accounts(), &given).unwrap();
    assert_eq!(named("c", "s", "b"), aliases(&unchanged));
    let given = answers(&[("business", "3"), ("current", "1"), ("savings", "2")]);
    let partly = config.clone().with_aliases_from(&accounts(), &given).unwrap();
    assert_eq!(named("first", "second", "b"), aliases(&partly));
    let given = answers(&[("current", "1"), ("current", "2"), ("savings", "3")]);
    let first_wins = config.with_aliases_from(&accounts(), &given).unwrap();
    assert_eq!(named("first", "third", "b"), aliases(&first_wins));
}

#[test]
fn an_answer_that_names_no_row_leaves_no_settings() {
    let config = Config::new_with_auth_token_only("token");
    for value in ["0", "4", "second", "-1", "1.5"] {
        let given = answers(&[("current", value)]);
        assert!(config.clone().with_aliases_from(&accounts(), &given).is_none(), "{}", value);
    }
    let given = answers(&[("current", "1"), ("savings", "2"), ("business", "9")]);
    assert!(config.clone().with_aliases_from(&accounts(), &given).is_none());
    let given = answers(&[("current", "1")]);
    assert!(config.with_aliases_from(&vec![], &given).is_none());
}

#[test]
fn the_questions_ask_for_the_token_and_the_aliases() {
    let question = teller_question_names(&[auth_token_question()]);
    assert_eq!(vec![("auth_token", "What is your `auth_token` on teller.io?")], borrowed(&question));
    let questions = teller_question_names(&alias_questions());
    assert_eq!(
        vec![
            ("current", "Which is your current account?"),
            ("savings", "Which is your savings account?"),
            ("business", "Which is your business account?")
        ],
        borrowed(&questions)
    );
}

fn teller_question_names(questions: &[Question]) -> Vec<(String, String)> {
    questions.iter().map(|q| (q.name.clone(), q.message.clone())).collect()
}

fn borrowed(pairs: &[(String, String)]) -> Vec<(&str, &str)> {
    pairs.iter().map(|(a, b)| (a.as_str(), b.as_str())).collect()
}
