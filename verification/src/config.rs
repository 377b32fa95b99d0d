//! The settings of the program: the token for the banking API and the
//! accounts that the aliases stand for.

use vstd::prelude::*;
use vstd::string::*;
use crate::cli::AccountType;
use crate::client::Account;
use crate::inquirer::Answer;
use crate::inquirer::Question;
use crate::money::all_digits;
use crate::money::digits_value;
use crate::money::lemma_digits_value_push;
use crate::text::chars_of;
use crate::text::same_text;

verus! {

/// The token and, for each alias, the identifier of the account it names;
/// the empty text where an alias names none.
#[derive(Debug, Clone)]
pub struct Config {
    pub auth_token: String,
    pub current: String,
    pub savings: String,
    pub business: String,
}

impl Config {
    /// The settings with the given token and accounts.
    pub fn new(auth_token: &str, current: &str, savings: &str, business: &str) -> (r: Config)
        ensures
            r.auth_token@ == auth_token@,
            r.current@ == current@,
            r.savings@ == savings@,
            r.business@ == business@,
    {
        Config {
            auth_token: String::from_str(auth_token),
            current: String::from_str(current),
            savings: String::from_str(savings),
            business: String::from_str(business),
        }
    }

    /// The settings with the given token and no account under any alias.
    pub fn new_with_auth_token_only(auth_token: &str) -> (r: Config)
        ensures
            r.auth_token@ == auth_token@,
            r.current@ == Seq::<char>::empty(),
            r.savings@ == Seq::<char>::empty(),
            r.business@ == Seq::<char>::empty(),
    {
        Config {
            auth_token: String::from_str(auth_token),
            current: String::new(),
            savings: String::new(),
            business: String::new(),
        }
    }

    /// The identifier that stands under the alias `account`.
    pub open spec fn account_id_of(self, account: AccountType) -> Seq<char> {
        match account {
            AccountType::Current => self.current@,
            AccountType::Savings => self.savings@,
            AccountType::Business => self.business@,
            _ => self.current@,
        }
    }

    /// The identifier of the account that `account` names. An unknown
    /// account, and none, stand for the current account.
    pub fn get_account_id(&self, account: &AccountType) -> (r: String)
        ensures
            r@ == self.account_id_of(*account),
    {
        match account {
            AccountType::Current => self.current.clone(),
            AccountType::Savings => self.savings.clone(),
            AccountType::Business => self.business.clone(),
            _ => self.current.clone(),
        }
    }

    /// The alias under which the identifier stands, in brackets: the first
    /// of current, savings and business that holds it, and the empty text
    /// where none does.
    pub open spec fn alias_of(self, account_id: Seq<char>) -> Seq<char> {
        if account_id == self.current@ {
            "(current)"@
        } else if account_id == self.savings@ {
            "(savings)"@
        } else if account_id == self.business@ {
            "(business)"@
        } else {
            ""@
        }
    }

    /// The alias of the account with the given identifier, in brackets.
    pub fn get_account_alias_for_id(&self, account_id: &str) -> (r: &'static str)
        ensures
            r@ == self.alias_of(account_id@),
    {
        if same_text(account_id, self.current.as_str()) {
            "(current)"
        } else if same_text(account_id, self.savings.as_str()) {
            "(savings)"
        } else if same_text(account_id, self.business.as_str()) {
            "(business)"
        } else {
            ""
        }
    }
}

/// The question for the token.
pub fn auth_token_question() -> (r: Question)
    ensures
        r._type@ == "input"@,
        r.name@ == "auth_token"@,
        r.message@ == "What is your `auth_token` on teller.io?"@,
{
    Question::new("auth_token", "What is your `auth_token` on teller.io?")
}

/// The questions for the accounts behind the aliases: current, savings and
/// business, in this order.
pub fn alias_questions() -> (r: Vec<Question>)
    ensures
        r.len() == 3,
        r[0].name@ == "current"@,
        r[0].message@ == "Which is your current account?"@,
        r[1].name@ == "savings"@,
        r[1].message@ == "Which is your savings account?"@,
        r[2].name@ == "business"@,
        r[2].message@ == "Which is your business account?"@,
{
    let mut questions: Vec<Question> = Vec::new();
    questions.push(Question::new("current", "Which is your current account?"));
    questions.push(Question::new("savings", "Which is your savings account?"));
    questions.push(Question::new("business", "Which is your business account?"));
    questions
}

/// The digits of a row number: the text without the plus sign that it may
/// start with.
pub open spec fn row_digits(text: Seq<char>) -> Seq<char> {
    if text.len() > 0 && text[0] == '+' {
        text.skip(1)
    } else {
        text
    }
}

/// The row number that a text writes: digits, with or without a plus sign
/// before them, whose value fits in 32 bits.
pub open spec fn row_number_of(text: Seq<char>) -> Option<u32> {
    let digits = row_digits(text);
    if digits.len() > 0 && all_digits(digits) && digits_value(digits) <= u32::MAX {
        Some(digits_value(digits) as u32)
    } else {
        None
    }
}

/// Reads a row number.
pub fn parse_row_number(text: &str) -> (r: Option<u32>)
    ensures
        r == row_number_of(text@),
{
    let chars = chars_of(text);
    let n = chars.len();
    let start: usize = if n > 0 && chars[0] == '+' {
        1
    } else {
        0
    };
    let ghost digits = row_digits(text@);
    if start == n {
        return None;
    }
    let mut value: u64 = 0;
    let mut i: usize = start;
    while i < n
        invariant
            start <= i <= n,
            n == chars.len(),
            chars@ == text@,
            digits == row_digits(text@),
            digits == text@.skip(start as int),
            digits.len() > 0,
            all_digits(digits.take(i - start)),
            value == digits_value(digits.take(i - start)) || (value > u32::MAX && digits_value(
                digits.take(i - start),
            ) > u32::MAX),
            value <= 0xffff_ffff * 10 + 9,
        decreases n - i,
    {
        let c = chars[i];
        assert(c == digits[i - start]);
        if !('0' <= c && c <= '9') {
            return None;
        }
        proof {
            assert(digits.take(i - start + 1) =~= digits.take(i - start).push(c));
            lemma_digits_value_push(digits.take(i - start), c);
        }
        if value <= 0xffff_ffff {
            value = value * 10 + ((c as u32) - ('0' as u32)) as u64;
        }
        i += 1;
    }
    assert(digits.take(n - start) =~= digits);
    if value <= 0xffff_ffff {
        Some(value as u32)
    } else {
        None
    }
}

/// The place of the first answer at or after `from` to the question named
/// `name`; the number of answers where there is none.
pub open spec fn find_answer(answers: Seq<Answer>, name: Seq<char>, from: int) -> int
    decreases answers.len() - from,
{
    if from < 0 || from >= answers.len() {
        answers.len() as int
    } else if answers[from].name@ == name {
        from
    } else {
        find_answer(answers, name, from + 1)
    }
}

/// Finds the first answer at or after `from` to the question named `name`.
fn search_answer(answers: &Vec<Answer>, name: &str, from: usize) -> (r: usize)
    requires
        from <= answers.len(),
    ensures
        r == find_answer(answers@, name@, from as int),
        from <= r <= answers.len(),
{
    let mut i: usize = from;
    while i < answers.len()
        invariant
            from <= i <= answers.len(),
            find_answer(answers@, name@, i as int) == find_answer(answers@, name@, from as int),
        decreases answers.len() - i,
    {
        if same_text(answers[i].name.as_str(), name) {
            return i;
        }
        i += 1;
    }
    i
}

/// The identifier of the account in the row that the text names; none
/// where the text names no row of the list of accounts.
pub open spec fn chosen_account(accounts: Seq<Account>, value: Seq<char>) -> Option<String> {
    match row_number_of(value) {
        Some(row) => if 1 <= row <= accounts.len() {
            Some(accounts[row - 1].id)
        } else {
            None
        },
        None => None,
    }
}

/// Picks the identifier of the account in the row that the text names.
fn choose_account(accounts: &Vec<Account>, value: &str) -> (r: Option<String>)
    ensures
        r == chosen_account(accounts@, value@),
{
    match parse_row_number(value) {
        Some(row) => if 1 <= row && row as u64 <= accounts.len() as u64 {
            Some(accounts[(row - 1) as usize].id.clone())
        } else {
            None
        },
        None => None,
    }
}

/// What an alias stands for after the answers were taken: the account that
/// the answer at `found` chooses, or what it stood for before where there is
/// no answer. None where the answer names no row.
pub open spec fn alias_after(
    before: String,
    accounts: Seq<Account>,
    answers: Seq<Answer>,
    found: int,
) -> Option<String> {
    if 0 <= found < answers.len() {
        chosen_account(accounts, answers[found].value@)
    } else {
        Some(before)
    }
}

/// The place behind the answer at `found`: where the search for the next
/// alias starts.
pub open spec fn search_after(answers: Seq<Answer>, found: int) -> int {
    if found < answers.len() {
        found + 1
    } else {
        answers.len() as int
    }
}

/// Sets one alias from the answer at `found`, where there is one.
fn set_alias(before: String, accounts: &Vec<Account>, answers: &Vec<Answer>, found: usize) -> (r:
    Option<String>)
    ensures
        r == alias_after(before, accounts@, answers@, found as int),
{
    if found < answers.len() {
        choose_account(accounts, answers[found].value.as_str())
    } else {
        Some(before)
    }
}

impl Config {
    /// Takes the accounts for the aliases from the answers to the questions
    /// named `current`, `savings` and `business`.
    ///
    /// An answer names the row of an account in `accounts`, counted from
    /// one. The answers are looked for in that order, each search starting
    /// behind the answer that the search before it found, or at the end
    /// where it found none. An alias without an answer stays as it is. An
    /// answer that names no row of `accounts` leaves no settings at all.
    pub fn with_aliases_from(self, accounts: &Vec<Account>, answers: &Vec<Answer>) -> (r: Option<
        Config,
    >)
        ensures
            ({
                let first = find_answer(answers@, "current"@, 0);
                let second = find_answer(answers@, "savings"@, search_after(answers@, first));
                let third = find_answer(answers@, "business"@, search_after(answers@, second));
                match (
                    alias_after(self.current, accounts@, answers@, first),
                    alias_after(self.savings, accounts@, answers@, second),
                    alias_after(self.business, accounts@, answers@, third),
                ) {
                    (Some(current), Some(savings), Some(business)) => r == Some(
                        Config { auth_token: self.auth_token, current, savings, business },
                    ),
                    _ => r is None,
                }
            }),
    {
        let first = search_answer(answers, "current", 0);
        let after_first = if first < answers.len() {
            first + 1
        } else {
            first
        };
        let second = search_answer(answers, "savings", after_first);
        let after_second = if second < answers.len() {
            second + 1
        } else {
            second
        };
        let third = search_answer(answers, "business", after_second);
        let current = match set_alias(self.current, accounts, answers, first) {
            Some(id) => id,
            None => {
                return None;
            },
        };
        let savings = match set_alias(self.savings, accounts, answers, second) {
            Some(id) => id,
            None => {
                return None;
            },
        };
        let business = match set_alias(self.business, accounts, answers, third) {
            Some(id) => id,
            None => {
                return None;
            },
        };
        Some(Config { auth_token: self.auth_token, current, savings, business })
    }
}

} // verus!
