//! What the command line can ask for: the kinds of account, interval,
//! timeframe and output, and the command that a set of arguments selects.

use vstd::prelude::*;
use vstd::string::*;
use crate::text::same_text;

verus! {

/// The account that a command is about.
#[derive(Debug, Clone)]
pub enum AccountType {
    Current,
    Savings,
    Business,
    /// A name that is none of the known aliases.
    Unknown(String),
    /// No account was named.
    Unset,
}

/// How a list of amounts is shown.
#[derive(Debug, Clone, Copy, PartialEq, Eq, Structural)]
pub enum OutputFormat {
    Spark,
    Standard,
}

/// The length of the periods that amounts are grouped by.
#[derive(Debug, Clone, Copy, PartialEq, Eq, Structural)]
pub enum Interval {
    Monthly,
}

/// A named period of time that ends today.
#[derive(Debug, Clone, Copy, PartialEq, Eq, Structural)]
pub enum Timeframe {
    Year,
    SixMonths,
    ThreeMonths,
}

impl AccountType {
    /// The account that the argument names: none for the empty text, an
    /// alias for its name, and an unknown account for anything else.
    pub fn from_arg(arg: &str) -> (r: AccountType)
        ensures
            arg@ == ""@ ==> r is Unset,
            arg@ != ""@ && arg@ == "current"@ ==> r is Current,
            arg@ != ""@ && arg@ != "current"@ && arg@ == "savings"@ ==> r is Savings,
            arg@ != ""@ && arg@ != "current"@ && arg@ != "savings"@ && arg@ == "business"@ ==> r is Business,
            arg@ != ""@ && arg@ != "current"@ && arg@ != "savings"@ && arg@ != "business"@ ==> (r matches AccountType::Unknown(
                name,
            ) && name@ == arg@),
    {
        if same_text(arg, "") {
            AccountType::Unset
        } else if same_text(arg, "current") {
            AccountType::Current
        } else if same_text(arg, "savings") {
            AccountType::Savings
        } else if same_text(arg, "business") {
            AccountType::Business
        } else {
            AccountType::Unknown(String::from_str(arg))
        }
    }
}

impl Interval {
    /// The interval that the argument names. Only months are offered, so
    /// every argument gives months.
    pub fn from_arg(arg: &str) -> (r: Interval)
        ensures
            r == Interval::Monthly,
    {
        Interval::Monthly
    }
}

impl Timeframe {
    /// The timeframe that the argument names; six months for anything that
    /// is no name of a timeframe.
    pub fn from_arg(arg: &str) -> (r: Timeframe)
        ensures
            r == (if arg@ == "year"@ {
                Timeframe::Year
            } else if arg@ == "6-months"@ {
                Timeframe::SixMonths
            } else if arg@ == "3-months"@ {
                Timeframe::ThreeMonths
            } else {
                Timeframe::SixMonths
            }),
    {
        if same_text(arg, "year") {
            Timeframe::Year
        } else if same_text(arg, "6-months") {
            Timeframe::SixMonths
        } else if same_text(arg, "3-months") {
            Timeframe::ThreeMonths
        } else {
            Timeframe::SixMonths
        }
    }

    /// The length of the timeframe in days.
    pub open spec fn spec_days(self) -> u16 {
        match self {
            Timeframe::ThreeMonths => 91,
            Timeframe::SixMonths => 183,
            Timeframe::Year => 365,
        }
    }

    /// The length of the timeframe in days: a quarter, a half and the whole
    /// of a year of 365 days, rounded.
    #[verifier::when_used_as_spec(spec_days)]
    pub fn days(self) -> (r: u16)
        ensures
            r == self.spec_days(),
    {
        match self {
            Timeframe::ThreeMonths => 91,
            Timeframe::SixMonths => 183,
            Timeframe::Year => 365,
        }
    }
}

impl OutputFormat {
    /// The output format that the argument names; the standard one for
    /// anything that is no name of a format.
    pub fn from_arg(arg: &str) -> (r: OutputFormat)
        ensures
            r == (if arg@ == "spark"@ {
                OutputFormat::Spark
            } else {
                OutputFormat::Standard
            }),
    {
        if same_text(arg, "spark") {
            OutputFormat::Spark
        } else {
            OutputFormat::Standard
        }
    }
}

/// The arguments of one invocation, as the usage text defines them.
#[derive(Debug, Clone)]
pub struct CliArgs {
    pub cmd_init: bool,
    pub cmd_list: bool,
    pub cmd_show: bool,
    pub cmd_accounts: bool,
    pub cmd_transactions: bool,
    pub cmd_counterparties: bool,
    pub cmd_balances: bool,
    pub cmd_outgoings: bool,
    pub cmd_incomings: bool,
    pub cmd_balance: bool,
    pub cmd_outgoing: bool,
    pub cmd_incoming: bool,
    pub arg_account: AccountType,
    pub flag_interval: Interval,
    pub flag_timeframe: Timeframe,
    pub flag_count: i64,
    pub flag_show_description: bool,
    pub flag_hide_currency: bool,
    pub flag_output: OutputFormat,
    pub flag_help: bool,
    pub flag_version: bool,
}

/// The commands of the program.
#[derive(Debug, Clone, Copy, PartialEq, Eq, Structural)]
pub enum CommandType {
    ShowUsage,
    Initialise,
    ListAccounts,
    ShowBalance,
    ShowOutgoing,
    ShowIncoming,
    ListTransactions,
    ListCounterparties,
    ListBalances,
    ListOutgoings,
    ListIncomings,
    /// Help or the version was asked for, which is answered elsewhere.
    DoNothing,
}

impl CommandType {
    /// Whether the command talks to the banking API and so needs the
    /// settings.
    pub open spec fn spec_needs_config(self) -> bool {
        !(self is DoNothing || self is ShowUsage || self is Initialise)
    }

    /// Tells whether the command needs the settings.
    #[verifier::when_used_as_spec(spec_needs_config)]
    pub fn needs_config(self) -> (r: bool)
        ensures
            r == self.spec_needs_config(),
    {
        match self {
            CommandType::DoNothing => false,
            CommandType::ShowUsage => false,
            CommandType::Initialise => false,
            _ => true,
        }
    }
}

/// The command that the arguments select: the first of the commands, in
/// this order, whose word was given; nothing to do where only help or the
/// version was asked for; the usage text otherwise.
pub open spec fn command_type_of(arguments: CliArgs) -> CommandType {
    if arguments.cmd_init {
        CommandType::Initialise
    } else if arguments.cmd_accounts {
        CommandType::ListAccounts
    } else if arguments.cmd_balance {
        CommandType::ShowBalance
    } else if arguments.cmd_outgoing {
        CommandType::ShowOutgoing
    } else if arguments.cmd_incoming {
        CommandType::ShowIncoming
    } else if arguments.cmd_transactions {
        CommandType::ListTransactions
    } else if arguments.cmd_counterparties {
        CommandType::ListCounterparties
    } else if arguments.cmd_balances {
        CommandType::ListBalances
    } else if arguments.cmd_incomings {
        CommandType::ListIncomings
    } else if arguments.cmd_outgoings {
        CommandType::ListOutgoings
    } else if arguments.flag_help || arguments.flag_version {
        CommandType::DoNothing
    } else {
        CommandType::ShowUsage
    }
}

/// Finds the command that the arguments select.
pub fn get_command_type(arguments: &CliArgs) -> (r: CommandType)
    ensures
        r == command_type_of(*arguments),
{
    if arguments.cmd_init {
        CommandType::Initialise
    } else if arguments.cmd_accounts {
        CommandType::ListAccounts
    } else if arguments.cmd_balance {
        CommandType::ShowBalance
    } else if arguments.cmd_outgoing {
        CommandType::ShowOutgoing
    } else if arguments.cmd_incoming {
        CommandType::ShowIncoming
    } else if arguments.cmd_transactions {
        CommandType::ListTransactions
    } else if arguments.cmd_counterparties {
        CommandType::ListCounterparties
    } else if arguments.cmd_balances {
        CommandType::ListBalances
    } else if arguments.cmd_incomings {
        CommandType::ListIncomings
    } else if arguments.cmd_outgoings {
        CommandType::ListOutgoings
    } else if arguments.flag_help || arguments.flag_version {
        CommandType::DoNothing
    } else {
        CommandType::ShowUsage
    }
}

} // verus!
