use teller::cli::get_command_type;
use teller::cli::AccountType;
use teller::cli::CliArgs;
use teller::cli::CommandType;
use teller::cli::Interval;
use teller::cli::OutputFormat;
use teller::cli::Timeframe;

#[test]
fn can_fallback_to_show_usage_command_type() {
    let args = CliArgs {
        cmd_init: false,
        cmd_list: false,
        cmd_show: false,
        cmd_accounts: false,
        cmd_transactions: false,
        cmd_counterparties: false,
        cmd_balances: false,
        cmd_outgoings: false,
        cmd_incomings: false,
        cmd_balance: false,
        cmd_outgoing: false,
        cmd_incoming: false,
        arg_account: AccountType::Unset,
        flag_interval: Interval::Monthly,
        flag_timeframe: Timeframe::Year,
        flag_count: 0i64,
        flag_show_description: false,
        flag_hide_currency: false,
        flag_output: OutputFormat::Standard,
        flag_help: false,
        flag_version: false,
    };

    let command_type = get_command_type(&args);

    assert_eq!(CommandType::ShowUsage, command_type);
}

#[test]
fn can_get_init_command_type() {
    let args = CliArgs {
        cmd_init: true,
        cmd_list: false,
        cmd_show: false,
        cmd_accounts: false,
        cmd_transactions: false,
        cmd_counterparties: false,
        cmd_balances: false,
        cmd_outgoings: false,
        cmd_incomings: false,
        cmd_balance: false,
        cmd_outgoing: false,
        cmd_incoming: false,
        arg_account: AccountType::Unset,
        flag_interval: Interval::Monthly,
        flag_timeframe: Timeframe::Year,
        flag_count: 0i64,
        flag_show_description: false,
        flag_hide_currency: false,
        flag_output: OutputFormat::Standard,
        flag_help: false,
        flag_version: false,
    };

    let command_type = get_command_type(&args);

    assert_eq!(CommandType::Initialise, command_type);
}

#[test]
fn can_get_list_accounts_command_type() {
    let args = CliArgs {
        cmd_init: false,
        cmd_list: true,
        cmd_show: false,
        cmd_accounts: true,
        cmd_transactions: false,
        cmd_counterparties: false,
        cmd_balances: false,
        cmd_outgoings: false,
        cmd_incomings: false,
        cmd_balance: false,
        cmd_outgoing: false,
        cmd_incoming: false,
        arg_account: AccountType::Unset,
        flag_interval: Interval::Monthly,
        flag_timeframe: Timeframe::Year,
        flag_count: 0i64,
        flag_show_description: false,
        flag_hide_currency: false,
        flag_output: OutputFormat::Standard,
        flag_help: false,
        flag_version: false,
    };

    let command_type = get_command_type(&args);

    assert_eq!(CommandType::ListAccounts, command_type);
}

#[test]
fn can_get_list_transactions_command_type() {
    let args = CliArgs {
        cmd_init: false,
        cmd_list: true,
        cmd_show: false,
        cmd_accounts: false,
        cmd_transactions: true,
        cmd_counterparties: false,
        cmd_balances: false,
        cmd_outgoings: false,
        cmd_incomings: false,
        cmd_balance: false,
        cmd_outgoing: false,
        cmd_incoming: false,
        arg_account: AccountType::Unset,
        flag_interval: Interval::Monthly,
        flag_timeframe: Timeframe::Year,
        flag_count: 0i64,
        flag_show_description: false,
        flag_hide_currency: false,
        flag_output: OutputFormat::Standard,
        flag_help: false,
        flag_version: false,
    };

    let command_type = get_command_type(&args);

    assert_eq!(CommandType::ListTransactions, command_type);
}

#[test]
fn can_get_list_counterparties_command_type() {
    let args = CliArgs {
        cmd_init: false,
        cmd_list: true,
        cmd_show: false,
        cmd_accounts: false,
        cmd_transactions: false,
        cmd_counterparties: true,
        cmd_balances: false,
        cmd_outgoings: false,
        cmd_incomings: false,
        cmd_balance: false,
        cmd_outgoing: false,
        cmd_incoming: false,
        arg_account: AccountType::Unset,
        flag_interval: Interval::Monthly,
        flag_timeframe: Timeframe::Year,
        flag_count: 0i64,
        flag_show_description: false,
        flag_hide_currency: false,
        flag_output: OutputFormat::Standard,
        flag_help: false,
        flag_version: false,
    };

    let command_type = get_command_type(&args);

    assert_eq!(CommandType::ListCounterparties, command_type);
}

#[test]
fn can_get_list_balances_command_type() {
    let args = CliArgs {
        cmd_init: false,
        cmd_list: true,
        cmd_show: false,
        cmd_accounts: false,
        cmd_transactions: false,
        cmd_counterparties: false,
        cmd_balances: true,
        cmd_outgoings: false,
        cmd_incomings: false,
        cmd_balance: false,
        cmd_outgoing: false,
        cmd_incoming: false,
        arg_account: AccountType::Unset,
        flag_interval: Interval::Monthly,
        flag_timeframe: Timeframe::Year,
        flag_count: 0i64,
        flag_show_description: false,
        flag_hide_currency: false,
        flag_output: OutputFormat::Standard,
        flag_help: false,
        flag_version: false,
    };

    let command_type = get_command_type(&args);

    assert_eq!(CommandType::ListBalances, command_type);
}

#[test]
fn can_get_list_outgoings_command_type() {
    let args = CliArgs {
        cmd_init: false,
        cmd_list: true,
        cmd_show: false,
        cmd_accounts: false,
        cmd_transactions: false,
        cmd_counterparties: false,
        cmd_balances: false,
        cmd_outgoings: true,
        cmd_incomings: false,
        cmd_balance: false,
        cmd_outgoing: false,
        cmd_incoming: false,
        arg_account: AccountType::Unset,
        flag_interval: Interval::Monthly,
        flag_timeframe: Timeframe::Year,
        flag_count: 0i64,
        flag_show_description: false,
        flag_hide_currency: false,
        flag_output: OutputFormat::Standard,
        flag_help: false,
        flag_version: false,
    };

    let command_type = get_command_type(&args);

    assert_eq!(CommandType::ListOutgoings, command_type);
}

#[test]
fn can_get_list_incomings_command_type() {
    let args = CliArgs {
        cmd_init: false,
        cmd_list: true,
        cmd_show: false,
        cmd_accounts: false,
        cmd_transactions: false,
        cmd_counterparties: false,
        cmd_balances: false,
        cmd_outgoings: false,
        cmd_incomings: true,
        cmd_balance: false,
        cmd_outgoing: false,
        cmd_incoming: false,
        arg_account: AccountType::Unset,
        flag_interval: Interval::Monthly,
        flag_timeframe: Timeframe::Year,
        flag_count: 0i64,
        flag_show_description: false,
        flag_hide_currency: false,
        flag_output: OutputFormat::Standard,
        flag_help: false,
        flag_version: false,
    };

    let command_type = get_command_type(&args);

    assert_eq!(CommandType::ListIncomings, command_type);
}

#[test]
fn can_get_show_balance_command_type() {
    let args = CliArgs {
        cmd_init: false,
        cmd_list: false,
        cmd_show: true,
        cmd_accounts: false,
        cmd_transactions: false,
        cmd_counterparties: false,
        cmd_balances: false,
        cmd_outgoings: false,
        cmd_incomings: false,
        cmd_balance: true,
        cmd_outgoing: false,
        cmd_incoming: false,
        arg_account: AccountType::Unset,
        flag_interval: Interval::Monthly,
        flag_timeframe: Timeframe::Year,
        flag_count: 0i64,
        flag_show_description: false,
        flag_hide_currency: false,
        flag_output: OutputFormat::Standard,
        flag_help: false,
        flag_version: false,
    };

    let command_type = get_command_type(&args);

    assert_eq!(CommandType::ShowBalance, command_type);
}

#[test]
fn can_get_show_outgoing_command_type() {
    let args = CliArgs {
        cmd_init: false,
        cmd_list: false,
        cmd_show: true,
        cmd_accounts: false,
        cmd_transactions: false,
        cmd_counterparties: false,
        cmd_balances: false,
        cmd_outgoings: false,
        cmd_incomings: false,
        cmd_balance: false,
        cmd_outgoing: true,
        cmd_incoming: false,
        arg_account: AccountType::Unset,
        flag_interval: Interval::Monthly,
        flag_timeframe: Timeframe::Year,
        flag_count: 0i64,
        flag_show_description: false,
        flag_hide_currency: false,
        flag_output: OutputFormat::Standard,
        flag_help: false,
        flag_version: false,
    };

    let command_type = get_command_type(&args);

    assert_eq!(CommandType::ShowOutgoing, command_type);
}

#[test]
fn can_get_show_incoming_command_type() {
    let args = CliArgs {
        cmd_init: false,
        cmd_list: false,
        cmd_show: true,
        cmd_accounts: false,
        cmd_transactions: false,
        cmd_counterparties: false,
        cmd_balances: false,
        cmd_outgoings: false,
        cmd_incomings: false,
        cmd_balance: false,
        cmd_outgoing: false,
        cmd_incoming: true,
        arg_account: AccountType::Unset,
        flag_interval: Interval::Monthly,
        flag_timeframe: Timeframe::Year,
        flag_count: 0i64,
        flag_show_description: false,
        flag_hide_currency: false,
        flag_output: OutputFormat::Standard,
        flag_help: false,
        flag_version: false,
    };

    let command_type = get_command_type(&args);

    assert_eq!(CommandType::ShowIncoming, command_type);
}

fn arguments() -> CliArgs {
    CliArgs {
        cmd_init: false,
        cmd_list: false,
        cmd_show: false,
        cmd_accounts: false,
        cmd_transactions: false,
        cmd_counterparties: false,
        cmd_balances: false,
        cmd_outgoings: false,
        cmd_incomings: false,
        cmd_balance: false,
        cmd_outgoing: false,
        cmd_incoming: false,
        arg_account: AccountType::Unset,
        flag_interval: Interval::Monthly,
        flag_timeframe: Timeframe::Year,
        flag_count: 0i64,
        flag_show_description: false,
        flag_hide_currency: false,
        flag_output: OutputFormat::Standard,
        flag_help: false,
        flag_version: false,
    }
}

#[test]
fn help_and_version_select_no_command() {
    let mut args = arguments();
    args.flag_help = true;
    assert_eq!(CommandType::DoNothing, get_command_type(&args));
    let mut args = arguments();
    args.flag_version = true;
    assert_eq!(CommandType::DoNothing, get_command_type(&args));
}

#[test]
fn a_command_word_wins_over_help() {
    let mut args = arguments();
    args.flag_help = true;
    args.cmd_balances = true;
    assert_eq!(CommandType::ListBalances, get_command_type(&args));
}

#[test]
fn the_earlier_command_word_wins() {
    let mut args = arguments();
    args.cmd_incomings = true;
    args.cmd_outgoings = true;
    assert_eq!(CommandType::ListIncomings, get_command_type(&args));
    args.cmd_init = true;
    assert_eq!(CommandType::Initialise, get_command_type(&args));
}

#[test]
fn account_arguments_are_read() {
    assert!(matches!(AccountType::from_arg(""), AccountType::Unset));
    assert!(matches!(AccountType::from_arg("current"), AccountType::Current));
    assert!(matches!(AccountType::from_arg("savings"), AccountType::Savings));
    assert!(matches!(AccountType::from_arg("business"), AccountType::Business));
    match AccountType::from_arg("holiday") {
        AccountType::Unknown(name) => assert_eq!("holiday", name),
        other => panic!("unexpected account {:?}", other),
    }
}

#[test]
fn timeframe_arguments_are_read() {
    assert_eq!(Timeframe::Year, Timeframe::from_arg("year"));
    assert_eq!(Timeframe::SixMonths, Timeframe::from_arg("6-months"));
    assert_eq!(Timeframe::ThreeMonths, Timeframe::from_arg("3-months"));
    assert_eq!(Timeframe::SixMonths, Timeframe::from_arg("decade"));
    assert_eq!(365, Timeframe::Year.days());
    assert_eq!(183, Timeframe::SixMonths.days());
    assert_eq!(91, Timeframe::ThreeMonths.days());
}

#[test]
fn interval_and_output_arguments_are_read() {
    assert_eq!(Interval::Monthly, Interval::from_arg(""));
    assert_eq!(Interval::Monthly, Interval::from_arg("monthly"));
    assert_eq!(Interval::Monthly, Interval::from_arg("weekly"));
    assert_eq!(OutputFormat::Spark, OutputFormat::from_arg("spark"));
    assert_eq!(OutputFormat::Standard, OutputFormat::from_arg("standard"));
    assert_eq!(OutputFormat::Standard, OutputFormat::from_arg("fancy"));
}

#[test]
fn only_commands_that_reach_the_bank_need_the_settings() {
    assert!(!CommandType::DoNothing.needs_config());
    assert!(!CommandType::ShowUsage.needs_config());
    assert!(!CommandType::Initialise.needs_config());
    for command in [
        CommandType::ListAccounts,
        CommandType::ShowBalance,
        CommandType::ShowOutgoing,
        CommandType::ShowIncoming,
        CommandType::ListTransactions,
        CommandType::ListCounterparties,
        CommandType::ListBalances,
        CommandType::ListOutgoings,
        CommandType::ListIncomings,
    ] {
        assert!(command.needs_config());
    }
}
