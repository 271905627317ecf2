use check_mate::client::action::Action;
use check_mate::client::config::Config;
use check_mate::client::watch_action::{WatchCommandData, WatchMode};
use check_mate::common::arg_parsing::CommandLineError;

fn to_owned_string_iter(string_slices: &[&str]) -> Vec<String> {
    string_slices
        .iter()
        .map(|string_slice| string_slice.to_string())
        .collect()
}

fn read_action_with_include_names_argument_is_parsed_run(include_names: &str, include_names_bool: bool) {
    let args = ["read", "-i", include_names];
    let config = Config::parse(to_owned_string_iter(&args));
    let config = config.expect("Parsing should succeed");

    let mut expected = Config::default();
    expected.action = Action::ReadMessages(include_names_bool);
    assert_eq!(config, expected);
}
fn read_action_with_invalid_include_names_argument_should_fail_run(include_names: &str) {
    let args = ["read", "-i", include_names];
    let config = Config::parse(to_owned_string_iter(&args));
    let err = config.expect_err("Parsing should fail");
    let expected =
        CommandLineError::InvalidValue("include names".into(), include_names.into());
    assert_eq!(err, expected);
}
fn watch_action_with_mode_argument_is_parsed_run(value: &str, mode: WatchMode) {
    let args = ["watch", "echo", "a", "--", "-m", value];
    let config = Config::parse(to_owned_string_iter(&args));
    let config = config.expect("Parsing should succeed");

    let mut watch_command_data =
        WatchCommandData::new("echo".to_string(), vec!["a".to_string()]);
    watch_command_data.mode = mode;
    let mut expected = Config::default();
    expected.action = Action::WatchCommand(watch_command_data);
    assert_eq!(config, expected);
}
fn watch_action_with_invalid_mode_argument_should_fail_run(value: &str) {
    let args = ["watch", "echo", "a", "--", "-m", value];
    let config = Config::parse(to_owned_string_iter(&args));
    let err = config.expect_err("Parsing should fail");
    let expected = CommandLineError::InvalidValue("watch mode".into(), value.into());
    assert_eq!(err, expected);
}
fn watch_action_with_shell_argument_is_parsed_run(value: &str, value_bool: bool) {
    let args = ["watch", "echo", "a", "--", "-s", value];
    let config = Config::parse(to_owned_string_iter(&args));
    let config = config.expect("Parsing should succeed");

    let mut watch_command_data =
        WatchCommandData::new("echo".to_string(), vec!["a".to_string()]);
    watch_command_data.shell = value_bool;
    let mut expected = Config::default();
    expected.action = Action::WatchCommand(watch_command_data);
    assert_eq!(config, expected);
}
fn watch_action_with_invalid_shell_argument_should_fail_run(value: &str) {
    let args = ["watch", "echo", "a", "--", "-s", value];
    let config = Config::parse(to_owned_string_iter(&args));
    let err = config.expect_err("Parsing should fail");
    let expected = CommandLineError::InvalidValue("shell".into(), value.into());
    assert_eq!(err, expected);
}
fn help_action_is_parsed_run(args: &[&str]) {
    let config = Config::parse(to_owned_string_iter(&args));
    let config = config.expect("Parsing should succeed");

    let mut expected = Config::default();
    expected.action = Action::Help;
    assert_eq!(config, expected);
}
fn version_action_is_parsed_run(args: &[&str]) {
    let config = Config::parse(to_owned_string_iter(&args));
    let config = config.expect("Parsing should succeed");

    let mut expected = Config::default();
    expected.action = Action::Version;
    assert_eq!(config, expected);
}
fn custom_connection_attempts_option_is_parsed_run(value_string: &str, value: u32) {
    let args = ["refresh", "client12", "-r", value_string];
    let config = Config::parse(to_owned_string_iter(&args));
    let config = config.expect("Parsing should succeed");

    let mut expected = Config::default();
    expected.action = Action::RefreshClientByName("client12".to_string());
    expected.server_connection_attempts = value;
    assert_eq!(config, expected);
}
fn invalid_number_of_connection_attemps_error_is_returned_run(value: &str) {
    let args = ["read", "-r", value];
    let config = Config::parse(to_owned_string_iter(&args));
    let parse_error = config.expect_err("Parsing should not succeed");

    let expected = CommandLineError::InvalidValue(
        "number of connection attempts".to_string(),
        value.to_string(),
    );
    assert_eq!(parse_error, expected);
}
fn invalid_server_connection_backoff_error_is_returned_run(value: &str) {
    let args = ["read", "-c", value];
    let config = Config::parse(to_owned_string_iter(&args));
    let parse_error = config.expect_err("Parsing should not succeed");

    let expected =
        CommandLineError::InvalidValue("connection backoff".to_string(), value.to_string());
    assert_eq!(parse_error, expected);
}
fn invalid_watch_interval_error_is_returned_run(value: &str) {
    let args = ["watch", "echo", "--", "-w", value];
    let config = Config::parse(to_owned_string_iter(&args));
    let parse_error = config.expect_err("Parsing should not succeed");

    let expected =
        CommandLineError::InvalidValue("watch interval".to_string(), value.to_string());
    assert_eq!(parse_error, expected);
}
fn invalid_initial_delay_error_is_returned_run(value: &str) {
    let args = ["watch", "echo", "--", "-d", value];
    let config = Config::parse(to_owned_string_iter(&args));
    let parse_error = config.expect_err("Parsing should not succeed");

    let expected =
        CommandLineError::InvalidValue("initial delay".to_string(), value.to_string());
    assert_eq!(parse_error, expected);
}

#[test]
fn read_action_is_parsed() {
    let args = ["read"];
    let config = Config::parse(to_owned_string_iter(&args));
    let config = config.expect("Parsing should succeed");

    let mut expected = Config::default();
    expected.action = Action::ReadMessages(false);
    assert_eq!(config, expected);
}

#[test]
fn read_action_with_include_names_argument_is_parsed() {
    read_action_with_include_names_argument_is_parsed_run("0", false);
    read_action_with_include_names_argument_is_parsed_run("false", false);
    read_action_with_include_names_argument_is_parsed_run("1", true);
    read_action_with_include_names_argument_is_parsed_run("true", true);
}

#[test]
fn read_action_with_invalid_include_names_argument_should_fail() {
    read_action_with_invalid_include_names_argument_should_fail_run("aa");
    read_action_with_invalid_include_names_argument_should_fail_run("");
    read_action_with_invalid_include_names_argument_should_fail_run("1.");
    read_action_with_invalid_include_names_argument_should_fail_run("1 .");
}

#[test]
fn watch_action_is_parsed() {
    let args = ["watch", "whoami"];
    let config = Config::parse(to_owned_string_iter(&args));
    let config = config.expect("Parsing should succeed");

    let mut expected = Config::default();
    expected.action =
        Action::WatchCommand(WatchCommandData::new("whoami".to_string(), Vec::new()));
    assert_eq!(config, expected);
}

#[test]
fn watch_action_with_command_with_no_args_is_parsed() {
    let args = ["watch", "whoami"];
    let config = Config::parse(to_owned_string_iter(&args));
    let config = config.expect("Parsing should succeed");

    let mut expected = Config::default();
    expected.action =
        Action::WatchCommand(WatchCommandData::new("whoami".to_string(), Vec::new()));
    assert_eq!(config, expected);
}

#[test]
fn watch_action_with_args_is_parsed() {
    let args = ["watch", "whoami", "hello", "world"];
    let config = Config::parse(to_owned_string_iter(&args));
    let config = config.expect("Parsing should succeed");

    let mut expected = Config::default();
    expected.action = Action::WatchCommand(WatchCommandData::new(
        "whoami".to_string(),
        vec!["hello".to_string(), "world".to_string()],
    ));
    assert_eq!(config, expected);
}

#[test]
fn watch_action_with_dash_args_is_parsed() {
    let args = ["watch", "whoami", "-p", "101", "--", "-p", "100"];
    let config = Config::parse(to_owned_string_iter(&args));
    let config = config.expect("Parsing should succeed");

    let mut expected = Config::default();
    expected.action = Action::WatchCommand(WatchCommandData::new(
        "whoami".to_string(),
        vec!["-p".to_string(), "101".to_string()],
    ));
    expected.server_port = 100;
    assert_eq!(config, expected);
}

#[test]
fn watch_action_with_mode_argument_is_parsed() {
    watch_action_with_mode_argument_is_parsed_run("OneLineError", WatchMode::OneLineError);
    watch_action_with_mode_argument_is_parsed_run("OneLineErROR", WatchMode::OneLineError);
    watch_action_with_mode_argument_is_parsed_run("MultiLineError", WatchMode::MultiLineError);
    watch_action_with_mode_argument_is_parsed_run("MultiLineErROR", WatchMode::MultiLineError);
    watch_action_with_mode_argument_is_parsed_run("ExitCode", WatchMode::ExitCode);
    watch_action_with_mode_argument_is_parsed_run("ExitCODE", WatchMode::ExitCode);
    watch_action_with_mode_argument_is_parsed_run("OneLineErrorExitCode", WatchMode::OneLineErrorExitCode);
    watch_action_with_mode_argument_is_parsed_run("OneLineErrorExitCODE", WatchMode::OneLineErrorExitCode);
}

#[test]
fn watch_action_with_invalid_mode_argument_should_fail() {
    watch_action_with_invalid_mode_argument_should_fail_run("OneLineErro");
    watch_action_with_invalid_mode_argument_should_fail_run("");
    watch_action_with_invalid_mode_argument_should_fail_run("OneLineErrorrrrrrr");
    watch_action_with_invalid_mode_argument_should_fail_run("1");
    watch_action_with_invalid_mode_argument_should_fail_run("0");
    watch_action_with_invalid_mode_argument_should_fail_run(".");
    watch_action_with_invalid_mode_argument_should_fail_run("*");
}

#[test]
fn watch_action_with_shell_argument_is_parsed() {
    watch_action_with_shell_argument_is_parsed_run("0", false);
    watch_action_with_shell_argument_is_parsed_run("false", false);
    watch_action_with_shell_argument_is_parsed_run("1", true);
    watch_action_with_shell_argument_is_parsed_run("true", true);
}

#[test]
fn watch_action_with_invalid_shell_argument_should_fail() {
    watch_action_with_invalid_shell_argument_should_fail_run("aa");
    watch_action_with_invalid_shell_argument_should_fail_run("");
    watch_action_with_invalid_shell_argument_should_fail_run("1.");
    watch_action_with_invalid_shell_argument_should_fail_run("1 .");
}

#[test]
fn refresh_action_is_parsed() {
    let args = ["refresh", "client12"];
    let config = Config::parse(to_owned_string_iter(&args));
    let config = config.expect("Parsing should succeed");

    let mut expected = Config::default();
    expected.action = Action::RefreshClientByName("client12".to_string());
    assert_eq!(config, expected);
}

#[test]
fn refresh_all_action_is_parsed() {
    let args = ["refresh_all"];
    let config = Config::parse(to_owned_string_iter(&args));
    let config = config.expect("Parsing should succeed");

    let mut expected = Config::default();
    expected.action = Action::RefreshAllClients;
    assert_eq!(config, expected);
}

#[test]
fn list_clients_action_is_parsed() {
    let args = ["list"];
    let config = Config::parse(to_owned_string_iter(&args));
    let config = config.expect("Parsing should succeed");

    let mut expected = Config::default();
    expected.action = Action::ListClients;
    assert_eq!(config, expected);
}

#[test]
fn abort_action_is_parsed() {
    let args = ["abort"];
    let config = Config::parse(to_owned_string_iter(&args));
    let config = config.expect("Parsing should succeed");

    let mut expected = Config::default();
    expected.action = Action::Abort;
    assert_eq!(config, expected);
}

#[test]
fn help_action_is_parsed() {

    help_action_is_parsed_run(&["help"]);
    help_action_is_parsed_run(&["help", "-p", "200"]);
    help_action_is_parsed_run(&["-h"]);
    help_action_is_parsed_run(&["-h", "-n", "client"]);
}

#[test]
fn version_action_is_parsed() {

    version_action_is_parsed_run(&["version"]);
    version_action_is_parsed_run(&["version", "-p", "200"]);
    version_action_is_parsed_run(&["-v"]);
    version_action_is_parsed_run(&["-v", "-n", "client"]);
}

#[test]
fn custom_port_number_is_parsed() {
    let args = ["refresh", "client12", "-p", "10"];
    let config = Config::parse(to_owned_string_iter(&args));
    let config = config.expect("Parsing should succeed");

    let mut expected = Config::default();
    expected.action = Action::RefreshClientByName("client12".to_string());
    expected.server_port = 10;
    assert_eq!(config, expected);
}

#[test]
fn custom_connection_attempts_option_is_parsed() {

    custom_connection_attempts_option_is_parsed_run("0", 0);
    custom_connection_attempts_option_is_parsed_run("1", 1);
    custom_connection_attempts_option_is_parsed_run("100", 100);
}

#[test]
fn custom_client_name_is_parsed() {
    let args = ["refresh", "client12", "-n", "client11"];
    let config = Config::parse(to_owned_string_iter(&args));
    let config = config.expect("Parsing should succeed");

    let mut expected = Config::default();
    expected.action = Action::RefreshClientByName("client12".to_string());
    expected.client_name = Some("client11".to_string());
    assert_eq!(config, expected);
}

#[test]
fn server_connection_backoff_is_parsed() {
    let args = ["refresh", "client12", "-c", "400"];
    let config = Config::parse(to_owned_string_iter(&args));
    let config = config.expect("Parsing should succeed");

    let mut expected = Config::default();
    expected.action = Action::RefreshClientByName("client12".to_string());
    expected.server_connection_backoff_ms = 400;
    assert_eq!(config, expected);
}

#[test]
fn watch_interval_is_parsed() {
    let args = ["watch", "echo", "--", "-w", "123"];
    let config = Config::parse(to_owned_string_iter(&args));
    let config = config.expect("Parsing should succeed");

    let mut expected = Config::default();
    let mut watch_command_data = WatchCommandData::new("echo".into(), Vec::new());
    watch_command_data.interval_ms = 123;
    expected.action = Action::WatchCommand(watch_command_data);
    assert_eq!(config, expected);
}

#[test]
fn watch_initial_delay_is_parsed() {
    let args = ["watch", "echo", "--", "-d", "123"];
    let config = Config::parse(to_owned_string_iter(&args));
    let config = config.expect("Parsing should succeed");

    let mut expected = Config::default();
    let mut watch_command_data = WatchCommandData::new("echo".into(), Vec::new());
    watch_command_data.delay_ms = 123;
    expected.action = Action::WatchCommand(watch_command_data);
    assert_eq!(config, expected);
}

#[test]
fn multiple_custom_args_are_parsed() {
    let args = [
        "refresh", "client12", "-n", "client11", "-p", "120", "-c", "400",
    ];
    let config = Config::parse(to_owned_string_iter(&args));
    let config = config.expect("Parsing should succeed");

    let mut expected = Config::default();
    expected.action = Action::RefreshClientByName("client12".to_string());
    expected.server_port = 120;
    expected.client_name = Some("client11".to_string());
    expected.server_connection_backoff_ms = 400;
    assert_eq!(config, expected);
}

#[test]
fn no_action_error_is_returned() {
    let args: Vec<String> = Vec::new();
    let config = Config::parse(args);
    let parse_error = config.expect_err("Parsing should not succeed");

    let expected =
        CommandLineError::NoValueSpecified("action".to_owned(), "binary name".to_owned());
    assert_eq!(parse_error, expected);
}

#[test]
fn no_watch_command_error_is_returned() {
    let args = ["watch"];
    let config = Config::parse(to_owned_string_iter(&args));
    let parse_error = config.expect_err("Parsing should not succeed");

    let expected =
        CommandLineError::NoValueSpecified("command to run".to_owned(), "watch".to_owned());
    assert_eq!(parse_error, expected);
}

#[test]
fn no_client_name_error_to_refresh_is_returned() {
    let args = ["refresh"];
    let config = Config::parse(to_owned_string_iter(&args));
    let parse_error = config.expect_err("Parsing should not succeed");

    let expected =
        CommandLineError::NoValueSpecified("client name".to_owned(), "refresh".to_owned());
    assert_eq!(parse_error, expected);
}

#[test]
fn no_port_error_is_returned() {
    let args = ["read", "-p"];
    let config = Config::parse(to_owned_string_iter(&args));
    let parse_error = config.expect_err("Parsing should not succeed");

    let expected = CommandLineError::NoValueSpecified("port".to_string(), "-p".to_string());
    assert_eq!(parse_error, expected);
}

#[test]
fn no_connection_attempts_number_error_is_returned() {
    let args = ["read", "-r"];
    let config = Config::parse(to_owned_string_iter(&args));
    let parse_error = config.expect_err("Parsing should not succeed");

    let expected = CommandLineError::NoValueSpecified(
        "number of connection attempts".to_string(),
        "-r".to_string(),
    );
    assert_eq!(parse_error, expected);
}

#[test]
fn no_server_connection_backoff_error_is_returned() {
    let args = ["read", "-c"];
    let config = Config::parse(to_owned_string_iter(&args));
    let parse_error = config.expect_err("Parsing should not succeed");

    let expected =
        CommandLineError::NoValueSpecified("connection backoff".to_string(), "-c".to_string());
    assert_eq!(parse_error, expected);
}

#[test]
fn no_watch_interval_error_is_returned() {
    let args = ["watch", "echo", "--", "-w"];
    let config = Config::parse(to_owned_string_iter(&args));
    let parse_error = config.expect_err("Parsing should not succeed");

    let expected =
        CommandLineError::NoValueSpecified("watch interval".to_string(), "-w".to_string());
    assert_eq!(parse_error, expected);
}

#[test]
fn no_initial_delay_error_is_returned() {
    let args = ["watch", "echo", "--", "-d"];
    let config = Config::parse(to_owned_string_iter(&args));
    let parse_error = config.expect_err("Parsing should not succeed");

    let expected =
        CommandLineError::NoValueSpecified("initial delay".to_string(), "-d".to_string());
    assert_eq!(parse_error, expected);
}

#[test]
fn invalid_action_error_is_returned() {
    let args = ["jump"];
    let config = Config::parse(to_owned_string_iter(&args));
    let parse_error = config.expect_err("Parsing should not succeed");

    let expected = CommandLineError::InvalidValue("action".to_string(), "jump".to_string());
    assert_eq!(parse_error, expected);
}

#[test]
fn no_client_name_error_is_returned() {
    let args = ["read", "-n"];
    let config = Config::parse(to_owned_string_iter(&args));
    let parse_error = config.expect_err("Parsing should not succeed");

    let expected =
        CommandLineError::NoValueSpecified("client name".to_string(), "-n".to_string());
    assert_eq!(parse_error, expected);
}

#[test]
fn empty_client_name_error_is_returned() {
    let args = ["read", "-n", ""];
    let config = Config::parse(to_owned_string_iter(&args));
    let parse_error = config.expect_err("Parsing should not succeed");

    let expected =
        CommandLineError::NoValueSpecified("client name".to_string(), "-n".to_string());
    assert_eq!(parse_error, expected);
}

#[test]
fn invalid_port_error_is_returned() {
    {
        let args = ["read", "-p", "-1"];
        let config = Config::parse(to_owned_string_iter(&args));
        let parse_error = config.expect_err("Parsing should not succeed");

        let expected = CommandLineError::InvalidValue("port".to_string(), "-1".to_string());
        assert_eq!(parse_error, expected);
    }
    {
        let args = ["read", "-p", "s"];
        let config = Config::parse(to_owned_string_iter(&args));
        let parse_error = config.expect_err("Parsing should not succeed");

        let expected = CommandLineError::InvalidValue("port".to_string(), "s".to_string());
        assert_eq!(parse_error, expected);
    }
    {
        let args = ["read", "-p", "2000d"];
        let config = Config::parse(to_owned_string_iter(&args));
        let parse_error = config.expect_err("Parsing should not succeed");

        let expected = CommandLineError::InvalidValue("port".to_string(), "2000d".to_string());
        assert_eq!(parse_error, expected);
    }
}

#[test]
fn invalid_number_of_connection_attemps_error_is_returned() {
    invalid_number_of_connection_attemps_error_is_returned_run("");
    invalid_number_of_connection_attemps_error_is_returned_run("-1");
    invalid_number_of_connection_attemps_error_is_returned_run("ss");
    invalid_number_of_connection_attemps_error_is_returned_run("200d");
}

#[test]
fn invalid_server_connection_backoff_error_is_returned() {
    invalid_server_connection_backoff_error_is_returned_run(" ");
    invalid_server_connection_backoff_error_is_returned_run("");
    invalid_server_connection_backoff_error_is_returned_run("40f");
    invalid_server_connection_backoff_error_is_returned_run("40 f");
    invalid_server_connection_backoff_error_is_returned_run("abc");
}

#[test]
fn invalid_watch_interval_error_is_returned() {
    invalid_watch_interval_error_is_returned_run(" ");
    invalid_watch_interval_error_is_returned_run("");
    invalid_watch_interval_error_is_returned_run("40f");
    invalid_watch_interval_error_is_returned_run("40 f");
    invalid_watch_interval_error_is_returned_run("abc");
}

#[test]
fn invalid_initial_delay_error_is_returned() {
    invalid_initial_delay_error_is_returned_run(" ");
    invalid_initial_delay_error_is_returned_run("");
    invalid_initial_delay_error_is_returned_run("40f");
    invalid_initial_delay_error_is_returned_run("40 f");
    invalid_initial_delay_error_is_returned_run("abc");
}

#[test]
fn invalid_argument_error_is_returned() {
    let args = ["read", "-k"];
    let config = Config::parse(to_owned_string_iter(&args));
    let parse_error = config.expect_err("Parsing should not succeed");

    let expected = CommandLineError::InvalidArgument("-k".to_string());
    assert_eq!(parse_error, expected);
}

#[test]
fn command_specific_extra_args_return_error_when_used_with_wrong_command() {
    let command_specific_args = [("-i", "1"), ("-w", "123")];

    for (arg, value) in command_specific_args {
        let args = ["abort", arg, value]; // abort is a command with no command-specific args, so we can use it here
        let config = Config::parse(to_owned_string_iter(&args));
        let parse_error = config.expect_err("Parsing should not succeed");

        let expected = CommandLineError::InvalidArgument(arg.to_string());
        assert_eq!(parse_error, expected);
    }
}
