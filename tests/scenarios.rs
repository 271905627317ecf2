use check_mate::client::action::{connection_attempts_exhausted, Action};
use check_mate::client::config::Config;
use check_mate::client::watch_action::{ExecuteCommandOutput, WatchMode};
use check_mate::common::arg_parsing::CommandLineError;
use check_mate::common::communication::{decode_received, CommunicationError};
use check_mate::common::help_format::{format_args_list, format_argument_entry, format_text};
use check_mate::common::server_command::{ServerCommand, ServerCommandError};
use check_mate::server::client_state::{ClientState, ProcessCommandResult};
use check_mate::server::task_communication::{
    Collection, TaskAction, TaskCommunication, TaskMessage,
};

fn words(args: &[&str]) -> Vec<String> {
    args.iter().map(|s| s.to_string()).collect()
}

fn log_of(state: &mut ClientState, command: ServerCommand) -> Option<String> {
    state.process_command(command).expect("command is accepted").1
}

fn sorted(mut v: Vec<String>) -> Vec<String> {
    v.sort();
    v
}

fn all_commands() -> Vec<ServerCommand> {
    vec![
        ServerCommand::Abort,
        ServerCommand::SetStatusOk,
        ServerCommand::SetStatusError("disk full".to_owned()),
        ServerCommand::GetStatuses(true),
        ServerCommand::GetStatuses(false),
        ServerCommand::RefreshClientByName("build".to_owned()),
        ServerCommand::SetName("héllo wörld".to_owned()),
        ServerCommand::Statuses(vec!["a".to_owned(), "".to_owned(), "ccc".to_owned()]),
        ServerCommand::Statuses(vec![]),
        ServerCommand::Refresh,
        ServerCommand::RefreshAllClients,
        ServerCommand::ListClients,
        ServerCommand::Clients(vec!["<Unknown>".to_owned(), "lint".to_owned()]),
    ]
}

#[test]
fn abort_client_sends_abort_and_server_shuts_down() {
    let config = Config::parse(words(&["abort"])).expect("abort parses");
    let commands = config.action.initial_commands(&config.client_name);
    assert_eq!(commands, vec![ServerCommand::Abort]);

    let mut state = ClientState::new(false);
    let (reaction, log) = state.process_command(ServerCommand::Abort).unwrap();
    assert_eq!(reaction, ProcessCommandResult::ShutdownServer);
    assert_eq!(log, Some("Received abort command".to_owned()));
}

#[test]
fn named_abort_logs_name_then_abort() {
    let config = Config::parse(words(&["abort", "-n", "Aborter"])).expect("parses");
    let commands = config.action.initial_commands(&config.client_name);
    assert_eq!(
        commands,
        vec![ServerCommand::SetName("Aborter".to_owned()), ServerCommand::Abort]
    );

    let mut state = ClientState::new(false);
    let mut logs = Vec::new();
    for command in commands {
        let (_, log) = state.process_command(command).unwrap();
        logs.extend(log);
    }
    assert_eq!(
        logs,
        vec!["Name set to Aborter".to_owned(), "Received abort command".to_owned()]
    );
}

#[test]
fn single_watcher_error_is_read_back() {
    let output = ExecuteCommandOutput {
        executed: true,
        status: Some(0),
        text: "\n\n\n \nsome nice error\nsecond line ignored\n".to_owned(),
    };
    let status = Action::process_command_output(output, &WatchMode::OneLineError);
    let command = Action::status_command(status);
    assert_eq!(command, ServerCommand::SetStatusError("some nice error".to_owned()));

    let mut watcher = ClientState::new(false);
    watcher.process_command(command).unwrap();
    let reply = TaskCommunication::<u8>::process_task_message(TaskMessage::ReadMessageRequest(0u8), &watcher);
    let answer = match reply {
        TaskAction::Reply(to, message) => {
            assert_eq!(to, 0u8);
            message
        }
        _ => panic!("a status request is answered"),
    };
    let lines = TaskCommunication::<u8>::read_messages(vec![answer], false).unwrap();
    let reader = Action::ReadMessages(false);
    let printed = reader.response_lines(ServerCommand::Statuses(lines)).unwrap();
    assert_eq!(printed, vec!["some nice error".to_owned()]);
}

#[test]
fn statuses_with_names_are_prefixed() {
    let mut w1 = ClientState::new(false);
    w1.process_command(ServerCommand::SetStatusError("error1".to_owned())).unwrap();
    let mut w2 = ClientState::new(false);
    w2.process_command(ServerCommand::SetName("client2".to_owned())).unwrap();
    w2.process_command(ServerCommand::SetStatusError("error2".to_owned())).unwrap();
    let mut answers = Vec::new();
    for state in [&w1, &w2] {
        match TaskCommunication::<u32>::process_task_message(TaskMessage::ReadMessageRequest(1u32), state) {
            TaskAction::Reply(_, m) => answers.push(m),
            _ => panic!("a status request is answered"),
        }
    }
    let lines = TaskCommunication::<u32>::read_messages(answers, true).unwrap();
    assert_eq!(
        sorted(lines),
        vec!["<Unknown>: error1".to_owned(), "client2: error2".to_owned()]
    );
}

#[test]
fn read_statuses_keeps_only_errors() {
    let answers: Vec<TaskMessage<u8>> = vec![
        TaskMessage::ReadMessageResponse(Ok(()), "ok".to_owned()),
        TaskMessage::ReadMessageResponse(Err("a".to_owned()), "x".to_owned()),
        TaskMessage::ReadMessageResponse(Err("b".to_owned()), "y".to_owned()),
    ];
    let plain = TaskCommunication::<u8>::read_messages(answers, false).unwrap();
    assert_eq!(sorted(plain), vec!["a".to_owned(), "b".to_owned()]);

    let answers: Vec<TaskMessage<u8>> = vec![
        TaskMessage::ReadMessageResponse(Ok(()), "ok".to_owned()),
        TaskMessage::ReadMessageResponse(Err("a".to_owned()), "x".to_owned()),
        TaskMessage::ReadMessageResponse(Err("b".to_owned()), "<Unknown>".to_owned()),
    ];
    let named = TaskCommunication::<u8>::read_messages(answers, true).unwrap();
    assert_eq!(sorted(named), vec!["<Unknown>: b".to_owned(), "x: a".to_owned()]);
}

#[test]
fn unexpected_answer_during_collection_is_an_error() {
    let answers: Vec<TaskMessage<u8>> = vec![
        TaskMessage::ReadMessageResponse(Err("a".to_owned()), "x".to_owned()),
        TaskMessage::ListClientsResponse("x".to_owned()),
    ];
    assert_eq!(
        TaskCommunication::<u8>::read_messages(answers, false),
        Err(CommunicationError::UnexpectedCommand)
    );
    let answers: Vec<TaskMessage<u8>> = vec![TaskMessage::RefreshAll];
    assert_eq!(
        TaskCommunication::<u8>::list_clients("me".to_owned(), answers),
        Err(CommunicationError::UnexpectedCommand)
    );
}

#[test]
fn list_clients_includes_own_name() {
    let answers: Vec<TaskMessage<u8>> = vec![
        TaskMessage::ListClientsResponse("<Unknown>".to_owned()),
        TaskMessage::ListClientsResponse("lint".to_owned()),
    ];
    let names = TaskCommunication::<u8>::list_clients("me".to_owned(), answers).unwrap();
    assert_eq!(
        names,
        vec!["me".to_owned(), "<Unknown>".to_owned(), "lint".to_owned()]
    );
}

#[test]
fn refresh_by_name_reaches_only_the_named_watcher() {
    let mut w1 = ClientState::new(true);
    let mut w2 = ClientState::new(true);
    let mut logs = Vec::new();
    logs.extend(log_of(&mut w1, ServerCommand::SetName("Watcher1".to_owned())));
    logs.extend(log_of(&mut w2, ServerCommand::SetName("Watcher2".to_owned())));
    logs.extend(log_of(&mut w1, ServerCommand::SetStatusError("Error".to_owned())));
    logs.extend(log_of(&mut w2, ServerCommand::SetStatusError("Error".to_owned())));

    let refreshed: Vec<bool> = [&w1, &w2]
        .iter()
        .map(|state| {
            matches!(
                TaskCommunication::<u8>::process_task_message(TaskMessage::RefreshByName("Watcher2".to_owned()), state),
                TaskAction::Refresh
            )
        })
        .collect();
    assert_eq!(refreshed, vec![false, true]);

    // The refreshed watcher reruns its command and reports the same error again.
    logs.extend(log_of(&mut w2, ServerCommand::SetStatusError("Error".to_owned())));
    let count = |line: &str| logs.iter().filter(|l| l.as_str() == line).count();
    assert_eq!(count("Name set to Watcher1"), 1);
    assert_eq!(count("Name set to Watcher2"), 1);
    assert_eq!(count("Client Watcher1 has error: Error"), 1);
    assert_eq!(count("Client Watcher2 has error: Error"), 2);
}

#[test]
fn refresh_all_reaches_every_other_handler_once() {
    let mut registry: TaskCommunication<&str> = TaskCommunication::new();
    registry.register_task(0, "inbox0");
    registry.register_task(1, "inbox1");
    registry.register_task(2, "inbox2");
    registry.register_task(1, "inbox1b");
    assert_eq!(registry.other_task_ids(1), vec![0, 2]);
    assert_eq!(registry.get_sender(1), Some(&"inbox1b"));
    registry.unregister_task(0);
    assert_eq!(registry.other_task_ids(1), vec![2]);
    assert_eq!(registry.other_task_ids(7), vec![2, 1]);
    assert_eq!(registry.get_sender(0), None);
    let plan = registry.refresh_all_clients(2);
    assert_eq!(plan.len(), 1);
    assert_eq!(plan[0].0, 1);
    assert!(matches!(plan[0].1, TaskMessage::RefreshAll));
    let plan = registry.refresh_client_by_name(1, "lint".to_owned());
    assert_eq!(plan.len(), 1);
    assert_eq!(plan[0].0, 2);
    assert!(matches!(&plan[0].1, TaskMessage::RefreshByName(n) if n == "lint"));

    let state = ClientState::new(false);
    assert!(matches!(
        TaskCommunication::<u8>::process_task_message(TaskMessage::RefreshAll, &state),
        TaskAction::Refresh
    ));
    assert!(matches!(
        TaskCommunication::<u8>::process_task_message(TaskMessage::RefreshByName("x".to_owned()), &state),
        TaskAction::NoAction
    ));
    assert!(matches!(
        TaskCommunication::<u8>::process_task_message(TaskMessage::ListClientsResponse("x".to_owned()), &state),
        TaskAction::Unexpected
    ));
}

#[test]
fn list_request_is_answered_with_unknown_name() {
    let state = ClientState::new(false);
    match TaskCommunication::<u8>::process_task_message(TaskMessage::ListClientsRequest(5u8), &state) {
        TaskAction::Reply(to, TaskMessage::ListClientsResponse(name)) => {
            assert_eq!(to, 5u8);
            assert_eq!(name, "<Unknown>");
        }
        _ => panic!("a list request is answered"),
    }
}

#[test]
fn watcher_reconnects_and_reports_again() {
    let config = Config::parse(words(&["watch", "echo", "My fail", "--", "-c", "0", "-w", "0"]))
        .expect("parses");
    assert!(config.action.should_reconnect());
    assert_eq!(config.server_connection_backoff_ms, 0);
    assert!(CommunicationError::SocketDisconnected.is_recoverable());
    assert!(!CommunicationError::UnexpectedCommand.is_recoverable());
    assert!(!connection_attempts_exhausted(1000, 0));
    assert!(connection_attempts_exhausted(3, 3));
    assert!(!connection_attempts_exhausted(2, 3));
    assert!(config.action.initial_commands(&config.client_name).is_empty());

    for _ in 0..2 {
        let mut server_side = ClientState::new(false);
        let output = ExecuteCommandOutput {
            executed: true,
            status: Some(0),
            text: "My fail\n".to_owned(),
        };
        let status = Action::process_command_output(output, &WatchMode::OneLineError);
        let log = log_of(&mut server_side, Action::status_command(status));
        assert_eq!(log, Some("Client <Unknown> has error: My fail".to_owned()));
    }
}

#[test]
fn repeated_status_is_logged_once_unless_every_status_is_logged() {
    let mut quiet = ClientState::new(false);
    let mut loud = ClientState::new(true);
    let mut quiet_logs = 0;
    let mut loud_logs = 0;
    for _ in 0..4 {
        quiet_logs += log_of(&mut quiet, ServerCommand::SetStatusError("x".to_owned())).iter().count();
        loud_logs += log_of(&mut loud, ServerCommand::SetStatusError("x".to_owned())).iter().count();
    }
    assert_eq!(quiet_logs, 1);
    assert_eq!(loud_logs, 4);

    assert_eq!(log_of(&mut quiet, ServerCommand::SetStatusOk), Some("Client <Unknown> is ok".to_owned()));
    assert_eq!(log_of(&mut quiet, ServerCommand::SetStatusOk), None);
    assert_eq!(
        log_of(&mut quiet, ServerCommand::SetStatusError("y".to_owned())),
        Some("Client <Unknown> has error: y".to_owned())
    );
    assert_eq!(
        log_of(&mut quiet, ServerCommand::SetStatusError("z".to_owned())),
        Some("Client <Unknown> has error: z".to_owned())
    );
    assert_eq!(quiet.get_status(), &Err("z".to_owned()));
}

#[test]
fn server_only_commands_from_a_client_are_rejected() {
    let mut state = ClientState::new(false);
    for command in [
        ServerCommand::Refresh,
        ServerCommand::Statuses(vec![]),
        ServerCommand::Clients(vec![]),
    ] {
        assert_eq!(state.process_command(command), Err(CommunicationError::UnexpectedCommand));
    }
    assert_eq!(
        state.process_command(ServerCommand::GetStatuses(true)),
        Ok((ProcessCommandResult::GetStatuses(true), None))
    );
    assert_eq!(
        state.process_command(ServerCommand::RefreshClientByName("n".to_owned())),
        Ok((ProcessCommandResult::RefreshClientByName("n".to_owned()), None))
    );
    assert_eq!(
        state.process_command(ServerCommand::RefreshAllClients),
        Ok((ProcessCommandResult::RefreshAllClients, None))
    );
    assert_eq!(
        state.process_command(ServerCommand::ListClients),
        Ok((ProcessCommandResult::ListClients, None))
    );
}

#[test]
fn outbound_queue_is_bounded_and_ordered() {
    let mut state = ClientState::new(false);
    assert_eq!(state.get_command_to_send(), None);
    assert_eq!(state.push_command_to_send(ServerCommand::Refresh), Ok(()));
    assert_eq!(
        state.push_command_to_send(ServerCommand::Statuses(vec!["a".to_owned()])),
        Ok(())
    );
    assert!(state.is_send_queue_full());
    assert_eq!(
        state.push_command_to_send(ServerCommand::SetStatusOk),
        Err(ServerCommand::SetStatusOk)
    );
    assert_eq!(state.get_command_to_send(), Some(ServerCommand::Refresh));
    assert_eq!(
        state.get_command_to_send(),
        Some(ServerCommand::Statuses(vec!["a".to_owned()]))
    );
    assert_eq!(state.get_command_to_send(), None);
    assert_eq!(state.get_name_for_logging(), "<Unknown>");
    assert_eq!(state.get_name(), &None);
}

#[test]
fn every_command_round_trips_and_every_prefix_is_too_short() {
    for command in all_commands() {
        let mut bytes = command.to_bytes();
        let parsed = ServerCommand::from_bytes(&bytes).expect("decodes");
        assert_eq!(parsed.command, command);
        assert_eq!(parsed.bytes_used, bytes.len());
        for k in 0..bytes.len() {
            assert_eq!(
                ServerCommand::from_bytes(&bytes[0..k]).unwrap_err(),
                ServerCommandError::TooFewBytes
            );
        }
        let full = bytes.len();
        bytes.extend_from_slice(&[ServerCommand::Abort.to_bytes()[0], 99]);
        let parsed = ServerCommand::from_bytes(&bytes).expect("decodes with trailing bytes");
        assert_eq!(parsed.command, command);
        assert_eq!(parsed.bytes_used, full);
    }
}

#[test]
fn wire_bytes_are_exact() {
    assert_eq!(
        ServerCommand::SetStatusError("ab".to_owned()).to_bytes(),
        vec![3, 2, 0, 0, 0, b'a', b'b']
    );
    assert_eq!(ServerCommand::GetStatuses(true).to_bytes(), vec![4, 1]);
    assert_eq!(
        ServerCommand::Clients(vec!["x".to_owned()]).to_bytes(),
        vec![11, 1, 0, 0, 0, 1, 0, 0, 0, b'x']
    );
    assert_eq!(ServerCommand::RefreshAllClients.to_bytes(), vec![9]);
    assert_eq!(ServerCommand::ListClients.to_bytes(), vec![10]);
    assert_eq!(
        ServerCommand::SetName("é".to_owned()).to_bytes(),
        vec![6, 2, 0, 0, 0, 0xc3, 0xa9]
    );
}

#[test]
fn unknown_tags_are_rejected() {
    assert_eq!(
        ServerCommand::from_bytes(&[12]).unwrap_err(),
        ServerCommandError::UnknownCommand
    );
    assert_eq!(
        ServerCommand::from_bytes(&[0, 1, 2]).unwrap_err(),
        ServerCommandError::UnknownCommand
    );
    assert_eq!(
        ServerCommand::from_bytes(&[]).unwrap_err(),
        ServerCommandError::TooFewBytes
    );
    assert_eq!(
        ServerCommand::from_bytes(&[7, 1, 0, 0, 0, 1, 0, 0, 0, 0xff]).unwrap_err(),
        ServerCommandError::InvalidStringEncoding
    );
}

#[test]
fn received_bytes_are_decoded_step_by_step() {
    let bytes = ServerCommand::SetName("w".to_owned()).to_bytes();
    assert!(matches!(decode_received(&bytes[0..3]), Ok(None)));
    let parsed = decode_received(&bytes).unwrap().unwrap();
    assert_eq!(parsed.command, ServerCommand::SetName("w".to_owned()));
    assert_eq!(parsed.bytes_used, 6);
    assert!(matches!(
        decode_received(&[4, 7]),
        Err(CommunicationError::CommandParseError(ServerCommandError::InvalidBoolean))
    ));
}

#[test]
fn querier_answers_are_checked() {
    let list = Action::ListClients;
    assert_eq!(
        list.response_lines(ServerCommand::Clients(vec!["a".to_owned()])),
        Ok(vec!["a".to_owned()])
    );
    assert_eq!(
        list.response_lines(ServerCommand::Statuses(vec![])),
        Err(CommunicationError::UnexpectedCommand)
    );
    assert_eq!(
        Action::Abort.response_lines(ServerCommand::Refresh),
        Err(CommunicationError::UnexpectedCommand)
    );
    assert_eq!(Action::check_watch_command(&ServerCommand::Refresh), Ok(()));
    assert_eq!(
        Action::check_watch_command(&ServerCommand::Abort),
        Err(CommunicationError::UnexpectedCommand)
    );
    assert_eq!(Action::status_command(Ok(())), ServerCommand::SetStatusOk);
    let read = Config::parse(words(&["read", "-i", "true", "-n", "me"])).unwrap();
    assert_eq!(
        read.action.initial_commands(&read.client_name),
        vec![ServerCommand::SetName("me".to_owned()), ServerCommand::GetStatuses(true)]
    );
    let refresh_all = Config::parse(words(&["refresh_all"])).unwrap();
    assert_eq!(
        refresh_all.action.initial_commands(&refresh_all.client_name),
        vec![ServerCommand::RefreshAllClients]
    );
    let refresh = Config::parse(words(&["refresh", "lint"])).unwrap();
    assert_eq!(
        refresh.action.initial_commands(&refresh.client_name),
        vec![ServerCommand::RefreshClientByName("lint".to_owned())]
    );
}

#[test]
fn error_messages_name_the_problem() {
    assert_eq!(
        CommandLineError::NoValueSpecified("port".to_owned(), "-p".to_owned()).message(),
        "Specify a port after -p"
    );
    assert_eq!(
        CommandLineError::InvalidValue("port".to_owned(), "x".to_owned()).message(),
        "Invalid port value specified: x"
    );
    assert_eq!(
        CommandLineError::InvalidArgument("-k".to_owned()).message(),
        "Invalid argument specified: -k"
    );
}

#[test]
fn numbers_follow_unsigned_decimal_syntax() {
    let port = |v: &str| Config::parse(words(&["read", "-p", v])).map(|c| c.server_port);
    assert_eq!(port("+80"), Ok(80));
    assert_eq!(port("0065535"), Ok(65535));
    assert_eq!(
        port("65536"),
        Err(CommandLineError::InvalidValue("port".to_owned(), "65536".to_owned()))
    );
    assert_eq!(
        port("+"),
        Err(CommandLineError::InvalidValue("port".to_owned(), "+".to_owned()))
    );
    let attempts = |v: &str| Config::parse(words(&["read", "-r", v])).map(|c| c.server_connection_attempts);
    assert_eq!(attempts("4294967295"), Ok(4294967295));
    assert!(attempts("4294967296").is_err());
    let backoff = |v: &str| Config::parse(words(&["read", "-c", v])).map(|c| c.server_connection_backoff_ms);
    assert_eq!(backoff("18446744073709551615"), Ok(u64::MAX));
    assert!(backoff("18446744073709551616").is_err());
}

#[test]
fn exit_codes_are_written_in_decimal() {
    let run = |code: i32| {
        let output = ExecuteCommandOutput { executed: true, status: Some(code), text: String::new() };
        Action::process_command_output(output, &WatchMode::ExitCode)
    };
    assert_eq!(run(i32::MIN), Err("Exit code was -2147483648".to_owned()));
    assert_eq!(run(i32::MAX), Err("Exit code was 2147483647".to_owned()));
    assert_eq!(run(10), Err("Exit code was 10".to_owned()));
}

#[test]
fn nonzero_exit_without_output_names_the_code() {
    let output = ExecuteCommandOutput { executed: true, status: Some(3), text: " \n\t\n".to_owned() };
    assert_eq!(
        Action::process_command_output(output, &WatchMode::OneLineErrorExitCode),
        Err("Exit code was 3".to_owned())
    );
}

#[test]
fn output_lines_are_split_and_trimmed() {
    let output = ExecuteCommandOutput {
        executed: true,
        status: None,
        text: "  first\r\n\r\n second \nthird\u{a0}".to_owned(),
    };
    assert_eq!(
        Action::process_command_output(output.clone(), &WatchMode::MultiLineError),
        Err("first\nsecond\nthird".to_owned())
    );
    assert_eq!(
        Action::process_command_output(output, &WatchMode::OneLineError),
        Err("first".to_owned())
    );
}

#[test]
fn watch_modes_are_read_case_insensitively() {
    assert_eq!(WatchMode::parse(" ExitCODE\t"), Some(WatchMode::ExitCode));
    assert_eq!(WatchMode::parse("MULTILINEERROR"), Some(WatchMode::MultiLineError));
    assert_eq!(WatchMode::parse("exit code"), None);
    assert_eq!(WatchMode::default(), WatchMode::OneLineError);
    assert_eq!(WatchMode::OneLineErrorExitCode.as_str(), "OneLineErrorExitCode");
}

#[test]
fn help_paragraphs_are_dedented_and_refilled() {
    let text = "
        first line of text
        continues here";
    assert_eq!(format_text(text, 120), "first line of text continues here");
    assert_eq!(format_text("aaa bbb ccc", 7), "aaa bbb\nccc");
}

#[test]
fn argument_lists_are_aligned_and_wrapped() {
    let arguments = [("-p", "Port.".to_owned()), ("-name", "Name of it.".to_owned())];
    assert_eq!(
        format_args_list(&arguments, 2, 40),
        "  -p     Port.\n  -name  Name of it."
    );
    let arguments = [("-x", "one two three".to_owned())];
    // The indent of continuation lines counts against the wrapping width.
    assert_eq!(
        format_args_list(&arguments, 1, 12),
        " -x  one two\n     th\n     re\n     e"
    );
    let none: [(&str, String); 0] = [];
    assert_eq!(format_args_list(&none, 2, 40), "");
}

#[test]
fn trimmed_lines_are_classified_exactly() {
    let lines = vec!["".to_owned(), "a".to_owned(), "".to_owned(), "b".to_owned()];
    assert_eq!(
        Action::classify_lines(Some(0), &lines, &WatchMode::MultiLineError),
        Err("a\nb".to_owned())
    );
    assert_eq!(
        Action::classify_lines(None, &lines, &WatchMode::OneLineError),
        Err("a".to_owned())
    );
    assert_eq!(Action::classify_lines(Some(0), &lines, &WatchMode::OneLineErrorExitCode), Ok(()));
    assert_eq!(
        Action::classify_lines(Some(2), &lines, &WatchMode::OneLineErrorExitCode),
        Err("a".to_owned())
    );
    let empty = vec!["".to_owned()];
    assert_eq!(
        Action::classify_lines(Some(2), &empty, &WatchMode::OneLineErrorExitCode),
        Err("Exit code was 2".to_owned())
    );
    assert_eq!(Action::classify_lines(Some(2), &empty, &WatchMode::MultiLineError), Ok(()));
}

#[test]
fn lowercase_mode_names_are_matched_exactly() {
    assert_eq!(
        WatchMode::from_lowercase_name(&"onelineerrorexitcode".to_owned()),
        Some(WatchMode::OneLineErrorExitCode)
    );
    assert_eq!(WatchMode::from_lowercase_name(&"ExitCode".to_owned()), None);
    assert_eq!(WatchMode::from_lowercase_name(&" exitcode".to_owned()), None);
}

#[test]
fn argument_entry_pads_the_name() {
    let lines = vec!["Port.".to_owned(), "      more".to_owned()];
    assert_eq!(format_argument_entry("-p", &lines, 2, 4), "  -p    Port.\n      more");
    assert_eq!(format_argument_entry("-long", &vec![], 0, 2), "-long  ");
}

#[test]
fn collection_keeps_answers_and_hands_back_requests() {
    let mut collection: Collection<u8> = Collection::new(2);
    assert!(!collection.is_complete());
    assert!(collection.offer(TaskMessage::ListClientsResponse("a".to_owned())).is_none());
    assert!(matches!(
        collection.offer(TaskMessage::ReadMessageRequest(3)),
        Some(TaskMessage::ReadMessageRequest(3))
    ));
    assert!(matches!(collection.offer(TaskMessage::RefreshAll), Some(TaskMessage::RefreshAll)));
    assert!(!collection.is_complete());
    assert!(collection
        .offer(TaskMessage::ReadMessageResponse(Err("e".to_owned()), "b".to_owned()))
        .is_none());
    assert!(collection.is_complete());
    assert_eq!(collection.into_answers().len(), 2);
    assert!(Collection::<u8>::new(0).is_complete());
}
