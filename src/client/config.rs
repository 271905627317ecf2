//! The client's command line: an action, its arguments, then options.
use crate::client::action::Action;
use crate::client::watch_action::{mode_named, WatchCommandData, WatchMode};
use crate::common::constants::{
    DEFAULT_CONNECTION_BACKOFF_MS, DEFAULT_INCLUDE_NAMES, DEFAULT_MAXIMUM_SERVER_CONNECTION_ATTEMPTS,
    DEFAULT_PORT, DEFAULT_SHELL, DEFAULT_WATCH_DELAY_MS, DEFAULT_WATCH_INTERVAL_MS,
};
use crate::common::arg_parsing::{
    fetch_arg, fetch_arg_and_parse, to_queue, fetch_arg_bool, fetch_arg_string, take_bool, take_number,
    take_string, CliErrorView, CommandLineError,
};
use crate::common::server_command::strings_view;
use crate::common::text::{equals_str, lower_of, trimmed};
use std::collections::VecDeque;
use vstd::prelude::*;

verus! {

broadcast use vstd::seq::group_seq_axioms;

/// The client's settings.
#[derive(PartialEq, Eq, Debug, Clone)]
pub struct Config {
    pub action: Action,
    pub server_port: u16,
    pub client_name: Option<String>,
    /// Milliseconds to wait after a failed connection attempt.
    pub server_connection_backoff_ms: u64,
    /// How many connection attempts to make; 0 means no limit.
    pub server_connection_attempts: u32,
}

/// A watch as a mathematical value.
pub struct WatchView {
    pub command: Seq<char>,
    pub command_args: Seq<Seq<char>>,
    pub mode: WatchMode,
    pub interval_ms: u64,
    pub shell: bool,
    pub delay_ms: u64,
}

/// An action as a mathematical value.
pub enum ActionView {
    ReadMessages(bool),
    WatchCommand(WatchView),
    RefreshClientByName(Seq<char>),
    RefreshAllClients,
    ListClients,
    Abort,
    Help,
    Version,
}

/// The client's settings as a mathematical value.
pub struct ConfigView {
    pub action: ActionView,
    pub server_port: u16,
    pub client_name: Option<Seq<char>>,
    pub server_connection_backoff_ms: u64,
    pub server_connection_attempts: u32,
}

impl View for WatchCommandData {
    type V = WatchView;

    open spec fn view(&self) -> WatchView {
        WatchView {
            command: self.command@,
            command_args: strings_view(self.command_args@),
            mode: self.mode,
            interval_ms: self.interval_ms,
            shell: self.shell,
            delay_ms: self.delay_ms,
        }
    }
}

impl View for Action {
    type V = ActionView;

    open spec fn view(&self) -> ActionView {
        match self {
            Action::ReadMessages(b) => ActionView::ReadMessages(*b),
            Action::WatchCommand(d) => ActionView::WatchCommand(d@),
            Action::RefreshClientByName(n) => ActionView::RefreshClientByName(n@),
            Action::RefreshAllClients => ActionView::RefreshAllClients,
            Action::ListClients => ActionView::ListClients,
            Action::Abort => ActionView::Abort,
            Action::Help => ActionView::Help,
            Action::Version => ActionView::Version,
        }
    }
}

impl View for Config {
    type V = ConfigView;

    open spec fn view(&self) -> ConfigView {
        ConfigView {
            action: self.action@,
            server_port: self.server_port,
            client_name: match self.client_name {
                Some(n) => Some(n@),
                None => None,
            },
            server_connection_backoff_ms: self.server_connection_backoff_ms,
            server_connection_attempts: self.server_connection_attempts,
        }
    }
}

/// A watch of `command` with `args` and every other setting at its default.
pub open spec fn default_watch(command: Seq<char>, args: Seq<Seq<char>>) -> WatchView {
    WatchView {
        command,
        command_args: args,
        mode: WatchMode::OneLineError,
        interval_ms: DEFAULT_WATCH_INTERVAL_MS,
        shell: DEFAULT_SHELL,
        delay_ms: DEFAULT_WATCH_DELAY_MS,
    }
}

/// The settings used for whatever the command line does not give.
pub open spec fn default_config(action: ActionView) -> ConfigView {
    ConfigView {
        action,
        server_port: DEFAULT_PORT,
        client_name: None,
        server_connection_backoff_ms: DEFAULT_CONNECTION_BACKOFF_MS,
        server_connection_attempts: DEFAULT_MAXIMUM_SERVER_CONNECTION_ATTEMPTS,
    }
}

/// How many arguments come before the first `--` (all of them if none is `--`).
pub open spec fn count_before_separator(args: Seq<Seq<char>>) -> nat
    decreases args.len(),
{
    if args.len() == 0 || args[0] == "--"@ {
        0
    } else {
        1 + count_before_separator(args.drop_first())
    }
}

/// The arguments after the first `--`; none if there is no `--`.
pub open spec fn after_separator(args: Seq<Seq<char>>) -> Seq<Seq<char>> {
    let k = count_before_separator(args) as int;
    if k < args.len() {
        args.subrange(k + 1, args.len() as int)
    } else {
        Seq::empty()
    }
}

/// Reads the action and its own arguments; gives the action and the arguments left.
pub open spec fn parse_action_spec(args: Seq<Seq<char>>) -> Result<
    (ActionView, Seq<Seq<char>>),
    CliErrorView,
> {
    if args.len() == 0 {
        Err(CliErrorView::NoValueSpecified("action"@, "binary name"@))
    } else {
        let a = args[0];
        let rest = args.drop_first();
        if a == "read"@ {
            Ok((ActionView::ReadMessages(DEFAULT_INCLUDE_NAMES), rest))
        } else if a == "watch"@ {
            if rest.len() == 0 {
                Err(CliErrorView::NoValueSpecified("command to run"@, a))
            } else {
                let tail = rest.drop_first();
                let k = count_before_separator(tail);
                Ok(
                    (
                        ActionView::WatchCommand(default_watch(rest[0], tail.subrange(0, k as int))),
                        after_separator(tail),
                    ),
                )
            }
        } else if a == "refresh"@ {
            if rest.len() == 0 {
                Err(CliErrorView::NoValueSpecified("client name"@, a))
            } else {
                Ok((ActionView::RefreshClientByName(rest[0]), rest.drop_first()))
            }
        } else if a == "refresh_all"@ {
            Ok((ActionView::RefreshAllClients, rest))
        } else if a == "list"@ {
            Ok((ActionView::ListClients, rest))
        } else if a == "abort"@ {
            Ok((ActionView::Abort, rest))
        } else if a == "help"@ || a == "-h"@ {
            Ok((ActionView::Help, rest))
        } else if a == "version"@ || a == "-v"@ {
            Ok((ActionView::Version, rest))
        } else {
            Err(CliErrorView::InvalidValue("action"@, a))
        }
    }
}

/// Takes the next argument as a watch mode.
pub open spec fn take_mode(args: Seq<Seq<char>>, option: Seq<char>) -> Result<
    (WatchMode, Seq<Seq<char>>),
    CliErrorView,
> {
    if args.len() == 0 {
        Err(CliErrorView::NoValueSpecified("watch mode"@, option))
    } else {
        match mode_named(lower_of(trimmed(args[0]))) {
            Some(m) => Ok((m, args.drop_first())),
            None => Err(CliErrorView::InvalidValue("watch mode"@, args[0])),
        }
    }
}

/// Reads the options, left to right, into `c`.
pub open spec fn parse_options_spec(c: ConfigView, args: Seq<Seq<char>>) -> Result<
    ConfigView,
    CliErrorView,
>
    decreases args.len(),
{
    if args.len() == 0 {
        Ok(c)
    } else {
        let o = args[0];
        let rest = args.drop_first();
        if o == "-p"@ {
            match take_number(rest, CliErrorView::NoValueSpecified("port"@, o), "port"@, 0xffff) {
                Ok((n, left)) => parse_options_spec(ConfigView { server_port: n as u16, ..c }, left),
                Err(e) => Err(e),
            }
        } else if o == "-n"@ {
            match take_string(
                rest,
                CliErrorView::NoValueSpecified("client name"@, o),
                CliErrorView::NoValueSpecified("client name"@, o),
            ) {
                Ok((s, left)) => parse_options_spec(ConfigView { client_name: Some(s), ..c }, left),
                Err(e) => Err(e),
            }
        } else if o == "-i"@ {
            if c.action is ReadMessages {
                match take_bool(rest, CliErrorView::NoValueSpecified("a boolean value"@, o), "include names"@) {
                    Ok((b, left)) => parse_options_spec(
                        ConfigView { action: ActionView::ReadMessages(b), ..c },
                        left,
                    ),
                    Err(e) => Err(e),
                }
            } else {
                Err(CliErrorView::InvalidArgument(o))
            }
        } else if o == "-w"@ {
            match c.action {
                ActionView::WatchCommand(w) => match take_number(
                    rest,
                    CliErrorView::NoValueSpecified("watch interval"@, o),
                    "watch interval"@,
                    0xffff_ffff_ffff_ffff,
                ) {
                    Ok((n, left)) => parse_options_spec(
                        ConfigView {
                            action: ActionView::WatchCommand(WatchView { interval_ms: n as u64, ..w }),
                            ..c
                        },
                        left,
                    ),
                    Err(e) => Err(e),
                },
                _ => Err(CliErrorView::InvalidArgument(o)),
            }
        } else if o == "-d"@ {
            match c.action {
                ActionView::WatchCommand(w) => match take_number(
                    rest,
                    CliErrorView::NoValueSpecified("initial delay"@, o),
                    "initial delay"@,
                    0xffff_ffff_ffff_ffff,
                ) {
                    Ok((n, left)) => parse_options_spec(
                        ConfigView {
                            action: ActionView::WatchCommand(WatchView { delay_ms: n as u64, ..w }),
                            ..c
                        },
                        left,
                    ),
                    Err(e) => Err(e),
                },
                _ => Err(CliErrorView::InvalidArgument(o)),
            }
        } else if o == "-c"@ {
            match take_number(
                rest,
                CliErrorView::NoValueSpecified("connection backoff"@, o),
                "connection backoff"@,
                0xffff_ffff_ffff_ffff,
            ) {
                Ok((n, left)) => parse_options_spec(
                    ConfigView { server_connection_backoff_ms: n as u64, ..c },
                    left,
                ),
                Err(e) => Err(e),
            }
        } else if o == "-r"@ {
            match take_number(
                rest,
                CliErrorView::NoValueSpecified("number of connection attempts"@, o),
                "number of connection attempts"@,
                0xffff_ffff,
            ) {
                Ok((n, left)) => parse_options_spec(
                    ConfigView { server_connection_attempts: n as u32, ..c },
                    left,
                ),
                Err(e) => Err(e),
            }
        } else if o == "-m"@ {
            match c.action {
                ActionView::WatchCommand(w) => match take_mode(rest, o) {
                    Ok((m, left)) => parse_options_spec(
                        ConfigView {
                            action: ActionView::WatchCommand(WatchView { mode: m, ..w }),
                            ..c
                        },
                        left,
                    ),
                    Err(e) => Err(e),
                },
                _ => Err(CliErrorView::InvalidArgument(o)),
            }
        } else if o == "-s"@ {
            match c.action {
                ActionView::WatchCommand(w) => match take_bool(
                    rest,
                    CliErrorView::NoValueSpecified("a boolean value"@, o),
                    "shell"@,
                ) {
                    Ok((b, left)) => parse_options_spec(
                        ConfigView {
                            action: ActionView::WatchCommand(WatchView { shell: b, ..w }),
                            ..c
                        },
                        left,
                    ),
                    Err(e) => Err(e),
                },
                _ => Err(CliErrorView::InvalidArgument(o)),
            }
        } else {
            Err(CliErrorView::InvalidArgument(o))
        }
    }
}

/// The settings that a whole command line gives. Help and version take no options.
pub open spec fn parse_spec(args: Seq<Seq<char>>) -> Result<ConfigView, CliErrorView> {
    match parse_action_spec(args) {
        Ok((a, rest)) => if a is Help || a is Version {
            Ok(default_config(a))
        } else {
            parse_options_spec(default_config(a), rest)
        },
        Err(e) => Err(e),
    }
}

proof fn lemma_count_before_separator(t: Seq<Seq<char>>, j: int)
    requires
        0 <= j <= t.len(),
        forall|i: int| 0 <= i < j ==> t[i] != "--"@,
        j == t.len() || t[j] == "--"@,
    ensures
        count_before_separator(t) == j,
    decreases j,
{
    if j > 0 {
        let d = t.drop_first();
        assert forall|i: int| 0 <= i < j - 1 implies d[i] != "--"@ by {
            assert(d[i] == t[i + 1]);
        }
        if j < t.len() {
            assert(d[j - 1] == t[j]);
        }
        lemma_count_before_separator(d, j - 1);
    }
}

impl Config {
    /// The settings used for whatever the command line does not give; the
    /// action is `Abort` until one is read.
    pub fn default() -> (r: Config)
        ensures
            r@ == default_config(ActionView::Abort),
    {
        Config {
            action: Action::Abort,
            server_port: DEFAULT_PORT,
            client_name: None,
            server_connection_backoff_ms: DEFAULT_CONNECTION_BACKOFF_MS,
            server_connection_attempts: DEFAULT_MAXIMUM_SERVER_CONNECTION_ATTEMPTS,
        }
    }

    /// Reads the action word and the action's own arguments.
    pub fn parse_action(args: &mut VecDeque<String>) -> (r: Result<Action, CommandLineError>)
        ensures
            match r {
                Ok(a) => parse_action_spec(strings_view(old(args)@)) == Ok::<_, CliErrorView>(
                    (a@, strings_view(final(args)@)),
                ),
                Err(e) => parse_action_spec(strings_view(old(args)@)) == Err::<
                    (ActionView, Seq<Seq<char>>),
                    _,
                >(e@),
            },
    {
        let action = fetch_arg(
            args,
            CommandLineError::NoValueSpecified("action".to_owned(), "binary name".to_owned()),
        )?;
        assert(strings_view(old(args)@).drop_first() =~= strings_view(args@));
        if equals_str(&action, "read") {
            Ok(Action::ReadMessages(DEFAULT_INCLUDE_NAMES))
        } else if equals_str(&action, "watch") {
            let command = fetch_arg(
                args,
                CommandLineError::NoValueSpecified("command to run".to_owned(), action),
            )?;
            let ghost t = strings_view(args@);
            assert(strings_view(old(args)@).drop_first().drop_first() =~= t);
            assert(strings_view(old(args)@).drop_first()[0] == command@);
            let n = args.len();
            let mut command_args: Vec<String> = Vec::new();
            let mut j: usize = 0;
            let mut found = false;
            assert(t.subrange(0, n as int) =~= t);
            assert(strings_view(command_args@) =~= t.subrange(0, 0));
            while !found && j < n
                invariant
                    j <= n,
                    n == t.len(),
                    strings_view(args@) == t.subrange(j as int, n as int),
                    !found ==> strings_view(command_args@) == t.subrange(0, j as int),
                    found ==> j >= 1 && t[j - 1] == "--"@ && strings_view(command_args@)
                        == t.subrange(0, j - 1),
                    !found ==> forall|i: int| 0 <= i < j ==> t[i] != "--"@,
                    found ==> forall|i: int| 0 <= i < j - 1 ==> t[i] != "--"@,
                decreases n - j,
            {
                let ghost before = args@;
                assert(strings_view(before).len() == before.len());
                assert(strings_view(before)[0] == before[0]@);
                let arg = args.pop_front().unwrap();
                assert(arg@ == t[j as int]);
                if equals_str(&arg, "--") {
                    found = true;
                } else {
                    proof {
                        command_args@.lemma_push_map_commute(|s: String| s@, arg);
                    }
                    command_args.push(arg);
                    assert(strings_view(command_args@) =~= t.subrange(0, j + 1));
                }
                j = j + 1;
                assert(strings_view(args@) =~= strings_view(before).subrange(1, before.len() as int));
                assert(strings_view(args@) =~= t.subrange(j as int, n as int));
            }
            proof {
                if found {
                    lemma_count_before_separator(t, j - 1);
                    assert(strings_view(args@) =~= after_separator(t));
                } else {
                    lemma_count_before_separator(t, n as int);
                    assert(strings_view(args@) =~= after_separator(t));
                }
            }
            Ok(Action::WatchCommand(WatchCommandData::new(command, command_args)))
        } else if equals_str(&action, "refresh") {
            let name = fetch_arg(
                args,
                CommandLineError::NoValueSpecified("client name".to_owned(), action),
            )?;
            assert(strings_view(old(args)@).drop_first().drop_first() =~= strings_view(args@));
            Ok(Action::RefreshClientByName(name))
        } else if equals_str(&action, "refresh_all") {
            Ok(Action::RefreshAllClients)
        } else if equals_str(&action, "list") {
            Ok(Action::ListClients)
        } else if equals_str(&action, "abort") {
            Ok(Action::Abort)
        } else if equals_str(&action, "help") || equals_str(&action, "-h") {
            Ok(Action::Help)
        } else if equals_str(&action, "version") || equals_str(&action, "-v") {
            Ok(Action::Version)
        } else {
            Err(CommandLineError::InvalidValue("action".to_owned(), action))
        }
    }

    /// Reads the options that follow the action, left to right.
    pub fn parse_extra_args(&mut self, args: &mut VecDeque<String>) -> (r: Result<
        (),
        CommandLineError,
    >)
        ensures
            match r {
                Ok(()) => parse_options_spec(old(self)@, strings_view(old(args)@)) == Ok::<
                    _,
                    CliErrorView,
                >(final(self)@),
                Err(e) => parse_options_spec(old(self)@, strings_view(old(args)@)) == Err::<
                    ConfigView,
                    _,
                >(e@),
            },
    {
        let ghost start = parse_options_spec(self@, strings_view(args@));
        while args.len() > 0
            invariant
                start == parse_options_spec(old(self)@, strings_view(old(args)@)),
                start == parse_options_spec(self@, strings_view(args@)),
            decreases args@.len(),
        {
            let ghost before = strings_view(args@);
            let arg = args.pop_front().unwrap();
            assert(before.drop_first() =~= strings_view(args@));
            assert(before[0] == arg@);
            if equals_str(&arg, "-p") {
                let port = fetch_arg_and_parse(
                    args,
                    0xffff,
                    CommandLineError::NoValueSpecified("port".to_owned(), arg.clone()),
                    "port",
                )?;
                self.server_port = port as u16;
            } else if equals_str(&arg, "-n") {
                let name = fetch_arg_string(
                    args,
                    CommandLineError::NoValueSpecified("client name".to_owned(), arg.clone()),
                    CommandLineError::NoValueSpecified("client name".to_owned(), arg.clone()),
                )?;
                self.client_name = Some(name);
            } else if equals_str(&arg, "-i") {
                if !matches!(self.action, Action::ReadMessages(_)) {
                    return Err(CommandLineError::InvalidArgument(arg));
                }
                let include_names = fetch_arg_bool(
                    args,
                    CommandLineError::NoValueSpecified("a boolean value".to_owned(), arg.clone()),
                    "include names",
                )?;
                self.action = Action::ReadMessages(include_names);
            } else if equals_str(&arg, "-w") {
                match &mut self.action {
                    Action::WatchCommand(data) => {
                        let interval = fetch_arg_and_parse(
                            args,
                            0xffff_ffff_ffff_ffff,
                            CommandLineError::NoValueSpecified(
                                "watch interval".to_owned(),
                                arg.clone(),
                            ),
                            "watch interval",
                        )?;
                        data.interval_ms = interval;
                    },
                    _ => return Err(CommandLineError::InvalidArgument(arg)),
                }
            } else if equals_str(&arg, "-d") {
                match &mut self.action {
                    Action::WatchCommand(data) => {
                        let delay = fetch_arg_and_parse(
                            args,
                            0xffff_ffff_ffff_ffff,
                            CommandLineError::NoValueSpecified(
                                "initial delay".to_owned(),
                                arg.clone(),
                            ),
                            "initial delay",
                        )?;
                        data.delay_ms = delay;
                    },
                    _ => return Err(CommandLineError::InvalidArgument(arg)),
                }
            } else if equals_str(&arg, "-c") {
                let backoff = fetch_arg_and_parse(
                    args,
                    0xffff_ffff_ffff_ffff,
                    CommandLineError::NoValueSpecified("connection backoff".to_owned(), arg.clone()),
                    "connection backoff",
                )?;
                self.server_connection_backoff_ms = backoff;
            } else if equals_str(&arg, "-r") {
                let attempts = fetch_arg_and_parse(
                    args,
                    0xffff_ffff,
                    CommandLineError::NoValueSpecified(
                        "number of connection attempts".to_owned(),
                        arg.clone(),
                    ),
                    "number of connection attempts",
                )?;
                self.server_connection_attempts = attempts as u32;
            } else if equals_str(&arg, "-m") {
                match &mut self.action {
                    Action::WatchCommand(data) => {
                        let ghost rest = strings_view(args@);
                        let value = fetch_arg(
                            args,
                            CommandLineError::NoValueSpecified("watch mode".to_owned(), arg.clone()),
                        )?;
                        assert(rest[0] == value@);
                        assert(rest.drop_first() =~= strings_view(args@));
                        match WatchMode::parse(value.as_str()) {
                            Some(mode) => {
                                data.mode = mode;
                            },
                            None => {
                                return Err(
                                    CommandLineError::InvalidValue("watch mode".to_owned(), value),
                                );
                            },
                        }
                    },
                    _ => return Err(CommandLineError::InvalidArgument(arg)),
                }
            } else if equals_str(&arg, "-s") {
                match &mut self.action {
                    Action::WatchCommand(data) => {
                        let shell = fetch_arg_bool(
                            args,
                            CommandLineError::NoValueSpecified(
                                "a boolean value".to_owned(),
                                arg.clone(),
                            ),
                            "shell",
                        )?;
                        data.shell = shell;
                    },
                    _ => return Err(CommandLineError::InvalidArgument(arg)),
                }
            } else {
                return Err(CommandLineError::InvalidArgument(arg));
            }
        }
        assert(strings_view(args@) =~= Seq::<Seq<char>>::empty());
        Ok(())
    }

    /// Reads a whole command line (without the program name). Help and
    /// version take no options: what follows them is ignored.
    pub fn parse(args: Vec<String>) -> (r: Result<Config, CommandLineError>)
        ensures
            match r {
                Ok(c) => parse_spec(strings_view(args@)) == Ok::<_, CliErrorView>(c@),
                Err(e) => parse_spec(strings_view(args@)) == Err::<ConfigView, _>(e@),
            },
    {
        let mut queue = to_queue(args);
        let action = Config::parse_action(&mut queue)?;
        let mut config = Config::default();
        config.action = action;
        if !matches!(config.action, Action::Help | Action::Version) {
            config.parse_extra_args(&mut queue)?;
        }
        Ok(config)
    }
}

} // verus!
