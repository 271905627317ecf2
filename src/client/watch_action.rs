//! What a watcher reports: the classification of a watched command's outcome
//! into a status.
use crate::client::action::Action;
use crate::common::communication::{status_view, StatusView};
use crate::common::constants::{DEFAULT_SHELL, DEFAULT_WATCH_DELAY_MS, DEFAULT_WATCH_INTERVAL_MS};
use crate::common::server_command::strings_view;
use crate::common::text::{
    decimal, equals_str, join_lines, join_with_newlines, lines_of, lower_of, push_decimal,
    split_lines, to_lowercase, trim, trimmed,
};
use vstd::prelude::*;
use vstd::string::*;

verus! {

broadcast use vstd::seq::group_seq_axioms;

/// How the outcome of a watched command becomes a status.
#[derive(PartialEq, Eq, Debug, Clone, Copy, Structural)]
pub enum WatchMode {
    /// Empty stdout means success.
    /// Non-empty stdout means error. The first non-empty line is the error message, the rest is ignored.
    OneLineError,
    /// Empty stdout means success.
    /// Non-empty stdout means error. All non-empty lines are the error message. Empty lines are ignored.
    MultiLineError,
    /// Exit code equal to 0 means success.
    /// Exit code other than 0 means error. The error message names the exit code.
    ExitCode,
    /// Exit code equal to 0 means success.
    /// Exit code other than 0 means error. The first non-empty line of stdout is the error message;
    /// if there is none, the message is composed as for `ExitCode`.
    OneLineErrorExitCode,
}

/// The mode whose lowercase name is `name`.
pub open spec fn mode_named(name: Seq<char>) -> Option<WatchMode> {
    if name == "onelineerror"@ {
        Some(WatchMode::OneLineError)
    } else if name == "multilineerror"@ {
        Some(WatchMode::MultiLineError)
    } else if name == "exitcode"@ {
        Some(WatchMode::ExitCode)
    } else if name == "onelineerrorexitcode"@ {
        Some(WatchMode::OneLineErrorExitCode)
    } else {
        None
    }
}

/// The name under which a mode is shown.
pub open spec fn mode_display(mode: WatchMode) -> Seq<char> {
    match mode {
        WatchMode::OneLineError => "OneLineError"@,
        WatchMode::MultiLineError => "MultiLineError"@,
        WatchMode::ExitCode => "ExitCode"@,
        WatchMode::OneLineErrorExitCode => "OneLineErrorExitCode"@,
    }
}

impl WatchMode {
    /// The mode used when none is given.
    pub fn default() -> (r: WatchMode)
        ensures
            r == WatchMode::OneLineError,
    {
        WatchMode::OneLineError
    }

    /// Reads a mode name, ignoring case and surrounding whitespace.
    pub fn parse(s: &str) -> (r: Option<WatchMode>)
        ensures
            r == mode_named(lower_of(trimmed(s@))),
    {
        let lowered = to_lowercase(trim(s));
        WatchMode::from_lowercase_name(&lowered)
    }

    /// The mode whose lowercase name is `name`.
    pub fn from_lowercase_name(name: &String) -> (r: Option<WatchMode>)
        ensures
            r == mode_named(name@),
    {
        if equals_str(name, "onelineerror") {
            Some(WatchMode::OneLineError)
        } else if equals_str(name, "multilineerror") {
            Some(WatchMode::MultiLineError)
        } else if equals_str(name, "exitcode") {
            Some(WatchMode::ExitCode)
        } else if equals_str(name, "onelineerrorexitcode") {
            Some(WatchMode::OneLineErrorExitCode)
        } else {
            None
        }
    }

    /// The name under which the mode is shown.
    pub fn as_str(&self) -> (r: &'static str)
        ensures
            r@ == mode_display(*self),
    {
        match self {
            WatchMode::OneLineError => "OneLineError",
            WatchMode::MultiLineError => "MultiLineError",
            WatchMode::ExitCode => "ExitCode",
            WatchMode::OneLineErrorExitCode => "OneLineErrorExitCode",
        }
    }
}

/// What a watcher runs, and how and when.
#[derive(PartialEq, Eq, Debug, Clone)]
pub struct WatchCommandData {
    pub command: String,
    pub command_args: Vec<String>,
    pub mode: WatchMode,
    /// Milliseconds between two runs of the command.
    pub interval_ms: u64,
    pub shell: bool,
    /// Milliseconds to wait before the first run.
    pub delay_ms: u64,
}

impl WatchCommandData {
    /// A watch of `command` with `command_args` and every other setting at its default.
    pub fn new(command: String, command_args: Vec<String>) -> (r: Self)
        ensures
            r.command == command,
            r.command_args == command_args,
            r.mode == WatchMode::OneLineError,
            r.interval_ms == DEFAULT_WATCH_INTERVAL_MS,
            r.shell == DEFAULT_SHELL,
            r.delay_ms == DEFAULT_WATCH_DELAY_MS,
    {
        WatchCommandData {
            command,
            command_args,
            mode: WatchMode::default(),
            interval_ms: DEFAULT_WATCH_INTERVAL_MS,
            shell: DEFAULT_SHELL,
            delay_ms: DEFAULT_WATCH_DELAY_MS,
        }
    }
}

/// The outcome of one run of the watched command.
#[derive(Clone, Debug)]
pub struct ExecuteCommandOutput {
    /// Whether the command ran at all.
    pub executed: bool,
    /// Its exit code, when the platform gives one.
    pub status: Option<i32>,
    /// Its standard output when it ran, else why it did not run.
    pub text: String,
}

/// The lines that hold something once trimmed.
pub open spec fn non_empty(lines: Seq<Seq<char>>) -> Seq<Seq<char>> {
    lines.filter(|l: Seq<char>| l.len() > 0)
}

/// Error when there is a non-empty line: the first one.
pub open spec fn one_line_status(lines: Seq<Seq<char>>) -> StatusView {
    if non_empty(lines).len() == 0 {
        Ok(())
    } else {
        Err(non_empty(lines)[0])
    }
}

/// Error when there is a non-empty line: all of them, joined.
pub open spec fn multi_line_status(lines: Seq<Seq<char>>) -> StatusView {
    if non_empty(lines).len() == 0 {
        Ok(())
    } else {
        Err(join_lines(non_empty(lines)))
    }
}

pub open spec fn exit_code_message(code: i32) -> Seq<char> {
    "Exit code was "@ + decimal(code as int)
}

pub open spec fn exit_code_status(code: i32) -> StatusView {
    if code == 0 {
        Ok(())
    } else {
        Err(exit_code_message(code))
    }
}

/// The status of a command that ran, from its exit code and the trimmed
/// lines of its output.
pub open spec fn classify(status: Option<i32>, lines: Seq<Seq<char>>, mode: WatchMode) -> StatusView {
    match mode {
        WatchMode::OneLineError => one_line_status(lines),
        WatchMode::MultiLineError => multi_line_status(lines),
        WatchMode::ExitCode => match status {
            None => Err("Exit code is not available"@),
            Some(c) => exit_code_status(c),
        },
        WatchMode::OneLineErrorExitCode => match status {
            None => Err("Exit code is not available"@),
            Some(c) => if c != 0 && non_empty(lines).len() > 0 {
                Err(non_empty(lines)[0])
            } else {
                exit_code_status(c)
            },
        },
    }
}

/// The trimmed lines of a command's output.
pub open spec fn output_lines(text: Seq<char>) -> Seq<Seq<char>> {
    lines_of(text).map_values(|l: Seq<char>| trimmed(l))
}

/// The status that an outcome of the watched command gives.
pub open spec fn command_status(
    executed: bool,
    status: Option<i32>,
    text: Seq<char>,
    mode: WatchMode,
) -> StatusView {
    if !executed {
        Err("Command was not executed. "@ + text)
    } else {
        classify(status, output_lines(text), mode)
    }
}

fn non_empty_lines(lines: &Vec<String>) -> (r: Vec<String>)
    ensures
        strings_view(r@) == non_empty(strings_view(lines@)),
{
    let ghost all = strings_view(lines@);
    let mut r: Vec<String> = Vec::new();
    let mut i: usize = 0;
    assert(all.subrange(0, 0).filter(|l: Seq<char>| l.len() > 0) =~= Seq::<Seq<char>>::empty());
    assert(strings_view(r@) =~= Seq::<Seq<char>>::empty());
    while i < lines.len()
        invariant
            i <= lines@.len(),
            all == strings_view(lines@),
            strings_view(r@) == non_empty(all.subrange(0, i as int)),
        decreases lines@.len() - i,
    {
        proof {
            assert(all.subrange(0, i + 1) =~= all.subrange(0, i as int).push(lines@[i as int]@));
            all.subrange(0, i as int).lemma_filter_push(
                lines@[i as int]@,
                |l: Seq<char>| l.len() > 0,
            );
        }
        if !lines[i].as_str().is_empty() {
            let line = lines[i].clone();
            proof {
                r@.lemma_push_map_commute(|s: String| s@, line);
            }
            r.push(line);
        }
        i = i + 1;
    }
    assert(all.subrange(0, all.len() as int) =~= all);
    r
}

fn exit_code_result(code: i32) -> (r: Result<(), String>)
    ensures
        status_view(r) == exit_code_status(code),
{
    if code == 0 {
        Ok(())
    } else {
        let mut m = "Exit code was ".to_owned();
        push_decimal(&mut m, code);
        Err(m)
    }
}

impl Action {
    /// The status of a command that ran, from its exit code and the trimmed
    /// lines of its output.
    pub fn classify_lines(status: Option<i32>, trimmed_lines: &Vec<String>, watch_mode: &WatchMode) -> (r: Result<(), String>)
        ensures
            status_view(r) == classify(status, strings_view(trimmed_lines@), *watch_mode),
    {
        let lines = non_empty_lines(trimmed_lines);
        match watch_mode {
            WatchMode::OneLineError => {
                if lines.len() == 0 {
                    Ok(())
                } else {
                    Err(lines[0].clone())
                }
            },
            WatchMode::MultiLineError => {
                if lines.len() == 0 {
                    Ok(())
                } else {
                    Err(join_with_newlines(&lines))
                }
            },
            WatchMode::ExitCode => match status {
                None => Err("Exit code is not available".to_owned()),
                Some(c) => exit_code_result(c),
            },
            WatchMode::OneLineErrorExitCode => match status {
                None => Err("Exit code is not available".to_owned()),
                Some(c) => {
                    if c != 0 && lines.len() > 0 {
                        Err(lines[0].clone())
                    } else {
                        exit_code_result(c)
                    }
                },
            },
        }
    }

    /// The status that an outcome of the watched command gives under `watch_mode`.
    pub fn process_command_output(output: ExecuteCommandOutput, watch_mode: &WatchMode) -> (r: Result<(), String>)
        ensures
            status_view(r) == command_status(output.executed, output.status, output.text@, *watch_mode),
    {
        if !output.executed {
            let mut m = "Command was not executed. ".to_owned();
            m.append(output.text.as_str());
            return Err(m);
        }
        let lines = split_lines(output.text.as_str());
        let ghost all = strings_view(lines@);
        let mut trimmed_lines: Vec<String> = Vec::new();
        let mut i: usize = 0;
        while i < lines.len()
            invariant
                i <= lines@.len(),
                all == strings_view(lines@),
                all == lines_of(output.text@),
                strings_view(trimmed_lines@) == all.subrange(0, i as int).map_values(
                    |l: Seq<char>| trimmed(l),
                ),
            decreases lines@.len() - i,
        {
            let t = trim(lines[i].as_str()).to_owned();
            proof {
                trimmed_lines@.lemma_push_map_commute(|s: String| s@, t);
                assert(all.subrange(0, i + 1) =~= all.subrange(0, i as int).push(lines@[i as int]@));
                all.subrange(0, i as int).lemma_push_map_commute(|l: Seq<char>| trimmed(l), lines@[i as int]@);
            }
            trimmed_lines.push(t);
            i = i + 1;
        }
        assert(all.subrange(0, all.len() as int) =~= all);
        Action::classify_lines(output.status, &trimmed_lines, watch_mode)
    }
}

} // verus!
