//! Reading option values from a queue of command-line arguments.
use crate::common::server_command::strings_view;
use crate::common::text::{equals_str, parse_unsigned, unsigned_value};
use std::collections::VecDeque;
use vstd::prelude::*;
use vstd::string::*;

verus! {

broadcast use vstd::seq::group_seq_axioms;

/// Why the command line could not be read.
#[derive(PartialEq, Eq, Debug, Clone)]
pub enum CommandLineError {
    /// A value (first field) is missing after an option or word (second field).
    NoValueSpecified(String, String),
    /// A value of the named kind (first field) is not acceptable (second field).
    InvalidValue(String, String),
    /// An option that is unknown, or not valid with the chosen action.
    InvalidArgument(String),
}

/// A command-line error as a mathematical value.
pub enum CliErrorView {
    NoValueSpecified(Seq<char>, Seq<char>),
    InvalidValue(Seq<char>, Seq<char>),
    InvalidArgument(Seq<char>),
}

impl View for CommandLineError {
    type V = CliErrorView;

    open spec fn view(&self) -> CliErrorView {
        match self {
            CommandLineError::NoValueSpecified(a, b) => CliErrorView::NoValueSpecified(a@, b@),
            CommandLineError::InvalidValue(a, b) => CliErrorView::InvalidValue(a@, b@),
            CommandLineError::InvalidArgument(a) => CliErrorView::InvalidArgument(a@),
        }
    }
}

/// The human-readable text of an error.
pub open spec fn error_message(e: CliErrorView) -> Seq<char> {
    match e {
        CliErrorView::NoValueSpecified(name, option) => "Specify a "@ + name + " after "@ + option,
        CliErrorView::InvalidValue(name, value) => "Invalid "@ + name + " value specified: "@
            + value,
        CliErrorView::InvalidArgument(arg) => "Invalid argument specified: "@ + arg,
    }
}

impl CommandLineError {
    /// The human-readable text of the error.
    pub fn message(&self) -> (r: String)
        ensures
            r@ == error_message(self@),
    {
        match self {
            CommandLineError::NoValueSpecified(name, option) => {
                let mut m = "Specify a ".to_owned();
                m.append(name.as_str());
                m.append(" after ");
                m.append(option.as_str());
                m
            },
            CommandLineError::InvalidValue(name, value) => {
                let mut m = "Invalid ".to_owned();
                m.append(name.as_str());
                m.append(" value specified: ");
                m.append(value.as_str());
                m
            },
            CommandLineError::InvalidArgument(arg) => {
                let mut m = "Invalid argument specified: ".to_owned();
                m.append(arg.as_str());
                m
            },
        }
    }
}

/// The boolean a word denotes: `0`/`false` or `1`/`true`.
pub open spec fn bool_value(s: Seq<char>) -> Option<bool> {
    if s == "0"@ || s == "false"@ {
        Some(false)
    } else if s == "1"@ || s == "true"@ {
        Some(true)
    } else {
        None
    }
}

/// Takes the next argument as a number no larger than `max`; gives the number
/// and the arguments left.
pub open spec fn take_number(
    args: Seq<Seq<char>>,
    on_fetch_error: CliErrorView,
    value_name: Seq<char>,
    max: nat,
) -> Result<(nat, Seq<Seq<char>>), CliErrorView> {
    if args.len() == 0 {
        Err(on_fetch_error)
    } else {
        match unsigned_value(args[0]) {
            Some(n) => if n <= max {
                Ok((n, args.drop_first()))
            } else {
                Err(CliErrorView::InvalidValue(value_name, args[0]))
            },
            None => Err(CliErrorView::InvalidValue(value_name, args[0])),
        }
    }
}

/// Takes the next argument as a boolean.
pub open spec fn take_bool(
    args: Seq<Seq<char>>,
    on_fetch_error: CliErrorView,
    value_name: Seq<char>,
) -> Result<(bool, Seq<Seq<char>>), CliErrorView> {
    if args.len() == 0 {
        Err(on_fetch_error)
    } else {
        match bool_value(args[0]) {
            Some(b) => Ok((b, args.drop_first())),
            None => Err(CliErrorView::InvalidValue(value_name, args[0])),
        }
    }
}

/// Takes the next argument as a non-empty string.
pub open spec fn take_string(
    args: Seq<Seq<char>>,
    on_fetch_error: CliErrorView,
    on_empty_string: CliErrorView,
) -> Result<(Seq<char>, Seq<Seq<char>>), CliErrorView> {
    if args.len() == 0 {
        Err(on_fetch_error)
    } else if args[0].len() == 0 {
        Err(on_empty_string)
    } else {
        Ok((args[0], args.drop_first()))
    }
}

/// Moves arguments into a queue, keeping their order.
pub fn to_queue(args: Vec<String>) -> (r: VecDeque<String>)
    ensures
        r@ == args@,
{
    let mut q: VecDeque<String> = VecDeque::new();
    let mut i: usize = 0;
    while i < args.len()
        invariant
            i <= args@.len(),
            q@ == args@.subrange(0, i as int),
        decreases args@.len() - i,
    {
        q.push_back(args[i].clone());
        i = i + 1;
        assert(q@ =~= args@.subrange(0, i as int));
    }
    assert(args@.subrange(0, args@.len() as int) =~= args@);
    q
}

/// Takes the next argument, or fails with `on_error` when there is none.
pub fn fetch_arg(args: &mut VecDeque<String>, on_error: CommandLineError) -> (r: Result<
    String,
    CommandLineError,
>)
    ensures
        match r {
            Ok(s) => old(args)@.len() > 0 && s == old(args)@[0] && final(args)@
                == old(args)@.drop_first(),
            Err(e) => old(args)@.len() == 0 && e == on_error,
        },
{
    match args.pop_front() {
        Some(x) => Ok(x),
        None => Err(on_error),
    }
}

/// Takes the next argument as an unsigned number no larger than `max`.
pub fn fetch_arg_and_parse(
    args: &mut VecDeque<String>,
    max: u64,
    on_fetch_error: CommandLineError,
    value_name: &str,
) -> (r: Result<u64, CommandLineError>)
    ensures
        match r {
            Ok(n) => take_number(strings_view(old(args)@), on_fetch_error@, value_name@, max as nat)
                == Ok::<_, CliErrorView>((n as nat, strings_view(final(args)@))),
            Err(e) => take_number(strings_view(old(args)@), on_fetch_error@, value_name@, max as nat)
                == Err::<(nat, Seq<Seq<char>>), _>(e@),
        },
{
    let arg = match args.pop_front() {
        Some(x) => x,
        None => return Err(on_fetch_error),
    };
    assert(strings_view(old(args)@).drop_first() =~= strings_view(args@));
    match parse_unsigned(arg.as_str(), max) {
        Some(n) => Ok(n),
        None => Err(CommandLineError::InvalidValue(value_name.to_owned(), arg)),
    }
}

/// Takes the next argument as a boolean: `0`/`false` or `1`/`true`.
pub fn fetch_arg_bool(
    args: &mut VecDeque<String>,
    on_fetch_error: CommandLineError,
    value_name: &str,
) -> (r: Result<bool, CommandLineError>)
    ensures
        match r {
            Ok(b) => take_bool(strings_view(old(args)@), on_fetch_error@, value_name@)
                == Ok::<_, CliErrorView>((b, strings_view(final(args)@))),
            Err(e) => take_bool(strings_view(old(args)@), on_fetch_error@, value_name@)
                == Err::<(bool, Seq<Seq<char>>), _>(e@),
        },
{
    let arg = match args.pop_front() {
        Some(x) => x,
        None => return Err(on_fetch_error),
    };
    assert(strings_view(old(args)@).drop_first() =~= strings_view(args@));
    if equals_str(&arg, "0") || equals_str(&arg, "false") {
        Ok(false)
    } else if equals_str(&arg, "1") || equals_str(&arg, "true") {
        Ok(true)
    } else {
        Err(CommandLineError::InvalidValue(value_name.to_owned(), arg))
    }
}

/// Takes the next argument as a non-empty string.
pub fn fetch_arg_string(
    args: &mut VecDeque<String>,
    on_fetch_error: CommandLineError,
    on_empty_string: CommandLineError,
) -> (r: Result<String, CommandLineError>)
    ensures
        match r {
            Ok(s) => take_string(strings_view(old(args)@), on_fetch_error@, on_empty_string@)
                == Ok::<_, CliErrorView>((s@, strings_view(final(args)@))),
            Err(e) => take_string(strings_view(old(args)@), on_fetch_error@, on_empty_string@)
                == Err::<(Seq<char>, Seq<Seq<char>>), _>(e@),
        },
{
    let arg = match args.pop_front() {
        Some(x) => x,
        None => return Err(on_fetch_error),
    };
    assert(strings_view(old(args)@).drop_first() =~= strings_view(args@));
    if arg.as_str().is_empty() {
        return Err(on_empty_string);
    }
    Ok(arg)
}

} // verus!
