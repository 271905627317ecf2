//! The server's command line: options only.
use crate::common::arg_parsing::{
    fetch_arg, fetch_arg_bool, take_bool, CliErrorView, CommandLineError,
};
use crate::common::server_command::strings_view;
use crate::common::text::{equals_str, parse_unsigned, unsigned_value};
use crate::common::arg_parsing::to_queue;
use crate::common::constants::{DEFAULT_LOG_EVERY_STATUS, DEFAULT_PORT};
use std::collections::VecDeque;
use vstd::prelude::*;

verus! {

broadcast use vstd::seq::group_seq_axioms;

/// The server's settings.
#[derive(PartialEq, Eq, Debug, Clone, Copy, Structural)]
pub struct Config {
    pub server_port: u16,
    /// Log every status a client sends, not only changes.
    pub log_every_status: bool,
    pub help: bool,
    pub version: bool,
}

/// The settings used for whatever the command line does not give.
pub open spec fn default_config() -> Config {
    Config {
        server_port: DEFAULT_PORT,
        log_every_status: DEFAULT_LOG_EVERY_STATUS,
        help: false,
        version: false,
    }
}

/// Reads the options, left to right, into `c`.
pub open spec fn parse_options_spec(c: Config, args: Seq<Seq<char>>) -> Result<
    Config,
    CliErrorView,
>
    decreases args.len(),
{
    if args.len() == 0 {
        Ok(c)
    } else {
        let o = args[0];
        let rest = args.drop_first();
        if o == "-p"@ {
            if rest.len() == 0 {
                Err(CliErrorView::NoValueSpecified("port"@, o))
            } else {
                match unsigned_value(rest[0]) {
                    Some(n) => if n <= 0xffff {
                        parse_options_spec(Config { server_port: n as u16, ..c }, rest.drop_first())
                    } else {
                        Err(CliErrorView::InvalidValue("port"@, rest[0]))
                    },
                    None => Err(CliErrorView::InvalidValue("port"@, rest[0])),
                }
            }
        } else if o == "-e"@ {
            match take_bool(
                rest,
                CliErrorView::NoValueSpecified("a boolean value"@, o),
                "log every status"@,
            ) {
                Ok((b, left)) => parse_options_spec(Config { log_every_status: b, ..c }, left),
                Err(e) => Err(e),
            }
        } else if o == "-h"@ {
            parse_options_spec(Config { help: true, ..c }, rest)
        } else if o == "-v"@ {
            parse_options_spec(Config { version: true, ..c }, rest)
        } else {
            Err(CliErrorView::InvalidArgument(o))
        }
    }
}

impl Config {
    /// The settings used for whatever the command line does not give.
    pub fn default() -> (r: Config)
        ensures
            r == default_config(),
    {
        Config {
            server_port: DEFAULT_PORT,
            log_every_status: DEFAULT_LOG_EVERY_STATUS,
            help: false,
            version: false,
        }
    }

    /// Reads the options, left to right.
    pub fn parse_options(&mut self, args: &mut VecDeque<String>) -> (r: Result<
        (),
        CommandLineError,
    >)
        ensures
            match r {
                Ok(()) => parse_options_spec(*old(self), strings_view(old(args)@)) == Ok::<
                    _,
                    CliErrorView,
                >(*final(self)),
                Err(e) => parse_options_spec(*old(self), strings_view(old(args)@)) == Err::<
                    Config,
                    _,
                >(e@),
            },
    {
        let ghost start = parse_options_spec(*self, strings_view(args@));
        while args.len() > 0
            invariant
                start == parse_options_spec(*old(self), strings_view(old(args)@)),
                start == parse_options_spec(*self, strings_view(args@)),
            decreases args@.len(),
        {
            let ghost before = strings_view(args@);
            let arg = args.pop_front().unwrap();
            assert(before.drop_first() =~= strings_view(args@));
            assert(before[0] == arg@);
            if equals_str(&arg, "-p") {
                let ghost rest = strings_view(args@);
                let port = fetch_arg(
                    args,
                    CommandLineError::NoValueSpecified("port".to_owned(), arg),
                )?;
                assert(rest[0] == port@);
                assert(rest.drop_first() =~= strings_view(args@));
                match parse_unsigned(port.as_str(), 0xffff) {
                    Some(n) => {
                        self.server_port = n as u16;
                    },
                    None => {
                        return Err(CommandLineError::InvalidValue("port".to_owned(), port));
                    },
                }
            } else if equals_str(&arg, "-e") {
                let log_every_status = fetch_arg_bool(
                    args,
                    CommandLineError::NoValueSpecified("a boolean value".to_owned(), arg.clone()),
                    "log every status",
                )?;
                self.log_every_status = log_every_status;
            } else if equals_str(&arg, "-h") {
                self.help = true;
            } else if equals_str(&arg, "-v") {
                self.version = true;
            } else {
                return Err(CommandLineError::InvalidArgument(arg));
            }
        }
        assert(strings_view(args@) =~= Seq::<Seq<char>>::empty());
        Ok(())
    }

    /// Reads a whole command line (without the program name).
    pub fn parse(args: Vec<String>) -> (r: Result<Config, CommandLineError>)
        ensures
            match r {
                Ok(c) => parse_options_spec(default_config(), strings_view(args@)) == Ok::<
                    _,
                    CliErrorView,
                >(c),
                Err(e) => parse_options_spec(default_config(), strings_view(args@)) == Err::<
                    Config,
                    _,
                >(e@),
            },
    {
        let mut queue = to_queue(args);
        let mut config = Config::default();
        config.parse_options(&mut queue)?;
        Ok(config)
    }
}

} // verus!
