//! The site tool's command line and its error type, which gathers the errors of its parts.

use vstd::prelude::*;
use crate::numbers::{ipv4_of, parse_ipv4, parse_port, port_of};

verus! {

/// An error of the site tool: from the server, from generating pages, or from its
/// command line.
#[derive(Debug, PartialEq)]
pub enum Error {
    Server(crate::http::error::Error),
    MdParse(crate::error::Error),
    CommandLineArgsParse(String),
}

impl From<crate::error::Error> for Error {
    fn from(value: crate::error::Error) -> (r: Self) {
        Error::MdParse(value)
    }
}

impl vstd::std_specs::convert::FromSpecImpl<crate::error::Error> for Error {
    open spec fn obeys_from_spec() -> bool {
        true
    }

    open spec fn from_spec(v: crate::error::Error) -> Error {
        Error::MdParse(v)
    }
}

impl From<crate::http::error::Error> for Error {
    fn from(value: crate::http::error::Error) -> (r: Self) {
        Error::Server(value)
    }
}

impl vstd::std_specs::convert::FromSpecImpl<crate::http::error::Error> for Error {
    open spec fn obeys_from_spec() -> bool {
        true
    }

    open spec fn from_spec(v: crate::http::error::Error) -> Error {
        Error::Server(v)
    }
}

/// What the site tool is asked to do.
#[derive(Debug, Clone, Copy, PartialEq, Eq)]
pub enum Command {
    /// Turn the pages into HTML; `force` allows overwriting.
    Generate { force: bool },
    /// Serve the generated site on an IPv4 address and TCP port.
    Serve { addr: [u8; 4], port: u16 },
    /// Set up a new site.
    Init,
}

/// The message for an argument that should not be there.
pub open spec fn unexpected(a: Seq<char>) -> Seq<char> {
    "Unexpected argument: `"@ + a + "`"@
}

/// The options of `serve` from `args[i]` on, with the address and port read so far.
pub open spec fn serve_options(args: Seq<Seq<char>>, i: int, addr: [u8; 4], port: u16) -> Result<Command, Seq<char>>
    decreases args.len() - i,
{
    if i < 0 || i >= args.len() {
        Ok(Command::Serve { addr, port })
    } else if args[i] == "-a"@ {
        if i + 1 >= args.len() {
            Err("Missing argument after `-a`. Expected IPv4 address."@)
        } else {
            match ipv4_of(args[i + 1]) {
                None => Err("Parsing IP address failed"@),
                Some(a) => serve_options(args, i + 2, a, port),
            }
        }
    } else if args[i] == "-p"@ {
        if i + 1 >= args.len() {
            Err("Missing argument after `-p`. Expected TCP port number."@)
        } else {
            match port_of(args[i + 1]) {
                None => Err("Parsing TCP port failed"@),
                Some(p) => serve_options(args, i + 2, addr, p),
            }
        }
    } else {
        Err("Unknown argument: `"@ + args[i] + "`"@)
    }
}

/// The command that a command line asks for (its first word names the program), or
/// the message of what is wrong with it.
pub open spec fn command_spec(args: Seq<Seq<char>>) -> Result<Command, Seq<char>> {
    if args.len() > 1 && args[1] == "serve"@ {
        serve_options(args, 2, [0u8, 0u8, 0u8, 0u8], 8080)
    } else if args.len() > 1 && args[1] == "init"@ {
        if args.len() > 2 {
            Err(unexpected(args[2]))
        } else {
            Ok(Command::Init)
        }
    } else if args.len() > 2 {
        Err(unexpected(args[2]))
    } else {
        Ok(Command::Generate { force: true })
    }
}

impl Command {
    /// Reads the command from the command line `args`, whose first word names the program:
    /// `serve [-a <IPv4 address>] [-p <port>]`, `init`, or nothing to generate the site.
    pub fn from_args(args: &Vec<String>) -> (r: Result<Command, Error>)
        ensures
            match command_spec(crate::text::strings_view(args@)) {
                Ok(c) => r == Ok::<Command, Error>(c),
                Err(m) => r is Err && r->Err_0 is CommandLineArgsParse && r->Err_0->CommandLineArgsParse_0@ == m,
            },
    {
        let ghost a = crate::text::strings_view(args@);
        if args.len() > 1 && args[1] == "serve".to_string() {
            let mut addr: [u8; 4] = [0, 0, 0, 0];
            let mut port: u16 = 8080;
            let mut i: usize = 2;
            assert(addr@ =~= [0u8, 0u8, 0u8, 0u8]@);
            while i < args.len()
                invariant
                    a == crate::text::strings_view(args@),
                    2 <= i,
                    command_spec(a) == serve_options(a, i as int, addr, port),
                decreases args.len() - i,
            {
                if args[i] == "-a".to_string() {
                    if i + 1 >= args.len() {
                        return Err(Error::CommandLineArgsParse(
                            "Missing argument after `-a`. Expected IPv4 address.".to_string(),
                        ));
                    }
                    match parse_ipv4(args[i + 1].as_str()) {
                        Some(x) => addr = x,
                        None => return Err(Error::CommandLineArgsParse("Parsing IP address failed".to_string())),
                    }
                } else if args[i] == "-p".to_string() {
                    if i + 1 >= args.len() {
                        return Err(Error::CommandLineArgsParse(
                            "Missing argument after `-p`. Expected TCP port number.".to_string(),
                        ));
                    }
                    match parse_port(args[i + 1].as_str()) {
                        Some(p) => port = p,
                        None => return Err(Error::CommandLineArgsParse("Parsing TCP port failed".to_string())),
                    }
                } else {
                    let mut m = "Unknown argument: `".to_string();
                    m.append(args[i].as_str());
                    m.append("`");
                    return Err(Error::CommandLineArgsParse(m));
                }
                i = i + 2;
            }
            Ok(Command::Serve { addr, port })
        } else if args.len() > 1 && args[1] == "init".to_string() {
            if args.len() > 2 {
                return Err(Error::CommandLineArgsParse(unexpected_message(&args[2])));
            }
            Ok(Command::Init)
        } else if args.len() > 2 {
            Err(Error::CommandLineArgsParse(unexpected_message(&args[2])))
        } else {
            Ok(Command::Generate { force: true })
        }
    }
}

fn unexpected_message(a: &String) -> (r: String)
    ensures
        r@ == unexpected(a@),
{
    let mut m = "Unexpected argument: `".to_string();
    m.append(a.as_str());
    m.append("`");
    m
}

/// The site tool's settings.
#[derive(Debug, PartialEq)]
pub struct ProgramConfig {
    pub outdir: String,
    pub indir: String,
    pub command: Command,
    pub verbose: bool,
}

impl ProgramConfig {
    /// The settings for the command line `args`: the command it asks for, pages read
    /// from `./pebbles` and written to `./site`, verbose logging.
    pub fn new(args: &Vec<String>) -> (r: Result<ProgramConfig, Error>)
        ensures
            match command_spec(crate::text::strings_view(args@)) {
                Ok(c) => r is Ok && r->Ok_0.command == c && r->Ok_0.indir@ == "./pebbles"@
                    && r->Ok_0.outdir@ == "./site"@ && r->Ok_0.verbose,
                Err(m) => r is Err && r->Err_0 is CommandLineArgsParse && r->Err_0->CommandLineArgsParse_0@ == m,
            },
    {
        let command = match Command::from_args(args) {
            Ok(c) => c,
            Err(e) => return Err(e),
        };
        Ok(ProgramConfig {
            outdir: "./site".to_string(),
            indir: "./pebbles".to_string(),
            command,
            verbose: true,
        })
    }
}

} // verus!
