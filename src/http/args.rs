//! The server program's command line.

use vstd::prelude::*;
use crate::http::error::{Error, ErrorKind};
use crate::text::strings_view;

verus! {

/// The server program's settings.
#[derive(Debug, PartialEq)]
pub struct ProgramArgs {
    pub outdir: String,
    pub indir: String,
    pub generate: bool,
    pub force: bool,
    pub addr: String,
    pub verbose: bool,
}

/// What `ProgramArgs` holds.
pub struct ArgsModel {
    pub outdir: Seq<char>,
    pub indir: Seq<char>,
    pub generate: bool,
    pub force: bool,
    pub addr: Seq<char>,
    pub verbose: bool,
}

impl ProgramArgs {
    pub open spec fn model(&self) -> ArgsModel {
        ArgsModel {
            outdir: self.outdir@,
            indir: self.indir@,
            generate: self.generate,
            force: self.force,
            addr: self.addr@,
            verbose: self.verbose,
        }
    }
}

/// The settings when no option is given.
pub open spec fn default_args() -> ArgsModel {
    ArgsModel {
        outdir: "./html"@,
        indir: "./web"@,
        generate: false,
        force: false,
        addr: "0.0.0.0:8080"@,
        verbose: false,
    }
}

/// The settings after reading `args[i..]` over `a`: `-i <dir>` sets the input
/// directory, `-a <address>` the listener address, `-g`, `-f` and `-v` turn on
/// generating, forcing and verbose output; any other word is the output directory.
/// An error names the option whose value is missing.
pub open spec fn args_from(args: Seq<Seq<char>>, i: int, a: ArgsModel) -> Result<ArgsModel, Seq<char>>
    decreases args.len() - i,
{
    if i < 0 || i >= args.len() {
        Ok(a)
    } else if args[i] == "-i"@ {
        if i + 1 >= args.len() {
            Err("Expected input directory after option `-i`"@)
        } else {
            args_from(args, i + 2, ArgsModel { indir: args[i + 1], ..a })
        }
    } else if args[i] == "-a"@ {
        if i + 1 >= args.len() {
            Err("Expected listener address after option `-a`"@)
        } else {
            args_from(args, i + 2, ArgsModel { addr: args[i + 1], ..a })
        }
    } else if args[i] == "-g"@ {
        args_from(args, i + 1, ArgsModel { generate: true, ..a })
    } else if args[i] == "-f"@ {
        args_from(args, i + 1, ArgsModel { force: true, ..a })
    } else if args[i] == "-v"@ {
        args_from(args, i + 1, ArgsModel { verbose: true, ..a })
    } else {
        args_from(args, i + 1, ArgsModel { outdir: args[i], ..a })
    }
}

impl ProgramArgs {
    pub fn default_args() -> (r: ProgramArgs)
        ensures
            r.model() == default_args(),
    {
        ProgramArgs {
            indir: "./web".to_string(),
            outdir: "./html".to_string(),
            generate: false,
            force: false,
            addr: "0.0.0.0:8080".to_string(),
            verbose: false,
        }
    }

    /// Reads the settings from the command line `args`, whose first word names the
    /// program, as `args_from` describes.
    pub fn from_args(args: &Vec<String>) -> (r: Result<ProgramArgs, Error>)
        ensures
            match args_from(strings_view(args@), 1, default_args()) {
                Ok(m) => r is Ok && r->Ok_0.model() == m,
                Err(msg) => r is Err && r->Err_0.spec_kind() == ErrorKind::CommandLineArgsParse
                    && r->Err_0.spec_msg() == msg,
            },
    {
        let ghost s = strings_view(args@);
        let mut a = ProgramArgs::default_args();
        let mut i: usize = 1;
        while i < args.len()
            invariant
                s == strings_view(args@),
                1 <= i,
                args_from(s, 1, default_args()) == args_from(s, i as int, a.model()),
            decreases args.len() - i,
        {
            let v = &args[i];
            if *v == "-i".to_string() {
                if i + 1 >= args.len() {
                    return Err(Error::new(ErrorKind::CommandLineArgsParse, "Expected input directory after option `-i`"));
                }
                a.indir = args[i + 1].clone();
                i = i + 2;
            } else if *v == "-a".to_string() {
                if i + 1 >= args.len() {
                    return Err(Error::new(ErrorKind::CommandLineArgsParse, "Expected listener address after option `-a`"));
                }
                a.addr = args[i + 1].clone();
                i = i + 2;
            } else if *v == "-g".to_string() {
                a.generate = true;
                i = i + 1;
            } else if *v == "-f".to_string() {
                a.force = true;
                i = i + 1;
            } else if *v == "-v".to_string() {
                a.verbose = true;
                i = i + 1;
            } else {
                a.outdir = v.clone();
                i = i + 1;
            }
        }
        Ok(a)
    }
}

} // verus!
