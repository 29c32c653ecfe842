use vstd::prelude::*;
use vstd::string::StringExecFns;
use crate::text::{str_eq, string_views};

verus! {

/// What the command line asks for.
#[derive(Debug, Clone, Copy, PartialEq, Eq, Structural)]
pub enum CliCommand {
    /// `--version` or `-V`: print the version and exit.
    Version,
    /// `status`: print the running agent's status and exit.
    Status,
    /// `top`: show the live status view.
    Top,
    /// Anything else: run the agent.
    Run,
}

/// The command that the arguments `args` (program name first) ask for.
pub open spec fn spec_cli_command(args: Seq<Seq<char>>) -> CliCommand {
    if args.len() <= 1 {
        CliCommand::Run
    } else if args[1] == "--version"@ || args[1] == "-V"@ {
        CliCommand::Version
    } else if args[1] == "status"@ {
        CliCommand::Status
    } else if args[1] == "top"@ {
        CliCommand::Top
    } else {
        CliCommand::Run
    }
}

/// Reads the command from the arguments (program name first); only the
/// first argument after the program name counts.
pub fn parse_cli_command(args: &Vec<String>) -> (c: CliCommand)
    ensures
        c == spec_cli_command(string_views(args@)),
{
    if args.len() <= 1 {
        return CliCommand::Run;
    }
    let a = args[1].as_str();
    assert(string_views(args@)[1] == args@[1]@);
    if str_eq(a, "--version") || str_eq(a, "-V") {
        CliCommand::Version
    } else if str_eq(a, "status") {
        CliCommand::Status
    } else if str_eq(a, "top") {
        CliCommand::Top
    } else {
        CliCommand::Run
    }
}

/// The line printed for `--version`.
pub fn version_line(version: &str) -> (line: String)
    ensures
        line@ == "oxipulse "@ + version@,
{
    let mut line = String::from_str("oxipulse ");
    line.append(version);
    line
}

} // verus!
