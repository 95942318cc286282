//! The command line.

use crate::text::{join, same_text};
use vstd::prelude::*;

verus! {

/// What the arguments ask for.
#[derive(Debug)]
pub enum Command {
    /// Zoom into the named monitor, or into the active one.
    Run { monitor: Option<String> },
    /// Print the help.
    Help,
    /// `--monitor` came last, without its value.
    MissingMonitor,
    /// An argument that means nothing.
    Unknown { argument: String },
}

/// What the arguments from place `from` on ask for, if those before named
/// `monitor`. A later `--monitor` replaces an earlier one; the first argument
/// that ends the program decides.
pub open spec fn command_for(args: Seq<String>, from: int, monitor: Option<String>) -> Command
    decreases args.len() - from,
{
    if from >= args.len() {
        Command::Run { monitor }
    } else if args[from]@ == "--monitor"@ {
        if from + 1 >= args.len() {
            Command::MissingMonitor
        } else {
            command_for(args, from + 2, Some(args[from + 1]))
        }
    } else if args[from]@ == "--help"@ || args[from]@ == "-h"@ {
        Command::Help
    } else {
        Command::Unknown { argument: args[from] }
    }
}

/// As long as there are arguments left, it does not matter which monitor was
/// named before: a later one replaces it, and nothing else takes one.
pub proof fn later_monitor_replaces_earlier(
    args: Seq<String>,
    from: int,
    earlier: Option<String>,
    other: Option<String>,
)
    requires
        0 <= from < args.len(),
    ensures
        command_for(args, from, earlier) == command_for(args, from, other),
{
}

/// Once an argument has ended the program, those after it do not matter.
pub proof fn ending_argument_decides(
    args: Seq<String>,
    more: Seq<String>,
    from: int,
    monitor: Option<String>,
)
    requires
        0 <= from,
        command_for(args, from, monitor) is Help || command_for(args, from, monitor) is Unknown,
    ensures
        command_for(args + more, from, monitor) == command_for(args, from, monitor),
    decreases args.len() - from,
{
    assert((args + more)[from] == args[from]);
    if args[from]@ == "--monitor"@ {
        assert((args + more)[from + 1] == args[from + 1]);
        ending_argument_decides(args, more, from + 2, Some(args[from + 1]));
    }
}

/// Reads the arguments that follow the program's name.
pub fn parse_args(args: &Vec<String>) -> (command: Command)
    ensures
        command == command_for(args@, 0, None),
{
    let mut monitor: Option<String> = None;
    let mut i: usize = 0;
    while i < args.len()
        invariant
            i <= args@.len(),
            command_for(args@, 0, None) == command_for(args@, i as int, monitor),
        decreases args@.len() - i,
    {
        let argument = args[i].as_str();
        if same_text(argument, "--monitor") {
            if i + 1 >= args.len() {
                return Command::MissingMonitor;
            }
            monitor = Some(args[i + 1].clone());
            i = i + 2;
        } else if same_text(argument, "--help") || same_text(argument, "-h") {
            return Command::Help;
        } else {
            return Command::Unknown { argument: args[i].clone() };
        }
    }
    Command::Run { monitor }
}

/// The help for a program of this name.
pub open spec fn help(bin: Seq<char>) -> Seq<char> {
    bin + "  – Wayland screen-zoom tool\n\nUSAGE:\n    "@ + bin
        + " [--monitor <name>]\n\nOPTIONS:\n    --monitor <name>   Target monitor (Wayland output name); defaults to the focused output.\n    -h, --help         Print this help."@
}

/// The help for a program of this name.
pub fn help_text(bin: &str) -> (text: String)
    ensures
        text@ == help(bin@),
{
    let mut text = join(bin, "  – Wayland screen-zoom tool\n\nUSAGE:\n    ");
    text.append(bin);
    text.append(
        " [--monitor <name>]\n\nOPTIONS:\n    --monitor <name>   Target monitor (Wayland output name); defaults to the focused output.\n    -h, --help         Print this help.",
    );
    text
}

/// The end of the program: what to say and which code to exit with.
#[derive(Debug)]
pub struct Exit {
    pub message: String,
    pub code: i32,
}

impl Command {
    /// How the program ends if it does not run.
    pub fn exit(&self, bin: &str) -> (exit: Option<Exit>)
        ensures
            match exit {
                Some(exit) => match self {
                    Command::Run { .. } => false,
                    Command::Help => exit.code == 0 && exit.message@ == help(bin@),
                    Command::MissingMonitor => exit.code == 1 && exit.message@
                        == "--monitor needs a value"@,
                    Command::Unknown { argument } => exit.code == 1 && exit.message@
                        == "unknown argument: "@ + argument@ + "\n"@ + help(bin@),
                },
                None => self is Run,
            },
    {
        match self {
            Command::Run { .. } => None,
            Command::Help => Some(Exit { message: help_text(bin), code: 0 }),
            Command::MissingMonitor => Some(
                Exit { message: "--monitor needs a value".to_string(), code: 1 },
            ),
            Command::Unknown { argument } => {
                let mut message = join("unknown argument: ", argument.as_str());
                message.append("\n");
                message.append(help_text(bin).as_str());
                Some(Exit { message, code: 1 })
            },
        }
    }
}

/// What the arguments ask for if the first `2 * n` of them are `--monitor`
/// options with their values. Without any others, the last value names the
/// monitor. Otherwise the next argument decides: a help option, a `--monitor`
/// without its value, or an argument that means nothing.
pub proof fn arguments_are_options_then_an_ending(args: Seq<String>, n: int)
    requires
        0 <= n,
        2 * n <= args.len(),
        forall|i: int| 0 <= i < n ==> (#[trigger] args[2 * i])@ == "--monitor"@,
    ensures
        args.len() == 0 ==> command_for(args, 0, None) == (Command::Run { monitor: None }),
        args.len() == 2 * n && n > 0 ==> command_for(args, 0, None) == (Command::Run {
            monitor: Some(args[2 * n - 1]),
        }),
        args.len() == 2 * n + 1 && args[2 * n]@ == "--monitor"@ ==> command_for(args, 0, None)
            == Command::MissingMonitor,
        args.len() > 2 * n && (args[2 * n]@ == "--help"@ || args[2 * n]@ == "-h"@) ==> command_for(
            args,
            0,
            None,
        ) == Command::Help,
        args.len() > 2 * n && args[2 * n]@ != "--monitor"@ && args[2 * n]@ != "--help"@ && args[2
            * n]@ != "-h"@ ==> command_for(args, 0, None) == (Command::Unknown {
            argument: args[2 * n],
        }),
{
    reveal_strlit("--monitor");
    reveal_strlit("--help");
    reveal_strlit("-h");
    assert("--monitor"@.len() == 9 && "--help"@.len() == 6 && "-h"@.len() == 2);
    options_are_read(args, n, 0, None);
}

/// After the options before place `2 * n`, the last of their values is the
/// monitor.
proof fn options_are_read(args: Seq<String>, n: int, i: int, monitor: Option<String>)
    requires
        0 <= i <= n,
        2 * n <= args.len(),
        forall|j: int| 0 <= j < n ==> (#[trigger] args[2 * j])@ == "--monitor"@,
    ensures
        command_for(args, 2 * i, monitor) == command_for(
            args,
            2 * n,
            if i < n {
                Some(args[2 * n - 1])
            } else {
                monitor
            },
        ),
    decreases n - i,
{
    if i < n {
        assert(args[2 * i]@ == "--monitor"@);
        options_are_read(args, n, i + 1, Some(args[2 * i + 1]));
    }
}

/// The help names the program at its start and again in the usage line, and is
/// otherwise the same for every program.
pub proof fn help_names_the_program_twice(bin: Seq<char>)
    ensures
        help(bin).len() == help(Seq::empty()).len() + 2 * bin.len(),
        help(bin).take(bin.len() as int) == bin,
        help(bin) == bin + "  – Wayland screen-zoom tool\n\nUSAGE:\n    "@ + bin
            + " [--monitor <name>]\n\nOPTIONS:\n    --monitor <name>   Target monitor (Wayland output name); defaults to the focused output.\n    -h, --help         Print this help."@,
{
    assert(help(bin).take(bin.len() as int) =~= bin);
}

} // verus!
