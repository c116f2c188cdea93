//! What the command line asks for.

use vstd::prelude::*;
use vstd::string::*;

use crate::text;

verus! {

/// How the program was asked to run.
#[derive(Debug, PartialEq, Eq)]
pub enum Mode {
    Desktop { detach: bool },
    Get(String),
    AwsCredentials(String),
    AwsLogin,
    Help,
}

/// How the program is asked to run, as it is spoken of.
pub enum Command {
    Desktop { detach: bool },
    Get(Seq<char>),
    AwsCredentials(Seq<char>),
    AwsLogin,
    Help,
}

/// What a mode says.
pub open spec fn command(mode: Mode) -> Command {
    match mode {
        Mode::Desktop { detach } => Command::Desktop { detach },
        Mode::Get(secret) => Command::Get(secret@),
        Mode::AwsCredentials(profile) => Command::AwsCredentials(profile@),
        Mode::AwsLogin => Command::AwsLogin,
        Mode::Help => Command::Help,
    }
}

/// The mode that the arguments ask for; arguments that ask for none are
/// refused.
pub open spec fn asked(arguments: Seq<Seq<char>>) -> Option<Command> {
    if arguments.len() == 0 {
        Some(Command::Desktop { detach: true })
    } else if arguments.len() == 1 {
        if arguments[0] == "--show"@ || arguments[0] == "desktop"@ {
            Some(Command::Desktop { detach: true })
        } else if arguments[0] == "--help"@ || arguments[0] == "-h"@ || arguments[0] == "help"@ {
            Some(Command::Help)
        } else {
            None
        }
    } else if arguments.len() == 2 {
        if arguments[0] == "desktop"@ && arguments[1] == "--show"@ {
            Some(Command::Desktop { detach: true })
        } else if arguments[0] == "desktop"@ && arguments[1] == "--foreground"@ {
            Some(Command::Desktop { detach: false })
        } else if arguments[0] == "get"@ {
            Some(Command::Get(arguments[1]))
        } else if arguments[0] == "aws"@ && arguments[1] == "login"@ {
            Some(Command::AwsLogin)
        } else {
            None
        }
    } else if arguments.len() == 3 {
        if arguments[0] == "desktop"@ && arguments[1] == "--foreground"@ && arguments[2]
            == "--show"@ {
            Some(Command::Desktop { detach: false })
        } else if arguments[0] == "aws"@ && arguments[1] == "credentials"@ {
            Some(Command::AwsCredentials(arguments[2]))
        } else {
            None
        }
    } else {
        None
    }
}

/// The mode that the arguments ask for.
pub fn mode(arguments: &Vec<String>) -> (r: Result<Mode, ()>)
    ensures
        match r {
            Ok(mode) => asked(text::views(arguments@)) == Some(command(mode)),
            Err(_) => asked(text::views(arguments@)) is None,
        },
{
    let n: usize = arguments.len();
    if n == 0 {
        return Ok(Mode::Desktop { detach: true });
    }
    let first = arguments[0].as_str();
    assert(text::views(arguments@)[0] == first@);
    if n == 1 {
        if text::str_eq(first, "--show") || text::str_eq(first, "desktop") {
            return Ok(Mode::Desktop { detach: true });
        }
        if text::str_eq(first, "--help") || text::str_eq(first, "-h") || text::str_eq(
            first,
            "help",
        ) {
            return Ok(Mode::Help);
        }
        return Err(());
    }
    let second = arguments[1].as_str();
    assert(text::views(arguments@)[1] == second@);
    if n == 2 {
        if text::str_eq(first, "desktop") && text::str_eq(second, "--show") {
            return Ok(Mode::Desktop { detach: true });
        }
        if text::str_eq(first, "desktop") && text::str_eq(second, "--foreground") {
            return Ok(Mode::Desktop { detach: false });
        }
        if text::str_eq(first, "get") {
            return Ok(Mode::Get(arguments[1].clone()));
        }
        if text::str_eq(first, "aws") && text::str_eq(second, "login") {
            return Ok(Mode::AwsLogin);
        }
        return Err(());
    }
    if n == 3 {
        let third = arguments[2].as_str();
        assert(text::views(arguments@)[2] == third@);
        if text::str_eq(first, "desktop") && text::str_eq(second, "--foreground") && text::str_eq(
            third,
            "--show",
        ) {
            return Ok(Mode::Desktop { detach: false });
        }
        if text::str_eq(first, "aws") && text::str_eq(second, "credentials") {
            return Ok(Mode::AwsCredentials(arguments[2].clone()));
        }
    }
    Err(())
}

/// Whether the window is to be opened at once.
pub fn show_on_launch(arguments: &Vec<String>) -> (r: bool)
    ensures
        r == text::views(arguments@).contains("--show"@),
{
    text::contains_text(arguments, "--show")
}

/// The arguments of the process that a detached start leaves behind.
pub open spec fn detached(arguments: Seq<Seq<char>>) -> Seq<Seq<char>> {
    if arguments.contains("--show"@) {
        seq!["desktop"@, "--foreground"@, "--show"@]
    } else {
        seq!["desktop"@, "--foreground"@]
    }
}

/// The arguments of the process that a detached start leaves behind.
pub fn desktop_arguments(arguments: &Vec<String>) -> (r: Vec<String>)
    ensures
        text::views(r@) == detached(text::views(arguments@)),
{
    let mut r: Vec<String> = Vec::new();
    r.push("desktop".to_owned());
    r.push("--foreground".to_owned());
    if show_on_launch(arguments) {
        r.push("--show".to_owned());
    }
    assert(text::views(r@) =~= detached(text::views(arguments@)));
    r
}

/// The process that a detached start leaves behind stays attached to its own
/// start, and opens the window exactly when that was asked for.
pub proof fn a_detached_start_runs_in_the_foreground(arguments: Seq<Seq<char>>)
    ensures
        asked(detached(arguments)) == Some(Command::Desktop { detach: false }),
        detached(arguments).contains("--show"@) == arguments.contains("--show"@),
{
    reveal_strlit("desktop");
    reveal_strlit("--foreground");
    reveal_strlit("--show");
    let started = detached(arguments);
    assert("desktop"@.len() != "--show"@.len());
    assert("--foreground"@.len() != "--show"@.len());
    if arguments.contains("--show"@) {
        assert(started[2] == "--show"@);
    }
}

/// What is printed where the arguments ask for help or make no sense.
pub const USAGE: &'static str = "Usage:
  secretd                    Run the tray application
  secretd --show             Open the desktop window
  secretd desktop --foreground
                             Run attached for diagnostics
  secretd get <secret-name>  Request a secret
  secretd aws credentials <profile>
                             Request AWS credentials
  secretd aws login          Sign in to AWS again";

} // verus!
