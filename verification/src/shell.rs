//! Shell commands and the trust that gates them.
//!
//! The library starts no process itself. It decides whether a command may
//! run, hands it to the [`System`] of the session, and judges what came back.

use vstd::prelude::*;
use vstd::string::*;
use crate::error::Error;
use crate::error::ErrorView;
use crate::error::outcome;
use crate::backend::UserInput;
use crate::session::Exchange;
use crate::session::Session;
use crate::text::flat_model;

verus! {

/// How far the caller trusts the configuration, from the least trust to the
/// most. Only `Ultimate` lets shell commands run.
#[derive(Debug, Clone, Copy, PartialEq, Eq, PartialOrd, Ord, Structural)]
pub enum ShellTrust {
    /// No shell command may run.
    Untrusted,
    /// Every shell command may run.
    Ultimate,
}

/// What a finished command left behind.
#[derive(Debug, Clone)]
pub struct CommandOutput {
    /// The exit status; `None` where the command ended without one.
    pub code: Option<i32>,
    /// All that the command wrote to its standard output.
    pub stdout: String,
}

/// The machine around the library: its environment variables, its shell and
/// its files. It is `Send` because the template engine asks that of what its
/// helpers hold.
pub trait System: Send {
    /// The value of the environment variable, `None` where it is not set.
    fn variable(&mut self, name: &str) -> Option<String>;

    /// Runs `command` through the shell with the variables of `env` added to
    /// its environment, waits for it and captures its standard output.
    fn run(&mut self, command: &str, env: &Vec<(String, String)>) -> Result<CommandOutput, Error>;

    /// The text of the file at `path`.
    fn read(&mut self, path: &str) -> Result<String, Error>;
}

/// What a command's run amounts to: its standard output where it exited with
/// status zero, `ShellCommand` with the command otherwise, and the system's
/// own error where the command could not be run at all.
pub open spec fn shell_outcome(command: Seq<char>, ran: Result<CommandOutput, Error>) -> Result<
    Seq<char>,
    ErrorView,
> {
    match ran {
        Err(e) => Err(e@),
        Ok(output) => if output.code == Some(0i32) {
            Ok(output.stdout@)
        } else {
            Err(ErrorView::ShellCommand(command))
        },
    }
}

/// Judges the run of `command`: its standard output as it is where the exit
/// status is zero, `ShellCommand` with the command otherwise.
pub fn shell_result(command: &str, ran: Result<CommandOutput, Error>) -> (r: Result<String, Error>)
    ensures
        outcome(r) == shell_outcome(command@, ran),
{
    match ran {
        Err(e) => Err(e),
        Ok(output) => {
            match output.code {
                Some(code) => {
                    if code == 0 {
                        return Ok(output.stdout);
                    }
                },
                None => {},
            }
            Err(Error::ShellCommand(command.to_owned()))
        },
    }
}

/// What running a command under a trust level amounts to: `NoTrust` without
/// ultimate trust, else what the run amounts to.
pub open spec fn shell_model(
    command: Seq<char>,
    trust: ShellTrust,
    ran: Result<CommandOutput, Error>,
) -> Result<Seq<char>, ErrorView> {
    if trust != ShellTrust::Ultimate {
        Err(ErrorView::NoTrust)
    } else {
        shell_outcome(command, ran)
    }
}

/// The exchanges of running a command under a trust level: none without
/// ultimate trust, else the one run of the command with the environment.
pub open spec fn shell_exchanges(
    command: Seq<char>,
    env: Seq<(Seq<char>, Seq<char>)>,
    trust: ShellTrust,
    ran: Result<CommandOutput, Error>,
) -> Seq<Exchange> {
    if trust != ShellTrust::Ultimate {
        Seq::empty()
    } else {
        seq![Exchange::Run { command, env, ran }]
    }
}

/// Runs `command` through the shell of the session and returns its standard
/// output.
///
/// Without ultimate trust this fails with `NoTrust` and nothing is run. With
/// it, the command is run once, with `env` added to its environment, and the
/// result is what [`shell_result`] makes of the run.
pub fn shell<U: UserInput, S: System>(
    command: &str,
    env: &Vec<(String, String)>,
    trust: ShellTrust,
    session: &mut Session<U, S>,
) -> (r: Result<String, Error>)
    ensures
        exists|ran: Result<CommandOutput, Error>|
            outcome(r) == #[trigger] shell_model(command@, trust, ran) && final(session).trace()
                == old(session).trace() + shell_exchanges(
                command@,
                flat_model(env@),
                trust,
                ran,
            ),
        trust != ShellTrust::Ultimate ==> *final(session) == *old(session),
{
    match trust {
        ShellTrust::Untrusted => {
            let r = Err(Error::NoTrust);
            proof {
                let ran = Err::<CommandOutput, Error>(Error::NoTrust);
                assert(outcome(r) == shell_model(command@, trust, ran));
                assert(session.trace() =~= old(session).trace() + shell_exchanges(
                    command@,
                    flat_model(env@),
                    trust,
                    ran,
                ));
            }
            r
        },
        ShellTrust::Ultimate => {
            let ran = session.run(command, env);
            let r = shell_result(command, ran);
            proof {
                assert(outcome(r) == shell_model(command@, trust, ran));
                assert(session.trace() =~= old(session).trace() + shell_exchanges(
                    command@,
                    flat_model(env@),
                    trust,
                    ran,
                ));
            }
            r
        },
    }
}

} // verus!
