//! A session: the terminal and the system of one render, with a record of
//! every exchange with them.
//!
//! The library reaches the outside through a session only. Each operation of
//! the session performs one operation of the terminal or of the system and
//! appends to the trace what was asked and what came back. So the trace of a
//! session says what the library did to the outside, and a function that
//! leaves the trace as it was did nothing.

use vstd::prelude::*;
use vstd::string::*;
use crate::backend::UserInput;
use crate::error::Error;
use crate::shell::CommandOutput;
use crate::shell::System;
use crate::text::flat_model;
use crate::text::texts_model;

verus! {

/// One exchange with the outside: what was handed over, and what came back.
pub enum Exchange {
    /// An environment variable was read.
    Variable { name: Seq<char>, value: Option<String> },
    /// A command was run through the shell, with `env` added to its
    /// environment.
    Run { command: Seq<char>, env: Seq<(Seq<char>, Seq<char>)>, ran: Result<CommandOutput, Error> },
    /// A file was read.
    Read { path: Seq<char>, file: Result<String, Error> },
    /// The user was asked for a line of text.
    Prompt { text: Seq<char>, answer: Result<String, Error> },
    /// The user was asked to pick one of the options shown.
    Select { prompt: Seq<char>, displays: Seq<Seq<char>>, answer: Result<usize, Error> },
    /// The user was asked to check any of the options shown.
    Check { prompt: Seq<char>, displays: Seq<Seq<char>>, answer: Result<Vec<usize>, Error> },
}

/// The terminal and the system of one render, and the trace of the exchanges
/// with them.
pub struct Session<U, S> {
    terminal: U,
    system: S,
    log: Ghost<Seq<Exchange>>,
}

impl<U: UserInput, S: System> Session<U, S> {
    /// The exchanges so far, in the order in which they took place.
    pub closed spec fn trace(&self) -> Seq<Exchange> {
        self.log@
    }

    /// A session that has exchanged nothing yet.
    pub fn new(terminal: U, system: S) -> (session: Self)
        ensures
            session.trace() == Seq::<Exchange>::empty(),
            session.parts() == (terminal, system),
    {
        Session { terminal, system, log: Ghost(Seq::empty()) }
    }

    /// The terminal and the system that the session holds.
    pub closed spec fn parts(&self) -> (U, S) {
        (self.terminal, self.system)
    }

    /// The terminal of the session.
    pub fn terminal(&self) -> (terminal: &U)
        ensures
            *terminal == self.parts().0,
    {
        &self.terminal
    }

    /// The system of the session.
    pub fn system(&self) -> (system: &S)
        ensures
            *system == self.parts().1,
    {
        &self.system
    }

    /// Ends the session and hands its terminal and its system back.
    pub fn into_parts(self) -> (parts: (U, S))
        ensures
            parts == self.parts(),
    {
        (self.terminal, self.system)
    }

    /// Reads an environment variable; `None` where it is not set.
    pub fn variable(&mut self, name: &str) -> (value: Option<String>)
        ensures
            final(self).trace() == old(self).trace().push(
                Exchange::Variable { name: name@, value },
            ),
    {
        let value = self.system.variable(name);
        self.log = Ghost(self.log@.push(Exchange::Variable { name: name@, value }));
        value
    }

    /// Runs a command through the shell, with `env` added to its environment.
    pub fn run(&mut self, command: &str, env: &Vec<(String, String)>) -> (ran: Result<
        CommandOutput,
        Error,
    >)
        ensures
            final(self).trace() == old(self).trace().push(
                Exchange::Run { command: command@, env: flat_model(env@), ran },
            ),
    {
        let ran = self.system.run(command, env);
        self.log = Ghost(
            self.log@.push(Exchange::Run { command: command@, env: flat_model(env@), ran }),
        );
        ran
    }

    /// Reads the file at the path.
    pub fn read(&mut self, path: &str) -> (file: Result<String, Error>)
        ensures
            final(self).trace() == old(self).trace().push(Exchange::Read { path: path@, file }),
    {
        let file = self.system.read(path);
        self.log = Ghost(self.log@.push(Exchange::Read { path: path@, file }));
        file
    }

    /// Asks the user for a line of text.
    pub fn prompt(&mut self, text: &str) -> (answer: Result<String, Error>)
        ensures
            final(self).trace() == old(self).trace().push(Exchange::Prompt { text: text@, answer }),
    {
        let answer = self.terminal.prompt(text);
        self.log = Ghost(self.log@.push(Exchange::Prompt { text: text@, answer }));
        answer
    }

    /// Asks the user to pick one of the options shown.
    pub fn select(&mut self, prompt: &str, displays: &Vec<String>) -> (answer: Result<usize, Error>)
        ensures
            final(self).trace() == old(self).trace().push(
                Exchange::Select { prompt: prompt@, displays: texts_model(displays@), answer },
            ),
    {
        let answer = self.terminal.select(prompt, displays);
        self.log = Ghost(
            self.log@.push(
                Exchange::Select { prompt: prompt@, displays: texts_model(displays@), answer },
            ),
        );
        answer
    }

    /// Asks the user to check any of the options shown.
    pub fn check(&mut self, prompt: &str, displays: &Vec<String>) -> (answer: Result<
        Vec<usize>,
        Error,
    >)
        ensures
            final(self).trace() == old(self).trace().push(
                Exchange::Check { prompt: prompt@, displays: texts_model(displays@), answer },
            ),
    {
        let answer = self.terminal.check(prompt, displays);
        self.log = Ghost(
            self.log@.push(
                Exchange::Check { prompt: prompt@, displays: texts_model(displays@), answer },
            ),
        );
        answer
    }
}

} // verus!
