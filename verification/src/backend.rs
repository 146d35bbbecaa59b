//! The backends that ask the user: one that never asks, for scripts, and the
//! caller's terminal.

use vstd::prelude::*;
use vstd::string::*;
use crate::error::Error;
use crate::error::ErrorView;
use crate::error::outcome;
use crate::session::Exchange;
use crate::session::Session;
use crate::shell::System;
use crate::text::texts_model;

verus! {

/// Which backend a render uses.
#[derive(Debug, Clone, Copy, PartialEq, Eq, Structural)]
pub enum Backend {
    /// No interaction: every question fails.
    Headless,
    /// The terminal that the caller hands in.
    CLI,
}

/// What a backend can ask of the user. It is `Send` because the template
/// engine asks that of what its helpers hold.
pub trait UserInput: Send {
    /// A line of text, asked with `text`.
    fn prompt(&mut self, text: &str) -> Result<String, Error>;

    /// The index of the one option that the user picks.
    fn select(&mut self, prompt: &str, displays: &Vec<String>) -> Result<usize, Error>;

    /// The indices of the options that the user checks, in the order in which
    /// they are to be joined.
    fn check(&mut self, prompt: &str, displays: &Vec<String>) -> Result<Vec<usize>, Error>;
}

/// The backend for runs without a user: it fails every question at once.
#[derive(Debug, Clone, Copy, PartialEq, Eq, Structural)]
pub struct HeadlessBackend {}

impl HeadlessBackend {
    pub fn new() -> (backend: HeadlessBackend)
        ensures
            backend == (HeadlessBackend {  }),
    {
        HeadlessBackend {  }
    }
}

impl UserInput for HeadlessBackend {
    fn prompt(&mut self, text: &str) -> (r: Result<String, Error>)
        ensures
            outcome(r) == Err::<Seq<char>, ErrorView>(ErrorView::Headless),
    {
        Err(Error::Headless)
    }

    fn select(&mut self, prompt: &str, displays: &Vec<String>) -> (r: Result<usize, Error>)
        ensures
            r is Err,
            r.unwrap_err()@ == ErrorView::Headless,
    {
        Err(Error::Headless)
    }

    fn check(&mut self, prompt: &str, displays: &Vec<String>) -> (r: Result<Vec<usize>, Error>)
        ensures
            r is Err,
            r.unwrap_err()@ == ErrorView::Headless,
    {
        Err(Error::Headless)
    }
}

/// Asks for a line of text through the backend: the headless backend fails
/// and asks nothing, the other asks the terminal of the session.
pub fn ask_prompt<U: UserInput, S: System>(
    backend: Backend,
    session: &mut Session<U, S>,
    text: &str,
) -> (r: Result<String, Error>)
    ensures
        backend == Backend::Headless ==> outcome(r) == Err::<Seq<char>, ErrorView>(
            ErrorView::Headless,
        ) && *final(session) == *old(session),
        backend != Backend::Headless ==> final(session).trace() == old(session).trace().push(
            Exchange::Prompt { text: text@, answer: r },
        ),
{
    match backend {
        Backend::Headless => HeadlessBackend::new().prompt(text),
        Backend::CLI => session.prompt(text),
    }
}

/// Asks for one of the options through the backend.
pub fn ask_select<U: UserInput, S: System>(
    backend: Backend,
    session: &mut Session<U, S>,
    prompt: &str,
    displays: &Vec<String>,
) -> (r: Result<usize, Error>)
    ensures
        backend == Backend::Headless ==> r is Err && r.unwrap_err()@ == ErrorView::Headless
            && *final(session) == *old(session),
        backend != Backend::Headless ==> final(session).trace() == old(session).trace().push(
            Exchange::Select { prompt: prompt@, displays: texts_model(displays@), answer: r },
        ),
{
    match backend {
        Backend::Headless => HeadlessBackend::new().select(prompt, displays),
        Backend::CLI => session.select(prompt, displays),
    }
}

/// Asks for any of the options through the backend.
pub fn ask_check<U: UserInput, S: System>(
    backend: Backend,
    session: &mut Session<U, S>,
    prompt: &str,
    displays: &Vec<String>,
) -> (r: Result<Vec<usize>, Error>)
    ensures
        backend == Backend::Headless ==> r is Err && r.unwrap_err()@ == ErrorView::Headless
            && *final(session) == *old(session),
        backend != Backend::Headless ==> final(session).trace() == old(session).trace().push(
            Exchange::Check { prompt: prompt@, displays: texts_model(displays@), answer: r },
        ),
{
    match backend {
        Backend::Headless => HeadlessBackend::new().check(prompt, displays),
        Backend::CLI => session.check(prompt, displays),
    }
}

} // verus!
