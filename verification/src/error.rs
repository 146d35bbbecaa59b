//! The failures of a render, and the text shown for each.

use vstd::prelude::*;
use vstd::string::*;

verus! {

/// Why a render was abandoned. Every failure ends the whole render.
#[derive(Debug, Clone)]
pub enum Error {
    /// A shell command or helper was to run without ultimate trust.
    NoTrust,
    /// The command exited with a status other than zero.
    ShellCommand(String),
    /// The user cancelled an interactive operation.
    InteractAbort,
    /// No template of the configuration has the name.
    TemplateNotFound(String),
    /// The configuration is malformed, or its version does not fit the program.
    ConfigInvalid(String),
    /// The dotted name uses a path both as a value and as a group of values.
    ConflictingNamespace(String),
    /// The template refers to a value that nothing defines (strict mode).
    UndefinedVariable(String),
    /// An argument variable was resolved without a value given for it.
    MissingArgument,
    /// The environment variable is not set.
    MissingEnvironment(String),
    /// An interactive operation was asked of the headless backend.
    Headless,
    /// The backend answered with the index of no option.
    InvalidSelection,
    /// The template could not be rendered.
    Render(String),
    /// The host could not read a file or start a command.
    Host(String),
}

/// The mathematical value of an [`Error`]: its strings as sequences of characters.
pub enum ErrorView {
    NoTrust,
    ShellCommand(Seq<char>),
    InteractAbort,
    TemplateNotFound(Seq<char>),
    ConfigInvalid(Seq<char>),
    ConflictingNamespace(Seq<char>),
    UndefinedVariable(Seq<char>),
    MissingArgument,
    MissingEnvironment(Seq<char>),
    Headless,
    InvalidSelection,
    Render(Seq<char>),
    Host(Seq<char>),
}

impl View for Error {
    type V = ErrorView;

    open spec fn view(&self) -> ErrorView {
        match self {
            Error::NoTrust => ErrorView::NoTrust,
            Error::ShellCommand(c) => ErrorView::ShellCommand(c@),
            Error::InteractAbort => ErrorView::InteractAbort,
            Error::TemplateNotFound(n) => ErrorView::TemplateNotFound(n@),
            Error::ConfigInvalid(m) => ErrorView::ConfigInvalid(m@),
            Error::ConflictingNamespace(p) => ErrorView::ConflictingNamespace(p@),
            Error::UndefinedVariable(m) => ErrorView::UndefinedVariable(m@),
            Error::MissingArgument => ErrorView::MissingArgument,
            Error::MissingEnvironment(n) => ErrorView::MissingEnvironment(n@),
            Error::Headless => ErrorView::Headless,
            Error::InvalidSelection => ErrorView::InvalidSelection,
            Error::Render(m) => ErrorView::Render(m@),
            Error::Host(m) => ErrorView::Host(m@),
        }
    }
}

/// The value of a result that carries text: the text as a sequence of
/// characters, or the value of the error.
pub open spec fn outcome(r: Result<String, Error>) -> Result<Seq<char>, ErrorView> {
    match r {
        Ok(s) => Ok(s@),
        Err(e) => Err(e@),
    }
}

/// The text shown for an error: a fixed head, followed by the detail where
/// the error carries one.
pub open spec fn message_of(e: ErrorView) -> Seq<char> {
    match e {
        ErrorView::NoTrust => "no trust: need trust for executing shell commands"@,
        ErrorView::ShellCommand(c) => "shell command: "@ + c,
        ErrorView::InteractAbort => "user interact abort"@,
        ErrorView::TemplateNotFound(n) => "template not found: "@ + n,
        ErrorView::ConfigInvalid(m) => "invalid: "@ + m,
        ErrorView::ConflictingNamespace(p) => "conflicting namespace: "@ + p,
        ErrorView::UndefinedVariable(m) => "undefined variable: "@ + m,
        ErrorView::MissingArgument => "variable missing"@,
        ErrorView::MissingEnvironment(n) => "environment variable not set: "@ + n,
        ErrorView::Headless => "can not prompt in headless backend"@,
        ErrorView::InvalidSelection => "invalid selection"@,
        ErrorView::Render(m) => "render: "@ + m,
        ErrorView::Host(m) => "host: "@ + m,
    }
}

/// `head` followed by `detail`.
fn headed(head: &str, detail: &String) -> (r: String)
    ensures
        r@ == head@ + detail@,
{
    let mut text = String::from_str(head);
    text.append(detail.as_str());
    text
}

impl Error {
    /// The text shown to the user for this error.
    pub fn message(&self) -> (r: String)
        ensures
            r@ == message_of(self@),
    {
        match self {
            Error::NoTrust => String::from_str("no trust: need trust for executing shell commands"),
            Error::ShellCommand(c) => headed("shell command: ", c),
            Error::InteractAbort => String::from_str("user interact abort"),
            Error::TemplateNotFound(n) => headed("template not found: ", n),
            Error::ConfigInvalid(m) => headed("invalid: ", m),
            Error::ConflictingNamespace(p) => headed("conflicting namespace: ", p),
            Error::UndefinedVariable(m) => headed("undefined variable: ", m),
            Error::MissingArgument => String::from_str("variable missing"),
            Error::MissingEnvironment(n) => headed("environment variable not set: ", n),
            Error::Headless => String::from_str("can not prompt in headless backend"),
            Error::InvalidSelection => String::from_str("invalid selection"),
            Error::Render(m) => headed("render: ", m),
            Error::Host(m) => headed("host: ", m),
        }
    }
}

} // verus!
