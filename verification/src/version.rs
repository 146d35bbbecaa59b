//! The version that a configuration declares, held against the program's.

use vstd::prelude::*;
use vstd::string::*;
use crate::error::Error;
use crate::error::ErrorView;
use crate::namespace::split_dots;
use crate::namespace::split_path;
use crate::text::same;

verus! {

/// The pattern of a well-formed version: digits, a dot, digits.
pub const VERSION_PATTERN: &'static str = "^([0-9]+)\\.([0-9]+)$";

/// The version of a program that is under development: it fits every
/// configuration.
pub const DEVELOPMENT_VERSION: &'static str = "0.0.0";

/// Whether the regular expression `pattern` matches somewhere in `text`, as
/// `fancy_regex` decides it; `None` where the pattern does not compile or the
/// match is given up.
pub uninterp spec fn pattern_match(pattern: Seq<char>, text: Seq<char>) -> Option<bool>;

/// `fancy_regex::Regex::new` and `fancy_regex::Regex::is_match`: compiles the
/// pattern and matches it against the text.
#[verifier::external_body]
fn matches_pattern(pattern: &str, text: &str) -> (r: Option<bool>)
    ensures
        r == pattern_match(pattern@, text@),
{
    fancy_regex::Regex::new(pattern).ok()?.is_match(text).ok()
}

/// The first two dot-separated parts of a program's version, with a dot
/// between them; the version itself where it has no dot.
pub open spec fn major_minor(program: Seq<char>) -> Seq<char> {
    let parts = split_dots(program);
    if parts.len() >= 2 {
        parts[0] + seq!['.'] + parts[1]
    } else {
        program
    }
}

/// The value of a verdict.
pub open spec fn verdict(r: Result<(), Error>) -> Result<(), ErrorView> {
    match r {
        Ok(_) => Ok(()),
        Err(e) => Err(e@),
    }
}

/// Whether a declared version is accepted. It must be well-formed. The
/// development version accepts every well-formed version; any other program
/// accepts only its own major and minor.
pub open spec fn version_verdict(
    well_formed: Option<bool>,
    declared: Seq<char>,
    program: Seq<char>,
) -> Result<(), ErrorView> {
    if well_formed != Some(true) {
        Err(ErrorView::ConfigInvalid("invalid version: "@ + declared))
    } else if program == DEVELOPMENT_VERSION@ || declared == major_minor(program) {
        Ok(())
    } else {
        Err(ErrorView::ConfigInvalid("config file version mismatch to binary"@))
    }
}

/// The major and minor of a program's version.
pub fn program_major_minor(program: &str) -> (r: String)
    ensures
        r@ == major_minor(program@),
{
    let parts = split_path(program);
    if parts.len() >= 2 {
        proof {
            reveal_strlit(".");
            assert("."@ =~= seq!['.']);
        }
        let mut r = parts[0].clone();
        r.append(".");
        r.append(parts[1].as_str());
        r
    } else {
        program.to_owned()
    }
}

/// Judges a declared version, given whether it is well-formed.
pub fn judge_version(well_formed: Option<bool>, declared: &str, program: &str) -> (r: Result<
    (),
    Error,
>)
    ensures
        verdict(r) == version_verdict(well_formed, declared@, program@),
{
    let fine = match well_formed {
        Some(b) => b,
        None => false,
    };
    if !fine {
        let mut message = String::from_str("invalid version: ");
        message.append(declared);
        return Err(Error::ConfigInvalid(message));
    }
    if same(program, DEVELOPMENT_VERSION) {
        return Ok(());
    }
    let expected = program_major_minor(program);
    if same(declared, expected.as_str()) {
        Ok(())
    } else {
        Err(Error::ConfigInvalid(String::from_str("config file version mismatch to binary")))
    }
}

/// Checks the version that a configuration declares against the version of
/// the running program.
pub fn check_version(declared: &str, program: &str) -> (r: Result<(), Error>)
    ensures
        verdict(r) == version_verdict(
            pattern_match(VERSION_PATTERN@, declared@),
            declared@,
            program@,
        ),
{
    judge_version(matches_pattern(VERSION_PATTERN, declared), declared, program)
}

} // verus!
