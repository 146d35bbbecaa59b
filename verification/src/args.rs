//! What the command line hands to a render, as far as it is a matter of text.

use vstd::prelude::*;
use vstd::string::*;
use crate::backend::Backend;
use crate::text::same;

verus! {

/// Whether experimental features are switched on.
#[derive(Debug, Clone, Copy, PartialEq, Eq, Structural)]
pub enum Privilege {
    Normal,
    Experimental,
}

impl Privilege {
    /// The privilege that the flag for experimental features stands for.
    pub fn from_flag(experimental: bool) -> (privilege: Privilege)
        ensures
            privilege == if experimental {
                Privilege::Experimental
            } else {
                Privilege::Normal
            },
    {
        if experimental {
            Privilege::Experimental
        } else {
            Privilege::Normal
        }
    }
}

/// The format in which the manual is written out.
#[derive(Debug, Clone, Copy, PartialEq, Eq, Structural)]
pub enum ManualFormat {
    Manpages,
    Markdown,
}

impl ManualFormat {
    /// The format with the name: `manpages` or `markdown`.
    pub fn from_name(name: &str) -> (format: Option<ManualFormat>)
        ensures
            format == if name@ == "manpages"@ {
                Some(ManualFormat::Manpages)
            } else if name@ == "markdown"@ {
                Some(ManualFormat::Markdown)
            } else {
                None
            },
    {
        if same(name, "manpages") {
            Some(ManualFormat::Manpages)
        } else if same(name, "markdown") {
            Some(ManualFormat::Markdown)
        } else {
            None
        }
    }
}

impl Backend {
    /// The backend with the name: `headless` or `cli`.
    pub fn from_name(name: &str) -> (backend: Option<Backend>)
        ensures
            backend == if name@ == "headless"@ {
                Some(Backend::Headless)
            } else if name@ == "cli"@ {
                Some(Backend::CLI)
            } else {
                None
            },
    {
        if same(name, "headless") {
            Some(Backend::Headless)
        } else if same(name, "cli") {
            Some(Backend::CLI)
        } else {
            None
        }
    }
}

/// A value given on the command line as `name=value`: the name is what
/// stands before the first `=`, the value all that follows it. `None` where
/// the argument has no `=`.
pub fn parse_override(argument: &str) -> (pair: Option<(String, String)>)
    ensures
        match pair {
            Some((name, value)) => argument@ == name@ + seq!['='] + value@ && !name@.contains('='),
            None => !argument@.contains('='),
        },
{
    let n = argument.unicode_len();
    let mut i: usize = 0;
    while i < n
        invariant
            n == argument@.len(),
            i <= n,
            forall|j: int| 0 <= j < i ==> argument@[j] != '=',
        decreases n - i,
    {
        if argument.get_char(i) == '=' {
            let name = argument.substring_char(0, i).to_owned();
            let value = argument.substring_char(i + 1, n).to_owned();
            assert(argument@ =~= name@ + seq!['='] + value@);
            return Some((name, value));
        }
        i += 1;
    }
    None
}

} // verus!
