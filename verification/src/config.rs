//! The configuration: templates, their variables and helpers.
//!
//! Where the configuration file has a map, the library has a vector of pairs
//! of a name and a value, in the order of the file. A name is looked up from
//! the front, so the first pair with a name is the one that counts.

use vstd::prelude::*;
use vstd::string::*;
use crate::text::same;

verus! {

/// A whole configuration.
#[derive(Debug, Clone)]
pub struct Config {
    /// The version of the program that the configuration was written for, as
    /// `<major>.<minor>`.
    pub version: String,
    /// The templates by name.
    pub templates: Vec<(String, Template)>,
}

/// One template: its body, the variables that the body uses, and the helpers
/// that it may call.
#[derive(Debug, Clone)]
pub struct Template {
    pub content: Content,
    /// The variables by dotted name.
    pub variables: Vec<(String, VariableDefinition)>,
    /// The helpers by name.
    pub helpers: Vec<(String, Helper)>,
}

/// A template function that runs a shell command. The command finds the
/// first argument of the call in the environment variable `VALUE`, and what it
/// writes to its standard output stands in place of the call.
#[derive(Debug, Clone)]
pub struct Helper {
    pub shell: String,
}

/// Where the body of a template is.
#[derive(Debug, Clone)]
pub enum Content {
    /// In the file at this path.
    File(String),
    /// Here.
    Inline(String),
}

/// What an option of a menu stands for.
#[derive(Debug, Clone)]
pub enum OptionValue {
    /// This text.
    Static(String),
    /// The standard output of this shell command.
    Shell(String),
}

/// One option of a menu: what the user sees, and what choosing it gives.
#[derive(Debug, Clone)]
pub struct Option {
    pub display: String,
    pub value: OptionValue,
}

/// How the value of a variable is obtained.
#[derive(Debug, Clone)]
pub enum VariableDefinition {
    /// The caller must give the value.
    Arg,
    /// The value of this environment variable.
    Env(String),
    /// This text.
    Static(String),
    /// What the user types, asked with this text.
    Prompt(String),
    /// The standard output of this shell command.
    Shell(String),
    /// The value of the one option that the user picks.
    Select { text: String, options: Vec<(String, Option)> },
    /// The values of the options that the user checks, in the order in which
    /// the backend reports them, with the separator between neighbours.
    Check { text: String, separator: String, options: Vec<(String, Option)> },
}

/// The names of a vector of named values, in order.
pub open spec fn names<T>(entries: Seq<(String, T)>) -> Seq<Seq<char>> {
    Seq::new(entries.len(), |i: int| entries[i].0@)
}

/// The place of the first entry with the name, `None` where no entry has it.
pub open spec fn first_named<T>(entries: Seq<(String, T)>, name: Seq<char>) -> std::option::Option<
    int,
>
    decreases entries.len(),
{
    if entries.len() == 0 {
        None
    } else {
        match first_named(entries.drop_last(), name) {
            Some(i) => Some(i),
            None => if entries.last().0@ == name {
                Some(entries.len() - 1)
            } else {
                None
            },
        }
    }
}

/// [`first_named`] is the place of an entry with the name before which no
/// entry has the name, and `None` only where no entry has the name.
pub proof fn lemma_first_named<T>(entries: Seq<(String, T)>, name: Seq<char>)
    ensures
        match first_named(entries, name) {
            Some(i) => 0 <= i < entries.len() && entries[i].0@ == name && forall|j: int|
                0 <= j < i ==> entries[j].0@ != name,
            None => forall|j: int| 0 <= j < entries.len() ==> entries[j].0@ != name,
        },
    decreases entries.len(),
{
    if entries.len() > 0 {
        let front = entries.drop_last();
        lemma_first_named(front, name);
        assert(forall|j: int| 0 <= j < front.len() ==> front[j] == entries[j]);
        match first_named(front, name) {
            Some(i) => {
                assert(front[i] == entries[i]);
            },
            None => {
                assert forall|j: int| 0 <= j < entries.len() - 1 implies entries[j].0@ != name by {
                    assert(front[j].0@ != name);
                }
            },
        }
    }
}

/// The place of the first entry with the name.
pub fn position<T>(entries: &Vec<(String, T)>, name: &str) -> (r: std::option::Option<usize>)
    ensures
        match r {
            Some(i) => first_named(entries@, name@) == Some(i as int),
            None => first_named(entries@, name@) is None,
        },
        match r {
            Some(i) => i < entries.len() && entries[i as int].0@ == name@ && forall|j: int|
                0 <= j < i ==> entries[j].0@ != name@,
            None => forall|j: int| 0 <= j < entries.len() ==> entries[j].0@ != name@,
        },
{
    let mut i: usize = 0;
    while i < entries.len()
        invariant
            i <= entries.len(),
            forall|j: int| 0 <= j < i ==> entries[j].0@ != name@,
        decreases entries.len() - i,
    {
        if same(entries[i].0.as_str(), name) {
            proof {
                lemma_first_named(entries@, name@);
            }
            return Some(i);
        }
        i += 1;
    }
    proof {
        lemma_first_named(entries@, name@);
    }
    None
}

impl Config {
    /// A configuration of the version, without templates.
    pub fn new(version: String) -> (config: Config)
        ensures
            config.version == version,
            config.templates@.len() == 0,
    {
        Config { version, templates: Vec::new() }
    }

    /// The first template with the name.
    pub fn template(&self, name: &str) -> (found: std::option::Option<&Template>)
        ensures
            match found {
                Some(t) => first_named(self.templates@, name@) is Some && 0 <= first_named(
                    self.templates@,
                    name@,
                )->0 < self.templates@.len() && *t == self.templates@[first_named(
                    self.templates@,
                    name@,
                )->0].1,
                None => first_named(self.templates@, name@) is None,
            },
    {
        match position(&self.templates, name) {
            Some(i) => Some(&self.templates[i].1),
            None => None,
        }
    }
}

impl Template {
    /// A template with the body, without variables and helpers.
    pub fn new(content: Content) -> (template: Template)
        ensures
            template.content == content,
            template.variables@.len() == 0,
            template.helpers@.len() == 0,
    {
        Template { content, variables: Vec::new(), helpers: Vec::new() }
    }
}

} // verus!
