//! Resolving a variable: from its definition to its value.
//!
//! A definition is resolved under a trust level and through a backend. What
//! the outside answers (the environment, the user, the shell) is not known
//! beforehand, so the functions here state their results, and what they
//! exchange with the outside, for every answer that may come back.

use vstd::prelude::*;
use vstd::string::*;
use crate::backend::Backend;
use crate::backend::UserInput;
use crate::backend::ask_check;
use crate::backend::ask_prompt;
use crate::backend::ask_select;
use crate::config::OptionValue;
use crate::config::VariableDefinition;
use crate::error::Error;
use crate::error::ErrorView;
use crate::error::outcome;
use crate::session::Exchange;
use crate::session::Session;
use crate::shell::CommandOutput;
use crate::shell::ShellTrust;
use crate::shell::System;
use crate::shell::shell;
use crate::shell::shell_exchanges;
use crate::shell::shell_model;
use crate::shell::shell_outcome;
use crate::text::flat_model;
use crate::text::join;
use crate::text::texts_model;

verus! {

/// What reading an environment variable amounts to: its value as it is, or
/// `MissingEnvironment` with the name where it is not set.
pub open spec fn env_outcome(name: Seq<char>, value: Option<String>) -> Result<
    Seq<char>,
    ErrorView,
> {
    match value {
        Some(v) => Ok(v@),
        None => Err(ErrorView::MissingEnvironment(name)),
    }
}

/// Judges what the environment holds under `name`.
pub fn env_result(name: &str, value: Option<String>) -> (r: Result<String, Error>)
    ensures
        outcome(r) == env_outcome(name@, value),
{
    match value {
        Some(v) => Ok(v),
        None => Err(Error::MissingEnvironment(name.to_owned())),
    }
}

/// What an option's value resolves to, given the run of its command: a
/// static value is its text; a shell value needs ultimate trust, and is then
/// what the run amounts to.
pub open spec fn value_outcome(
    value: OptionValue,
    trust: ShellTrust,
    ran: Result<CommandOutput, Error>,
) -> Result<Seq<char>, ErrorView> {
    match value {
        OptionValue::Static(text) => Ok(text@),
        OptionValue::Shell(command) => shell_model(command@, trust, ran),
    }
}

/// The exchanges of resolving an option's value: none for a static value,
/// those of running the command, with nothing added to its environment, for
/// a shell value.
pub open spec fn value_exchanges(
    value: OptionValue,
    trust: ShellTrust,
    ran: Result<CommandOutput, Error>,
) -> Seq<Exchange> {
    match value {
        OptionValue::Static(_) => Seq::empty(),
        OptionValue::Shell(command) => shell_exchanges(command@, Seq::empty(), trust, ran),
    }
}

/// What picking the option at `index` resolves to: `InvalidSelection` where
/// there is no such option, else what the option's value resolves to.
pub open spec fn pick_outcome(
    options: Seq<(String, crate::config::Option)>,
    index: usize,
    trust: ShellTrust,
    ran: Result<CommandOutput, Error>,
) -> Result<Seq<char>, ErrorView> {
    if index >= options.len() {
        Err(ErrorView::InvalidSelection)
    } else {
        value_outcome(options[index as int].1.value, trust, ran)
    }
}

/// The exchanges of resolving the option at `index`.
pub open spec fn pick_exchanges(
    options: Seq<(String, crate::config::Option)>,
    index: usize,
    trust: ShellTrust,
    ran: Result<CommandOutput, Error>,
) -> Seq<Exchange> {
    if index >= options.len() {
        Seq::empty()
    } else {
        value_exchanges(options[index as int].1.value, trust, ran)
    }
}

/// What a single selection resolves to: the backend's error, or what the
/// picked option resolves to.
pub open spec fn select_outcome(
    options: Seq<(String, crate::config::Option)>,
    picked: Result<usize, Error>,
    trust: ShellTrust,
    ran: Result<CommandOutput, Error>,
) -> Result<Seq<char>, ErrorView> {
    match picked {
        Err(e) => Err(e@),
        Ok(index) => pick_outcome(options, index, trust, ran),
    }
}

/// The exchanges of resolving a single selection, after the backend
/// answered.
pub open spec fn select_exchanges(
    options: Seq<(String, crate::config::Option)>,
    picked: Result<usize, Error>,
    trust: ShellTrust,
    ran: Result<CommandOutput, Error>,
) -> Seq<Exchange> {
    match picked {
        Err(_) => Seq::empty(),
        Ok(index) => pick_exchanges(options, index, trust, ran),
    }
}

/// The values of the picked options, in the order of the picks, where
/// `runs[k]` is the run for the pick `k`; or the error of the first pick that
/// fails.
pub open spec fn values_outcome(
    options: Seq<(String, crate::config::Option)>,
    indices: Seq<usize>,
    trust: ShellTrust,
    runs: Seq<Result<CommandOutput, Error>>,
) -> Result<Seq<Seq<char>>, ErrorView>
    decreases indices.len(),
{
    if indices.len() == 0 {
        Ok(Seq::empty())
    } else {
        match values_outcome(options, indices.drop_last(), trust, runs) {
            Err(e) => Err(e),
            Ok(values) => match pick_outcome(
                options,
                indices.last(),
                trust,
                runs[indices.len() - 1],
            ) {
                Err(e) => Err(e),
                Ok(value) => Ok(values.push(value)),
            },
        }
    }
}

/// The exchanges of resolving the picked options one after the other, up to
/// and with the first pick that fails.
pub open spec fn values_exchanges(
    options: Seq<(String, crate::config::Option)>,
    indices: Seq<usize>,
    trust: ShellTrust,
    runs: Seq<Result<CommandOutput, Error>>,
) -> Seq<Exchange>
    decreases indices.len(),
{
    if indices.len() == 0 {
        Seq::empty()
    } else {
        let before = values_exchanges(options, indices.drop_last(), trust, runs);
        if values_outcome(options, indices.drop_last(), trust, runs) is Ok {
            before + pick_exchanges(options, indices.last(), trust, runs[indices.len() - 1])
        } else {
            before
        }
    }
}

/// What a multiple selection resolves to: the backend's error, the error of
/// the first pick that fails, or the values of the picks joined with the
/// separator.
pub open spec fn check_outcome(
    options: Seq<(String, crate::config::Option)>,
    separator: Seq<char>,
    picked: Result<Vec<usize>, Error>,
    trust: ShellTrust,
    runs: Seq<Result<CommandOutput, Error>>,
) -> Result<Seq<char>, ErrorView> {
    match picked {
        Err(e) => Err(e@),
        Ok(indices) => match values_outcome(options, indices@, trust, runs) {
            Err(e) => Err(e),
            Ok(values) => Ok(join(values, separator)),
        },
    }
}

/// The exchanges of resolving a multiple selection, after the backend
/// answered.
pub open spec fn check_exchanges(
    options: Seq<(String, crate::config::Option)>,
    picked: Result<Vec<usize>, Error>,
    trust: ShellTrust,
    runs: Seq<Result<CommandOutput, Error>>,
) -> Seq<Exchange> {
    match picked {
        Err(_) => Seq::empty(),
        Ok(indices) => values_exchanges(options, indices@, trust, runs),
    }
}

/// The values of the first picks, and their exchanges, do not depend on the
/// runs of later picks.
proof fn lemma_values_agree(
    options: Seq<(String, crate::config::Option)>,
    indices: Seq<usize>,
    trust: ShellTrust,
    a: Seq<Result<CommandOutput, Error>>,
    b: Seq<Result<CommandOutput, Error>>,
)
    requires
        forall|k: int| 0 <= k < indices.len() ==> a[k] == b[k],
    ensures
        values_outcome(options, indices, trust, a) == values_outcome(options, indices, trust, b),
        values_exchanges(options, indices, trust, a) == values_exchanges(
            options,
            indices,
            trust,
            b,
        ),
    decreases indices.len(),
{
    if indices.len() > 0 {
        lemma_values_agree(options, indices.drop_last(), trust, a, b);
    }
}

/// Once the first `n` picks fail, all the picks fail with the same error,
/// and nothing more is exchanged.
proof fn lemma_values_error_stays(
    options: Seq<(String, crate::config::Option)>,
    indices: Seq<usize>,
    trust: ShellTrust,
    runs: Seq<Result<CommandOutput, Error>>,
    n: int,
)
    requires
        0 <= n <= indices.len(),
        values_outcome(options, indices.take(n), trust, runs) is Err,
    ensures
        values_outcome(options, indices, trust, runs) == values_outcome(
            options,
            indices.take(n),
            trust,
            runs,
        ),
        values_exchanges(options, indices, trust, runs) == values_exchanges(
            options,
            indices.take(n),
            trust,
            runs,
        ),
    decreases indices.len(),
{
    if n == indices.len() {
        assert(indices.take(n) =~= indices);
    } else {
        assert(indices.drop_last().take(n) =~= indices.take(n));
        lemma_values_error_stays(options, indices.drop_last(), trust, runs, n);
    }
}

/// Resolves the value of an option. A static value is its text, and nothing
/// is run. A shell value is the output of its command, run under the trust
/// level.
pub fn option_value<U: UserInput, S: System>(
    value: &OptionValue,
    trust: ShellTrust,
    session: &mut Session<U, S>,
) -> (r: Result<String, Error>)
    ensures
        exists|ran: Result<CommandOutput, Error>|
            outcome(r) == #[trigger] value_outcome(*value, trust, ran) && final(session).trace()
                == old(session).trace() + value_exchanges(*value, trust, ran),
        value is Static || trust != ShellTrust::Ultimate ==> *final(session) == *old(session),
{
    match value {
        OptionValue::Static(text) => {
            let r = Ok(text.clone());
            proof {
                let ran = Err::<CommandOutput, Error>(Error::NoTrust);
                assert(outcome(r) == value_outcome(*value, trust, ran));
                assert(session.trace() =~= old(session).trace() + value_exchanges(
                    *value,
                    trust,
                    ran,
                ));
            }
            r
        },
        OptionValue::Shell(command) => {
            let env: Vec<(String, String)> = Vec::new();
            assert(flat_model(env@) =~= Seq::empty());
            let r = shell(command.as_str(), &env, trust, session);
            proof {
                let ran = choose|ran: Result<CommandOutput, Error>|
                    outcome(r) == #[trigger] shell_model(command@, trust, ran) && session.trace()
                        == old(session).trace() + shell_exchanges(
                        command@,
                        flat_model(env@),
                        trust,
                        ran,
                    );
                assert(outcome(r) == value_outcome(*value, trust, ran));
            }
            r
        },
    }
}

/// What the user sees of each option, in the order of the options.
pub open spec fn display_model(options: Seq<(String, crate::config::Option)>) -> Seq<Seq<char>> {
    Seq::new(options.len(), |i: int| options[i].1.display@)
}

/// What the user sees of each option, in the order of the options.
pub fn displays(options: &Vec<(String, crate::config::Option)>) -> (shown: Vec<String>)
    ensures
        texts_model(shown@) == display_model(options@),
{
    let mut shown: Vec<String> = Vec::new();
    let mut i: usize = 0;
    while i < options.len()
        invariant
            i <= options.len(),
            shown@.len() == i,
            forall|j: int| 0 <= j < i ==> shown@[j]@ == options@[j].1.display@,
        decreases options.len() - i,
    {
        shown.push(options[i].1.display.clone());
        i += 1;
    }
    assert(texts_model(shown@) =~= display_model(options@));
    shown
}

/// Resolves a single selection, given what the backend answered: the
/// backend's error as it is, `InvalidSelection` for the index of no option,
/// else the value of the picked option.
pub fn selected<U: UserInput, S: System>(
    options: &Vec<(String, crate::config::Option)>,
    picked: Result<usize, Error>,
    trust: ShellTrust,
    session: &mut Session<U, S>,
) -> (r: Result<String, Error>)
    ensures
        exists|ran: Result<CommandOutput, Error>|
            outcome(r) == #[trigger] select_outcome(options@, picked, trust, ran) && final(session).trace() == old(session).trace() + select_exchanges(options@, picked, trust, ran),
        picked is Err || trust != ShellTrust::Ultimate ==> *final(session) == *old(session),
{
    let ghost none = Err::<CommandOutput, Error>(Error::NoTrust);
    match picked {
        Err(e) => {
            let r = Err(e);
            proof {
                assert(outcome(r) == select_outcome(options@, picked, trust, none));
                assert(session.trace() =~= old(session).trace() + select_exchanges(
                    options@,
                    picked,
                    trust,
                    none,
                ));
            }
            r
        },
        Ok(index) => {
            if index >= options.len() {
                let r = Err(Error::InvalidSelection);
                proof {
                    assert(outcome(r) == select_outcome(options@, picked, trust, none));
                    assert(session.trace() =~= old(session).trace() + select_exchanges(
                        options@,
                        picked,
                        trust,
                        none,
                    ));
                }
                r
            } else {
                let r = option_value(&options[index].1.value, trust, session);
                proof {
                    let value = options@[index as int].1.value;
                    let ran = choose|ran: Result<CommandOutput, Error>|
                        outcome(r) == #[trigger] value_outcome(value, trust, ran)
                            && session.trace() == old(session).trace() + value_exchanges(
                            value,
                            trust,
                            ran,
                        );
                    assert(outcome(r) == select_outcome(options@, picked, trust, ran));
                }
                r
            }
        },
    }
}

/// Resolves a multiple selection, given what the backend answered: the
/// backend's error as it is; else the picks are resolved one after the other,
/// in the order in which the backend gave them, the first failure ends the
/// resolution, and the values are joined with the separator. No pick gives
/// the empty text.
pub fn checked<U: UserInput, S: System>(
    options: &Vec<(String, crate::config::Option)>,
    separator: &str,
    picked: Result<Vec<usize>, Error>,
    trust: ShellTrust,
    session: &mut Session<U, S>,
) -> (r: Result<String, Error>)
    ensures
        exists|runs: Seq<Result<CommandOutput, Error>>|
            outcome(r) == #[trigger] check_outcome(options@, separator@, picked, trust, runs)
                && final(session).trace() == old(session).trace() + check_exchanges(
                options@,
                picked,
                trust,
                runs,
            ),
        picked is Err || trust != ShellTrust::Ultimate ==> *final(session) == *old(session),
{
    let ghost none = Seq::<Result<CommandOutput, Error>>::empty();
    let indices = match picked {
        Err(e) => {
            let r = Err(e);
            proof {
                assert(outcome(r) == check_outcome(options@, separator@, picked, trust, none));
                assert(session.trace() =~= old(session).trace() + check_exchanges(
                    options@,
                    picked,
                    trust,
                    none,
                ));
            }
            return r;
        },
        Ok(indices) => indices,
    };
    let mut text = String::new();
    let ghost mut values = Seq::<Seq<char>>::empty();
    let ghost mut runs = none;
    let mut k: usize = 0;
    proof {
        assert(indices@.take(0) =~= Seq::<usize>::empty());
        assert(session.trace() =~= old(session).trace() + values_exchanges(
            options@,
            indices@.take(0),
            trust,
            runs,
        ));
    }
    while k < indices.len()
        invariant
            k <= indices.len(),
            picked == Ok::<Vec<usize>, Error>(indices),
            runs.len() == k,
            values.len() == k,
            values_outcome(options@, indices@.take(k as int), trust, runs) == Ok::<
                Seq<Seq<char>>,
                ErrorView,
            >(values),
            session.trace() == old(session).trace() + values_exchanges(
                options@,
                indices@.take(k as int),
                trust,
                runs,
            ),
            text@ == join(values, separator@),
            trust != ShellTrust::Ultimate ==> *session == *old(session),
        decreases indices.len() - k,
    {
        let ghost upto = indices@.take(k + 1);
        let ghost so_far = values_exchanges(options@, indices@.take(k as int), trust, runs);
        proof {
            assert(upto.drop_last() =~= indices@.take(k as int));
            assert(upto.last() == indices@[k as int]);
        }
        let index = indices[k];
        if index >= options.len() {
            let r = Err(Error::InvalidSelection);
            proof {
                let all = runs.push(Err(Error::NoTrust));
                lemma_values_agree(options@, indices@.take(k as int), trust, runs, all);
                lemma_values_error_stays(options@, indices@, trust, all, k + 1);
                assert(outcome(r) == check_outcome(options@, separator@, picked, trust, all));
                assert(values_exchanges(options@, upto, trust, all) =~= so_far);
            }
            return r;
        }
        let ghost value = options@[index as int].1.value;
        let resolved = option_value(&options[index].1.value, trust, session);
        let ghost ran = choose|ran: Result<CommandOutput, Error>|
            outcome(resolved) == #[trigger] value_outcome(value, trust, ran) && session.trace()
                == old(session).trace() + so_far + value_exchanges(value, trust, ran);
        let ghost all = runs.push(ran);
        proof {
            lemma_values_agree(options@, indices@.take(k as int), trust, runs, all);
            assert(values_exchanges(options@, upto, trust, all) == so_far + value_exchanges(
                value,
                trust,
                ran,
            ));
            assert(session.trace() =~= old(session).trace() + values_exchanges(
                options@,
                upto,
                trust,
                all,
            ));
        }
        match resolved {
            Err(e) => {
                let r = Err(e);
                proof {
                    lemma_values_error_stays(options@, indices@, trust, all, k + 1);
                    assert(outcome(r) == check_outcome(options@, separator@, picked, trust, all));
                }
                return r;
            },
            Ok(value) => {
                if k > 0 {
                    text.append(separator);
                }
                text.append(value.as_str());
                proof {
                    let grown = values.push(value@);
                    assert(grown.drop_last() =~= values);
                    assert(text@ =~= join(grown, separator@));
                    values = grown;
                    runs = all;
                }
            },
        }
        k += 1;
    }
    assert(indices@.take(k as int) =~= indices@);
    let r = Ok(text);
    assert(outcome(r) == check_outcome(options@, separator@, picked, trust, runs));
    r
}

/// Everything that the outside may answer while one variable is resolved.
pub struct Answers {
    /// What the environment holds under the name asked for.
    pub variable: Option<String>,
    /// What the terminal answered to a prompt.
    pub prompted: Result<String, Error>,
    /// What the terminal answered to a single selection.
    pub picked: Result<usize, Error>,
    /// What the terminal answered to a multiple selection.
    pub checked: Result<Vec<usize>, Error>,
    /// The run of the one command of a shell variable or of a picked option.
    pub ran: Result<CommandOutput, Error>,
    /// The runs for the picks of a multiple selection, by the place of the pick.
    pub runs: Seq<Result<CommandOutput, Error>>,
}

/// What a definition resolves to, under a trust level, through a backend and
/// given the answers of the outside.
///
/// An argument is always missing. A static value is its text. A shell
/// command needs ultimate trust. The headless backend fails every question.
pub open spec fn resolution(
    definition: VariableDefinition,
    trust: ShellTrust,
    backend: Backend,
    answers: Answers,
) -> Result<Seq<char>, ErrorView> {
    match definition {
        VariableDefinition::Arg => Err(ErrorView::MissingArgument),
        VariableDefinition::Env(name) => env_outcome(name@, answers.variable),
        VariableDefinition::Static(text) => Ok(text@),
        VariableDefinition::Prompt(_) => if backend == Backend::Headless {
            Err(ErrorView::Headless)
        } else {
            outcome(answers.prompted)
        },
        VariableDefinition::Shell(command) => shell_model(command@, trust, answers.ran),
        VariableDefinition::Select { text, options } => if backend == Backend::Headless {
            Err(ErrorView::Headless)
        } else {
            select_outcome(options@, answers.picked, trust, answers.ran)
        },
        VariableDefinition::Check { text, separator, options } => if backend == Backend::Headless {
            Err(ErrorView::Headless)
        } else {
            check_outcome(options@, separator@, answers.checked, trust, answers.runs)
        },
    }
}

/// What resolving a definition exchanges with the outside, in order, given
/// the answers.
///
/// An argument and a static value exchange nothing. An environment variable
/// is read once. A shell command is run once, with nothing added to its
/// environment, and only with ultimate trust. A prompt is asked once with its
/// text; a menu is asked once with its text and what its options display,
/// and then the values of the picks are resolved. The headless backend asks
/// nothing.
pub open spec fn exchanges(
    definition: VariableDefinition,
    trust: ShellTrust,
    backend: Backend,
    answers: Answers,
) -> Seq<Exchange> {
    match definition {
        VariableDefinition::Arg => Seq::empty(),
        VariableDefinition::Env(name) => seq![
            Exchange::Variable { name: name@, value: answers.variable },
        ],
        VariableDefinition::Static(_) => Seq::empty(),
        VariableDefinition::Prompt(text) => if backend == Backend::Headless {
            Seq::empty()
        } else {
            seq![Exchange::Prompt { text: text@, answer: answers.prompted }]
        },
        VariableDefinition::Shell(command) => shell_exchanges(
            command@,
            Seq::empty(),
            trust,
            answers.ran,
        ),
        VariableDefinition::Select { text, options } => if backend == Backend::Headless {
            Seq::empty()
        } else {
            seq![
                Exchange::Select {
                    prompt: text@,
                    displays: display_model(options@),
                    answer: answers.picked,
                },
            ] + select_exchanges(options@, answers.picked, trust, answers.ran)
        },
        VariableDefinition::Check { text, separator, options } => if backend == Backend::Headless {
            Seq::empty()
        } else {
            seq![
                Exchange::Check {
                    prompt: text@,
                    displays: display_model(options@),
                    answer: answers.checked,
                },
            ] + check_exchanges(options@, answers.checked, trust, answers.runs)
        },
    }
}

/// What can be resolved.
pub trait Resolve {
    /// The value, resolved under the trust level and through the backend,
    /// with the session for what the outside has to answer.
    fn execute<U: UserInput, S: System>(
        &self,
        shell_trust: ShellTrust,
        backend: Backend,
        session: &mut Session<U, S>,
    ) -> Result<String, Error>;
}

impl Resolve for VariableDefinition {
    /// Resolves the definition. The result is the [`resolution`] for the
    /// answers that came back, and what was exchanged are the [`exchanges`]
    /// for them.
    fn execute<U: UserInput, S: System>(
        &self,
        shell_trust: ShellTrust,
        backend: Backend,
        session: &mut Session<U, S>,
    ) -> (r: Result<String, Error>)
        ensures
            exists|answers: Answers|
                outcome(r) == #[trigger] resolution(*self, shell_trust, backend, answers) && final(session).trace() == old(session).trace() + exchanges(
                    *self,
                    shell_trust,
                    backend,
                    answers,
                ),
            self is Static ==> outcome(r) == Ok::<Seq<char>, ErrorView>(self->Static_0@) && *final(session) == *old(session),
            self is Arg ==> outcome(r) == Err::<Seq<char>, ErrorView>(ErrorView::MissingArgument)
                && *final(session) == *old(session),
            self is Shell && shell_trust != ShellTrust::Ultimate ==> outcome(r) == Err::<
                Seq<char>,
                ErrorView,
            >(ErrorView::NoTrust) && *final(session) == *old(session),
    {
        let ghost blank = Answers {
            variable: None,
            prompted: Err(Error::Headless),
            picked: Err(Error::Headless),
            checked: Err(Error::Headless),
            ran: Err(Error::NoTrust),
            runs: Seq::empty(),
        };
        let ghost before = session.trace();
        match self {
            VariableDefinition::Arg => {
                let r = Err(Error::MissingArgument);
                proof {
                    assert(outcome(r) == resolution(*self, shell_trust, backend, blank));
                    assert(before =~= before + exchanges(*self, shell_trust, backend, blank));
                }
                r
            },
            VariableDefinition::Env(name) => {
                let value = session.variable(name.as_str());
                let r = env_result(name.as_str(), value);
                proof {
                    let answers = Answers { variable: value, ..blank };
                    assert(outcome(r) == resolution(*self, shell_trust, backend, answers));
                    assert(session.trace() =~= before + exchanges(
                        *self,
                        shell_trust,
                        backend,
                        answers,
                    ));
                }
                r
            },
            VariableDefinition::Static(text) => {
                let r = Ok(text.clone());
                proof {
                    assert(outcome(r) == resolution(*self, shell_trust, backend, blank));
                    assert(before =~= before + exchanges(*self, shell_trust, backend, blank));
                }
                r
            },
            VariableDefinition::Prompt(text) => {
                let r = ask_prompt(backend, session, text.as_str());
                proof {
                    let answers = Answers { prompted: r, ..blank };
                    assert(outcome(r) == resolution(*self, shell_trust, backend, answers));
                    assert(session.trace() =~= before + exchanges(
                        *self,
                        shell_trust,
                        backend,
                        answers,
                    ));
                }
                r
            },
            VariableDefinition::Shell(command) => {
                let env: Vec<(String, String)> = Vec::new();
                assert(flat_model(env@) =~= Seq::empty());
                let r = shell(command.as_str(), &env, shell_trust, session);
                proof {
                    let ran = choose|ran: Result<CommandOutput, Error>|
                        outcome(r) == #[trigger] shell_model(command@, shell_trust, ran)
                            && session.trace() == before + shell_exchanges(
                            command@,
                            flat_model(env@),
                            shell_trust,
                            ran,
                        );
                    let answers = Answers { ran, ..blank };
                    assert(outcome(r) == resolution(*self, shell_trust, backend, answers));
                    assert(session.trace() == before + exchanges(
                        *self,
                        shell_trust,
                        backend,
                        answers,
                    ));
                }
                r
            },
            VariableDefinition::Select { text, options } => {
                let shown = displays(options);
                let picked = ask_select(backend, session, text.as_str(), &shown);
                if backend == Backend::Headless {
                    let r = Err(Error::Headless);
                    proof {
                        assert(outcome(r) == resolution(*self, shell_trust, backend, blank));
                        assert(before =~= before + exchanges(*self, shell_trust, backend, blank));
                    }
                    return r;
                }
                let ghost asked = session.trace();
                let r = selected(options, picked, shell_trust, session);
                proof {
                    let ran = choose|ran: Result<CommandOutput, Error>|
                        outcome(r) == #[trigger] select_outcome(options@, picked, shell_trust, ran)
                            && session.trace() == asked + select_exchanges(
                            options@,
                            picked,
                            shell_trust,
                            ran,
                        );
                    let answers = Answers { picked, ran, ..blank };
                    assert(outcome(r) == resolution(*self, shell_trust, backend, answers));
                    assert(session.trace() =~= before + exchanges(
                        *self,
                        shell_trust,
                        backend,
                        answers,
                    ));
                }
                r
            },
            VariableDefinition::Check { text, separator, options } => {
                let shown = displays(options);
                let picked = ask_check(backend, session, text.as_str(), &shown);
                if backend == Backend::Headless {
                    let r = Err(Error::Headless);
                    proof {
                        assert(outcome(r) == resolution(*self, shell_trust, backend, blank));
                        assert(before =~= before + exchanges(*self, shell_trust, backend, blank));
                    }
                    return r;
                }
                let ghost asked = session.trace();
                let r = checked(options, separator.as_str(), picked, shell_trust, session);
                proof {
                    let runs = choose|runs: Seq<Result<CommandOutput, Error>>|
                        outcome(r) == #[trigger] check_outcome(
                            options@,
                            separator@,
                            picked,
                            shell_trust,
                            runs,
                        ) && session.trace() == asked + check_exchanges(
                            options@,
                            picked,
                            shell_trust,
                            runs,
                        );
                    let answers = Answers { checked: picked, runs, ..blank };
                    assert(outcome(r) == resolution(*self, shell_trust, backend, answers));
                    assert(session.trace() =~= before + exchanges(
                        *self,
                        shell_trust,
                        backend,
                        answers,
                    ));
                }
                r
            },
        }
    }
}

/// A static value resolves to its text and exchanges nothing, whatever the
/// trust level, the backend and the answers of the outside.
pub proof fn lemma_static_resolves(
    text: String,
    trust: ShellTrust,
    backend: Backend,
    answers: Answers,
)
    ensures
        resolution(VariableDefinition::Static(text), trust, backend, answers) == Ok::<
            Seq<char>,
            ErrorView,
        >(text@),
        exchanges(VariableDefinition::Static(text), trust, backend, answers) == Seq::<
            Exchange,
        >::empty(),
{
}

/// An environment variable resolves to its value as it is where it is set,
/// and fails with `MissingEnvironment` and its name where it is not.
pub proof fn lemma_env_resolves(name: String, trust: ShellTrust, backend: Backend, answers: Answers)
    ensures
        answers.variable is Some ==> resolution(
            VariableDefinition::Env(name),
            trust,
            backend,
            answers,
        ) == Ok::<Seq<char>, ErrorView>(answers.variable->0@),
        answers.variable is None ==> resolution(
            VariableDefinition::Env(name),
            trust,
            backend,
            answers,
        ) == Err::<Seq<char>, ErrorView>(ErrorView::MissingEnvironment(name@)),
{
}

/// Without ultimate trust a shell variable fails with `NoTrust`, whatever the
/// backend and the answers, and nothing is exchanged: no command is run.
pub proof fn lemma_shell_needs_trust(command: String, backend: Backend, answers: Answers)
    ensures
        resolution(VariableDefinition::Shell(command), ShellTrust::Untrusted, backend, answers)
            == Err::<Seq<char>, ErrorView>(ErrorView::NoTrust),
        exchanges(VariableDefinition::Shell(command), ShellTrust::Untrusted, backend, answers)
            == Seq::<Exchange>::empty(),
{
}

/// With ultimate trust a shell variable runs its command once. It resolves
/// to the standard output of the command as it is where the command exits
/// with status zero, and fails with `ShellCommand` and the command where it
/// exits otherwise.
pub proof fn lemma_shell_trusted(command: String, backend: Backend, answers: Answers)
    requires
        answers.ran is Ok,
    ensures
        answers.ran->Ok_0.code == Some(0i32) ==> resolution(
            VariableDefinition::Shell(command),
            ShellTrust::Ultimate,
            backend,
            answers,
        ) == Ok::<Seq<char>, ErrorView>(answers.ran->Ok_0.stdout@),
        answers.ran->Ok_0.code != Some(0i32) ==> resolution(
            VariableDefinition::Shell(command),
            ShellTrust::Ultimate,
            backend,
            answers,
        ) == Err::<Seq<char>, ErrorView>(ErrorView::ShellCommand(command@)),
        exchanges(VariableDefinition::Shell(command), ShellTrust::Ultimate, backend, answers)
            == seq![Exchange::Run { command: command@, env: Seq::empty(), ran: answers.ran }],
{
}

/// An argument is missing whenever it is resolved, and the headless backend
/// fails every prompt and menu and asks nothing.
pub proof fn lemma_unanswered(
    definition: VariableDefinition,
    trust: ShellTrust,
    backend: Backend,
    answers: Answers,
)
    ensures
        definition is Arg ==> resolution(definition, trust, backend, answers) == Err::<
            Seq<char>,
            ErrorView,
        >(ErrorView::MissingArgument) && exchanges(definition, trust, backend, answers) == Seq::<
            Exchange,
        >::empty(),
        definition is Prompt || definition is Select || definition is Check ==> resolution(
            definition,
            trust,
            Backend::Headless,
            answers,
        ) == Err::<Seq<char>, ErrorView>(ErrorView::Headless) && exchanges(
            definition,
            trust,
            Backend::Headless,
            answers,
        ) == Seq::<Exchange>::empty(),
{
}

/// Without ultimate trust no command is run, whatever is resolved.
pub proof fn lemma_untrusted_runs_nothing(
    definition: VariableDefinition,
    backend: Backend,
    answers: Answers,
)
    ensures
        forall|i: int|
            0 <= i < exchanges(definition, ShellTrust::Untrusted, backend, answers).len()
                ==> !(#[trigger] exchanges(
                definition,
                ShellTrust::Untrusted,
                backend,
                answers,
            )[i] is Run),
{
    let trust = ShellTrust::Untrusted;
    match definition {
        VariableDefinition::Check { text, separator, options } => {
            if answers.checked is Ok {
                lemma_untrusted_values(options@, answers.checked->Ok_0@, answers.runs);
            }
        },
        _ => {},
    }
}

/// Without ultimate trust resolving picks exchanges nothing.
proof fn lemma_untrusted_values(
    options: Seq<(String, crate::config::Option)>,
    indices: Seq<usize>,
    runs: Seq<Result<CommandOutput, Error>>,
)
    ensures
        values_exchanges(options, indices, ShellTrust::Untrusted, runs) == Seq::<Exchange>::empty(),
    decreases indices.len(),
{
    if indices.len() > 0 {
        lemma_untrusted_values(options, indices.drop_last(), runs);
    }
}

} // verus!
