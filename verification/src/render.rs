//! A whole render: the template is chosen, its variables are given values,
//! the values are nested and the body is rendered over them.

use vstd::prelude::*;
use vstd::string::*;
use crate::backend::Backend;
use crate::backend::UserInput;
use crate::backend::ask_select;
use crate::config::Config;
use crate::config::Content;
use crate::config::Helper;
use crate::config::Template;
use crate::config::VariableDefinition;
use crate::config::first_named;
use crate::config::names;
use crate::config::position;
use crate::error::Error;
use crate::error::ErrorView;
use crate::error::outcome;
use crate::namespace::build;
use crate::namespace::build_model;
use crate::resolve::Answers;
use crate::resolve::Resolve;
use crate::resolve::exchanges;
use crate::resolve::resolution;
use crate::session::Exchange;
use crate::session::Session;
use crate::shell::ShellTrust;
use crate::shell::System;
use crate::template::grown_by_helpers;
use crate::template::is_helper_run;
use crate::template::render;
use crate::template::render_model;
use crate::text::flat_model;
use crate::text::texts_model;
use crate::version::check_version;
use crate::version::pattern_match;
use crate::version::version_verdict;
use crate::version::VERSION_PATTERN;

verus! {

/// What the caller asks of a render.
#[derive(Debug, Clone)]
pub struct RenderArguments {
    /// The text of the configuration, as it was read.
    pub configuration: String,
    /// The name of the template; `None` lets the user pick one.
    pub template: Option<String>,
    /// Values given by the caller, by the dotted name of the variable. A
    /// variable with a value here is not resolved. The first pair with a name
    /// is the one that counts.
    pub value_overrides: Vec<(String, String)>,
    pub shell_trust: ShellTrust,
    /// Whether a reference to a value that nothing defines renders as nothing
    /// instead of failing.
    pub loose: bool,
    pub backend: Backend,
}

/// The names of the templates, in order: the menu from which a template is
/// picked.
pub fn template_names(config: &Config) -> (shown: Vec<String>)
    ensures
        texts_model(shown@) == names(config.templates@),
{
    let mut shown: Vec<String> = Vec::new();
    let mut i: usize = 0;
    while i < config.templates.len()
        invariant
            i <= config.templates.len(),
            shown@.len() == i,
            forall|j: int| 0 <= j < i ==> shown@[j]@ == config.templates@[j].0@,
        decreases config.templates.len() - i,
    {
        shown.push(config.templates[i].0.clone());
        i += 1;
    }
    assert(texts_model(shown@) =~= names(config.templates@));
    shown
}

/// The place of the template that a pick stands for: the backend's error as
/// it is, `InvalidSelection` for the index of no template.
pub open spec fn template_choice(config: Config, picked: Result<usize, Error>) -> Result<
    int,
    ErrorView,
> {
    match picked {
        Err(e) => Err(e@),
        Ok(index) => if index < config.templates@.len() {
            Ok(index as int)
        } else {
            Err(ErrorView::InvalidSelection)
        },
    }
}

/// Whether `r` is the template at the place `choice`, or the error `choice`.
pub open spec fn is_choice(config: Config, r: Result<&Template, Error>, choice: Result<
    int,
    ErrorView,
>) -> bool {
    match r {
        Ok(template) => choice is Ok && 0 <= choice->Ok_0 < config.templates@.len() && *template
            == config.templates@[choice->Ok_0].1,
        Err(e) => choice == Err::<int, ErrorView>(e@),
    }
}

/// The template that the backend's answer stands for.
pub fn picked_template<'a>(config: &'a Config, picked: Result<usize, Error>) -> (r: Result<
    &'a Template,
    Error,
>)
    ensures
        is_choice(*config, r, template_choice(*config, picked)),
{
    match picked {
        Err(e) => Err(e),
        Ok(index) => if index < config.templates.len() {
            Ok(&config.templates[index].1)
        } else {
            Err(Error::InvalidSelection)
        },
    }
}

/// The place of the template that the user picks through the backend: the
/// headless backend fails.
pub open spec fn menu_choice(config: Config, backend: Backend, picked: Result<usize, Error>) -> Result<
    int,
    ErrorView,
> {
    if backend == Backend::Headless {
        Err(ErrorView::Headless)
    } else {
        template_choice(config, picked)
    }
}

/// The exchanges of letting the user pick a template: none with the headless
/// backend, else one menu without a text, of the names of the templates.
pub open spec fn menu_exchanges(config: Config, backend: Backend, picked: Result<usize, Error>) -> Seq<
    Exchange,
> {
    if backend == Backend::Headless {
        Seq::empty()
    } else {
        seq![
            Exchange::Select { prompt: ""@, displays: names(config.templates@), answer: picked },
        ]
    }
}

/// Lets the user pick one of the configuration's templates through the
/// backend, from a menu of their names. The headless backend fails and asks
/// nothing.
pub fn select_template<'a, U: UserInput, S: System>(
    config: &'a Config,
    backend: Backend,
    session: &mut Session<U, S>,
) -> (r: Result<&'a Template, Error>)
    ensures
        exists|picked: Result<usize, Error>|
            is_choice(*config, r, #[trigger] menu_choice(*config, backend, picked)) && final(session).trace() == old(session).trace() + menu_exchanges(*config, backend, picked),
        backend == Backend::Headless ==> *final(session) == *old(session),
{
    let shown = template_names(config);
    let picked = ask_select(backend, session, "", &shown);
    let r = picked_template(config, picked);
    proof {
        assert(is_choice(*config, r, menu_choice(*config, backend, picked)));
        assert(session.trace() =~= old(session).trace() + menu_exchanges(
            *config,
            backend,
            picked,
        ));
    }
    r
}

/// Whether one of the pairs has the name.
pub open spec fn has_name(values: Seq<(Seq<char>, Seq<char>)>, name: Seq<char>) -> bool {
    exists|i: int| 0 <= i < values.len() && values[i].0 == name
}

/// The values of the variables, as pairs of name and value: first the
/// overrides as they are, then, in the order of the declarations, each
/// variable that has no value yet, with what its definition resolves to given
/// `answers[i]` for the variable `i`; or the error of the first variable that
/// fails.
pub open spec fn populate_outcome(
    vars: Seq<(String, VariableDefinition)>,
    overrides: Seq<(String, String)>,
    trust: ShellTrust,
    backend: Backend,
    answers: Seq<Answers>,
) -> Result<Seq<(Seq<char>, Seq<char>)>, ErrorView>
    decreases vars.len(),
{
    if vars.len() == 0 {
        Ok(flat_model(overrides))
    } else {
        match populate_outcome(vars.drop_last(), overrides, trust, backend, answers) {
            Err(e) => Err(e),
            Ok(values) => if has_name(values, vars.last().0@) {
                Ok(values)
            } else {
                match resolution(vars.last().1, trust, backend, answers[vars.len() - 1]) {
                    Err(e) => Err(e),
                    Ok(value) => Ok(values.push((vars.last().0@, value))),
                }
            },
        }
    }
}

/// What giving the variables their values exchanges with the outside: for
/// each variable that has no value yet, in the order of the declarations and
/// up to the first that fails, the exchanges of resolving its definition. A
/// variable with a given value exchanges nothing.
pub open spec fn populate_exchanges(
    vars: Seq<(String, VariableDefinition)>,
    overrides: Seq<(String, String)>,
    trust: ShellTrust,
    backend: Backend,
    answers: Seq<Answers>,
) -> Seq<Exchange>
    decreases vars.len(),
{
    if vars.len() == 0 {
        Seq::empty()
    } else {
        let before = populate_exchanges(vars.drop_last(), overrides, trust, backend, answers);
        match populate_outcome(vars.drop_last(), overrides, trust, backend, answers) {
            Err(_) => before,
            Ok(values) => if has_name(values, vars.last().0@) {
                before
            } else {
                before + exchanges(vars.last().1, trust, backend, answers[vars.len() - 1])
            },
        }
    }
}

/// The pairs with the prefix and a dot before each name; the pairs as they
/// are where there is no prefix.
pub open spec fn prefixed(values: Seq<(Seq<char>, Seq<char>)>, prefix: Option<String>) -> Seq<
    (Seq<char>, Seq<char>),
> {
    match prefix {
        None => values,
        Some(p) => Seq::new(values.len(), |i: int| (p@ + seq!['.'] + values[i].0, values[i].1)),
    }
}

/// The value of what [`populate_variables`] returns.
pub open spec fn populated(r: Result<Vec<(String, String)>, Error>) -> Result<
    Seq<(Seq<char>, Seq<char>)>,
    ErrorView,
> {
    match r {
        Ok(values) => Ok(flat_model(values@)),
        Err(e) => Err(e@),
    }
}

/// What [`populate_variables`] amounts to for the answers: the values with
/// the prefix, or the error.
pub open spec fn populate_prefixed(
    vars: Seq<(String, VariableDefinition)>,
    overrides: Seq<(String, String)>,
    trust: ShellTrust,
    backend: Backend,
    prefix: Option<String>,
    answers: Seq<Answers>,
) -> Result<Seq<(Seq<char>, Seq<char>)>, ErrorView> {
    match populate_outcome(vars, overrides, trust, backend, answers) {
        Err(e) => Err(e),
        Ok(values) => Ok(prefixed(values, prefix)),
    }
}

/// Whether a value is given for the name.
pub open spec fn overridden(overrides: Seq<(String, String)>, name: Seq<char>) -> bool {
    exists|i: int| 0 <= i < overrides.len() && overrides[i].0@ == name
}

/// The values of the first variables, and their exchanges, do not depend on
/// the answers for later ones.
proof fn lemma_populate_agree(
    vars: Seq<(String, VariableDefinition)>,
    overrides: Seq<(String, String)>,
    trust: ShellTrust,
    backend: Backend,
    a: Seq<Answers>,
    b: Seq<Answers>,
)
    requires
        forall|k: int| 0 <= k < vars.len() ==> a[k] == b[k],
    ensures
        populate_outcome(vars, overrides, trust, backend, a) == populate_outcome(
            vars,
            overrides,
            trust,
            backend,
            b,
        ),
        populate_exchanges(vars, overrides, trust, backend, a) == populate_exchanges(
            vars,
            overrides,
            trust,
            backend,
            b,
        ),
    decreases vars.len(),
{
    if vars.len() > 0 {
        lemma_populate_agree(vars.drop_last(), overrides, trust, backend, a, b);
    }
}

/// Once the first `n` variables fail, all the variables fail with the same
/// error, and nothing more is exchanged.
proof fn lemma_populate_error_stays(
    vars: Seq<(String, VariableDefinition)>,
    overrides: Seq<(String, String)>,
    trust: ShellTrust,
    backend: Backend,
    answers: Seq<Answers>,
    n: int,
)
    requires
        0 <= n <= vars.len(),
        populate_outcome(vars.take(n), overrides, trust, backend, answers) is Err,
    ensures
        populate_outcome(vars, overrides, trust, backend, answers) == populate_outcome(
            vars.take(n),
            overrides,
            trust,
            backend,
            answers,
        ),
        populate_exchanges(vars, overrides, trust, backend, answers) == populate_exchanges(
            vars.take(n),
            overrides,
            trust,
            backend,
            answers,
        ),
    decreases vars.len(),
{
    if n == vars.len() {
        assert(vars.take(n) =~= vars);
    } else {
        assert(vars.drop_last().take(n) =~= vars.take(n));
        lemma_populate_error_stays(vars.drop_last(), overrides, trust, backend, answers, n);
    }
}

/// Every given value is among the values, whatever the variables resolve to,
/// and every other value is that of a variable without a given value.
pub proof fn lemma_populate_keeps_overrides(
    vars: Seq<(String, VariableDefinition)>,
    overrides: Seq<(String, String)>,
    trust: ShellTrust,
    backend: Backend,
    answers: Seq<Answers>,
)
    requires
        populate_outcome(vars, overrides, trust, backend, answers) is Ok,
    ensures
        ({
            let values = populate_outcome(vars, overrides, trust, backend, answers)->Ok_0;
            &&& values.len() >= overrides.len()
            &&& forall|i: int|
                0 <= i < overrides.len() ==> values[i] == (overrides[i].0@, overrides[i].1@)
            &&& forall|i: int|
                overrides.len() <= i < values.len() ==> !overridden(overrides, values[i].0)
        }),
    decreases vars.len(),
{
    if vars.len() > 0 {
        lemma_populate_keeps_overrides(vars.drop_last(), overrides, trust, backend, answers);
        let before = populate_outcome(vars.drop_last(), overrides, trust, backend, answers)->Ok_0;
        let name = vars.last().0@;
        if !has_name(before, name) {
            if overridden(overrides, name) {
                let i = choose|i: int| 0 <= i < overrides.len() && overrides[i].0@ == name;
                assert(before[i].0 == name);
            }
        }
    }
}

/// A given value suppresses the variable's definition: what the outside
/// would answer for a variable with a given value changes neither the values
/// nor what is exchanged.
pub proof fn lemma_override_suppresses(
    vars: Seq<(String, VariableDefinition)>,
    overrides: Seq<(String, String)>,
    trust: ShellTrust,
    backend: Backend,
    a: Seq<Answers>,
    b: Seq<Answers>,
    i: int,
)
    requires
        0 <= i < vars.len(),
        overridden(overrides, vars[i].0@),
        forall|k: int| 0 <= k < vars.len() && k != i ==> a[k] == b[k],
    ensures
        populate_outcome(vars, overrides, trust, backend, a) == populate_outcome(
            vars,
            overrides,
            trust,
            backend,
            b,
        ),
        populate_exchanges(vars, overrides, trust, backend, a) == populate_exchanges(
            vars,
            overrides,
            trust,
            backend,
            b,
        ),
    decreases vars.len(),
{
    let front = vars.drop_last();
    if i == vars.len() - 1 {
        lemma_populate_agree(front, overrides, trust, backend, a, b);
        let before = populate_outcome(front, overrides, trust, backend, a);
        if before is Ok {
            lemma_populate_keeps_overrides(front, overrides, trust, backend, a);
            let at = choose|at: int| 0 <= at < overrides.len() && overrides[at].0@ == vars[i].0@;
            assert(before->Ok_0[at].0 == vars.last().0@);
        }
    } else {
        lemma_override_suppresses(front, overrides, trust, backend, a, b, i);
    }
}

/// Where every variable has a given value, the values are the given values
/// and nothing is exchanged: nothing is asked, read or run.
pub proof fn lemma_all_overridden(
    vars: Seq<(String, VariableDefinition)>,
    overrides: Seq<(String, String)>,
    trust: ShellTrust,
    backend: Backend,
    answers: Seq<Answers>,
)
    requires
        forall|i: int| 0 <= i < vars.len() ==> overridden(overrides, vars[i].0@),
    ensures
        populate_outcome(vars, overrides, trust, backend, answers) == Ok::<
            Seq<(Seq<char>, Seq<char>)>,
            ErrorView,
        >(flat_model(overrides)),
        populate_exchanges(vars, overrides, trust, backend, answers) == Seq::<Exchange>::empty(),
    decreases vars.len(),
{
    if vars.len() > 0 {
        let front = vars.drop_last();
        assert(forall|i: int| 0 <= i < front.len() ==> front[i] == vars[i]);
        lemma_all_overridden(front, overrides, trust, backend, answers);
        let at = choose|at: int| 0 <= at < overrides.len() && overrides[at].0@ == vars.last().0@;
        assert(flat_model(overrides)[at].0 == vars.last().0@);
    }
}

/// Whether every variable is a static value or has a given value.
pub open spec fn all_static(
    vars: Seq<(String, VariableDefinition)>,
    overrides: Seq<(String, String)>,
) -> bool {
    forall|i: int|
        0 <= i < vars.len() ==> (#[trigger] vars[i]).1 is Static || overridden(
            overrides,
            vars[i].0@,
        )
}

/// Where every variable is a static value or has a given value, the values
/// are the same under every trust level, through every backend and for every
/// answer of the outside, there are values, and nothing is exchanged.
pub proof fn lemma_static_values(
    vars: Seq<(String, VariableDefinition)>,
    overrides: Seq<(String, String)>,
    trust: ShellTrust,
    backend: Backend,
    answers: Seq<Answers>,
    other_trust: ShellTrust,
    other_backend: Backend,
    other_answers: Seq<Answers>,
)
    requires
        all_static(vars, overrides),
    ensures
        populate_outcome(vars, overrides, trust, backend, answers) is Ok,
        populate_outcome(vars, overrides, trust, backend, answers) == populate_outcome(
            vars,
            overrides,
            other_trust,
            other_backend,
            other_answers,
        ),
        populate_exchanges(vars, overrides, trust, backend, answers) == Seq::<Exchange>::empty(),
    decreases vars.len(),
{
    if vars.len() > 0 {
        let front = vars.drop_last();
        assert forall|i: int| 0 <= i < front.len() implies (#[trigger] front[i]).1 is Static
            || overridden(overrides, front[i].0@) by {
            assert(front[i] == vars[i]);
        }
        lemma_static_values(
            front,
            overrides,
            trust,
            backend,
            answers,
            other_trust,
            other_backend,
            other_answers,
        );
        let last = vars[vars.len() - 1];
        let before = populate_outcome(front, overrides, trust, backend, answers)->Ok_0;
        if !(last.1 is Static) {
            lemma_populate_keeps_overrides(front, overrides, trust, backend, answers);
            let at = choose|at: int| 0 <= at < overrides.len() && overrides[at].0@ == last.0@;
            assert(before[at].0 == last.0@);
        }
    }
}

/// A template with an inline body and without helpers, whose variables are
/// all static values or have given values, renders to the same result under
/// every trust level, through every backend and whatever the outside would
/// answer, and exchanges nothing.
pub proof fn lemma_static_template(
    template: Template,
    overrides: Seq<(String, String)>,
    strict: bool,
    trust: ShellTrust,
    backend: Backend,
    outside: Outside,
    other_trust: ShellTrust,
    other_backend: Backend,
    other_outside: Outside,
)
    requires
        template.content is Inline,
        template.helpers@.len() == 0,
        all_static(template.variables@, overrides),
    ensures
        template_outcome(template, overrides, trust, backend, strict, outside) == template_outcome(
            template,
            overrides,
            other_trust,
            other_backend,
            strict,
            other_outside,
        ),
        template_exchanges(template, overrides, trust, backend, outside) == Seq::<
            Exchange,
        >::empty(),
{
    lemma_static_values(
        template.variables@,
        overrides,
        trust,
        backend,
        outside.answers,
        other_trust,
        other_backend,
        other_outside.answers,
    );
    assert(template_exchanges(template, overrides, trust, backend, outside) =~= Seq::<
        Exchange,
    >::empty());
}

/// Copies of the pairs.
fn copy_pairs(pairs: &Vec<(String, String)>) -> (copied: Vec<(String, String)>)
    ensures
        flat_model(copied@) == flat_model(pairs@),
{
    let mut copied: Vec<(String, String)> = Vec::new();
    let mut i: usize = 0;
    while i < pairs.len()
        invariant
            i <= pairs.len(),
            copied@.len() == i,
            forall|j: int| 0 <= j < i ==> copied@[j] == pairs@[j],
        decreases pairs.len() - i,
    {
        copied.push((pairs[i].0.clone(), pairs[i].1.clone()));
        i += 1;
    }
    assert(flat_model(copied@) =~= flat_model(pairs@));
    copied
}

/// The pairs with the prefix and a dot before each name.
fn with_prefix(values: Vec<(String, String)>, prefix: Option<String>) -> (r: Vec<(String, String)>)
    ensures
        flat_model(r@) == prefixed(flat_model(values@), prefix),
{
    match prefix {
        None => values,
        Some(p) => {
            let mut r: Vec<(String, String)> = Vec::new();
            let mut i: usize = 0;
            proof {
                reveal_strlit(".");
                assert("."@ =~= seq!['.']);
            }
            while i < values.len()
                invariant
                    i <= values.len(),
                    r@.len() == i,
                    "."@ == seq!['.'],
                    forall|j: int|
                        0 <= j < i ==> r@[j].0@ == p@ + seq!['.'] + values@[j].0@ && r@[j].1@
                            == values@[j].1@,
                decreases values.len() - i,
            {
                let mut name = p.clone();
                name.append(".");
                name.append(values[i].0.as_str());
                r.push((name, values[i].1.clone()));
                i += 1;
            }
            assert(flat_model(r@) =~= prefixed(flat_model(values@), prefix));
            r
        },
    }
}

/// Gives each variable a value: the given value where there is one, else
/// what the variable's definition resolves to. The definition of a variable
/// with a given value is not looked at, so its command is not run and its
/// question is not asked. The variables are resolved one after the other, in
/// the order of their declaration, and the first failure ends it.
pub fn populate_variables<U: UserInput, S: System>(
    vars: &Vec<(String, VariableDefinition)>,
    value_overrides: &Vec<(String, String)>,
    shell_trust: ShellTrust,
    backend: Backend,
    session: &mut Session<U, S>,
    prefix: Option<String>,
) -> (r: Result<Vec<(String, String)>, Error>)
    ensures
        exists|answers: Seq<Answers>|
            populated(r) == #[trigger] populate_prefixed(
                vars@,
                value_overrides@,
                shell_trust,
                backend,
                prefix,
                answers,
            ) && final(session).trace() == old(session).trace() + populate_exchanges(
                vars@,
                value_overrides@,
                shell_trust,
                backend,
                answers,
            ),
{
    let mut values = copy_pairs(value_overrides);
    let ghost mut answers = Seq::<Answers>::empty();
    let ghost blank = Answers {
        variable: None,
        prompted: Err(Error::Headless),
        picked: Err(Error::Headless),
        checked: Err(Error::Headless),
        ran: Err(Error::NoTrust),
        runs: Seq::empty(),
    };
    let mut i: usize = 0;
    proof {
        assert(vars@.take(0) =~= Seq::<(String, VariableDefinition)>::empty());
        assert(session.trace() =~= old(session).trace() + populate_exchanges(
            vars@.take(0),
            value_overrides@,
            shell_trust,
            backend,
            answers,
        ));
    }
    while i < vars.len()
        invariant
            i <= vars.len(),
            answers.len() == i,
            populate_outcome(vars@.take(i as int), value_overrides@, shell_trust, backend, answers)
                == Ok::<Seq<(Seq<char>, Seq<char>)>, ErrorView>(flat_model(values@)),
            session.trace() == old(session).trace() + populate_exchanges(
                vars@.take(i as int),
                value_overrides@,
                shell_trust,
                backend,
                answers,
            ),
        decreases vars.len() - i,
    {
        let ghost upto = vars@.take(i + 1);
        let ghost before = flat_model(values@);
        let ghost so_far = populate_exchanges(
            vars@.take(i as int),
            value_overrides@,
            shell_trust,
            backend,
            answers,
        );
        proof {
            assert(upto.drop_last() =~= vars@.take(i as int));
            assert(upto.last() == vars@[i as int]);
        }
        let name = &vars[i].0;
        let found = position(&values, name.as_str());
        proof {
            match found {
                Some(at) => {
                    assert(before[at as int].0 == name@);
                },
                None => {
                    assert forall|j: int| 0 <= j < before.len() implies before[j].0 != name@ by {
                        assert(values@[j].0@ != name@);
                    }
                },
            }
        }
        if found.is_none() {
            let resolved = vars[i].1.execute(shell_trust, backend, session);
            let ghost definition = vars@[i as int].1;
            let ghost answer = choose|answer: Answers|
                outcome(resolved) == #[trigger] resolution(
                    definition,
                    shell_trust,
                    backend,
                    answer,
                ) && session.trace() == old(session).trace() + so_far + exchanges(
                    definition,
                    shell_trust,
                    backend,
                    answer,
                );
            let ghost all = answers.push(answer);
            proof {
                lemma_populate_agree(
                    vars@.take(i as int),
                    value_overrides@,
                    shell_trust,
                    backend,
                    answers,
                    all,
                );
                answers = all;
                assert(session.trace() =~= old(session).trace() + populate_exchanges(
                    upto,
                    value_overrides@,
                    shell_trust,
                    backend,
                    answers,
                ));
            }
            match resolved {
                Err(e) => {
                    let r = Err(e);
                    proof {
                        lemma_populate_error_stays(
                            vars@,
                            value_overrides@,
                            shell_trust,
                            backend,
                            answers,
                            i + 1,
                        );
                        assert(populated(r) == populate_prefixed(
                            vars@,
                            value_overrides@,
                            shell_trust,
                            backend,
                            prefix,
                            answers,
                        ));
                    }
                    return r;
                },
                Ok(value) => {
                    values.push((name.clone(), value));
                    assert(flat_model(values@) =~= before.push((name@, value@)));
                },
            }
        } else {
            proof {
                let all = answers.push(blank);
                lemma_populate_agree(
                    vars@.take(i as int),
                    value_overrides@,
                    shell_trust,
                    backend,
                    answers,
                    all,
                );
                answers = all;
            }
        }
        i += 1;
    }
    assert(vars@.take(i as int) =~= vars@);
    let r = Ok(with_prefix(values, prefix));
    assert(populated(r) == populate_prefixed(
        vars@,
        value_overrides@,
        shell_trust,
        backend,
        prefix,
        answers,
    ));
    r
}

/// The body of a template: the inline text, or what reading the file gave.
pub open spec fn content_outcome(content: Content, file: Result<String, Error>) -> Result<
    Seq<char>,
    ErrorView,
> {
    match content {
        Content::Inline(text) => Ok(text@),
        Content::File(_) => outcome(file),
    }
}

/// The exchanges of loading the body of a template: none for an inline body,
/// one read of the file at the path otherwise.
pub open spec fn content_exchanges(content: Content, file: Result<String, Error>) -> Seq<Exchange> {
    match content {
        Content::Inline(_) => Seq::empty(),
        Content::File(path) => seq![Exchange::Read { path: path@, file }],
    }
}

/// Everything that the outside may answer during a whole render.
pub struct Outside {
    /// What the terminal answered where the template was to be picked.
    pub picked: Result<usize, Error>,
    /// What reading the template's file gave.
    pub file: Result<String, Error>,
    /// The answers for each variable, by the place of its declaration.
    pub answers: Seq<Answers>,
    /// The runs of helpers while the engine rendered.
    pub helped: Seq<Exchange>,
    /// What the engine returned, where helpers took part.
    pub raw: Result<Seq<char>, (bool, Seq<char>)>,
}

/// Whether every exchange is the run of one of the helpers.
pub open spec fn helper_runs(helpers: Seq<(String, Helper)>, helped: Seq<Exchange>) -> bool {
    forall|i: int| 0 <= i < helped.len() ==> is_helper_run(helpers, helped[i])
}

/// What rendering a template amounts to: the body is loaded, the variables
/// are given values, the values are nested, and the body is rendered over
/// them; the first step that fails gives the error.
pub open spec fn template_outcome(
    template: Template,
    overrides: Seq<(String, String)>,
    trust: ShellTrust,
    backend: Backend,
    strict: bool,
    outside: Outside,
) -> Result<Seq<char>, ErrorView> {
    match content_outcome(template.content, outside.file) {
        Err(e) => Err(e),
        Ok(content) => match populate_outcome(
            template.variables@,
            overrides,
            trust,
            backend,
            outside.answers,
        ) {
            Err(e) => Err(e),
            Ok(values) => match build_model(values) {
                Err(name) => Err(ErrorView::ConflictingNamespace(name)),
                Ok(tree) => render_model(
                    content,
                    tree,
                    template.helpers@.len(),
                    trust,
                    strict,
                    outside.raw,
                ),
            },
        },
    }
}

/// What rendering a template exchanges with the outside: the read of the
/// body's file, then the exchanges of giving the variables their values,
/// then, where it comes to rendering with helpers under ultimate trust, the
/// runs of helpers.
pub open spec fn template_exchanges(
    template: Template,
    overrides: Seq<(String, String)>,
    trust: ShellTrust,
    backend: Backend,
    outside: Outside,
) -> Seq<Exchange> {
    let read = content_exchanges(template.content, outside.file);
    match content_outcome(template.content, outside.file) {
        Err(_) => read,
        Ok(_) => {
            let resolved = read + populate_exchanges(
                template.variables@,
                overrides,
                trust,
                backend,
                outside.answers,
            );
            match populate_outcome(
                template.variables@,
                overrides,
                trust,
                backend,
                outside.answers,
            ) {
                Err(_) => resolved,
                Ok(values) => if build_model(values) is Ok && template.helpers@.len() > 0 && trust
                    == ShellTrust::Ultimate {
                    resolved + outside.helped
                } else {
                    resolved
                },
            }
        },
    }
}

/// Renders a template: loads its body, gives its variables their values,
/// nests the values by their dotted names and renders the body over them.
pub fn render_template<U: UserInput, S: System>(
    template: &Template,
    value_overrides: &Vec<(String, String)>,
    shell_trust: ShellTrust,
    backend: Backend,
    strict: bool,
    session: &mut Session<U, S>,
) -> (r: Result<String, Error>)
    ensures
        exists|outside: Outside|
            outcome(r) == #[trigger] template_outcome(
                *template,
                value_overrides@,
                shell_trust,
                backend,
                strict,
                outside,
            ) && helper_runs(template.helpers@, outside.helped) && final(session).trace() == old(session).trace() + template_exchanges(
                *template,
                value_overrides@,
                shell_trust,
                backend,
                outside,
            ),
{
    let ghost start = session.trace();
    let ghost mut outside = Outside {
        picked: Err(Error::Headless),
        file: Err(Error::Headless),
        answers: Seq::empty(),
        helped: Seq::empty(),
        raw: Ok(Seq::empty()),
    };
    let content = match &template.content {
        Content::Inline(text) => text.clone(),
        Content::File(path) => {
            let file = session.read(path.as_str());
            proof {
                outside = Outside { file, ..outside };
            }
            match file {
                Ok(text) => text,
                Err(e) => {
                    let r = Err(e);
                    proof {
                        assert(outcome(r) == template_outcome(
                            *template,
                            value_overrides@,
                            shell_trust,
                            backend,
                            strict,
                            outside,
                        ));
                        assert(session.trace() =~= start + template_exchanges(
                            *template,
                            value_overrides@,
                            shell_trust,
                            backend,
                            outside,
                        ));
                    }
                    return r;
                },
            }
        },
    };
    let ghost read = content_exchanges(template.content, outside.file);
    assert(session.trace() =~= start + read);
    let populated_values = populate_variables(
        &template.variables,
        value_overrides,
        shell_trust,
        backend,
        session,
        None,
    );
    proof {
        let answers = choose|answers: Seq<Answers>|
            populated(populated_values) == #[trigger] populate_prefixed(
                template.variables@,
                value_overrides@,
                shell_trust,
                backend,
                None,
                answers,
            ) && session.trace() == start + read + populate_exchanges(
                template.variables@,
                value_overrides@,
                shell_trust,
                backend,
                answers,
            );
        outside = Outside { answers, ..outside };
    }
    let ghost resolved = read + populate_exchanges(
        template.variables@,
        value_overrides@,
        shell_trust,
        backend,
        outside.answers,
    );
    assert(session.trace() =~= start + resolved);
    let values = match populated_values {
        Ok(values) => values,
        Err(e) => {
            let r = Err(e);
            proof {
                assert(outcome(r) == template_outcome(
                    *template,
                    value_overrides@,
                    shell_trust,
                    backend,
                    strict,
                    outside,
                ));
            }
            return r;
        },
    };
    let tree = match build(&values) {
        Ok(tree) => tree,
        Err(e) => {
            let r = Err(e);
            proof {
                assert(outcome(r) == template_outcome(
                    *template,
                    value_overrides@,
                    shell_trust,
                    backend,
                    strict,
                    outside,
                ));
            }
            return r;
        },
    };
    let ghost before = session.trace();
    let r = render(content.as_str(), &tree, &template.helpers, shell_trust, strict, session);
    proof {
        let raw = choose|raw: Result<Seq<char>, (bool, Seq<char>)>|
            outcome(r) == render_model(
                content@,
                tree@,
                template.helpers@.len(),
                shell_trust,
                strict,
                raw,
            );
        let helped = session.trace().skip(before.len() as int);
        outside = Outside { raw, helped, ..outside };
        assert(session.trace() =~= before + helped);
        assert(outcome(r) == template_outcome(
            *template,
            value_overrides@,
            shell_trust,
            backend,
            strict,
            outside,
        ));
        assert(session.trace() =~= start + template_exchanges(
            *template,
            value_overrides@,
            shell_trust,
            backend,
            outside,
        ));
    }
    r
}

/// The place of the template to render: the first template with the name
/// asked for, `TemplateNotFound` where none has it; without a name, the
/// template that the user picks.
pub open spec fn chosen(args: RenderArguments, config: Config, picked: Result<usize, Error>) -> Result<
    int,
    ErrorView,
> {
    match args.template {
        Some(name) => match first_named(config.templates@, name@) {
            Some(i) => Ok(i),
            None => Err(ErrorView::TemplateNotFound(name@)),
        },
        None => menu_choice(config, args.backend, picked),
    }
}

/// Whether the configuration's version fits the program.
pub open spec fn version_fits(config: Config, program: Seq<char>) -> bool {
    version_verdict(pattern_match(VERSION_PATTERN@, config.version@), config.version@, program)
        is Ok
}

/// What a whole render amounts to: the configuration's version must fit the
/// program, the template must be found or picked, and the template is
/// rendered, strictly unless the arguments say loose.
pub open spec fn whole_outcome(
    args: RenderArguments,
    config: Config,
    program: Seq<char>,
    outside: Outside,
) -> Result<Seq<char>, ErrorView> {
    match version_verdict(
        pattern_match(VERSION_PATTERN@, config.version@),
        config.version@,
        program,
    ) {
        Err(e) => Err(e),
        Ok(_) => match chosen(args, config, outside.picked) {
            Err(e) => Err(e),
            Ok(i) => template_outcome(
                config.templates@[i].1,
                args.value_overrides@,
                args.shell_trust,
                args.backend,
                !args.loose,
                outside,
            ),
        },
    }
}

/// What a whole render exchanges with the outside: nothing where the
/// version does not fit; else the menu of templates where no name is asked
/// for, and then, where a template is found or picked, what rendering it
/// exchanges.
pub open spec fn whole_exchanges(
    args: RenderArguments,
    config: Config,
    program: Seq<char>,
    outside: Outside,
) -> Seq<Exchange> {
    if !version_fits(config, program) {
        Seq::empty()
    } else {
        let menu = match args.template {
            Some(_) => Seq::empty(),
            None => menu_exchanges(config, args.backend, outside.picked),
        };
        match chosen(args, config, outside.picked) {
            Err(_) => menu,
            Ok(i) => menu + template_exchanges(
                config.templates@[i].1,
                args.value_overrides@,
                args.shell_trust,
                args.backend,
                outside,
            ),
        }
    }
}

/// Renders what the arguments ask for, from a configuration that was parsed
/// from their text, for a program of the version `program`.
pub fn select_and_render<U: UserInput, S: System>(
    invoke_options: &RenderArguments,
    config: &Config,
    program: &str,
    session: &mut Session<U, S>,
) -> (r: Result<String, Error>)
    ensures
        exists|outside: Outside|
            outcome(r) == #[trigger] whole_outcome(*invoke_options, *config, program@, outside)
                && final(session).trace() == old(session).trace() + whole_exchanges(
                *invoke_options,
                *config,
                program@,
                outside,
            ) && (outcome(r) is Ok ==> 0 <= chosen(
                *invoke_options,
                *config,
                outside.picked,
            )->Ok_0 < config.templates@.len() && helper_runs(
                config.templates@[chosen(*invoke_options, *config, outside.picked)->Ok_0].1.helpers@,
                outside.helped,
            )),
{
    let ghost start = session.trace();
    let ghost blank = Outside {
        picked: Err(Error::Headless),
        file: Err(Error::Headless),
        answers: Seq::empty(),
        helped: Seq::empty(),
        raw: Ok(Seq::empty()),
    };
    match check_version(config.version.as_str(), program) {
        Ok(_) => {},
        Err(e) => {
            let r = Err(e);
            proof {
                assert(outcome(r) == whole_outcome(*invoke_options, *config, program@, blank));
                assert(start =~= start + whole_exchanges(
                    *invoke_options,
                    *config,
                    program@,
                    blank,
                ));
            }
            return r;
        },
    }
    let ghost mut picked = blank.picked;
    let template = match &invoke_options.template {
        Some(name) => match config.template(name.as_str()) {
            Some(template) => template,
            None => {
                let r = Err(Error::TemplateNotFound(name.clone()));
                proof {
                    assert(outcome(r) == whole_outcome(*invoke_options, *config, program@, blank));
                    assert(start =~= start + whole_exchanges(
                        *invoke_options,
                        *config,
                        program@,
                        blank,
                    ));
                }
                return r;
            },
        },
        None => {
            let found = select_template(config, invoke_options.backend, session);
            proof {
                picked = choose|picked: Result<usize, Error>|
                    is_choice(
                        *config,
                        found,
                        #[trigger] menu_choice(*config, invoke_options.backend, picked),
                    ) && session.trace() == start + menu_exchanges(
                        *config,
                        invoke_options.backend,
                        picked,
                    );
            }
            match found {
                Ok(template) => template,
                Err(e) => {
                    let r = Err(e);
                    proof {
                        let outside = Outside { picked, ..blank };
                        assert(outcome(r) == whole_outcome(
                            *invoke_options,
                            *config,
                            program@,
                            outside,
                        ));
                        assert(session.trace() =~= start + whole_exchanges(
                            *invoke_options,
                            *config,
                            program@,
                            outside,
                        ));
                    }
                    return r;
                },
            }
        },
    };
    let ghost menu = session.trace();
    let strict = !invoke_options.loose;
    let r = render_template(
        template,
        &invoke_options.value_overrides,
        invoke_options.shell_trust,
        invoke_options.backend,
        strict,
        session,
    );
    proof {
        let inner = choose|outside: Outside|
            outcome(r) == #[trigger] template_outcome(
                *template,
                invoke_options.value_overrides@,
                invoke_options.shell_trust,
                invoke_options.backend,
                strict,
                outside,
            ) && helper_runs(template.helpers@, outside.helped) && session.trace() == menu
                + template_exchanges(
                *template,
                invoke_options.value_overrides@,
                invoke_options.shell_trust,
                invoke_options.backend,
                outside,
            );
        let outside = Outside { picked, ..inner };
        assert(outcome(r) == whole_outcome(*invoke_options, *config, program@, outside));
        assert(session.trace() =~= start + whole_exchanges(
            *invoke_options,
            *config,
            program@,
            outside,
        ));
    }
    r
}

} // verus!
