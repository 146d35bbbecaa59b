//! Rendering: the namespace tree is substituted into the body of a template.
//!
//! The template language is that of the `handlebars` crate. Nothing is
//! escaped: what a value holds is what the output gets.

use vstd::prelude::*;
use vstd::string::*;
use crate::config::Helper;
use crate::error::Error;
use crate::error::ErrorView;
use crate::error::message_of;
use crate::error::outcome;
use crate::json::json_tree;
use crate::json::to_json;
use crate::namespace::TreeModel;
use crate::namespace::TreeValue;
use crate::shell::CommandOutput;
use crate::shell::ShellTrust;
use crate::shell::System;
use crate::shell::shell;
use crate::shell::shell_exchanges;
use crate::shell::shell_model;
use crate::shell::shell_outcome;
use crate::backend::UserInput;
use crate::session::Exchange;
use crate::session::Session;
use crate::text::flat_model;

verus! {

/// `handlebars::RenderError`: the engine's error, which the proofs do not
/// look into.
#[verifier::external_type_specification]
#[verifier::external_body]
pub struct ExRenderError(handlebars::RenderError);

/// Why the template engine gave up.
#[derive(Debug, Clone)]
pub struct RenderFailure {
    /// Whether the template refers to a value that the tree does not have,
    /// which is a failure in strict mode only.
    pub undefined: bool,
    /// The engine's own description of the failure.
    pub message: String,
}

/// The value of what the engine returns: the rendered text, or whether the
/// failure is an undefined value, and the description.
pub open spec fn engine_view(r: Result<String, RenderFailure>) -> Result<
    Seq<char>,
    (bool, Seq<char>),
> {
    match r {
        Ok(text) => Ok(text@),
        Err(failure) => Err((failure.undefined, failure.message@)),
    }
}

/// What `handlebars` makes of a template body and a tree of values, with
/// nothing escaped, strict or not, and with no helper registered but the
/// engine's own.
pub uninterp spec fn rendered(content: Seq<char>, data: TreeModel, strict: bool) -> Result<
    Seq<char>,
    (bool, Seq<char>),
>;

/// What an error of `handlebars` says: whether its reason is a variable that
/// is missing in strict mode, and its description.
pub uninterp spec fn failure_model(error: handlebars::RenderError) -> (bool, Seq<char>);

/// The value of what the engine's call returns.
pub open spec fn raw_view(r: Result<String, handlebars::RenderError>) -> Result<
    Seq<char>,
    (bool, Seq<char>),
> {
    match r {
        Ok(text) => Ok(text@),
        Err(error) => Err(failure_model(error)),
    }
}

/// What a helper's call amounts to, given the run of the helper's command: a
/// call without a text as its first argument fails; the command needs
/// ultimate trust, and the call is then what the run amounts to.
pub open spec fn helper_outcome(
    command: Seq<char>,
    argument: Option<&str>,
    trust: ShellTrust,
    ran: Result<CommandOutput, Error>,
) -> Result<Seq<char>, ErrorView> {
    match argument {
        None => Err(ErrorView::Render("parameter is not a string"@)),
        Some(_) => shell_model(command, trust, ran),
    }
}

/// The environment that a helper's command gets on top of the system's own:
/// the argument of the call, under the name `VALUE`.
pub open spec fn helper_env_model(argument: Seq<char>) -> Seq<(Seq<char>, Seq<char>)> {
    seq![("VALUE"@, argument)]
}

/// The exchanges of a helper's call: none without a text as its first
/// argument, else those of running the helper's command with the argument in
/// its environment.
pub open spec fn helper_exchanges(
    command: Seq<char>,
    argument: Option<&str>,
    trust: ShellTrust,
    ran: Result<CommandOutput, Error>,
) -> Seq<Exchange> {
    match argument {
        None => Seq::empty(),
        Some(value) => shell_exchanges(command, helper_env_model(value@), trust, ran),
    }
}

/// The environment that a helper's command gets on top of the system's own.
pub fn helper_env(argument: &str) -> (env: Vec<(String, String)>)
    ensures
        flat_model(env@) == helper_env_model(argument@),
{
    let mut env: Vec<(String, String)> = Vec::new();
    env.push((String::from_str("VALUE"), argument.to_owned()));
    assert(flat_model(env@) =~= helper_env_model(argument@));
    env
}

/// The text that stands in place of a helper's call: the helper's command is
/// run through the shell, with the call's first argument in the environment
/// variable `VALUE`. A call without a text as its first argument fails, and
/// so does one without ultimate trust; neither runs anything.
pub fn helper_text<U: UserInput, S: System>(
    command: &str,
    argument: Option<&str>,
    trust: ShellTrust,
    session: &mut Session<U, S>,
) -> (r: Result<String, Error>)
    ensures
        exists|ran: Result<CommandOutput, Error>|
            outcome(r) == #[trigger] helper_outcome(command@, argument, trust, ran) && final(session).trace() == old(session).trace() + helper_exchanges(command@, argument, trust, ran),
        argument is None || trust != ShellTrust::Ultimate ==> *final(session) == *old(session),
{
    match argument {
        None => {
            let r = Err(Error::Render(String::from_str("parameter is not a string")));
            proof {
                let ran = Err::<CommandOutput, Error>(Error::NoTrust);
                assert(outcome(r) == helper_outcome(command@, argument, trust, ran));
                assert(session.trace() =~= old(session).trace() + helper_exchanges(
                    command@,
                    argument,
                    trust,
                    ran,
                ));
            }
            r
        },
        Some(value) => {
            let env = helper_env(value);
            let r = shell(command, &env, trust, session);
            proof {
                let ran = choose|ran: Result<CommandOutput, Error>|
                    outcome(r) == #[trigger] shell_model(command@, trust, ran) && session.trace()
                        == old(session).trace() + shell_exchanges(
                        command@,
                        flat_model(env@),
                        trust,
                        ran,
                    );
                assert(outcome(r) == helper_outcome(command@, argument, trust, ran));
            }
            r
        },
    }
}

/// A result with its error as the text shown for it.
pub open spec fn described(r: Result<Seq<char>, ErrorView>) -> Result<Seq<char>, Seq<char>> {
    match r {
        Ok(text) => Ok(text),
        Err(e) => Err(message_of(e)),
    }
}

/// The value of a result that is a text either way.
pub open spec fn texts(r: Result<String, String>) -> Result<Seq<char>, Seq<char>> {
    match r {
        Ok(text) => Ok(text@),
        Err(message) => Err(message@),
    }
}

/// [`helper_text`] with its error as the text shown for it, which is what the
/// engine takes from a helper that fails.
pub fn helper_output<U: UserInput, S: System>(
    command: &str,
    argument: Option<&str>,
    trust: ShellTrust,
    session: &mut Session<U, S>,
) -> (r: Result<String, String>)
    ensures
        exists|ran: Result<CommandOutput, Error>|
            texts(r) == described(#[trigger] helper_outcome(command@, argument, trust, ran))
                && final(session).trace() == old(session).trace() + helper_exchanges(
                command@,
                argument,
                trust,
                ran,
            ),
        argument is None || trust != ShellTrust::Ultimate ==> *final(session) == *old(session),
{
    let text = helper_text(command, argument, trust, session);
    let ghost ran = choose|ran: Result<CommandOutput, Error>|
        outcome(text) == #[trigger] helper_outcome(command@, argument, trust, ran)
            && session.trace() == old(session).trace() + helper_exchanges(
            command@,
            argument,
            trust,
            ran,
        );
    let r = match text {
        Ok(text) => Ok(text),
        Err(e) => Err(e.message()),
    };
    assert(texts(r) == described(helper_outcome(command@, argument, trust, ran)));
    r
}

/// Whether the exchange is the run of the command of one of the helpers,
/// with nothing but `VALUE` added to its environment.
pub open spec fn is_helper_run(helpers: Seq<(String, Helper)>, exchange: Exchange) -> bool {
    match exchange {
        Exchange::Run { command, env, ran } => env.len() == 1 && env[0].0 == "VALUE"@ && exists|
            k: int,
        |
            0 <= k < helpers.len() && helpers[k].1.shell@ == command,
        _ => false,
    }
}

/// Whether `after` is `before` followed by runs of helpers and nothing else.
pub open spec fn grown_by_helpers(
    helpers: Seq<(String, Helper)>,
    before: Seq<Exchange>,
    after: Seq<Exchange>,
) -> bool {
    &&& before.len() <= after.len()
    &&& after.take(before.len() as int) == before
    &&& forall|i: int| before.len() <= i < after.len() ==> is_helper_run(helpers, after[i])
}

/// `handlebars::Handlebars::render_template`, on a new registry with
/// `handlebars::no_escape` as its escape function, the strict mode as given,
/// and each helper registered under its name. A helper's call hands the
/// call's first argument, where it is a text, to [`helper_output`], and writes
/// the text that comes back or fails with the description; the session is
/// reached in no other way. Without helpers the result is what the engine
/// makes of the body and the data alone.
#[verifier::external_body]
fn render_with<U: UserInput, S: System>(
    content: &str,
    data: &serde_json::Value,
    strict: bool,
    helpers: &Vec<(String, Helper)>,
    trust: ShellTrust,
    session: &mut Session<U, S>,
) -> (r: Result<String, handlebars::RenderError>)
    ensures
        helpers@.len() == 0 ==> raw_view(r) == rendered(content@, json_tree(*data), strict),
        helpers@.len() == 0 ==> *final(session) == *old(session),
        grown_by_helpers(helpers@, old(session).trace(), final(session).trace()),
{
    let shared = std::sync::Mutex::new(session);
    let mut registry = handlebars::Handlebars::new();
    registry.register_escape_fn(handlebars::no_escape);
    registry.set_strict_mode(strict);
    for (name, helper) in helpers.iter() {
        registry.register_helper(name, Box::new(|h: &handlebars::Helper, _: &handlebars::Handlebars, _: &handlebars::Context, _: &mut handlebars::RenderContext, out: &mut dyn handlebars::Output| -> handlebars::HelperResult {
            let argument = h.param(0).and_then(|p| p.value().as_str());
            let text = helper_output(&helper.shell, argument, trust, &mut **shared.lock().unwrap());
            Ok(out.write(&text.map_err(handlebars::RenderErrorReason::Other)?)?)
        }));
    }
    registry.render_template(content, data)
}

/// `handlebars::RenderError::reason` and the error's `to_string`: whether the
/// reason is `RenderErrorReason::MissingVariable`, and the description.
#[verifier::external_body]
fn failure_of(error: handlebars::RenderError) -> (failure: RenderFailure)
    ensures
        (failure.undefined, failure.message@) == failure_model(error),
{
    RenderFailure {
        undefined: matches!(error.reason(), handlebars::RenderErrorReason::MissingVariable(_)),
        message: error.to_string(),
    }
}

/// What a render amounts to: the engine's text, `UndefinedVariable` where the
/// engine failed on a value that the tree does not have, `Render` for every
/// other failure of the engine; each error with the engine's description.
pub open spec fn render_outcome(raw: Result<Seq<char>, (bool, Seq<char>)>) -> Result<
    Seq<char>,
    ErrorView,
> {
    match raw {
        Ok(text) => Ok(text),
        Err((undefined, message)) => if undefined {
            Err(ErrorView::UndefinedVariable(message))
        } else {
            Err(ErrorView::Render(message))
        },
    }
}

/// Turns what the engine returned into the result of the render.
pub fn render_result(raw: Result<String, RenderFailure>) -> (r: Result<String, Error>)
    ensures
        outcome(r) == render_outcome(engine_view(raw)),
{
    match raw {
        Ok(text) => Ok(text),
        Err(failure) => if failure.undefined {
            Err(Error::UndefinedVariable(failure.message))
        } else {
            Err(Error::Render(failure.message))
        },
    }
}

/// What [`render`] amounts to, given what the engine returned where helpers
/// took part: `NoTrust` where there are helpers without ultimate trust; what
/// the engine makes of body and tree alone where there are no helpers.
pub open spec fn render_model(
    content: Seq<char>,
    tree: TreeModel,
    helpers: nat,
    trust: ShellTrust,
    strict: bool,
    raw: Result<Seq<char>, (bool, Seq<char>)>,
) -> Result<Seq<char>, ErrorView> {
    if helpers > 0 && trust != ShellTrust::Ultimate {
        Err(ErrorView::NoTrust)
    } else if helpers == 0 {
        render_outcome(rendered(content, tree, strict))
    } else {
        render_outcome(raw)
    }
}

/// Renders the body of a template over a tree of values.
///
/// In strict mode a reference to a value that the tree does not have is an
/// error; otherwise it renders as nothing. Where there are helpers, ultimate
/// trust is needed, whether or not the body calls one: without it the render
/// fails with `NoTrust` before anything is substituted. Without helpers the
/// result is the engine's alone. Nothing is exchanged with the outside but
/// the runs of helpers.
pub fn render<U: UserInput, S: System>(
    content: &str,
    tree: &TreeValue,
    helpers: &Vec<(String, Helper)>,
    trust: ShellTrust,
    strict: bool,
    session: &mut Session<U, S>,
) -> (r: Result<String, Error>)
    ensures
        helpers@.len() > 0 && trust != ShellTrust::Ultimate ==> outcome(r) == Err::<
            Seq<char>,
            ErrorView,
        >(ErrorView::NoTrust),
        helpers@.len() == 0 ==> outcome(r) == render_outcome(rendered(content@, tree@, strict)),
        exists|raw: Result<Seq<char>, (bool, Seq<char>)>|
            outcome(r) == render_model(content@, tree@, helpers@.len(), trust, strict, raw),
        helpers@.len() == 0 || trust != ShellTrust::Ultimate ==> *final(session) == *old(session),
        grown_by_helpers(helpers@, old(session).trace(), final(session).trace()),
{
    if helpers.len() > 0 && trust != ShellTrust::Ultimate {
        let r = Err(Error::NoTrust);
        assert(outcome(r) == render_model(
            content@,
            tree@,
            helpers@.len(),
            trust,
            strict,
            Ok::<Seq<char>, (bool, Seq<char>)>(Seq::empty()),
        ));
        assert(session.trace().take(session.trace().len() as int) =~= session.trace());
        return r;
    }
    let data = to_json(tree);
    let raw = match render_with(content, &data, strict, helpers, trust, session) {
        Ok(text) => Ok(text),
        Err(error) => Err(failure_of(error)),
    };
    let r = render_result(raw);
    assert(outcome(r) == render_model(
        content@,
        tree@,
        helpers@.len(),
        trust,
        strict,
        engine_view(raw),
    ));
    r
}

} // verus!
