use complate::backend::{ask_check, ask_prompt, ask_select, Backend, HeadlessBackend, UserInput};
use complate::config::{Option as Choice, OptionValue, VariableDefinition};
use complate::error::Error;
use complate::resolve::{checked, displays, env_result, option_value, selected, Resolve};
use complate::session::Session;
use complate::shell::{shell, shell_result, CommandOutput, ShellTrust, System};
use complate::template::{helper_env, helper_output, helper_text};

struct Host {
    runs: Vec<(String, Vec<(String, String)>)>,
    lookups: Vec<String>,
}

fn host() -> Host {
    Host { runs: Vec::new(), lookups: Vec::new() }
}

impl System for Host {
    fn variable(&mut self, name: &str) -> Option<String> {
        self.lookups.push(name.to_string());
        if name == "HOME" {
            Some("/home/user\n".to_string())
        } else {
            None
        }
    }

    fn run(&mut self, command: &str, env: &Vec<(String, String)>) -> Result<CommandOutput, Error> {
        self.runs.push((command.to_string(), env.clone()));
        match command {
            "printf bravo" => Ok(CommandOutput { code: Some(0), stdout: "bravo".to_string() }),
            "echo charlie" => Ok(CommandOutput { code: Some(0), stdout: "charlie\n".to_string() }),
            "false" => Ok(CommandOutput { code: Some(1), stdout: "ignored".to_string() }),
            "killed" => Ok(CommandOutput { code: None, stdout: "partial".to_string() }),
            _ => Err(Error::Host("cannot start".to_string())),
        }
    }

    fn read(&mut self, _path: &str) -> Result<String, Error> {
        Err(Error::Host("no files".to_string()))
    }
}

struct Terminal {
    line: Result<String, Error>,
    pick: Result<usize, Error>,
    picks: Result<Vec<usize>, Error>,
    asked: Vec<(String, Vec<String>)>,
}

fn terminal() -> Terminal {
    Terminal {
        line: Err(Error::InteractAbort),
        pick: Err(Error::InteractAbort),
        picks: Err(Error::InteractAbort),
        asked: Vec::new(),
    }
}

impl UserInput for Terminal {
    fn prompt(&mut self, text: &str) -> Result<String, Error> {
        self.asked.push((text.to_string(), Vec::new()));
        self.line.clone()
    }

    fn select(&mut self, prompt: &str, displays: &Vec<String>) -> Result<usize, Error> {
        self.asked.push((prompt.to_string(), displays.clone()));
        self.pick.clone()
    }

    fn check(&mut self, prompt: &str, displays: &Vec<String>) -> Result<Vec<usize>, Error> {
        self.asked.push((prompt.to_string(), displays.clone()));
        self.picks.clone()
    }
}

fn options() -> Vec<(String, Choice)> {
    vec![
        (
            "one".to_string(),
            Choice { display: "Alpha".to_string(), value: OptionValue::Static("alpha".to_string()) },
        ),
        (
            "two".to_string(),
            Choice {
                display: "Bravo".to_string(),
                value: OptionValue::Shell("printf bravo".to_string()),
            },
        ),
        (
            "three".to_string(),
            Choice { display: "Delta".to_string(), value: OptionValue::Static("delta".to_string()) },
        ),
    ]
}

/// Runs `f` in a session of the terminal and the host, and hands both back.
fn within<T>(
    terminal: &mut Terminal,
    host: &mut Host,
    f: impl FnOnce(&mut Session<Terminal, Host>) -> T,
) -> T {
    let t = std::mem::replace(terminal, self::terminal());
    let h = std::mem::replace(host, self::host());
    let mut session = Session::new(t, h);
    let out = f(&mut session);
    let (t, h) = session.into_parts();
    *terminal = t;
    *host = h;
    out
}

fn resolve(
    definition: &VariableDefinition,
    trust: ShellTrust,
    backend: Backend,
    terminal: &mut Terminal,
    host: &mut Host,
) -> Result<String, Error> {
    within(terminal, host, |s| definition.execute(trust, backend, s))
}

fn on_host<T>(host: &mut Host, f: impl FnOnce(&mut Session<Terminal, Host>) -> T) -> T {
    within(&mut terminal(), host, f)
}

#[test]
fn static_resolves_to_its_text() {
    let definition = VariableDefinition::Static("v with spaces\n".to_string());
    for trust in [ShellTrust::Untrusted, ShellTrust::Ultimate] {
        for backend in [Backend::Headless, Backend::CLI] {
            let mut t = terminal();
            let mut h = host();
            let out = resolve(&definition, trust, backend, &mut t, &mut h);
            assert_eq!(out.unwrap(), "v with spaces\n");
            assert!(t.asked.is_empty());
            assert!(h.runs.is_empty() && h.lookups.is_empty());
        }
    }
}

#[test]
fn argument_is_always_missing() {
    let out = resolve(
        &VariableDefinition::Arg,
        ShellTrust::Ultimate,
        Backend::CLI,
        &mut terminal(),
        &mut host(),
    );
    assert!(matches!(out, Err(Error::MissingArgument)));
}

#[test]
fn environment_variable_resolves_to_its_exact_value() {
    let mut h = host();
    let set = VariableDefinition::Env("HOME".to_string());
    let out = resolve(&set, ShellTrust::Untrusted, Backend::Headless, &mut terminal(), &mut h);
    assert_eq!(out.unwrap(), "/home/user\n");
    let unset = VariableDefinition::Env("NOPE".to_string());
    let out = resolve(&unset, ShellTrust::Untrusted, Backend::Headless, &mut terminal(), &mut h);
    match out {
        Err(Error::MissingEnvironment(name)) => assert_eq!(name, "NOPE"),
        other => panic!("unexpected: {:?}", other),
    }
    assert_eq!(h.lookups, vec!["HOME".to_string(), "NOPE".to_string()]);
    assert_eq!(env_result("X", Some(String::new())).unwrap(), "");
    assert!(matches!(env_result("X", None), Err(Error::MissingEnvironment(_))));
}

#[test]
fn shell_without_trust_fails_and_runs_nothing() {
    let mut h = host();
    let definition = VariableDefinition::Shell("printf bravo".to_string());
    for backend in [Backend::Headless, Backend::CLI] {
        let out = resolve(&definition, ShellTrust::Untrusted, backend, &mut terminal(), &mut h);
        assert!(matches!(out, Err(Error::NoTrust)));
    }
    assert!(matches!(
        on_host(&mut h, |s| shell("printf bravo", &Vec::new(), ShellTrust::Untrusted, s)),
        Err(Error::NoTrust)
    ));
    assert!(h.runs.is_empty());
}

#[test]
fn shell_with_trust_returns_stdout_verbatim() {
    let mut h = host();
    let definition = VariableDefinition::Shell("echo charlie".to_string());
    let out = resolve(&definition, ShellTrust::Ultimate, Backend::Headless, &mut terminal(), &mut h);
    assert_eq!(out.unwrap(), "charlie\n");
    assert_eq!(h.runs, vec![("echo charlie".to_string(), Vec::new())]);
}

#[test]
fn shell_with_trust_fails_on_a_status_other_than_zero() {
    let mut h = host();
    let definition = VariableDefinition::Shell("false".to_string());
    let out = resolve(&definition, ShellTrust::Ultimate, Backend::Headless, &mut terminal(), &mut h);
    match out {
        Err(Error::ShellCommand(command)) => assert_eq!(command, "false"),
        other => panic!("unexpected: {:?}", other),
    }
    let out = on_host(&mut h, |s| shell("killed", &Vec::new(), ShellTrust::Ultimate, s));
    assert!(matches!(out, Err(Error::ShellCommand(_))));
    let out = on_host(&mut h, |s| shell("unknown", &Vec::new(), ShellTrust::Ultimate, s));
    match out {
        Err(Error::Host(message)) => assert_eq!(message, "cannot start"),
        other => panic!("unexpected: {:?}", other),
    }
}

#[test]
fn shell_hands_the_environment_on() {
    let mut h = host();
    let env = vec![("VALUE".to_string(), "x".to_string())];
    on_host(&mut h, |s| shell("printf bravo", &env, ShellTrust::Ultimate, s)).unwrap();
    assert_eq!(h.runs, vec![("printf bravo".to_string(), env)]);
}

#[test]
fn shell_result_judges_the_exit_status() {
    let done = |code, stdout: &str| Ok(CommandOutput { code, stdout: stdout.to_string() });
    assert_eq!(shell_result("c", done(Some(0), " out \n")).unwrap(), " out \n");
    assert!(matches!(shell_result("c", done(Some(2), "out")), Err(Error::ShellCommand(c)) if c == "c"));
    assert!(matches!(shell_result("c", done(Some(-1), "")), Err(Error::ShellCommand(_))));
    assert!(matches!(shell_result("c", done(None, "")), Err(Error::ShellCommand(_))));
    assert!(matches!(shell_result("c", Err(Error::Host("h".to_string()))), Err(Error::Host(m)) if m == "h"));
}

#[test]
fn prompt_asks_the_terminal() {
    let mut t = terminal();
    t.line = Ok("typed".to_string());
    let definition = VariableDefinition::Prompt("Your name".to_string());
    let out = resolve(&definition, ShellTrust::Untrusted, Backend::CLI, &mut t, &mut host());
    assert_eq!(out.unwrap(), "typed");
    assert_eq!(t.asked, vec![("Your name".to_string(), Vec::new())]);
    t.line = Err(Error::InteractAbort);
    let out = resolve(&definition, ShellTrust::Untrusted, Backend::CLI, &mut t, &mut host());
    assert!(matches!(out, Err(Error::InteractAbort)));
}

#[test]
fn headless_backend_fails_every_question() {
    let mut t = terminal();
    t.line = Ok("typed".to_string());
    t.pick = Ok(0);
    t.picks = Ok(vec![0]);
    let definitions = vec![
        VariableDefinition::Prompt("p".to_string()),
        VariableDefinition::Select { text: "s".to_string(), options: options() },
        VariableDefinition::Check {
            text: "c".to_string(),
            separator: ", ".to_string(),
            options: options(),
        },
    ];
    for definition in &definitions {
        let out = resolve(definition, ShellTrust::Ultimate, Backend::Headless, &mut t, &mut host());
        assert!(matches!(out, Err(Error::Headless)));
    }
    assert!(t.asked.is_empty());
    let mut h = host();
    let none = Vec::new();
    let asked = within(&mut t, &mut h, |s| ask_prompt(Backend::Headless, s, "p"));
    assert!(matches!(asked, Err(Error::Headless)));
    let asked = within(&mut t, &mut h, |s| ask_select(Backend::Headless, s, "p", &none));
    assert!(matches!(asked, Err(Error::Headless)));
    let asked = within(&mut t, &mut h, |s| ask_check(Backend::Headless, s, "p", &none));
    assert!(matches!(asked, Err(Error::Headless)));
    assert!(t.asked.is_empty());
    let asked = within(&mut t, &mut h, |s| ask_prompt(Backend::CLI, s, "p"));
    assert_eq!(asked.unwrap(), "typed");
    assert_eq!(within(&mut t, &mut h, |s| ask_select(Backend::CLI, s, "p", &none)).unwrap(), 0);
    assert_eq!(within(&mut t, &mut h, |s| ask_check(Backend::CLI, s, "p", &none)).unwrap(), vec![0]);
    assert_eq!(t.asked.len(), 3);
    let mut headless = HeadlessBackend::new();
    assert!(matches!(headless.prompt("p"), Err(Error::Headless)));
    assert!(matches!(headless.select("p", &Vec::new()), Err(Error::Headless)));
    assert!(matches!(headless.check("p", &Vec::new()), Err(Error::Headless)));
}

#[test]
fn select_shows_the_displays_and_resolves_the_pick() {
    let definition = VariableDefinition::Select { text: "Level".to_string(), options: options() };
    let mut t = terminal();
    let mut h = host();
    t.pick = Ok(2);
    let out = resolve(&definition, ShellTrust::Untrusted, Backend::CLI, &mut t, &mut h);
    assert_eq!(out.unwrap(), "delta");
    assert_eq!(
        t.asked,
        vec![(
            "Level".to_string(),
            vec!["Alpha".to_string(), "Bravo".to_string(), "Delta".to_string()]
        )]
    );
    t.pick = Ok(1);
    let out = resolve(&definition, ShellTrust::Untrusted, Backend::CLI, &mut t, &mut h);
    assert!(matches!(out, Err(Error::NoTrust)));
    assert!(h.runs.is_empty());
    let out = resolve(&definition, ShellTrust::Ultimate, Backend::CLI, &mut t, &mut h);
    assert_eq!(out.unwrap(), "bravo");
    assert_eq!(h.runs.len(), 1);
    t.pick = Ok(3);
    let out = resolve(&definition, ShellTrust::Ultimate, Backend::CLI, &mut t, &mut h);
    assert!(matches!(out, Err(Error::InvalidSelection)));
    t.pick = Err(Error::InteractAbort);
    let out = resolve(&definition, ShellTrust::Ultimate, Backend::CLI, &mut t, &mut h);
    assert!(matches!(out, Err(Error::InteractAbort)));
}

#[test]
fn check_joins_the_picks_in_the_order_of_the_backend() {
    let definition = VariableDefinition::Check {
        text: "Parts".to_string(),
        separator: ", ".to_string(),
        options: options(),
    };
    let mut t = terminal();
    let mut h = host();
    t.picks = Ok(vec![2, 0]);
    let out = resolve(&definition, ShellTrust::Untrusted, Backend::CLI, &mut t, &mut h);
    assert_eq!(out.unwrap(), "delta, alpha");
    t.picks = Ok(vec![0, 1, 2, 1]);
    let out = resolve(&definition, ShellTrust::Ultimate, Backend::CLI, &mut t, &mut h);
    assert_eq!(out.unwrap(), "alpha, bravo, delta, bravo");
    assert_eq!(h.runs.len(), 2);
    t.picks = Ok(vec![1]);
    let out = resolve(&definition, ShellTrust::Ultimate, Backend::CLI, &mut t, &mut h);
    assert_eq!(out.unwrap(), "bravo");
    t.picks = Ok(Vec::new());
    let out = resolve(&definition, ShellTrust::Ultimate, Backend::CLI, &mut t, &mut h);
    assert_eq!(out.unwrap(), "");
}

#[test]
fn check_joins_with_any_separator() {
    let mut h = host();
    let mut joined = |separator: &str| {
        on_host(&mut h, |s| checked(&options(), separator, Ok(vec![0, 2, 0]), ShellTrust::Untrusted, s))
            .unwrap()
    };
    assert_eq!(joined(""), "alphadeltaalpha");
    assert_eq!(joined("-"), "alpha-delta-alpha");
    assert_eq!(joined(" and "), "alpha and delta and alpha");
}

#[test]
fn check_stops_at_the_first_failing_pick() {
    let mut h = host();
    let mut check = |picked, trust| on_host(&mut h, |s| checked(&options(), ",", picked, trust, s));
    let out = check(Ok(vec![0, 1, 9]), ShellTrust::Untrusted);
    assert!(matches!(out, Err(Error::NoTrust)));
    let out = check(Ok(vec![0, 9, 1]), ShellTrust::Untrusted);
    assert!(matches!(out, Err(Error::InvalidSelection)));
    let out = check(Ok(vec![1, 9, 1]), ShellTrust::Ultimate);
    assert!(matches!(out, Err(Error::InvalidSelection)));
    let out = check(Err(Error::InteractAbort), ShellTrust::Ultimate);
    assert!(matches!(out, Err(Error::InteractAbort)));
    assert_eq!(h.runs.len(), 1);
}

#[test]
fn selection_is_resolved_from_the_answer() {
    let mut h = host();
    let mut select = |picked, trust| on_host(&mut h, |s| selected(&options(), picked, trust, s));
    assert_eq!(select(Ok(0), ShellTrust::Untrusted).unwrap(), "alpha");
    assert!(matches!(select(Ok(3), ShellTrust::Ultimate), Err(Error::InvalidSelection)));
    assert!(matches!(select(Err(Error::InteractAbort), ShellTrust::Ultimate), Err(Error::InteractAbort)));
    assert!(h.runs.is_empty());
    let shell_value = OptionValue::Shell("false".to_string());
    let out = on_host(&mut h, |s| option_value(&shell_value, ShellTrust::Ultimate, s));
    assert!(matches!(out, Err(Error::ShellCommand(_))));
    assert_eq!(h.runs.len(), 1);
    assert_eq!(displays(&options()), vec!["Alpha", "Bravo", "Delta"]);
}

#[test]
fn helper_gets_its_argument_as_value() {
    assert_eq!(helper_env("dGVzdA=="), vec![("VALUE".to_string(), "dGVzdA==".to_string())]);
    let mut h = host();
    let out = on_host(&mut h, |s| helper_text("echo charlie", Some("x y"), ShellTrust::Ultimate, s));
    assert_eq!(out.unwrap(), "charlie\n");
    assert_eq!(
        h.runs,
        vec![("echo charlie".to_string(), vec![("VALUE".to_string(), "x y".to_string())])]
    );
}

#[test]
fn helper_fails_without_a_text_or_without_trust() {
    let mut h = host();
    let out = on_host(&mut h, |s| helper_text("printf bravo", None, ShellTrust::Ultimate, s));
    assert!(matches!(out, Err(Error::Render(m)) if m == "parameter is not a string"));
    let out = on_host(&mut h, |s| helper_text("printf bravo", Some("x"), ShellTrust::Untrusted, s));
    assert!(matches!(out, Err(Error::NoTrust)));
    let out = on_host(&mut h, |s| helper_output("printf bravo", None, ShellTrust::Ultimate, s));
    assert_eq!(out, Err("render: parameter is not a string".to_string()));
    let out = on_host(&mut h, |s| helper_output("printf bravo", Some("x"), ShellTrust::Untrusted, s));
    assert_eq!(out, Err("no trust: need trust for executing shell commands".to_string()));
    assert!(h.runs.is_empty());
    let out = on_host(&mut h, |s| helper_output("false", Some("x"), ShellTrust::Ultimate, s));
    assert_eq!(out, Err("shell command: false".to_string()));
    let out = on_host(&mut h, |s| helper_output("printf bravo", Some("x"), ShellTrust::Ultimate, s));
    assert_eq!(out, Ok("bravo".to_string()));
    assert_eq!(h.runs.len(), 2);
}
