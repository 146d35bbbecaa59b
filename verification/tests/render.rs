use complate::backend::{Backend, UserInput};
use complate::config::{Config, Content, Helper, Template, VariableDefinition};
use complate::error::Error;
use complate::render::{
    populate_variables, render_template, select_and_render, select_template, RenderArguments,
};
use complate::session::Session;
use complate::shell::{CommandOutput, ShellTrust, System};

/// A machine with a fixed environment and a shell that knows a few commands.
struct Host {
    env: Vec<(String, String)>,
    files: Vec<(String, String)>,
    runs: Vec<String>,
    reads: usize,
    lookups: usize,
}

fn host() -> Host {
    Host { env: Vec::new(), files: Vec::new(), runs: Vec::new(), reads: 0, lookups: 0 }
}

fn decode(text: &str) -> String {
    let table = "ABCDEFGHIJKLMNOPQRSTUVWXYZabcdefghijklmnopqrstuvwxyz0123456789+/";
    let mut bits: u32 = 0;
    let mut count = 0;
    let mut bytes = Vec::new();
    for c in text.chars() {
        if let Some(v) = table.find(c) {
            bits = (bits << 6) | v as u32;
            count += 6;
            if count >= 8 {
                count -= 8;
                bytes.push((bits >> count) as u8);
                bits &= (1 << count) - 1;
            }
        }
    }
    String::from_utf8(bytes).unwrap()
}

impl System for Host {
    fn variable(&mut self, name: &str) -> Option<String> {
        self.lookups += 1;
        self.env.iter().find(|(k, _)| k == name).map(|(_, v)| v.clone())
    }

    fn run(&mut self, command: &str, env: &Vec<(String, String)>) -> Result<CommandOutput, Error> {
        self.runs.push(command.to_string());
        let value = |name: &str| {
            env.iter()
                .chain(self.env.iter())
                .find(|(k, _)| k == name)
                .map(|(_, v)| v.clone())
                .unwrap_or_default()
        };
        let (code, stdout) = match command {
            "printf $alpha" => (Some(0), value("alpha")),
            "printf bravo" => (Some(0), "bravo".to_string()),
            "printf \"$(printf $VALUE | base64 -D)\"" => (Some(0), decode(&value("VALUE"))),
            "printf $VALUE; exit 2" => (Some(2), value("VALUE")),
            _ => (Some(127), String::new()),
        };
        Ok(CommandOutput { code, stdout })
    }

    fn read(&mut self, path: &str) -> Result<String, Error> {
        self.reads += 1;
        match self.files.iter().find(|(k, _)| k == path) {
            Some((_, text)) => Ok(text.clone()),
            None => Err(Error::Host(format!("no such file: {}", path))),
        }
    }
}

/// A terminal that answers from a script and counts what it was asked.
struct Terminal {
    pick: Result<usize, Error>,
    asked: usize,
    shown: Vec<String>,
}

fn terminal() -> Terminal {
    Terminal { pick: Err(Error::InteractAbort), asked: 0, shown: Vec::new() }
}

impl UserInput for Terminal {
    fn prompt(&mut self, _text: &str) -> Result<String, Error> {
        self.asked += 1;
        Ok("typed".to_string())
    }

    fn select(&mut self, _prompt: &str, displays: &Vec<String>) -> Result<usize, Error> {
        self.asked += 1;
        self.shown = displays.clone();
        self.pick.clone()
    }

    fn check(&mut self, _prompt: &str, _displays: &Vec<String>) -> Result<Vec<usize>, Error> {
        self.asked += 1;
        Ok(Vec::new())
    }
}

fn template(content: &str, variables: Vec<(&str, VariableDefinition)>) -> Template {
    let mut t = Template::new(Content::Inline(content.to_string()));
    for (name, definition) in variables {
        t.variables.push((name.to_string(), definition));
    }
    t
}

fn config() -> Config {
    let mut config = Config::new("0.14".to_string());
    let alpha = "{{ a.alpha }}";
    config.templates.push((
        "var:static".to_string(),
        template(alpha, vec![("a.alpha", VariableDefinition::Static("alpha".to_string()))]),
    ));
    config.templates.push((
        "var:env".to_string(),
        template(alpha, vec![("a.alpha", VariableDefinition::Env("alpha".to_string()))]),
    ));
    config.templates.push((
        "var:shell".to_string(),
        template(alpha, vec![("a.alpha", VariableDefinition::Shell("printf $alpha".to_string()))]),
    ));
    config.templates.push((
        "override".to_string(),
        template(alpha, vec![("a.alpha", VariableDefinition::Shell("printf bravo".to_string()))]),
    ));
    let mut helper = template("{{ _decode \"YmFuYW5hcmFtYQ==\" }}", Vec::new());
    helper.helpers.push((
        "_decode".to_string(),
        Helper { shell: "printf \"$(printf $VALUE | base64 -D)\"".to_string() },
    ));
    config.templates.push(("helper".to_string(), helper));
    config.templates.push((
        "vals:multiple".to_string(),
        template(
            "{{ a.alpha }}\n{{ b.bravo }}",
            vec![("a.alpha", VariableDefinition::Arg), ("b.bravo", VariableDefinition::Arg)],
        ),
    ));
    config.templates.push((
        "var:argument".to_string(),
        template(alpha, vec![("a.alpha", VariableDefinition::Arg)]),
    ));
    config
}

fn arguments(name: &str, trust: ShellTrust, overrides: Vec<(&str, &str)>) -> RenderArguments {
    RenderArguments {
        configuration: String::new(),
        template: Some(name.to_string()),
        value_overrides: overrides
            .into_iter()
            .map(|(k, v)| (k.to_string(), v.to_string()))
            .collect(),
        shell_trust: trust,
        loose: false,
        backend: Backend::Headless,
    }
}

fn session(host: Host) -> Session<Terminal, Host> {
    Session::new(terminal(), host)
}

fn run(args: &RenderArguments, host: &mut Host) -> Result<String, Error> {
    let mut session = session(std::mem::replace(host, self::host()));
    let out = select_and_render(args, &config(), "0.14.2", &mut session);
    *host = session.into_parts().1;
    out
}

fn render_in(t: &Template, trust: ShellTrust, strict: bool, host: &mut Host) -> Result<String, Error> {
    let mut session = session(std::mem::replace(host, self::host()));
    let out = render_template(t, &Vec::new(), trust, Backend::Headless, strict, &mut session);
    *host = session.into_parts().1;
    out
}

#[test]
fn main_template_var_static() {
    let args = arguments("var:static", ShellTrust::Untrusted, Vec::new());
    assert!("alpha" == run(&args, &mut host()).unwrap());
}

#[test]
fn main_template_var_env() {
    let mut host = host();
    host.env.push(("alpha".to_string(), "alpha".to_string()));
    let args = arguments("var:env", ShellTrust::Untrusted, Vec::new());
    assert!("alpha" == run(&args, &mut host).unwrap());
}

#[test]
fn main_template_var_shell() {
    let mut host = host();
    host.env.push(("alpha".to_string(), "alpha".to_string()));
    let args = arguments("var:shell", ShellTrust::Ultimate, Vec::new());
    assert!("alpha" == run(&args, &mut host).unwrap());
}

#[test]
fn main_template_overrides() {
    let args = arguments("override", ShellTrust::Untrusted, vec![("a.alpha", "alpha")]);
    assert!("alpha" == run(&args, &mut host()).unwrap());
}

#[test]
fn main_template_helper() {
    let args = arguments("helper", ShellTrust::Ultimate, Vec::new());
    assert!("bananarama" == run(&args, &mut host()).unwrap());
}

#[test]
fn template_vals_multiple() {
    let args = arguments(
        "vals:multiple",
        ShellTrust::Ultimate,
        vec![("a.alpha", "alpha"), ("b.bravo", "bravo")],
    );
    assert!("alpha\nbravo" == run(&args, &mut host()).unwrap());
}

#[test]
fn template_var_argument() {
    let args = arguments("var:argument", ShellTrust::Untrusted, vec![("a.alpha", "alpha")]);
    assert!("alpha" == run(&args, &mut host()).unwrap());
}

#[test]
fn static_template_renders_under_every_trust_and_backend() {
    let mut config = Config::new("0.14".to_string());
    config.templates.push((
        "t".to_string(),
        template("{{ a }}", vec![("a", VariableDefinition::Static("alpha".to_string()))]),
    ));
    for trust in [ShellTrust::Untrusted, ShellTrust::Ultimate] {
        for backend in [Backend::Headless, Backend::CLI] {
            let mut args = arguments("t", trust, Vec::new());
            args.backend = backend;
            let mut session = session(host());
            let out = select_and_render(&args, &config, "0.14.0", &mut session);
            assert_eq!(out.unwrap(), "alpha");
            assert_eq!(session.terminal().asked, 0);
            assert!(session.system().runs.is_empty());
            assert_eq!(session.system().lookups, 0);
        }
    }
}

#[test]
fn argument_without_value_is_missing() {
    let args = arguments("var:argument", ShellTrust::Ultimate, Vec::new());
    assert!(matches!(run(&args, &mut host()), Err(Error::MissingArgument)));
}

#[test]
fn unset_environment_variable_fails_with_its_name() {
    let args = arguments("var:env", ShellTrust::Ultimate, Vec::new());
    match run(&args, &mut host()) {
        Err(Error::MissingEnvironment(name)) => assert_eq!(name, "alpha"),
        other => panic!("unexpected: {:?}", other),
    }
}

#[test]
fn shell_variable_without_trust_runs_nothing() {
    let mut host = host();
    let args = arguments("var:shell", ShellTrust::Untrusted, Vec::new());
    assert!(matches!(run(&args, &mut host), Err(Error::NoTrust)));
    assert!(host.runs.is_empty());
}

#[test]
fn override_suppresses_the_shell_command() {
    let mut host = host();
    let args = arguments("override", ShellTrust::Ultimate, vec![("a.alpha", "alpha")]);
    assert_eq!(run(&args, &mut host).unwrap(), "alpha");
    assert!(host.runs.is_empty());
    let args = arguments("override", ShellTrust::Ultimate, Vec::new());
    assert_eq!(run(&args, &mut host).unwrap(), "bravo");
    assert_eq!(host.runs, vec!["printf bravo".to_string()]);
}

#[test]
fn helpers_without_trust_fail_the_render() {
    let mut host = host();
    let args = arguments("helper", ShellTrust::Untrusted, Vec::new());
    assert!(matches!(run(&args, &mut host), Err(Error::NoTrust)));
    assert!(host.runs.is_empty());
}

#[test]
fn unused_helper_without_trust_fails_the_render() {
    let mut t = template("plain", Vec::new());
    t.helpers.push(("_unused".to_string(), Helper { shell: "printf bravo".to_string() }));
    let mut host = host();
    let out = render_in(&t, ShellTrust::Untrusted, true, &mut host);
    assert!(matches!(out, Err(Error::NoTrust)));
    let out = render_in(&t, ShellTrust::Ultimate, true, &mut host);
    assert_eq!(out.unwrap(), "plain");
    assert!(host.runs.is_empty());
}

#[test]
fn failing_helper_fails_the_render() {
    let mut t = template("{{ _fail \"x\" }}", Vec::new());
    t.helpers.push(("_fail".to_string(), Helper { shell: "printf $VALUE; exit 2".to_string() }));
    let mut host = host();
    let out = render_in(&t, ShellTrust::Ultimate, true, &mut host);
    match out {
        Err(Error::Render(message)) => assert!(message.contains("printf $VALUE; exit 2")),
        other => panic!("unexpected: {:?}", other),
    }
    assert_eq!(host.runs.len(), 1);
}

#[test]
fn helper_needs_a_text_argument() {
    let mut t = template("{{ _decode 5 }}", Vec::new());
    t.helpers.push(("_decode".to_string(), Helper { shell: "printf bravo".to_string() }));
    let mut host = host();
    let out = render_in(&t, ShellTrust::Ultimate, true, &mut host);
    match out {
        Err(Error::Render(message)) => assert!(message.contains("parameter is not a string")),
        other => panic!("unexpected: {:?}", other),
    }
    assert!(host.runs.is_empty());
}

#[test]
fn strict_fails_on_undefined_and_loose_renders_nothing() {
    let t = template("[{{ a.missing }}]", Vec::new());
    let strict = render_in(&t, ShellTrust::Untrusted, true, &mut host());
    assert!(matches!(strict, Err(Error::UndefinedVariable(_))));
    let loose = render_in(&t, ShellTrust::Untrusted, false, &mut host());
    assert_eq!(loose.unwrap(), "[]");
}

#[test]
fn loose_argument_renders_what_strict_rejects() {
    let mut config = Config::new("0.14".to_string());
    config.templates.push(("t".to_string(), template("{{ nothing }}", Vec::new())));
    let mut args = arguments("t", ShellTrust::Untrusted, Vec::new());
    let strict = select_and_render(&args, &config, "0.14.0", &mut session(host()));
    assert!(matches!(strict, Err(Error::UndefinedVariable(_))));
    args.loose = true;
    let loose = select_and_render(&args, &config, "0.14.0", &mut session(host()));
    assert_eq!(loose.unwrap(), "");
}

#[test]
fn nothing_is_escaped() {
    let t = template("{{ a }}", vec![("a", VariableDefinition::Static("<&\"'>".to_string()))]);
    let out = render_in(&t, ShellTrust::Untrusted, true, &mut host());
    assert_eq!(out.unwrap(), "<&\"'>");
}

#[test]
fn malformed_template_is_a_render_error() {
    let t = template("{{#if a}}open", Vec::new());
    let out = render_in(&t, ShellTrust::Untrusted, false, &mut host());
    assert!(matches!(out, Err(Error::Render(_))));
}

#[test]
fn template_not_found() {
    let args = arguments("nowhere", ShellTrust::Ultimate, Vec::new());
    let mut host = host();
    match run(&args, &mut host) {
        Err(Error::TemplateNotFound(name)) => assert_eq!(name, "nowhere"),
        other => panic!("unexpected: {:?}", other),
    }
    assert!(host.runs.is_empty());
}

#[test]
fn version_mismatch_is_rejected_before_anything_runs() {
    let args = arguments("var:shell", ShellTrust::Ultimate, Vec::new());
    let mut session = session(host());
    let out = select_and_render(&args, &config(), "0.15.0", &mut session);
    match out {
        Err(Error::ConfigInvalid(message)) => {
            assert_eq!(message, "config file version mismatch to binary")
        },
        other => panic!("unexpected: {:?}", other),
    }
    assert!(session.system().runs.is_empty());
}

#[test]
fn malformed_version_is_rejected() {
    let mut config = config();
    config.version = "v1".to_string();
    let args = arguments("var:static", ShellTrust::Ultimate, Vec::new());
    let out = select_and_render(&args, &config, "0.0.0", &mut session(host()));
    match out {
        Err(Error::ConfigInvalid(message)) => assert_eq!(message, "invalid version: v1"),
        other => panic!("unexpected: {:?}", other),
    }
}

#[test]
fn development_version_fits_every_well_formed_version() {
    let mut config = config();
    config.version = "7.31".to_string();
    let args = arguments("var:static", ShellTrust::Untrusted, Vec::new());
    let out = select_and_render(&args, &config, "0.0.0", &mut session(host()));
    assert_eq!(out.unwrap(), "alpha");
}

#[test]
fn template_is_picked_through_the_terminal() {
    let mut args = arguments("", ShellTrust::Untrusted, Vec::new());
    args.template = None;
    args.backend = Backend::CLI;
    let config = config();
    let mut terminal = terminal();
    terminal.pick = Ok(0);
    let mut session = Session::new(terminal, host());
    let out = select_and_render(&args, &config, "0.14.0", &mut session);
    assert_eq!(out.unwrap(), "alpha");
    let terminal = session.terminal();
    assert_eq!(terminal.asked, 1);
    assert_eq!(terminal.shown.len(), 7);
    assert_eq!(terminal.shown[0], "var:static");
    assert_eq!(terminal.shown[6], "var:argument");
}

#[test]
fn picking_a_template_fails_headless_and_on_abort() {
    let config = config();
    let mut silent = session(host());
    assert!(matches!(
        select_template(&config, Backend::Headless, &mut silent),
        Err(Error::Headless)
    ));
    assert_eq!(silent.terminal().asked, 0);
    let mut aborted = session(host());
    assert!(matches!(
        select_template(&config, Backend::CLI, &mut aborted),
        Err(Error::InteractAbort)
    ));
    assert_eq!(aborted.terminal().asked, 1);
    let mut wrong = terminal();
    wrong.pick = Ok(7);
    let mut wrong = Session::new(wrong, host());
    assert!(matches!(
        select_template(&config, Backend::CLI, &mut wrong),
        Err(Error::InvalidSelection)
    ));
}

#[test]
fn template_body_is_read_from_its_file() {
    let mut t = template("", vec![("a", VariableDefinition::Static("alpha".to_string()))]);
    t.content = Content::File("body.tpl".to_string());
    let mut host = host();
    host.files.push(("body.tpl".to_string(), "<{{ a }}>".to_string()));
    let out = render_in(&t, ShellTrust::Untrusted, true, &mut host);
    assert_eq!(out.unwrap(), "<alpha>");
    assert_eq!(host.reads, 1);
    t.content = Content::File("missing.tpl".to_string());
    let out = render_in(&t, ShellTrust::Untrusted, true, &mut host);
    assert!(matches!(out, Err(Error::Host(_))));
}

#[test]
fn conflicting_names_fail_the_render() {
    let t = template(
        "{{ a.b }}",
        vec![
            ("a", VariableDefinition::Static("x".to_string())),
            ("a.b", VariableDefinition::Static("y".to_string())),
        ],
    );
    let out = render_in(&t, ShellTrust::Untrusted, true, &mut host());
    match out {
        Err(Error::ConflictingNamespace(name)) => assert_eq!(name, "a.b"),
        other => panic!("unexpected: {:?}", other),
    }
}

#[test]
fn populate_puts_overrides_first_and_resolves_the_rest_in_order() {
    let vars = vec![
        ("b".to_string(), VariableDefinition::Static("two".to_string())),
        ("a".to_string(), VariableDefinition::Shell("printf bravo".to_string())),
        ("c".to_string(), VariableDefinition::Static("three".to_string())),
    ];
    let overrides = vec![("a".to_string(), "one".to_string()), ("z".to_string(), "last".to_string())];
    let mut session = session(host());
    let values = populate_variables(&vars, &overrides, ShellTrust::Ultimate, Backend::Headless, &mut session, None)
    .unwrap();
    let expected: Vec<(String, String)> = [("a", "one"), ("z", "last"), ("b", "two"), ("c", "three")]
        .iter()
        .map(|(k, v)| (k.to_string(), v.to_string()))
        .collect();
    assert_eq!(values, expected);
    assert!(session.system().runs.is_empty());
}

#[test]
fn populate_prefixes_every_name() {
    let vars = vec![("b".to_string(), VariableDefinition::Static("two".to_string()))];
    let overrides = vec![("a".to_string(), "one".to_string())];
    let values = populate_variables(&vars, &overrides, ShellTrust::Untrusted, Backend::Headless, &mut session(host()), Some("p".to_string()))
    .unwrap();
    let expected: Vec<(String, String)> =
        [("p.a", "one"), ("p.b", "two")].iter().map(|(k, v)| (k.to_string(), v.to_string())).collect();
    assert_eq!(values, expected);
}

#[test]
fn populate_stops_at_the_first_failure() {
    let vars = vec![
        ("a".to_string(), VariableDefinition::Arg),
        ("b".to_string(), VariableDefinition::Shell("printf bravo".to_string())),
    ];
    let mut session = session(host());
    let out = populate_variables(&vars, &Vec::new(), ShellTrust::Ultimate, Backend::Headless, &mut session, None);
    assert!(matches!(out, Err(Error::MissingArgument)));
    assert!(session.system().runs.is_empty());
}

#[test]
fn nested_values_are_reached_by_their_dotted_names() {
    let t = template(
        "{{ a.b.c }}-{{ a.b.d }}-{{ e }}-{{#each a.b}}{{@key}}={{this}};{{/each}}",
        vec![
            ("a.b.d", VariableDefinition::Static("2".to_string())),
            ("e", VariableDefinition::Static("3".to_string())),
            ("a.b.c", VariableDefinition::Static("1".to_string())),
        ],
    );
    let out = render_in(&t, ShellTrust::Untrusted, true, &mut host());
    assert_eq!(out.unwrap(), "1-2-3-c=1;d=2;");
}

#[test]
fn helper_output_stands_at_the_call() {
    let mut t = template(
        "<{{ _decode a.code }}|{{ _decode \"YWxwaGE=\" }}>",
        vec![("a.code", VariableDefinition::Static("YnJhdm8=".to_string()))],
    );
    t.helpers.push((
        "_decode".to_string(),
        Helper { shell: "printf \"$(printf $VALUE | base64 -D)\"".to_string() },
    ));
    let mut host = host();
    let out = render_in(&t, ShellTrust::Ultimate, true, &mut host);
    assert_eq!(out.unwrap(), "<bravo|alpha>");
    assert_eq!(host.runs.len(), 2);
}
