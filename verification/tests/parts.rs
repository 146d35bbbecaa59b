use complate::args::{parse_override, ManualFormat, Privilege};
use complate::backend::Backend;
use complate::config::{position, Config, Content, Template};
use complate::error::Error;
use complate::render::{picked_template, template_names};
use complate::shell::ShellTrust;
use complate::template::{render_result, RenderFailure};
use complate::text::same;
use complate::version::{check_version, judge_version, program_major_minor};

#[test]
fn version_must_be_digits_dot_digits() {
    for good in ["0.14", "1.0", "12.345", "007.0"] {
        assert!(check_version(good, "0.0.0").is_ok());
    }
    for bad in ["", "1", "1.", ".1", "1.2.3", "a.b", "1.x", " 1.2", "1.2 ", "1.2\n", "1,2", "v1.2"] {
        match check_version(bad, "0.0.0") {
            Err(Error::ConfigInvalid(message)) => {
                assert_eq!(message, format!("invalid version: {}", bad))
            },
            other => panic!("unexpected for {:?}: {:?}", bad, other),
        }
    }
}

#[test]
fn version_must_fit_the_program() {
    assert!(check_version("0.14", "0.14.0").is_ok());
    assert!(check_version("0.14", "0.14.27").is_ok());
    assert!(check_version("0.14", "0.14").is_ok());
    assert!(check_version("1.2", "0.0.0").is_ok());
    for program in ["0.15.0", "1.14.0", "0.1.4", "0.140.0", "", "0", "0.0.0.0", "00.14.0"] {
        match check_version("0.14", program) {
            Err(Error::ConfigInvalid(message)) => {
                assert_eq!(message, "config file version mismatch to binary")
            },
            other => panic!("unexpected for {:?}: {:?}", program, other),
        }
    }
}

#[test]
fn version_is_judged_from_the_match() {
    assert!(judge_version(Some(true), "anything", "0.0.0").is_ok());
    assert!(judge_version(Some(true), "1.2", "1.2.9").is_ok());
    assert!(matches!(judge_version(Some(false), "1.2", "1.2.9"), Err(Error::ConfigInvalid(_))));
    assert!(matches!(judge_version(None, "1.2", "1.2.9"), Err(Error::ConfigInvalid(_))));
    assert!(matches!(judge_version(Some(true), "1.3", "1.2.9"), Err(Error::ConfigInvalid(_))));
}

#[test]
fn major_and_minor_of_a_program() {
    assert_eq!(program_major_minor("0.14.2"), "0.14");
    assert_eq!(program_major_minor("1.2"), "1.2");
    assert_eq!(program_major_minor("1.2.3.4"), "1.2");
    assert_eq!(program_major_minor("7"), "7");
    assert_eq!(program_major_minor(""), "");
    assert_eq!(program_major_minor("1..3"), "1.");
}

#[test]
fn override_splits_at_the_first_equals_sign() {
    let pair = |k: &str, v: &str| Some((k.to_string(), v.to_string()));
    assert_eq!(parse_override("a.alpha=alpha"), pair("a.alpha", "alpha"));
    assert_eq!(parse_override("a=b=c"), pair("a", "b=c"));
    assert_eq!(parse_override("=v"), pair("", "v"));
    assert_eq!(parse_override("k="), pair("k", ""));
    assert_eq!(parse_override("="), pair("", ""));
    assert_eq!(parse_override("ä=ö"), pair("ä", "ö"));
    assert_eq!(parse_override("novalue"), None);
    assert_eq!(parse_override(""), None);
}

#[test]
fn names_of_backends_and_formats() {
    assert_eq!(Backend::from_name("headless"), Some(Backend::Headless));
    assert_eq!(Backend::from_name("cli"), Some(Backend::CLI));
    assert_eq!(Backend::from_name("ui"), None);
    assert_eq!(Backend::from_name("CLI"), None);
    assert_eq!(Backend::from_name(""), None);
    assert_eq!(ManualFormat::from_name("manpages"), Some(ManualFormat::Manpages));
    assert_eq!(ManualFormat::from_name("markdown"), Some(ManualFormat::Markdown));
    assert_eq!(ManualFormat::from_name("html"), None);
    assert_eq!(Privilege::from_flag(false), Privilege::Normal);
    assert_eq!(Privilege::from_flag(true), Privilege::Experimental);
}

#[test]
fn texts_are_compared_by_their_characters() {
    assert!(same("", ""));
    assert!(same("alpha", "alpha"));
    assert!(same("äö", "äö"));
    assert!(!same("alpha", "alphA"));
    assert!(!same("alpha", "alph"));
    assert!(!same("", "a"));
}

#[test]
fn new_configuration_and_template_are_empty() {
    let config = Config::new("0.14".to_string());
    assert_eq!(config.version, "0.14");
    assert!(config.templates.is_empty());
    assert!(config.template("any").is_none());
    let template = Template::new(Content::Inline("body".to_string()));
    assert!(matches!(&template.content, Content::Inline(text) if text == "body"));
    assert!(template.variables.is_empty());
    assert!(template.helpers.is_empty());
}

#[test]
fn first_template_with_a_name_counts() {
    let mut config = Config::new("0.14".to_string());
    for (name, body) in [("a", "first"), ("b", "second"), ("a", "third")] {
        config.templates.push((name.to_string(), Template::new(Content::Inline(body.to_string()))));
    }
    let body = |t: &Template| match &t.content {
        Content::Inline(text) => text.clone(),
        Content::File(path) => path.clone(),
    };
    assert_eq!(config.template("a").map(body), Some("first".to_string()));
    assert_eq!(config.template("b").map(body), Some("second".to_string()));
    assert!(config.template("c").is_none());
    assert_eq!(position(&config.templates, "a"), Some(0));
    assert_eq!(position(&config.templates, "b"), Some(1));
    assert_eq!(position(&config.templates, "c"), None);
    assert_eq!(template_names(&config), vec!["a", "b", "a"]);
    assert_eq!(picked_template(&config, Ok(2)).map(body).unwrap(), "third");
    assert!(matches!(picked_template(&config, Ok(3)), Err(Error::InvalidSelection)));
    assert!(matches!(picked_template(&config, Err(Error::Headless)), Err(Error::Headless)));
}

#[test]
fn engine_failures_become_errors() {
    assert_eq!(render_result(Ok("text".to_string())).unwrap(), "text");
    let failure = |undefined| Err(RenderFailure { undefined, message: "why".to_string() });
    assert!(matches!(render_result(failure(true)), Err(Error::UndefinedVariable(m)) if m == "why"));
    assert!(matches!(render_result(failure(false)), Err(Error::Render(m)) if m == "why"));
}

#[test]
fn every_error_has_its_message() {
    let text = |s: &str| s.to_string();
    let cases = vec![
        (Error::NoTrust, "no trust: need trust for executing shell commands"),
        (Error::ShellCommand(text("exit 1")), "shell command: exit 1"),
        (Error::InteractAbort, "user interact abort"),
        (Error::TemplateNotFound(text("t")), "template not found: t"),
        (Error::ConfigInvalid(text("bad")), "invalid: bad"),
        (Error::ConflictingNamespace(text("a.b")), "conflicting namespace: a.b"),
        (Error::UndefinedVariable(text("x")), "undefined variable: x"),
        (Error::MissingArgument, "variable missing"),
        (Error::MissingEnvironment(text("HOME")), "environment variable not set: HOME"),
        (Error::Headless, "can not prompt in headless backend"),
        (Error::InvalidSelection, "invalid selection"),
        (Error::Render(text("why")), "render: why"),
        (Error::Host(text("io")), "host: io"),
    ];
    for (error, message) in cases {
        assert_eq!(error.message(), message);
    }
}

#[test]
fn ultimate_trust_is_the_most() {
    assert!(ShellTrust::Untrusted < ShellTrust::Ultimate);
    assert_eq!(ShellTrust::Untrusted.max(ShellTrust::Ultimate), ShellTrust::Ultimate);
    assert_ne!(ShellTrust::Untrusted, ShellTrust::Ultimate);
}
