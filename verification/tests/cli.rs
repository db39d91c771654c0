use herdr::cli::tmux::{
    run_tmux_command, tmux_attach, tmux_help, tmux_list, AttachArgs, TmuxCommand,
    TMUX_ATTACH_USAGE, TMUX_LIST_USAGE, USAGE_EXIT_CODE,
};
use herdr::schema::TmuxAttachParams;

fn args(words: &[&str]) -> Vec<String> {
    words.iter().map(|word| word.to_string()).collect()
}

/// Reads the arguments to the end: paths become absolute under `/here`, and an
/// assignment is cut at its first '='.
fn read(words: &[&str]) -> Result<TmuxAttachParams, String> {
    let mut next = tmux_attach(args(words));
    loop {
        next = match next {
            AttachArgs::NormalizePath { value, parser } => {
                parser.path_normalized(format!("/here/{value}"))
            }
            AttachArgs::ParseEnv { value, parser } => {
                let parsed = match value.split_once('=') {
                    Some((name, value)) => Ok((name.to_string(), value.to_string())),
                    None => Err(format!("invalid env assignment: {value}")),
                };
                parser.env_parsed(parsed)
            }
            AttachArgs::Reject { message } => return Err(message),
            AttachArgs::Request { params } => return Ok(params),
        }
    }
}

fn rejected(words: &[&str]) -> String {
    read(words).unwrap_err()
}

#[test]
fn subcommands_are_told_apart() {
    assert!(matches!(run_tmux_command(&[]), TmuxCommand::Help { exit_code: 2 }));
    assert!(matches!(run_tmux_command(&args(&["nope"])), TmuxCommand::Help { exit_code: 2 }));
    for help in ["help", "--help", "-h"] {
        assert!(matches!(run_tmux_command(&args(&[help])), TmuxCommand::Help { exit_code: 0 }));
    }
    assert!(matches!(run_tmux_command(&args(&["list"])), TmuxCommand::List));
    assert!(matches!(
        run_tmux_command(&args(&["attach", "api"])),
        TmuxCommand::Attach { first: 1 }
    ));
    assert_eq!(USAGE_EXIT_CODE, 2);
}

#[test]
fn list_takes_no_arguments() {
    let TmuxCommand::Reject { message } = run_tmux_command(&args(&["list", "all"])) else {
        panic!("expected the usage");
    };
    assert_eq!(message, "usage: herdr tmux list");
    assert_eq!(message, TMUX_LIST_USAGE);
    assert!(matches!(tmux_list(&args(&["list"]), 1), TmuxCommand::List));
    assert!(matches!(tmux_list(&args(&["list", "all"]), 1), TmuxCommand::Reject { .. }));
}

#[test]
fn help_names_the_commands() {
    assert_eq!(
        tmux_help(),
        vec![
            "herdr tmux commands:",
            "  herdr tmux list",
            "  usage: herdr tmux attach <session> [--label TEXT] [--cwd PATH] [--env KEY=VALUE] [--focus] [--no-focus]",
        ]
    );
}

#[test]
fn a_session_alone_is_attached() {
    let params = read(&["api"]).unwrap();
    assert_eq!(params.session, "api");
    assert!(!params.focus);
    assert_eq!(params.label, None);
    assert_eq!(params.cwd, None);
    assert!(params.env.entries().is_empty());
}

#[test]
fn attach_reads_every_option() {
    let params = read(&[
        "--label", "--jobs", "--env", "A=1", "api", "--cwd", "dir", "--env", "B=x=y", "--env",
        "A=2", "--focus",
    ])
    .unwrap();
    assert_eq!(params.session, "api");
    assert!(params.focus);
    assert_eq!(params.label.as_deref(), Some("--jobs"));
    assert_eq!(params.cwd.as_deref(), Some("/here/dir"));
    let mut entries = params.env.entries().clone();
    entries.sort();
    assert_eq!(
        entries,
        vec![
            ("A".to_string(), "2".to_string()),
            ("B".to_string(), "x=y".to_string()),
        ]
    );
}

#[test]
fn later_options_replace_earlier_ones() {
    let params = read(&[
        "--focus", "--label", "a", "--cwd", "x", "--no-focus", "--label", "b", "--cwd", "y", "api",
    ])
    .unwrap();
    assert!(!params.focus);
    assert_eq!(params.label.as_deref(), Some("b"));
    assert_eq!(params.cwd.as_deref(), Some("/here/y"));
}

#[test]
fn attach_says_what_it_does_not_understand() {
    for option in ["--label", "--cwd", "--env"] {
        assert_eq!(rejected(&["api", option]), format!("missing value for {option}"));
    }
    assert_eq!(rejected(&["api", "--nope"]), "unknown option: --nope");
    assert_eq!(rejected(&["-"]), "unknown option: -");
    assert_eq!(rejected(&["a", "b"]), TMUX_ATTACH_USAGE);
    assert_eq!(rejected(&[]), TMUX_ATTACH_USAGE);
    assert_eq!(rejected(&["--focus"]), TMUX_ATTACH_USAGE);
    assert_eq!(rejected(&["--env", "A", "api"]), "invalid env assignment: A");
    assert_eq!(rejected(&[""]), "tmux session name must not be empty");
    assert_eq!(rejected(&["a:b"]), "tmux session name must not contain ':' or '.'");
}

#[test]
fn questions_are_asked_further_and_further_on() {
    let AttachArgs::ParseEnv { value, parser } =
        tmux_attach(args(&["--env", "A=1", "--cwd", "x", "api"]))
    else {
        panic!("expected a question");
    };
    assert_eq!(value, "A=1");
    assert_eq!(parser.index, 2);
    let AttachArgs::NormalizePath { value, parser } =
        parser.env_parsed(Ok(("A".to_string(), "1".to_string())))
    else {
        panic!("expected a question");
    };
    assert_eq!(value, "x");
    assert_eq!(parser.index, 4);
}
