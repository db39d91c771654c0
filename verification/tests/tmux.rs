use herdr::tmux::{
    attach_argv, default_label, list_sessions_args, listed_sessions, listing_from_text,
    no_server_output, parse_list_sessions, session_name_from_launch_argv, validate_session_name,
    CommandOutput, TmuxError, TmuxSession,
};

fn printed(success: bool, stdout: &[u8], stderr: &[u8]) -> Result<CommandOutput, String> {
    Ok(CommandOutput {
        success,
        stdout: stdout.to_vec(),
        stderr: stderr.to_vec(),
    })
}

#[test]
fn attach_argv_uses_exact_match_target() {
    assert_eq!(
        attach_argv("api"),
        vec!["tmux", "attach-session", "-t", "=api"]
    );
}

#[test]
fn session_name_round_trips_through_attach_argv() {
    let argv = attach_argv("work-1");
    assert_eq!(session_name_from_launch_argv(&argv), Some("work-1"));
}

#[test]
fn session_name_rejects_unrelated_argv() {
    let cases: [&[&str]; 5] = [
        &[],
        &["tmux"],
        &["tmux", "new-session", "-t", "=api"],
        &["tmux", "attach-session", "-t", "api"],
        &["just", "dev"],
    ];
    for case in cases {
        let argv: Vec<String> = case.iter().map(|arg| arg.to_string()).collect();
        assert_eq!(session_name_from_launch_argv(&argv), None, "{case:?}");
    }
}

#[test]
fn validate_session_name_rejects_target_separators() {
    assert!(validate_session_name("api").is_ok());
    assert!(validate_session_name("api-2_x").is_ok());
    assert!(validate_session_name("").is_err());
    assert!(validate_session_name("a:b").is_err());
    assert!(validate_session_name("a.b").is_err());
    assert!(validate_session_name("a b").is_err());
    assert!(validate_session_name("a\0b").is_err());
}

#[test]
fn parse_list_sessions_reads_all_fields() {
    let output = "api\t3\t1\t1725000000\t/home/me/api\nbatch\t1\t0\t1725000100\t\n";
    let sessions = parse_list_sessions(output);
    assert_eq!(
        sessions,
        vec![
            TmuxSession {
                name: "api".into(),
                windows: 3,
                attached: 1,
                created_unix: Some(1_725_000_000),
                path: Some("/home/me/api".into()),
            },
            TmuxSession {
                name: "batch".into(),
                windows: 1,
                attached: 0,
                created_unix: Some(1_725_000_100),
                path: None,
            },
        ]
    );
}

#[test]
fn parse_list_sessions_tolerates_short_lines_and_blank_lines() {
    let sessions = parse_list_sessions("\nonly-name\n\nother\t2\n");
    assert_eq!(sessions.len(), 2);
    assert_eq!(sessions[0].name, "only-name");
    assert_eq!(sessions[0].windows, 0);
    assert_eq!(sessions[1].name, "other");
    assert_eq!(sessions[1].windows, 2);
    assert_eq!(sessions[1].created_unix, None);
}

#[test]
fn no_server_output_matches_tmux_messages() {
    assert!(no_server_output(
        "no server running on /tmp/tmux-1000/default\n"
    ));
    assert!(no_server_output(
        "error connecting to /tmp/tmux-1000/default (No such file or directory)"
    ));
    assert!(!no_server_output("unknown option -- Z"));
}

#[test]
fn validation_says_what_is_wrong() {
    let problem = |name: &str| validate_session_name(name).unwrap_err();
    assert_eq!(problem(""), "tmux session name must not be empty");
    assert_eq!(problem("\0"), "tmux session name must not contain NUL bytes");
    assert_eq!(problem("a: b"), "tmux session name must not contain ':' or '.'");
    assert_eq!(problem("."), "tmux session name must not contain ':' or '.'");
    assert_eq!(problem("a\u{3000}b"), "tmux session name must not contain whitespace");
    assert_eq!(problem("a\n"), "tmux session name must not contain whitespace");
    assert_eq!(validate_session_name("-größe="), Ok(()));
}

#[test]
fn only_attach_commands_name_a_session() {
    for name in ["a", "=", "größe", "two words"] {
        let argv = attach_argv(name);
        assert_eq!(session_name_from_launch_argv(&argv), Some(name));
        let mut longer = argv.clone();
        longer.push("-d".to_string());
        assert_eq!(session_name_from_launch_argv(&longer), None);
        let mut other = argv.clone();
        other[0] = "/usr/bin/tmux".to_string();
        assert_eq!(session_name_from_launch_argv(&other), None);
    }
    assert_eq!(session_name_from_launch_argv(&attach_argv("")), None);
}

#[test]
fn labels_name_the_session() {
    assert_eq!(default_label("api"), "tmux:api");
    assert_eq!(default_label(""), "tmux:");
}

#[test]
fn listing_lines_are_read_alone() {
    let first = parse_list_sessions("a\t1\t2\t3\t/x");
    let second = parse_list_sessions("b\t4");
    let both = parse_list_sessions("a\t1\t2\t3\t/x\nb\t4");
    assert_eq!(both, [first, second].concat());
}

#[test]
fn fields_are_trimmed_and_unreadable_numbers_count_as_none() {
    assert_eq!(
        parse_list_sessions(" my api \t x \t+2\t-1\t /a b \t more\r\n"),
        vec![TmuxSession {
            name: "my api".into(),
            windows: 0,
            attached: 2,
            created_unix: None,
            path: Some("/a b".into()),
        }]
    );
    assert_eq!(parse_list_sessions("\t1\t1\t1\t/x\n \t \n\r\n"), vec![]);
    assert_eq!(
        parse_list_sessions("a\t0\t0\t18446744073709551615")[0].created_unix,
        Some(u64::MAX)
    );
    assert_eq!(
        parse_list_sessions("a\t0\t0\t18446744073709551616")[0].created_unix,
        None
    );
}

#[test]
fn listings_in_the_format_read_back() {
    let sessions = vec![
        TmuxSession {
            name: "one".into(),
            windows: 10,
            attached: 0,
            created_unix: Some(7),
            path: Some("/tmp/a b".into()),
        },
        TmuxSession {
            name: "zwei".into(),
            windows: 1,
            attached: 3,
            created_unix: None,
            path: None,
        },
    ];
    let listing: String = sessions
        .iter()
        .map(|session| {
            format!(
                "{}\t{}\t{}\t{}\t{}\n",
                session.name,
                session.windows,
                session.attached,
                session.created_unix.map(|seconds| seconds.to_string()).unwrap_or_default(),
                session.path.clone().unwrap_or_default()
            )
        })
        .collect();
    assert_eq!(parse_list_sessions(&listing), sessions);
}

#[test]
fn listings_are_judged_by_what_tmux_printed() {
    assert_eq!(
        listing_from_text(true, "a\n", "no sessions").unwrap()[0].name,
        "a"
    );
    assert_eq!(listing_from_text(false, "a\n", " no sessions\n"), Ok(vec![]));
    assert_eq!(
        listing_from_text(false, "a\n", " bad flag \n"),
        Err(TmuxError::Failed("bad flag".into()))
    );
}

#[test]
fn command_output_is_decoded_leniently() {
    let sessions = listed_sessions(printed(true, "größe\t2\n".as_bytes(), b"")).unwrap();
    assert_eq!(sessions[0].name, "größe");
    assert_eq!(sessions[0].windows, 2);

    let sessions = listed_sessions(printed(true, b"a\xffb\t2\n", b"")).unwrap();
    assert_eq!(sessions[0].name, "a\u{fffd}b");

    assert_eq!(
        listed_sessions(printed(false, b"", b"lost \xff server\n")),
        Err(TmuxError::Failed("lost \u{fffd} server".into()))
    );
    assert_eq!(
        listed_sessions(printed(false, b"", b"no server running on /tmp/x\n")),
        Ok(vec![])
    );
    assert_eq!(
        listed_sessions(Err("not found".into())),
        Err(TmuxError::Unavailable("not found".into()))
    );
}

#[test]
fn errors_have_codes_and_messages() {
    let unavailable = TmuxError::Unavailable("gone".into());
    assert_eq!(unavailable.code(), "tmux_unavailable");
    assert_eq!(unavailable.message(), "tmux is not available: gone");
    let failed = TmuxError::Failed("bad".into());
    assert_eq!(failed.code(), "tmux_failed");
    assert_eq!(failed.message(), "tmux command failed: bad");
}

#[test]
fn sessions_are_listed_with_every_field() {
    assert_eq!(
        list_sessions_args(),
        vec![
            "list-sessions",
            "-F",
            "#{session_name}\t#{session_windows}\t#{session_attached}\t#{session_created}\t#{session_path}",
        ]
    );
}
