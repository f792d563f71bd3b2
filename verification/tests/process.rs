use hiisi::process::{
    create_log_paths, is_whitespace, log_directory, plan_spawn, split_whitespace, stop_after_signal,
    stop_after_wait, stop_begin, StopSignal, StopStep, GRACE_SECS,
};

#[test]
fn log_paths_are_under_the_users_home() {
    let (stdout, stderr) = create_log_paths("alice", "/tmp", "sleep 60");
    assert_eq!(stdout, "/home/alice/.logs/tmp/sleep-60.stdout");
    assert_eq!(stderr, "/home/alice/.logs/tmp/sleep-60.stderr");
    assert_eq!(log_directory("alice", "/tmp"), "/home/alice/.logs/tmp");
}

#[test]
fn log_paths_are_slugs_of_directory_and_command() {
    let (stdout, stderr) =
        create_log_paths("bob", "/srv/My Project", "./Run_Server --port=8080 \"a b\"");
    assert_eq!(stdout, "/home/bob/.logs/srv-my-project/run-server-port-8080-a-b.stdout");
    assert_eq!(stderr, "/home/bob/.logs/srv-my-project/run-server-port-8080-a-b.stderr");
}

#[test]
fn different_commands_may_share_a_log_file() {
    let (a, _) = create_log_paths("alice", "/tmp", "echo a b");
    let (b, _) = create_log_paths("alice", "/tmp", "echo a-b");
    assert_eq!(a, b);
}

#[test]
fn whitespace_is_what_unicode_says() {
    for c in [' ', '\t', '\n', '\r', '\u{0B}', '\u{0C}', '\u{85}', '\u{A0}', '\u{1680}',
        '\u{2000}', '\u{200A}', '\u{2028}', '\u{2029}', '\u{202F}', '\u{205F}', '\u{3000}']
    {
        assert!(is_whitespace(c));
    }
    for c in ['a', '0', '-', '"', '\u{200B}', '\u{1F}', '\u{FEFF}'] {
        assert!(!is_whitespace(c));
    }
}

#[test]
fn whitespace_agrees_with_the_standard_library() {
    for n in 0..0x11000u32 {
        if let Some(c) = char::from_u32(n) {
            assert_eq!(is_whitespace(c), c.is_whitespace());
        }
    }
}

#[test]
fn words_are_split_at_whitespace() {
    assert_eq!(split_whitespace("sleep 60"), vec!["sleep", "60"]);
    assert_eq!(split_whitespace("  ls   -l\t/tmp \n"), vec!["ls", "-l", "/tmp"]);
    assert_eq!(split_whitespace("one"), vec!["one"]);
    assert_eq!(split_whitespace("a\u{3000}b"), vec!["a", "b"]);
    assert_eq!(split_whitespace("h\u{e9}llo w\u{f6}rld"), vec!["h\u{e9}llo", "w\u{f6}rld"]);
    assert!(split_whitespace("").is_empty());
    assert!(split_whitespace(" \t ").is_empty());
}

#[test]
fn words_agree_with_the_standard_library() {
    for text in ["", " ", "a", " a", "a ", "a b", "  a  b  ", "echo \"a b\"", "x\ty\nz", "\u{a0}q"] {
        let expected: Vec<String> = text.split_whitespace().map(str::to_string).collect();
        assert_eq!(split_whitespace(text), expected);
    }
}

#[test]
fn quotes_are_not_honoured() {
    assert_eq!(split_whitespace("echo \"a b\""), vec!["echo", "\"a", "b\""]);
}

#[test]
fn a_plan_names_program_arguments_and_logs() {
    let plan = plan_spawn("alice", "sleep 60", "/tmp").unwrap();
    assert_eq!(plan.program, "sleep");
    assert_eq!(plan.args, vec!["60"]);
    assert_eq!(plan.log_dir, "/home/alice/.logs/tmp");
    assert_eq!(plan.stdout_path, "/home/alice/.logs/tmp/sleep-60.stdout");
    assert_eq!(plan.stderr_path, "/home/alice/.logs/tmp/sleep-60.stderr");
}

#[test]
fn a_plan_for_a_bare_program_has_no_arguments() {
    let plan = plan_spawn("alice", "  false ", "/tmp").unwrap();
    assert_eq!(plan.program, "false");
    assert!(plan.args.is_empty());
    assert_eq!(plan.stdout_path, "/home/alice/.logs/tmp/false.stdout");
}

#[test]
fn a_blank_command_cannot_be_planned() {
    assert_eq!(plan_spawn("alice", "", "/tmp").err().unwrap(), "no program in command line");
    assert_eq!(plan_spawn("alice", " \t", "/tmp").err().unwrap(), "no program in command line");
}

#[test]
fn a_responsive_child_is_stopped_by_the_interrupt() {
    assert_eq!(GRACE_SECS, 15);
    assert!(matches!(stop_begin(), StopStep::Send(StopSignal::Interrupt)));
    assert!(matches!(
        stop_after_signal(StopSignal::Interrupt, Ok(())),
        StopStep::Wait { after: StopSignal::Interrupt, secs: 15 }
    ));
    assert!(matches!(stop_after_wait(StopSignal::Interrupt, true), StopStep::Done(Ok(()))));
}

#[test]
fn an_uncooperative_child_gets_the_termination_signal() {
    assert!(matches!(
        stop_after_wait(StopSignal::Interrupt, false),
        StopStep::Send(StopSignal::Terminate)
    ));
    assert!(matches!(
        stop_after_signal(StopSignal::Terminate, Ok(())),
        StopStep::Wait { after: StopSignal::Terminate, secs: 15 }
    ));
    assert!(matches!(stop_after_wait(StopSignal::Terminate, true), StopStep::Done(Ok(()))));
}

#[test]
fn a_child_that_ignores_both_is_killed() {
    assert!(matches!(
        stop_after_wait(StopSignal::Terminate, false),
        StopStep::Send(StopSignal::Kill)
    ));
    assert!(matches!(stop_after_signal(StopSignal::Kill, Ok(())), StopStep::Done(Ok(()))));
    assert!(matches!(stop_after_wait(StopSignal::Kill, false), StopStep::Done(Ok(()))));
}

#[test]
fn a_signal_that_cannot_be_sent_ends_the_termination() {
    for signal in [StopSignal::Interrupt, StopSignal::Terminate, StopSignal::Kill] {
        match stop_after_signal(signal, Err("no such process".to_string())) {
            StopStep::Done(Err(e)) => assert_eq!(e, "no such process"),
            _ => panic!("the failure was expected"),
        }
    }
}

#[test]
fn a_termination_waits_thirty_seconds_at_most() {
    let mut step = stop_begin();
    let mut waited = 0;
    let mut steps = 0;
    loop {
        steps += 1;
        step = match step {
            StopStep::Send(signal) => stop_after_signal(signal, Ok(())),
            StopStep::Wait { after, secs } => {
                waited += secs;
                stop_after_wait(after, false)
            }
            StopStep::Done(outcome) => {
                assert!(outcome.is_ok());
                break;
            }
        };
    }
    assert_eq!(waited, 30);
    assert_eq!(steps, 6);
}
