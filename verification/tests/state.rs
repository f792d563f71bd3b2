use hiisi::process::{SpawnPlan, SpawnRequest};
use hiisi::protocol::ProcessStatus;
use hiisi::state::{ChildPoll, Process, State, NO_EXIT_CODE};
use hiisi::time::{Span, Timestamp};
use std::collections::HashMap;

fn row(id: u32, user: &str, cmd: &str, restart: bool) -> Process<u32> {
    Process {
        id,
        user: user.to_string(),
        cmd: cmd.to_string(),
        cwd: "/tmp".to_string(),
        started_at: Timestamp::from_secs(100),
        restart,
        child: 1000 + id,
        stdout_path: format!("/home/{}/.logs/tmp/{}.stdout", user, id),
        stderr_path: format!("/home/{}/.logs/tmp/{}.stderr", user, id),
        env: HashMap::new(),
    }
}

#[test]
fn ids_start_at_zero_and_increase() {
    let mut state: State<u32> = State::new();
    assert_eq!(state.next_id, 0);
    let mut last = None;
    for expected in 0..100u32 {
        let id = state.next_id();
        assert_eq!(id, expected);
        if let Some(previous) = last {
            assert!(id > previous);
        }
        last = Some(id);
    }
    assert_eq!(state.next_id, 100);
}

#[test]
fn ids_are_not_reused_after_a_removal() {
    let mut state: State<u32> = State::new();
    let first = state.next_id();
    state.add_process(row(first, "alice", "sleep 60", false));
    assert!(state.remove_process(first).is_some());
    let second = state.next_id();
    assert!(second > first);
}

#[test]
fn rows_are_filed_under_their_id() {
    let mut state: State<u32> = State::new();
    state.add_process(row(3, "alice", "sleep 60", false));
    assert_eq!(state.get_process(3).unwrap().cmd, "sleep 60");
    assert_eq!(state.get_process(3).unwrap().child, 1003);
    assert!(state.get_process(4).is_none());
    state.add_process(row(3, "bob", "true", false));
    assert_eq!(state.get_process(3).unwrap().user, "bob");
    assert_eq!(state.processes.len(), 1);
}

#[test]
fn removal_hands_the_row_over() {
    let mut state: State<u32> = State::new();
    state.add_process(row(0, "alice", "sleep 60", false));
    let taken = state.remove_process(0).unwrap();
    assert_eq!(taken.id, 0);
    assert_eq!(taken.child, 1000);
    assert!(state.get_process(0).is_none());
    assert!(state.remove_process(0).is_none());
}

#[test]
fn a_poll_stands_for_a_status() {
    assert!(matches!(ChildPoll::Running.to_status(), ProcessStatus::Running));
    assert!(matches!(ChildPoll::Exited(Some(3)).to_status(), ProcessStatus::Exited(3)));
    assert!(matches!(ChildPoll::Exited(None).to_status(), ProcessStatus::Exited(-1)));
    assert_eq!(NO_EXIT_CODE, -1);
    match ChildPoll::Failed("gone".to_string()).to_status() {
        ProcessStatus::Failed(reason) => assert_eq!(reason, "gone"),
        _ => panic!("a failure was expected"),
    }
    assert!(ChildPoll::Exited(None).has_exited());
    assert!(ChildPoll::Exited(Some(0)).has_exited());
    assert!(!ChildPoll::Running.has_exited());
    assert!(!ChildPoll::Failed("gone".to_string()).has_exited());
}

#[test]
fn info_reports_the_row_and_its_uptime() {
    let p = row(7, "alice", "sleep 60", false);
    let info = p.to_info(&ChildPoll::Running, Timestamp::new(160, 5).unwrap());
    assert_eq!(info.id, 7);
    assert_eq!(info.user, "alice");
    assert_eq!(info.cmd, "sleep 60");
    assert_eq!(info.cwd, "/tmp");
    assert_eq!(info.uptime, Span::new(60, 5).unwrap());
    assert!(matches!(info.status, ProcessStatus::Running));
}

#[test]
fn uptime_is_zero_when_the_clock_went_back() {
    let p = row(7, "alice", "sleep 60", false);
    let info = p.to_info(&ChildPoll::Exited(Some(1)), Timestamp::from_secs(99));
    assert_eq!(info.uptime, Span::zero());
    assert!(matches!(info.status, ProcessStatus::Exited(1)));
}

#[test]
fn listing_follows_the_polls() {
    let mut state: State<u32> = State::new();
    state.add_process(row(0, "alice", "sleep 60", false));
    state.add_process(row(1, "bob", "false", true));
    let polls = vec![
        (1, ChildPoll::Exited(Some(1))),
        (9, ChildPoll::Running),
        (0, ChildPoll::Running),
    ];
    let list = state.list_processes(&polls, Timestamp::from_secs(130));
    assert_eq!(list.len(), 2);
    assert_eq!(list[0].id, 1);
    assert_eq!(list[0].user, "bob");
    assert!(matches!(list[0].status, ProcessStatus::Exited(1)));
    assert_eq!(list[1].id, 0);
    assert_eq!(list[1].uptime, Span::from_secs(30));
    assert!(state.list_processes(&Vec::new(), Timestamp::from_secs(130)).is_empty());
}

#[test]
fn only_exited_rows_that_ask_for_it_are_restarted() {
    let mut state: State<u32> = State::new();
    state.add_process(row(0, "alice", "sleep 60", false));
    state.add_process(row(1, "bob", "false", true));
    state.add_process(row(2, "bob", "server", true));
    state.add_process(row(3, "bob", "worker", true));
    let polls = vec![
        (3, ChildPoll::Exited(None)),
        (0, ChildPoll::Exited(Some(0))),
        (1, ChildPoll::Exited(Some(1))),
        (2, ChildPoll::Running),
        (8, ChildPoll::Exited(Some(1))),
    ];
    assert_eq!(state.restart_candidates(&polls), vec![3, 1]);
    let failed = vec![(1, ChildPoll::Failed("no such child".to_string()))];
    assert!(state.restart_candidates(&failed).is_empty());
}

#[test]
fn a_restart_asks_for_what_was_submitted() {
    let mut state: State<u32> = State::new();
    let mut p = row(1, "bob", "false", true);
    p.env.insert("HOME".to_string(), "/home/bob".to_string());
    state.add_process(p);
    let request = state.restart_request(1).unwrap();
    assert_eq!(request.id, 1);
    assert_eq!(request.user, "bob");
    assert_eq!(request.cmd, "false");
    assert_eq!(request.cwd, "/tmp");
    assert!(request.restart);
    assert_eq!(request.env.get("HOME").map(String::as_str), Some("/home/bob"));
    assert!(state.restart_request(2).is_none());
}

#[test]
fn a_started_row_carries_request_and_plan() {
    let request = SpawnRequest {
        id: 4,
        user: "alice".to_string(),
        cmd: "sleep 60".to_string(),
        cwd: "/tmp".to_string(),
        env: HashMap::new(),
        restart: true,
    };
    let plan = SpawnPlan {
        program: "sleep".to_string(),
        args: vec!["60".to_string()],
        log_dir: "/home/alice/.logs/tmp".to_string(),
        stdout_path: "/home/alice/.logs/tmp/sleep-60.stdout".to_string(),
        stderr_path: "/home/alice/.logs/tmp/sleep-60.stderr".to_string(),
    };
    let p = Process::started(request, plan, 77u32, Timestamp::from_secs(9));
    assert_eq!(p.id, 4);
    assert_eq!(p.user, "alice");
    assert_eq!(p.cmd, "sleep 60");
    assert_eq!(p.cwd, "/tmp");
    assert_eq!(p.started_at, Timestamp::from_secs(9));
    assert!(p.restart);
    assert_eq!(p.child, 77);
    assert_eq!(p.stdout_path, "/home/alice/.logs/tmp/sleep-60.stdout");
    assert_eq!(p.stderr_path, "/home/alice/.logs/tmp/sleep-60.stderr");
}
