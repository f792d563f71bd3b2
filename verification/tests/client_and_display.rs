use hiisi::client::{
    logs, message, port_allocate, port_free, port_lookup, run, status, stop,
};
use hiisi::display::{
    format_duration, format_error, format_ports, format_processes, format_success,
};
use hiisi::protocol::{Command, PortInfo, ProcessInfo, ProcessStatus, Response, ResponseData};
use hiisi::time::{Span, Timestamp};

fn info(id: u32, user: &str, secs: u64, cwd: &str, cmd: &str) -> ProcessInfo {
    ProcessInfo {
        id,
        user: user.to_string(),
        uptime: Span::from_secs(secs),
        cwd: cwd.to_string(),
        cmd: cmd.to_string(),
        status: ProcessStatus::Running,
    }
}

#[test]
fn a_message_names_the_acting_user() {
    let m = message(Command::Stop { id: 3 }, "alice".to_string());
    assert_eq!(m.user, "alice");
    assert!(matches!(m.cmd, Command::Stop { id: 3 }));
}

#[test]
fn run_reads_the_id() {
    assert_eq!(run(Response::Success(ResponseData::ProcessStarted { id: 7 })), Ok(7));
    assert_eq!(run(Response::Error("Failed to start process: x".to_string())),
        Err("Failed to start process: x".to_string()));
    assert_eq!(run(Response::Success(ResponseData::ProcessStopped)),
        Err("Unexpected response".to_string()));
}

#[test]
fn stop_reads_the_outcome() {
    assert_eq!(stop(Response::Success(ResponseData::ProcessStopped)), Ok(()));
    assert_eq!(stop(Response::Error("Process not found".to_string())),
        Err("Process not found".to_string()));
    assert_eq!(stop(Response::Success(ResponseData::PortFreed)),
        Err("Unexpected response".to_string()));
}

#[test]
fn status_reads_the_list() {
    let list = vec![info(0, "alice", 5, "/tmp", "sleep 60")];
    let read = status(Response::Success(ResponseData::Status(list))).unwrap();
    assert_eq!(read.len(), 1);
    assert_eq!(read[0].cmd, "sleep 60");
    assert_eq!(status(Response::Error("no".to_string())).err().unwrap(), "no");
    assert_eq!(status(Response::Success(ResponseData::PortList(Vec::new()))).err().unwrap(),
        "Unexpected response");
}

#[test]
fn logs_read_the_paths() {
    let response = Response::Success(ResponseData::Logs {
        stdout: "/a.stdout".to_string(),
        stderr: "/a.stderr".to_string(),
    });
    assert_eq!(logs(response), Ok(("/a.stdout".to_string(), "/a.stderr".to_string())));
    assert_eq!(logs(Response::Error("Not authorized to view these logs".to_string())),
        Err("Not authorized to view these logs".to_string()));
    assert_eq!(logs(Response::Success(ResponseData::ProcessStopped)),
        Err("Unexpected response".to_string()));
}

#[test]
fn port_commands_read_their_results() {
    assert_eq!(port_allocate(Response::Success(ResponseData::PortAllocated { port: 8080 })),
        Ok(8080));
    assert_eq!(port_allocate(Response::Error("Port allocation failed".to_string())),
        Err("Port allocation failed".to_string()));
    assert_eq!(port_allocate(Response::Success(ResponseData::PortFreed)),
        Err("Unexpected response".to_string()));
    assert_eq!(port_free(Response::Success(ResponseData::PortFreed)), Ok(()));
    assert_eq!(port_free(Response::Success(ResponseData::PortAllocated { port: 1 })),
        Err("Unexpected response".to_string()));
    assert_eq!(port_free(Response::Error("Port not found or not owned by user".to_string())),
        Err("Port not found or not owned by user".to_string()));
    let list = vec![PortInfo {
        port: 8080,
        user: "alice".to_string(),
        active: false,
        allocated_at: Timestamp::from_secs(0),
    }];
    let read = port_lookup(Response::Success(ResponseData::PortList(list))).unwrap();
    assert_eq!(read[0].port, 8080);
    assert_eq!(port_lookup(Response::Error("no".to_string())).err().unwrap(), "no");
    assert_eq!(port_lookup(Response::Success(ResponseData::Status(Vec::new()))).err().unwrap(),
        "Unexpected response");
}

#[test]
fn durations_are_shown_by_their_largest_units() {
    assert_eq!(format_duration(Span::from_secs(0)), "0s");
    assert_eq!(format_duration(Span::from_secs(59)), "59s");
    assert_eq!(format_duration(Span::new(59, 999_999_999).unwrap()), "59s");
    assert_eq!(format_duration(Span::from_secs(60)), "1m");
    assert_eq!(format_duration(Span::from_secs(3599)), "59m");
    assert_eq!(format_duration(Span::from_secs(3600)), "1h 0m");
    assert_eq!(format_duration(Span::from_secs(3661)), "1h 1m");
    assert_eq!(format_duration(Span::from_secs(86399)), "23h 59m");
    assert_eq!(format_duration(Span::from_secs(86400)), "1d 0h");
    assert_eq!(format_duration(Span::from_secs(90000)), "1d 1h");
    assert_eq!(format_duration(Span::from_secs(10 * 86400 + 5 * 3600 + 59)), "10d 5h");
}

#[test]
fn errors_and_successes_are_prefixed() {
    assert_eq!(format_error("Process not found"), "Error: Process not found");
    assert_eq!(format_success("Started process 0"), "Success: Started process 0");
    assert_eq!(format_error(""), "Error: ");
}

#[test]
fn processes_are_shown_as_a_table() {
    let list = vec![info(0, "alice", 5, "/tmp", "sleep 60"), info(12, "bob", 7200, "/srv", "server")];
    let expected = "\
+----+-------+--------+------+----------+
| ID | USER  | UPTIME | CWD  | COMMAND  |
+----+-------+--------+------+----------+
| 0  | alice | 5s     | /tmp | sleep 60 |
+----+-------+--------+------+----------+
| 12 | bob   | 2h 0m  | /srv | server   |
+----+-------+--------+------+----------+";
    assert_eq!(format_processes(&list), expected);
}

#[test]
fn no_processes_are_shown_as_a_header() {
    let expected = "\
+----+------+--------+-----+---------+
| ID | USER | UPTIME | CWD | COMMAND |
+----+------+--------+-----+---------+";
    assert_eq!(format_processes(&[]), expected);
}

#[test]
fn ports_are_shown_as_a_table() {
    let list = vec![
        PortInfo {
            port: 8080,
            user: "alice".to_string(),
            active: false,
            allocated_at: Timestamp::from_secs(1_518_568_087),
        },
        PortInfo {
            port: 9090,
            user: "bob".to_string(),
            active: true,
            allocated_at: Timestamp::new(0, 500_000_000).unwrap(),
        },
    ];
    let expected = "\
+------+-------+--------+--------------------------------+
| PORT | USER  | STATUS | ALLOCATED                      |
+------+-------+--------+--------------------------------+
| 8080 | alice | IDLE   | 2018-02-14T00:28:07Z           |
+------+-------+--------+--------------------------------+
| 9090 | bob   | ACTIVE | 1970-01-01T00:00:00.500000000Z |
+------+-------+--------+--------------------------------+";
    assert_eq!(format_ports(&list), expected);
}
