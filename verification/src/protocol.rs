//! The requests a client sends and the responses the supervisor gives.

use crate::text::{push_signed_decimal, signed_decimal};
use crate::time::{Span, Timestamp};
use std::collections::HashMap;
use vstd::prelude::*;
use vstd::string::StringExecFns;

verus! {

/// What a client asks the supervisor to do.
#[allow(inconsistent_fields)]
#[derive(Debug)]
pub enum Command {
    Run { cmd: String, cwd: String, env: HashMap<String, String>, restart: bool },
    Stop { id: u32 },
    Status,
    Logs { id: u32 },
    PortAllocate { port: Option<u16> },
    PortFree { port: u16 },
    PortLookup { user: Option<String> },
}

/// A command together with the name of the user on whose behalf it is sent.
#[derive(Debug)]
pub struct Message {
    pub cmd: Command,
    pub user: String,
}

/// What is known of a supervised child.
#[derive(Debug, Clone)]
pub enum ProcessStatus {
    Running,
    /// The exit code, where there is one.
    Exited(i32),
    /// Why the child could not be examined.
    Failed(String),
}

/// One supervised process, as reported to clients.
#[derive(Debug)]
pub struct ProcessInfo {
    pub id: u32,
    pub user: String,
    pub uptime: Span,
    pub cwd: String,
    pub cmd: String,
    pub status: ProcessStatus,
}

/// One allocated port, as reported to clients.
#[derive(Debug)]
pub struct PortInfo {
    pub port: u16,
    pub user: String,
    pub active: bool,
    pub allocated_at: Timestamp,
}

/// What a successful request hands back.
#[derive(Debug)]
pub enum ResponseData {
    ProcessStarted { id: u32 },
    ProcessStopped,
    Status(Vec<ProcessInfo>),
    Logs { stdout: String, stderr: String },
    PortAllocated { port: u16 },
    PortFreed,
    PortList(Vec<PortInfo>),
}

/// The answer to one message.
#[derive(Debug)]
pub enum Response {
    Success(ResponseData),
    Error(String),
}

impl ProcessStatus {
    /// How the status is shown: `running`, `exited(` code `)` or
    /// `failed(` reason `)`.
    pub open spec fn text(self) -> Seq<char> {
        match self {
            ProcessStatus::Running => "running"@,
            ProcessStatus::Exited(code) => "exited("@ + signed_decimal(code as int) + ")"@,
            ProcessStatus::Failed(reason) => "failed("@ + reason@ + ")"@,
        }
    }

    /// The status as shown to people.
    pub fn to_string(&self) -> (s: String)
        ensures
            s@ == self.text(),
    {
        match self {
            ProcessStatus::Running => "running".to_owned(),
            ProcessStatus::Exited(code) => {
                let mut s = "exited(".to_owned();
                push_signed_decimal(&mut s, *code as i64);
                s.append(")");
                s
            },
            ProcessStatus::Failed(reason) => {
                let mut s = "failed(".to_owned();
                s.append(reason.as_str());
                s.append(")");
                s
            },
        }
    }
}

impl Response {
    /// Whether this is the error response that carries exactly `text`.
    pub open spec fn is_error(self, text: Seq<char>) -> bool {
        self matches Response::Error(e) && e@ == text
    }
}

} // verus!
