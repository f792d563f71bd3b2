//! The client's side of an exchange: the message that carries a command, and
//! what a response means as the result of each command.

use crate::protocol::{Command, Message, PortInfo, ProcessInfo, Response, ResponseData};
use vstd::prelude::*;

verus! {

/// What a client makes of a response that does not answer its command.
pub open spec fn unexpected_text() -> Seq<char> {
    "Unexpected response"@
}

/// Whether `r` is the failure that a client reports for `response` when it
/// is not the success that was hoped for: the supervisor's own words where
/// it answered with an error, and `Unexpected response` for a success of
/// another kind.
pub open spec fn fails_with<T>(r: Result<T, String>, response: Response) -> bool {
    match response {
        Response::Error(e) => r == Err::<T, String>(e),
        Response::Success(_) => r matches Err(e) && e@ == unexpected_text(),
    }
}

fn unexpected<T>(response: Response) -> (r: Result<T, String>)
    requires
        response is Success,
    ensures
        fails_with(r, response),
{
    Err("Unexpected response".to_owned())
}

/// The message that carries `cmd` on behalf of `user`.
pub fn message(cmd: Command, user: String) -> (msg: Message)
    ensures
        msg == (Message { cmd, user }),
{
    Message { cmd, user }
}

/// The result of `Run`: the id of the process that was started.
pub fn run(response: Response) -> (r: Result<u32, String>)
    ensures
        match response {
            Response::Success(ResponseData::ProcessStarted { id }) => r == Ok::<u32, String>(id),
            _ => fails_with(r, response),
        },
{
    match response {
        Response::Success(ResponseData::ProcessStarted { id }) => Ok(id),
        Response::Error(e) => Err(e),
        other => unexpected(other),
    }
}

/// The result of `Stop`.
pub fn stop(response: Response) -> (r: Result<(), String>)
    ensures
        match response {
            Response::Success(ResponseData::ProcessStopped) => r == Ok::<(), String>(()),
            _ => fails_with(r, response),
        },
{
    match response {
        Response::Success(ResponseData::ProcessStopped) => Ok(()),
        Response::Error(e) => Err(e),
        other => unexpected(other),
    }
}

/// The result of `Status`: the processes that were reported.
pub fn status(response: Response) -> (r: Result<Vec<ProcessInfo>, String>)
    ensures
        match response {
            Response::Success(ResponseData::Status(list)) => r == Ok::<Vec<ProcessInfo>, String>(
                list,
            ),
            _ => fails_with(r, response),
        },
{
    match response {
        Response::Success(ResponseData::Status(list)) => Ok(list),
        Response::Error(e) => Err(e),
        other => unexpected(other),
    }
}

/// The result of `Logs`: the paths of the standard output and the standard
/// error.
pub fn logs(response: Response) -> (r: Result<(String, String), String>)
    ensures
        match response {
            Response::Success(ResponseData::Logs { stdout, stderr }) => r == Ok::<
                (String, String),
                String,
            >((stdout, stderr)),
            _ => fails_with(r, response),
        },
{
    match response {
        Response::Success(ResponseData::Logs { stdout, stderr }) => Ok((stdout, stderr)),
        Response::Error(e) => Err(e),
        other => unexpected(other),
    }
}

/// The result of `PortAllocate`: the port that was given.
pub fn port_allocate(response: Response) -> (r: Result<u16, String>)
    ensures
        match response {
            Response::Success(ResponseData::PortAllocated { port }) => r == Ok::<u16, String>(
                port,
            ),
            _ => fails_with(r, response),
        },
{
    match response {
        Response::Success(ResponseData::PortAllocated { port }) => Ok(port),
        Response::Error(e) => Err(e),
        other => unexpected(other),
    }
}

/// The result of `PortFree`.
pub fn port_free(response: Response) -> (r: Result<(), String>)
    ensures
        match response {
            Response::Success(ResponseData::PortFreed) => r == Ok::<(), String>(()),
            _ => fails_with(r, response),
        },
{
    match response {
        Response::Success(ResponseData::PortFreed) => Ok(()),
        Response::Error(e) => Err(e),
        other => unexpected(other),
    }
}

/// The result of `PortLookup`: the ports that were listed.
pub fn port_lookup(response: Response) -> (r: Result<Vec<PortInfo>, String>)
    ensures
        match response {
            Response::Success(ResponseData::PortList(list)) => r == Ok::<Vec<PortInfo>, String>(
                list,
            ),
            _ => fails_with(r, response),
        },
{
    match response {
        Response::Success(ResponseData::PortList(list)) => Ok(list),
        Response::Error(e) => Err(e),
        other => unexpected(other),
    }
}

} // verus!
