//! The dispatcher: what each request does to the process table and the port
//! registry, and what is answered.
//!
//! A request is handled in one step where the answer depends on the tables
//! alone. Where a child has to be started, polled or brought down first, the
//! step says so, and a second function gives the answer once that is done.

use crate::ports::{in_range, lists, random_search, PortState};
use crate::process::{SpawnPlan, SpawnRequest};
use crate::protocol::{Command, Message, PortInfo, Response, ResponseData};
use crate::state::{reports, restart_due, restarts, ChildPoll, Process, State};
use crate::text::prefixed;
use crate::time::Timestamp;
use vstd::prelude::*;

verus! {

/// What the handling of one message asks for next.
pub enum Step<C> {
    /// Nothing but to send this response.
    Reply(Response),
    /// Start a child as requested, then answer with `finish_run`.
    Spawn(SpawnRequest),
    /// Bring down the child of this row, which is no longer in the table,
    /// then answer with `finish_stop`.
    Terminate(Process<C>),
    /// Poll every child in the table, then answer with `finish_status`.
    Poll,
}

/// Whether the acting user may touch a row.
#[derive(Clone, Copy, Debug, PartialEq, Eq, Structural)]
pub enum Access {
    /// There is no such row.
    Missing,
    /// The row belongs to another user.
    Denied,
    /// The row belongs to the acting user.
    Granted,
}

/// Whether `user` may touch the row filed under `id`: only its owner may.
pub open spec fn access<C>(rows: Map<u32, Process<C>>, id: u32, user: Seq<char>) -> Access {
    if !rows.contains_key(id) {
        Access::Missing
    } else if rows[id].user@ == user {
        Access::Granted
    } else {
        Access::Denied
    }
}

/// Whether the registry went from `before` to `after` by giving `port`, which
/// was available, to `user`, and nothing else changed.
pub open spec fn grants(before: PortState, after: PortState, user: String, port: u16) -> bool {
    &&& before.available(port)
    &&& after@.dom() == before@.dom().insert(port)
    &&& after@.remove(port) == before@
    &&& after@[port].user == user
    &&& after.last_saved() == before.last_saved()
}

/// The port that a step answers an allocation with, if it answers with one.
pub open spec fn given_port<C>(step: Step<C>) -> Option<u16> {
    match step {
        Step::Reply(Response::Success(ResponseData::PortAllocated { port })) => Some(port),
        _ => None,
    }
}

/// Whether `list` is what a lookup for `user` reports of `ports`: a row for
/// each selected allocation, no port twice, and nothing else.
pub open spec fn looked_up(ports: PortState, user: Option<String>, list: Seq<PortInfo>) -> bool {
    &&& forall|i: int|
        #![trigger list[i]]
        0 <= i < list.len() ==> ports.selects(user, list[i].port) && list[i] == ports.info(
            list[i].port,
        )
    &&& forall|i: int, j: int|
        #![trigger list[i], list[j]]
        0 <= i < j < list.len() ==> list[i].port != list[j].port
    &&& forall|port: u16| ports.selects(user, port) ==> #[trigger] lists(list, port)
}

/// Where the counter of ids stands after `cmd` was handled, when it stood at
/// `counter` before: one further after a `Run`, and where it was after
/// anything else.
pub open spec fn counter_after(counter: int, cmd: Command) -> int {
    if cmd is Run {
        counter + 1
    } else {
        counter
    }
}

/// Where the counter of ids stands when the first `k` of `cmds` were handled
/// by a supervisor whose counter began at zero.
pub open spec fn counter_at(cmds: Seq<Command>, k: int) -> int
    decreases k,
{
    if k <= 0 {
        0
    } else {
        counter_after(counter_at(cmds, k - 1), cmds[k - 1])
    }
}

/// Ids increase over the lifetime of a supervisor. A `Run` is answered with
/// the counter as it stands and moves it on by one, and nothing else moves
/// it, so of two `Run`s the later is answered with the larger id, whatever
/// was handled in between.
pub proof fn lemma_run_ids_increase(cmds: Seq<Command>, i: int, j: int)
    requires
        0 <= i < j < cmds.len(),
        cmds[i] is Run,
        cmds[j] is Run,
    ensures
        0 <= counter_at(cmds, i) < counter_at(cmds, j),
{
    lemma_counter_grows(cmds, i);
    lemma_counter_steps(cmds, i, j);
    assert(counter_at(cmds, i + 1) == counter_at(cmds, i) + 1);
}

proof fn lemma_counter_grows(cmds: Seq<Command>, k: int)
    ensures
        0 <= counter_at(cmds, k),
    decreases k,
{
    if k > 0 {
        lemma_counter_grows(cmds, k - 1);
    }
}

proof fn lemma_counter_steps(cmds: Seq<Command>, i: int, j: int)
    requires
        0 <= i < j,
    ensures
        counter_at(cmds, i + 1) <= counter_at(cmds, j),
    decreases j,
{
    if j > i + 1 {
        lemma_counter_steps(cmds, i, j - 1);
    }
}

/// The error response that carries `text`.
pub fn error(text: &str) -> (r: Response)
    ensures
        r.is_error(text@),
{
    Response::Error(text.to_owned())
}

/// Whether `user` may touch the row filed under `id`.
pub fn check_access<C>(state: &State<C>, id: u32, user: &String) -> (a: Access)
    ensures
        a == access(state.rows(), id, user@),
{
    match state.get_process(id) {
        None => Access::Missing,
        Some(row) => if row.user == *user {
            Access::Granted
        } else {
            Access::Denied
        },
    }
}

/// Handles one message as far as the tables decide it.
///
/// - `Run` draws the next id and asks for the child to be started.
/// - `Stop` by the owner takes the row out of the table and asks for its
///   child to be brought down; by anyone else it changes nothing.
/// - `Logs` gives the owner the paths of the row's log files.
/// - `Status` asks for every child to be polled.
/// - `PortAllocate`, `PortFree` and `PortLookup` are answered from the port
///   registry; any user may free any port.
pub fn handle_message<C>(msg: Message, state: &mut State<C>, ports: &mut PortState) -> (step: Step<
    C,
>)
    requires
        msg.cmd is Run ==> old(state).next_id < u32::MAX,
    ensures
        old(state).wf() ==> final(state).wf(),
        old(ports).wf() ==> final(ports).wf(),
        final(state).next_id == counter_after(old(state).next_id as int, msg.cmd),
        match msg.cmd {
            Command::Run { cmd, cwd, env, restart } => {
                &&& step == Step::<C>::Spawn(
                    SpawnRequest { id: old(state).next_id, user: msg.user, cmd, cwd, env, restart },
                )
                &&& final(state).rows() == old(state).rows()
                &&& final(state).next_id == old(state).next_id + 1
                &&& *final(ports) == *old(ports)
            },
            Command::Stop { id } => {
                &&& *final(ports) == *old(ports)
                &&& match access(old(state).rows(), id, msg.user@) {
                    Access::Missing => {
                        &&& step matches Step::Reply(r) && r.is_error("Process not found"@)
                        &&& *final(state) == *old(state)
                    },
                    Access::Denied => {
                        &&& step matches Step::Reply(r) && r.is_error(
                            "Not authorized to stop this process"@,
                        )
                        &&& *final(state) == *old(state)
                    },
                    Access::Granted => {
                        &&& step == Step::Terminate(old(state).rows()[id])
                        &&& final(state).rows() == old(state).rows().remove(id)
                        &&& final(state).next_id == old(state).next_id
                    },
                }
            },
            Command::Logs { id } => {
                &&& *final(ports) == *old(ports)
                &&& *final(state) == *old(state)
                &&& match access(old(state).rows(), id, msg.user@) {
                    Access::Missing => step matches Step::Reply(r) && r.is_error(
                        "Process not found"@,
                    ),
                    Access::Denied => step matches Step::Reply(r) && r.is_error(
                        "Not authorized to view these logs"@,
                    ),
                    Access::Granted => step == Step::<C>::Reply(
                        Response::Success(
                            ResponseData::Logs {
                                stdout: old(state).rows()[id].stdout_path,
                                stderr: old(state).rows()[id].stderr_path,
                            },
                        ),
                    ),
                }
            },
            Command::Status => {
                &&& step == Step::<C>::Poll
                &&& *final(state) == *old(state)
                &&& *final(ports) == *old(ports)
            },
            Command::PortAllocate { port } => {
                &&& *final(state) == *old(state)
                &&& match step {
                    Step::Reply(Response::Success(ResponseData::PortAllocated { port: given })) => {
                        grants(*old(ports), *final(ports), msg.user, given)
                    },
                    Step::Reply(Response::Error(e)) => {
                        &&& e@ == "Port allocation failed"@
                        &&& final(ports)@ == old(ports)@
                        &&& final(ports).last_saved() == old(ports).last_saved()
                    },
                    _ => false,
                }
                &&& port is None ==> exists|draws: Seq<u16>| #[trigger]
                    random_search(old(ports)@, draws, given_port(step))
                &&& (forall|p: u16| in_range(p) ==> old(ports)@.contains_key(p)) ==> !(step matches Step::Reply(
                    Response::Success(_),
                ))
                &&& port matches Some(asked) ==> (step matches Step::Reply(Response::Success(_))
                    <==> old(ports).available(asked))
                &&& port matches Some(asked) ==> (step matches Step::Reply(
                    Response::Success(ResponseData::PortAllocated { port: given }),
                ) ==> given == asked)
            },
            Command::PortFree { port } => {
                &&& *final(state) == *old(state)
                &&& final(ports)@ == old(ports)@.remove(port)
                &&& final(ports).last_saved() == old(ports).last_saved()
                &&& if old(ports)@.contains_key(port) {
                    step == Step::<C>::Reply(Response::Success(ResponseData::PortFreed))
                } else {
                    step matches Step::Reply(r) && r.is_error(
                        "Port not found or not owned by user"@,
                    )
                }
            },
            Command::PortLookup { user } => {
                &&& *final(state) == *old(state)
                &&& *final(ports) == *old(ports)
                &&& step matches Step::Reply(Response::Success(ResponseData::PortList(list)))
                &&& looked_up(*old(ports), user, list@)
            },
        },
{
    match msg.cmd {
        Command::Run { cmd, cwd, env, restart } => {
            let id = state.next_id();
            Step::Spawn(SpawnRequest { id, user: msg.user, cmd, cwd, env, restart })
        },
        Command::Stop { id } => {
            match check_access(state, id, &msg.user) {
                Access::Missing => Step::Reply(error("Process not found")),
                Access::Denied => Step::Reply(error("Not authorized to stop this process")),
                Access::Granted => match state.remove_process(id) {
                    Some(row) => Step::Terminate(row),
                    None => Step::Reply(error("Process not found")),
                },
            }
        },
        Command::Logs { id } => {
            match state.get_process(id) {
                None => Step::Reply(error("Process not found")),
                Some(row) => if row.user == msg.user {
                    Step::Reply(
                        Response::Success(
                            ResponseData::Logs {
                                stdout: row.stdout_path.clone(),
                                stderr: row.stderr_path.clone(),
                            },
                        ),
                    )
                } else {
                    Step::Reply(error("Not authorized to view these logs"))
                },
            }
        },
        Command::Status => Step::Poll,
        Command::PortAllocate { port } => {
            match ports.allocate(msg.user, port) {
                Some(given) => Step::Reply(
                    Response::Success(ResponseData::PortAllocated { port: given }),
                ),
                None => Step::Reply(error("Port allocation failed")),
            }
        },
        Command::PortFree { port } => {
            if ports.free(port) {
                Step::Reply(Response::Success(ResponseData::PortFreed))
            } else {
                Step::Reply(error("Port not found or not owned by user"))
            }
        },
        Command::PortLookup { user } => {
            let list = ports.lookup(user);
            Step::Reply(Response::Success(ResponseData::PortList(list)))
        },
    }
}

/// Answers a `Run` once the start of the child was tried. A child that was
/// started is filed under the id drawn for it; a failure leaves the table as
/// it was and is reported with its reason.
pub fn finish_run<C>(
    state: &mut State<C>,
    request: SpawnRequest,
    outcome: Result<(SpawnPlan, C), String>,
    now: Timestamp,
) -> (r: Response)
    ensures
        match outcome {
            Ok((plan, child)) => {
                &&& r == Response::Success(ResponseData::ProcessStarted { id: request.id })
                &&& final(state).rows() == old(state).rows().insert(
                    request.id,
                    Process::of(request, plan, child, now),
                )
            },
            Err(e) => {
                &&& r.is_error("Failed to start process: "@ + e@)
                &&& final(state).rows() == old(state).rows()
            },
        },
        final(state).next_id == old(state).next_id,
        old(state).wf() && request.id < old(state).next_id ==> final(state).wf(),
{
    match outcome {
        Ok((plan, child)) => {
            let id = request.id;
            state.add_process(Process::started(request, plan, child, now));
            Response::Success(ResponseData::ProcessStarted { id })
        },
        Err(e) => Response::Error(prefixed("Failed to start process: ", e.as_str())),
    }
}

/// Answers a `Stop` once the child was brought down, or could not be.
pub fn finish_stop(outcome: Result<(), String>) -> (r: Response)
    ensures
        match outcome {
            Ok(_) => r == Response::Success(ResponseData::ProcessStopped),
            Err(e) => r.is_error("Failed to stop process: "@ + e@),
        },
{
    match outcome {
        Ok(_) => Response::Success(ResponseData::ProcessStopped),
        Err(e) => Response::Error(prefixed("Failed to stop process: ", e.as_str())),
    }
}

/// Answers a `Status` once the children were polled: a report for every
/// polled child in the table, whoever owns it, in the order of the polls.
pub fn finish_status<C>(state: &State<C>, polls: &Vec<(u32, ChildPoll)>, now: Timestamp) -> (r:
    Response)
    ensures
        r matches Response::Success(ResponseData::Status(list)) && list@ == reports(
            state.rows(),
            polls@,
            now,
        ),
{
    Response::Success(ResponseData::Status(state.list_processes(polls, now)))
}

/// Ends the restart of one row once the start of its new child was tried,
/// and says whether the row was replaced. A child that was started takes
/// the place of the old one under the same id; after a failure the row stays
/// as it was, to be tried again at the next tick.
pub fn finish_restart<C>(
    state: &mut State<C>,
    request: SpawnRequest,
    outcome: Result<(SpawnPlan, C), String>,
    now: Timestamp,
) -> (restarted: bool)
    ensures
        restarted == outcome is Ok,
        match outcome {
            Ok((plan, child)) => final(state).rows() == old(state).rows().insert(
                request.id,
                Process::of(request, plan, child, now),
            ),
            Err(_) => final(state).rows() == old(state).rows(),
        },
        final(state).next_id == old(state).next_id,
        old(state).wf() && request.id < old(state).next_id ==> final(state).wf(),
{
    match outcome {
        Ok((plan, child)) => {
            state.add_process(Process::started(request, plan, child, now));
            true
        },
        Err(_) => false,
    }
}

/// A row that asks for restarts and whose child was polled as exited is
/// among the rows to start again, and starting it again keeps its id: the
/// new row is filed where the old one was, under the same id, for the same
/// user and command, and the table holds the same ids as before.
pub proof fn lemma_restart_keeps_id<C>(
    rows: Map<u32, Process<C>>,
    polls: Seq<(u32, ChildPoll)>,
    k: int,
    request: SpawnRequest,
    plan: SpawnPlan,
    child: C,
    now: Timestamp,
)
    requires
        0 <= k < polls.len(),
        rows.contains_key(polls[k].0),
        rows[polls[k].0].id == polls[k].0,
        rows[polls[k].0].restart,
        polls[k].1 is Exited,
        rows[polls[k].0].started_again_by(request),
    ensures
        restarts(rows, polls).contains(polls[k].0),
        Process::of(request, plan, child, now).id == polls[k].0,
        Process::of(request, plan, child, now).restart,
        Process::of(request, plan, child, now).user == rows[polls[k].0].user,
        Process::of(request, plan, child, now).cmd == rows[polls[k].0].cmd,
        rows.insert(polls[k].0, Process::of(request, plan, child, now)).dom() == rows.dom(),
{
    lemma_restarts_holds(rows, polls, k);
    assert(rows.insert(polls[k].0, Process::of(request, plan, child, now)).dom() =~= rows.dom());
}

proof fn lemma_restarts_holds<C>(rows: Map<u32, Process<C>>, polls: Seq<(u32, ChildPoll)>, k: int)
    requires
        0 <= k < polls.len(),
        restart_due(rows, polls[k].0, polls[k].1),
    ensures
        restarts(rows, polls).contains(polls[k].0),
    decreases polls.len(),
{
    let before = restarts(rows, polls.drop_last());
    if k == polls.len() - 1 {
        assert(restarts(rows, polls) == before.push(polls[k].0));
        assert(before.push(polls[k].0)[before.len() as int] == polls[k].0);
    } else {
        assert(polls.drop_last()[k] == polls[k]);
        lemma_restarts_holds(rows, polls.drop_last(), k);
        let i = choose|i: int| 0 <= i < before.len() && before[i] == polls[k].0;
        assert(restarts(rows, polls)[i] == polls[k].0);
    }
}

} // verus!
