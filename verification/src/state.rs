//! The process table: one row per supervised child, keyed by its id.

use crate::process::{SpawnPlan, SpawnRequest};
use crate::protocol::{ProcessInfo, ProcessStatus};
use crate::time::Timestamp;
use std::collections::HashMap;
use vstd::prelude::*;
use vstd::std_specs::iter::IteratorSpec;

verus! {

broadcast use vstd::std_specs::hash::group_hash_axioms;

/// What one non-blocking look at a child showed.
#[derive(Debug)]
pub enum ChildPoll {
    /// The child has not exited.
    Running,
    /// The child has exited, with this code where the system reports one.
    Exited(Option<i32>),
    /// The look itself failed, for this reason.
    Failed(String),
}

/// One supervised child. `C` is the handle through which the surrounding
/// program waits for the child and signals it.
pub struct Process<C> {
    pub id: u32,
    pub user: String,
    pub cmd: String,
    pub cwd: String,
    pub started_at: Timestamp,
    pub restart: bool,
    pub child: C,
    pub stdout_path: String,
    pub stderr_path: String,
    pub env: HashMap<String, String>,
}

/// The process table and the counter that ids are drawn from.
pub struct State<C> {
    pub processes: HashMap<u32, Process<C>>,
    pub next_id: u32,
}

/// The exit code reported for a child that exited without one.
pub const NO_EXIT_CODE: i32 = -1;

impl ChildPoll {
    /// The status that a poll stands for; a child that exited without a code
    /// is reported with `NO_EXIT_CODE`.
    pub open spec fn status(self) -> ProcessStatus {
        match self {
            ChildPoll::Running => ProcessStatus::Running,
            ChildPoll::Exited(Some(code)) => ProcessStatus::Exited(code),
            ChildPoll::Exited(None) => ProcessStatus::Exited(NO_EXIT_CODE),
            ChildPoll::Failed(reason) => ProcessStatus::Failed(reason),
        }
    }

    /// The status that this poll stands for.
    pub fn to_status(&self) -> (s: ProcessStatus)
        ensures
            s == self.status(),
    {
        match self {
            ChildPoll::Running => ProcessStatus::Running,
            ChildPoll::Exited(Some(code)) => ProcessStatus::Exited(*code),
            ChildPoll::Exited(None) => ProcessStatus::Exited(NO_EXIT_CODE),
            ChildPoll::Failed(reason) => ProcessStatus::Failed(reason.clone()),
        }
    }

    /// Whether the poll found the child gone.
    pub fn has_exited(&self) -> (b: bool)
        ensures
            b == (self is Exited),
    {
        match self {
            ChildPoll::Exited(_) => true,
            _ => false,
        }
    }
}

impl<C> Process<C> {
    /// The row as reported to clients when the child was polled as `poll`
    /// at the instant `now`: the uptime runs from the latest start and is
    /// zero where the clock reads earlier than that start.
    pub open spec fn info(self, poll: ChildPoll, now: Timestamp) -> ProcessInfo {
        ProcessInfo {
            id: self.id,
            user: self.user,
            uptime: now.span_since(self.started_at),
            cwd: self.cwd,
            cmd: self.cmd,
            status: poll.status(),
        }
    }

    /// Reports the row, given what a poll of its child showed and the
    /// present time.
    pub fn to_info(&self, poll: &ChildPoll, now: Timestamp) -> (info: ProcessInfo)
        ensures
            info == self.info(*poll, now),
    {
        ProcessInfo {
            id: self.id,
            user: self.user.clone(),
            uptime: now.saturating_duration_since(&self.started_at),
            cwd: self.cwd.clone(),
            cmd: self.cmd.clone(),
            status: poll.to_status(),
        }
    }

    /// The row of a child that was started at `now` as `request` asked and
    /// `plan` laid out.
    pub open spec fn of(request: SpawnRequest, plan: SpawnPlan, child: C, now: Timestamp) -> Process<
        C,
    > {
        Process {
            id: request.id,
            user: request.user,
            cmd: request.cmd,
            cwd: request.cwd,
            started_at: now,
            restart: request.restart,
            child,
            stdout_path: plan.stdout_path,
            stderr_path: plan.stderr_path,
            env: request.env,
        }
    }

    /// The row of a child that was started at `now` as `request` asked and
    /// `plan` laid out.
    pub fn started(request: SpawnRequest, plan: SpawnPlan, child: C, now: Timestamp) -> (row:
        Process<C>)
        ensures
            row == Process::of(request, plan, child, now),
    {
        Process {
            id: request.id,
            user: request.user,
            cmd: request.cmd,
            cwd: request.cwd,
            started_at: now,
            restart: request.restart,
            child,
            stdout_path: plan.stdout_path,
            stderr_path: plan.stderr_path,
            env: request.env,
        }
    }

    /// Whether `request` asks to start the child of this row again: with
    /// what was submitted for it, under the same id, and with restarts still
    /// asked for.
    pub open spec fn started_again_by(self, request: SpawnRequest) -> bool {
        &&& request.id == self.id
        &&& request.user == self.user
        &&& request.cmd == self.cmd
        &&& request.cwd == self.cwd
        &&& request.env@ == self.env@
        &&& request.restart
    }
}

/// The reports for the polled children, in the order of the polls: one for
/// each poll whose id is in the table.
pub open spec fn reports<C>(
    rows: Map<u32, Process<C>>,
    polls: Seq<(u32, ChildPoll)>,
    now: Timestamp,
) -> Seq<ProcessInfo>
    decreases polls.len(),
{
    if polls.len() == 0 {
        Seq::empty()
    } else {
        let before = reports(rows, polls.drop_last(), now);
        let (id, poll) = polls.last();
        if rows.contains_key(id) {
            before.push(rows[id].info(poll, now))
        } else {
            before
        }
    }
}

/// Every polled child that is in the table is reported: with polls for the
/// ids of all rows, the reports leave no row out.
pub proof fn lemma_reports_cover<C>(
    rows: Map<u32, Process<C>>,
    polls: Seq<(u32, ChildPoll)>,
    now: Timestamp,
    k: int,
)
    requires
        0 <= k < polls.len(),
        rows.contains_key(polls[k].0),
    ensures
        reports(rows, polls, now).contains(rows[polls[k].0].info(polls[k].1, now)),
    decreases polls.len(),
{
    let before = reports(rows, polls.drop_last(), now);
    let report = rows[polls[k].0].info(polls[k].1, now);
    if k == polls.len() - 1 {
        assert(reports(rows, polls, now) == before.push(report));
        assert(before.push(report)[before.len() as int] == report);
    } else {
        assert(polls.drop_last()[k] == polls[k]);
        lemma_reports_cover(rows, polls.drop_last(), now, k);
        let i = choose|i: int| 0 <= i < before.len() && before[i] == report;
        assert(reports(rows, polls, now)[i] == report);
    }
}

/// Whether the row filed under `id` is to be started again after `poll`: the
/// row exists, asks for restarts, and its child has exited.
pub open spec fn restart_due<C>(rows: Map<u32, Process<C>>, id: u32, poll: ChildPoll) -> bool {
    rows.contains_key(id) && rows[id].restart && poll is Exited
}

/// The ids to start again, in the order of the polls.
pub open spec fn restarts<C>(rows: Map<u32, Process<C>>, polls: Seq<(u32, ChildPoll)>) -> Seq<u32>
    decreases polls.len(),
{
    if polls.len() == 0 {
        Seq::empty()
    } else {
        let before = restarts(rows, polls.drop_last());
        let (id, poll) = polls.last();
        if restart_due(rows, id, poll) {
            before.push(id)
        } else {
            before
        }
    }
}

/// Whether `id` is the key of one of the first `n` of `rows`.
spec fn walked<C>(rows: Seq<(&u32, &Process<C>)>, n: int, id: u32) -> bool {
    exists|k: int| 0 <= k < n && *(#[trigger] rows[k]).0 == id
}

impl<C> Default for State<C> {
    /// An empty table whose counter stands at zero.
    fn default() -> (s: State<C>)
        ensures
            s.rows() == Map::<u32, Process<C>>::empty(),
            s.next_id == 0,
            s.wf(),
    {
        State::new()
    }
}

impl<C> State<C> {
    /// The rows of the table, by id.
    pub open spec fn rows(self) -> Map<u32, Process<C>> {
        self.processes@
    }

    /// Every row is filed under its own id, and every id in the table was
    /// drawn from the counter.
    pub open spec fn wf(self) -> bool {
        forall|id: u32|
            #![trigger self.processes@.contains_key(id)]
            self.processes@.contains_key(id) ==> self.processes@[id].id == id && id < self.next_id
    }

    /// Whether `id` was drawn from the counter at some time before.
    pub open spec fn drawn(self, id: u32) -> bool {
        id < self.next_id
    }

    /// An empty table whose counter stands at zero.
    pub fn new() -> (s: State<C>)
        ensures
            s.rows() == Map::<u32, Process<C>>::empty(),
            s.next_id == 0,
            s.wf(),
    {
        State { processes: HashMap::new(), next_id: 0 }
    }

    /// Draws the next id from the counter. The id is larger than every id
    /// drawn before and so is not in the table.
    pub fn next_id(&mut self) -> (id: u32)
        requires
            old(self).next_id < u32::MAX,
        ensures
            id == old(self).next_id,
            final(self).next_id == id + 1,
            final(self).processes == old(self).processes,
            !old(self).drawn(id) && final(self).drawn(id),
            forall|earlier: u32| old(self).drawn(earlier) ==> earlier < id && final(self).drawn(earlier),
            old(self).wf() ==> final(self).wf(),
            old(self).wf() ==> !final(self).rows().contains_key(id),
    {
        let id = self.next_id;
        self.next_id = id + 1;
        id
    }

    /// Files `process` under its id, in place of any row that was there.
    pub fn add_process(&mut self, process: Process<C>)
        ensures
            final(self).rows() == old(self).rows().insert(process.id, process),
            final(self).next_id == old(self).next_id,
            old(self).wf() && process.id < old(self).next_id ==> final(self).wf(),
    {
        self.processes.insert(process.id, process);
    }

    /// Takes the row filed under `id` out of the table and hands it over.
    pub fn remove_process(&mut self, id: u32) -> (row: Option<Process<C>>)
        ensures
            final(self).rows() == old(self).rows().remove(id),
            final(self).next_id == old(self).next_id,
            row == (if old(self).rows().contains_key(id) {
                Some(old(self).rows()[id])
            } else {
                None
            }),
            old(self).wf() ==> final(self).wf(),
    {
        self.processes.remove(&id)
    }

    /// Whether the row filed under `id` is picked: every row is, unless only
    /// those that ask for restarts are wanted.
    pub open spec fn picks(self, restarting_only: bool, id: u32) -> bool {
        self.rows().contains_key(id) && (restarting_only ==> self.rows()[id].restart)
    }

    /// The ids of the rows whose children are to be polled: those of all
    /// rows, or only of the rows that ask for restarts. Each id comes once,
    /// in no particular order.
    pub fn ids(&self, restarting_only: bool) -> (ids: Vec<u32>)
        ensures
            forall|i: int| 0 <= i < ids.len() ==> self.picks(restarting_only, #[trigger] ids[i]),
            forall|i: int, j: int| 0 <= i < j < ids.len() ==> ids[i] != ids[j],
            forall|id: u32| self.picks(restarting_only, id) ==> #[trigger] ids@.contains(id),
    {
        let mut ids: Vec<u32> = Vec::new();
        let ghost rows = self.processes.iter().remaining();
        for entry in it: self.processes.iter()
            invariant
                it.seq() == rows,
                rows == self.processes.iter().remaining(),
                rows.no_duplicates(),
                forall|i: int|
                    0 <= i < ids.len() ==> self.picks(restarting_only, #[trigger] ids[i])
                        && walked(rows, it.index(), ids[i]),
                forall|i: int, j: int| 0 <= i < j < ids.len() ==> ids[i] != ids[j],
                forall|k: int|
                    #![trigger rows[k]]
                    0 <= k < it.index() && self.picks(restarting_only, *rows[k].0)
                        ==> ids@.contains(*rows[k].0),
        {
            let (id, row) = entry;
            let ghost before = ids@;
            assert(entry == rows[it.index()]);
            assert(self.processes@.contains_key(*id) && self.processes@[*id] == *row);
            if !restarting_only || row.restart {
                ids.push(*id);
                assert(ids@[before.len() as int] == *id);
            }
            proof {
                assert forall|k: int|
                    #![trigger rows[k]]
                    0 <= k <= it.index() && self.picks(
                        restarting_only,
                        *rows[k].0,
                    ) implies ids@.contains(*rows[k].0) by {
                    if k < it.index() {
                        let i = choose|i: int| 0 <= i < before.len() && before[i] == *rows[k].0;
                        assert(ids@[i] == *rows[k].0);
                    }
                }
            }
        }
        ids
    }

    /// Reports every polled child that is in the table, as of `now`, in the
    /// order of the polls.
    pub fn list_processes(&self, polls: &Vec<(u32, ChildPoll)>, now: Timestamp) -> (list: Vec<
        ProcessInfo,
    >)
        ensures
            list@ == reports(self.rows(), polls@, now),
    {
        let mut list: Vec<ProcessInfo> = Vec::new();
        let mut i: usize = 0;
        while i < polls.len()
            invariant
                i <= polls.len(),
                list@ == reports(self.rows(), polls@.take(i as int), now),
            decreases polls.len() - i,
        {
            proof {
                assert(polls@.take(i + 1).drop_last() == polls@.take(i as int));
                assert(polls@.take(i + 1).last() == polls@[i as int]);
            }
            let id = polls[i].0;
            match self.processes.get(&id) {
                Some(row) => {
                    list.push(row.to_info(&polls[i].1, now));
                },
                None => {},
            }
            i += 1;
        }
        proof {
            assert(polls@.take(polls.len() as int) == polls@);
        }
        list
    }

    /// The ids of the rows that are to be started again after `polls`, in
    /// the order of the polls.
    pub fn restart_candidates(&self, polls: &Vec<(u32, ChildPoll)>) -> (ids: Vec<u32>)
        ensures
            ids@ == restarts(self.rows(), polls@),
    {
        let mut ids: Vec<u32> = Vec::new();
        let mut i: usize = 0;
        while i < polls.len()
            invariant
                i <= polls.len(),
                ids@ == restarts(self.rows(), polls@.take(i as int)),
            decreases polls.len() - i,
        {
            proof {
                assert(polls@.take(i + 1).drop_last() == polls@.take(i as int));
                assert(polls@.take(i + 1).last() == polls@[i as int]);
            }
            let id = polls[i].0;
            let exited = polls[i].1.has_exited();
            match self.processes.get(&id) {
                Some(row) => {
                    if row.restart && exited {
                        ids.push(id);
                    }
                },
                None => {},
            }
            i += 1;
        }
        proof {
            assert(polls@.take(polls.len() as int) == polls@);
        }
        ids
    }

    /// What is needed to start the child filed under `id` again, if there
    /// is such a row.
    pub fn restart_request(&self, id: u32) -> (request: Option<SpawnRequest>)
        ensures
            request is Some <==> self.rows().contains_key(id),
            request matches Some(r) ==> self.rows()[id].started_again_by(r),
    {
        match self.processes.get(&id) {
            Some(row) => Some(
                SpawnRequest {
                    id: row.id,
                    user: row.user.clone(),
                    cmd: row.cmd.clone(),
                    cwd: row.cwd.clone(),
                    env: row.env.clone(),
                    restart: true,
                },
            ),
            None => None,
        }
    }

    /// The row filed under `id`, if there is one.
    pub fn get_process(&self, id: u32) -> (row: Option<&Process<C>>)
        ensures
            row.is_some() == self.rows().contains_key(id),
            row matches Some(p) ==> *p == self.rows()[id],
    {
        self.processes.get(&id)
    }
}

} // verus!
