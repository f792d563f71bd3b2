//! The port registry: which user holds which port, and since when.

use crate::protocol::PortInfo;
use crate::time::{Span, Timestamp};
use rand::Rng;
use std::collections::HashMap;
use vstd::prelude::*;
use vstd::std_specs::iter::IteratorSpec;

verus! {

broadcast use vstd::std_specs::hash::group_hash_axioms;

/// The lowest port that the registry hands out.
pub const MIN_PORT: u16 = 1024;

/// The highest port that the registry hands out.
pub const MAX_PORT: u16 = 65535;

/// Seconds that pass between two writes of the registry.
pub const SAVE_INTERVAL_SECS: u64 = 60;

/// How many random candidates are tried before an allocation gives up.
pub const RANDOM_ATTEMPTS: u32 = 100;

/// Who holds a port, and since when.
#[derive(Debug)]
pub struct PortAllocation {
    pub user: String,
    pub allocated_at: Timestamp,
}

/// The registry of allocated ports, with the time it was last written out.
pub struct PortState {
    allocations: HashMap<u16, PortAllocation>,
    last_save: Option<Timestamp>,
}

/// Whether `port` is one that the registry may hand out.
pub open spec fn in_range(port: u16) -> bool {
    MIN_PORT <= port <= MAX_PORT
}

/// Whether a write of the registry is due at `now`, when the last one was at
/// `last_save`: always before the first write, and from then on once
/// `SAVE_INTERVAL_SECS` have passed or the clock has gone backwards.
pub open spec fn save_due(last_save: Option<Timestamp>, now: Timestamp) -> bool {
    match last_save {
        None => true,
        Some(t) => now@ < t@ || now@ - t@ >= SAVE_INTERVAL_SECS as int * 1_000_000_000,
    }
}

/// Whether a check at `now` of a registry last written out at `last_save`
/// decides `due` and leaves `recorded` as the time of the last write: a write
/// is due exactly when `save_due` says so, and a write that is due is
/// recorded as made at `now`.
pub open spec fn save_checked(
    last_save: Option<Timestamp>,
    now: Timestamp,
    due: bool,
    recorded: Option<Timestamp>,
) -> bool {
    &&& due == save_due(last_save, now)
    &&& recorded == (if due {
        Some(now)
    } else {
        last_save
    })
}

/// Whether the allocations went from `before` to `after` by what an
/// allocation for `user` at the instant `now` came to: the port that was
/// given is recorded for that user as of that instant, and nothing else has
/// changed.
pub open spec fn stamped(
    before: Map<u16, PortAllocation>,
    after: Map<u16, PortAllocation>,
    user: String,
    now: Timestamp,
    given: Option<u16>,
) -> bool {
    &&& now.wf()
    &&& after == (match given {
        Some(port) => before.insert(port, PortAllocation { user, allocated_at: now }),
        None => before,
    })
}

/// Whether `list` holds a row for `port`.
pub open spec fn lists(list: Seq<PortInfo>, port: u16) -> bool {
    exists|i: int| 0 <= i < list.len() && (#[trigger] list[i]).port == port
}

/// Whether `port` is the key of one of the first `n` of `rows`.
spec fn walked(rows: Seq<(&u16, &PortAllocation)>, n: int, port: u16) -> bool {
    exists|k: int| 0 <= k < n && *(#[trigger] rows[k]).0 == port
}

/// The registry that a list of rows stands for: each row in range is
/// recorded under its port, a later row taking the place of an earlier one
/// for the same port, and a row out of range is left out.
pub open spec fn restored(rows: Seq<PortInfo>) -> Map<u16, PortAllocation>
    decreases rows.len(),
{
    if rows.len() == 0 {
        Map::empty()
    } else {
        let row = rows.last();
        let rest = restored(rows.drop_last());
        if in_range(row.port) {
            rest.insert(row.port, PortAllocation { user: row.user, allocated_at: row.allocated_at })
        } else {
            rest
        }
    }
}

/// The first of `draws` that is in range and not in `taken`, if there is
/// one.
pub open spec fn first_free(taken: Map<u16, PortAllocation>, draws: Seq<u16>) -> Option<u16>
    decreases draws.len(),
{
    if draws.len() == 0 {
        None
    } else if in_range(draws[0]) && !taken.contains_key(draws[0]) {
        Some(draws[0])
    } else {
        first_free(taken, draws.drop_first())
    }
}

/// Whether `found` is what a random search among `draws` comes to, with the
/// ports of `taken` allocated: the draws are ports of the range, no more
/// than `RANDOM_ATTEMPTS` of them, the first that is free is found, and the
/// search gives up only when `RANDOM_ATTEMPTS` draws were all taken.
pub open spec fn random_search(
    taken: Map<u16, PortAllocation>,
    draws: Seq<u16>,
    found: Option<u16>,
) -> bool {
    &&& draws.len() <= RANDOM_ATTEMPTS
    &&& forall|i: int| 0 <= i < draws.len() ==> in_range(#[trigger] draws[i])
    &&& found == first_free(taken, draws)
    &&& found is None ==> draws.len() == RANDOM_ATTEMPTS
}

/// After draws that were all taken, the next draw is found if it is free,
/// and nothing is found if it is taken too.
proof fn lemma_first_free_push(taken: Map<u16, PortAllocation>, draws: Seq<u16>, port: u16)
    requires
        first_free(taken, draws) is None,
    ensures
        first_free(taken, draws.push(port)) == (if in_range(port) && !taken.contains_key(port) {
            Some(port)
        } else {
            None
        }),
    decreases draws.len(),
{
    if draws.len() == 0 {
        assert(draws.push(port).drop_first() == Seq::<u16>::empty());
    } else {
        assert(draws.push(port).drop_first() == draws.drop_first().push(port));
        lemma_first_free_push(taken, draws.drop_first(), port);
    }
}

impl View for PortState {
    type V = Map<u16, PortAllocation>;

    /// The allocations, by port.
    closed spec fn view(&self) -> Map<u16, PortAllocation> {
        self.allocations@
    }
}

impl Default for PortState {
    /// An empty registry that was never written out.
    fn default() -> (s: PortState)
        ensures
            s@ == Map::<u16, PortAllocation>::empty(),
            s.last_saved() is None,
            s.wf(),
    {
        PortState::new()
    }
}

impl PortState {
    /// Every allocated port is one that the registry may hand out. The
    /// constructors establish this and every method keeps it.
    pub open spec fn wf(self) -> bool {
        forall|port: u16| #[trigger] self@.contains_key(port) ==> in_range(port)
    }

    /// When the registry was last written out, if ever.
    pub closed spec fn last_saved(self) -> Option<Timestamp> {
        self.last_save
    }

    /// Whether `port` can be allocated: it is in range and nobody holds it.
    pub open spec fn available(self, port: u16) -> bool {
        in_range(port) && !self@.contains_key(port)
    }

    /// An empty registry that was never written out.
    pub fn new() -> (s: PortState)
        ensures
            s@ == Map::<u16, PortAllocation>::empty(),
            s.last_saved() is None,
            s.wf(),
    {
        PortState { allocations: HashMap::new(), last_save: None }
    }

    /// The registry that `rows` stand for, never written out: what a
    /// restarted supervisor begins with from the rows it finds on disk.
    pub fn restore(rows: &Vec<PortInfo>) -> (s: PortState)
        ensures
            s@ == restored(rows@),
            s.last_saved() is None,
            s.wf(),
    {
        let mut s = PortState::new();
        let mut i: usize = 0;
        while i < rows.len()
            invariant
                i <= rows.len(),
                s@ == restored(rows@.take(i as int)),
                s.last_saved() is None,
                s.wf(),
            decreases rows.len() - i,
        {
            let row = &rows[i];
            proof {
                assert(rows@.take(i + 1).drop_last() == rows@.take(i as int));
                assert(rows@.take(i + 1).last() == rows@[i as int]);
            }
            if row.port >= MIN_PORT && row.port <= MAX_PORT {
                s.allocate_specific(row.user.clone(), row.port, row.allocated_at);
            }
            i += 1;
        }
        proof {
            assert(rows@.take(rows.len() as int) == rows@);
        }
        s
    }

    /// What `lookup` lists of a whole registry stands for that registry
    /// again: a registry restored from such a list holds exactly the
    /// allocations that were listed.
    pub proof fn lemma_restore_lookup(self, list: Seq<PortInfo>)
        requires
            self.wf(),
            forall|i: int|
                #![trigger list[i]]
                0 <= i < list.len() ==> self@.contains_key(list[i].port) && list[i] == self.info(
                    list[i].port,
                ),
            forall|port: u16| self@.contains_key(port) ==> #[trigger] lists(list, port),
        ensures
            restored(list) == self@,
    {
        self.lemma_restored_rows(list, list.len() as int);
        assert(list.take(list.len() as int) == list);
        assert forall|port: u16| self@.contains_key(port) implies #[trigger] restored(
            list,
        ).contains_key(port) by {
            assert(lists(list, port));
        }
        assert(restored(list) =~= self@);
    }

    proof fn lemma_restored_rows(self, list: Seq<PortInfo>, n: int)
        requires
            self.wf(),
            0 <= n <= list.len(),
            forall|i: int|
                #![trigger list[i]]
                0 <= i < list.len() ==> self@.contains_key(list[i].port) && list[i] == self.info(
                    list[i].port,
                ),
        ensures
            forall|port: u16|
                #![trigger restored(list.take(n)).contains_key(port)]
                restored(list.take(n)).contains_key(port) <==> lists(list.take(n), port),
            forall|port: u16|
                #![trigger restored(list.take(n)).contains_key(port)]
                restored(list.take(n)).contains_key(port) ==> restored(list.take(n))[port]
                    == self@[port],
        decreases n,
    {
        let now = list.take(n);
        if n > 0 {
            self.lemma_restored_rows(list, n - 1);
            let before = list.take(n - 1);
            let row = list[n - 1];
            assert(now.drop_last() == before);
            assert(now.last() == row);
            assert(self@.contains_key(row.port));
            assert(in_range(row.port));
            assert(restored(now) == restored(before).insert(
                row.port,
                PortAllocation { user: row.user, allocated_at: row.allocated_at },
            ));
            assert forall|port: u16|
                #![trigger restored(now).contains_key(port)]
                restored(now).contains_key(port) <==> lists(now, port) by {
                if restored(now).contains_key(port) {
                    if port == row.port {
                        assert(now[n - 1].port == port);
                    } else {
                        assert(restored(before).contains_key(port));
                        assert(lists(before, port));
                        let i = choose|i: int|
                            0 <= i < before.len() && (#[trigger] before[i]).port == port;
                        assert(now[i].port == port);
                    }
                }
                if lists(now, port) {
                    let i = choose|i: int| 0 <= i < now.len() && (#[trigger] now[i]).port == port;
                    if i < n - 1 {
                        assert(before[i].port == port);
                        assert(lists(before, port));
                        assert(restored(before).contains_key(port));
                    }
                }
            }
            assert forall|port: u16|
                #![trigger restored(now).contains_key(port)]
                restored(now).contains_key(port) implies restored(now)[port] == self@[port] by {
                if port != row.port {
                    assert(restored(before).contains_key(port));
                }
            }
        } else {
            assert forall|port: u16|
                #![trigger restored(now).contains_key(port)]
                !restored(now).contains_key(port) && !lists(now, port) by {
            }
        }
    }

    /// Whether `port` can be allocated.
    pub fn is_available(&self, port: u16) -> (b: bool)
        ensures
            b == self.available(port),
    {
        port >= MIN_PORT && port <= MAX_PORT && !self.allocations.contains_key(&port)
    }

    /// Records that `user` holds `port` from `now` on, in place of whatever
    /// was recorded for that port.
    pub fn allocate_specific(&mut self, user: String, port: u16, now: Timestamp)
        requires
            in_range(port),
        ensures
            final(self)@ == old(self)@.insert(port, PortAllocation { user, allocated_at: now }),
            final(self).last_saved() == old(self).last_saved(),
            old(self).wf() ==> final(self).wf(),
    {
        self.allocations.insert(port, PortAllocation { user, allocated_at: now });
        assert(old(self).wf() ==> self.wf()) by {
            assert forall|p: u16| old(self).wf() && #[trigger] self@.contains_key(p) implies in_range(
                p,
            ) by {
                assert(p == port || old(self)@.contains_key(p));
            }
        }
    }

    /// Allocates `port` to `user` at the instant `now` if it is available,
    /// and changes nothing if it is not.
    pub fn allocate_at(&mut self, user: String, port: u16, now: Timestamp) -> (r: Option<u16>)
        ensures
            r == (if old(self).available(port) {
                Some(port)
            } else {
                None
            }),
            old(self).available(port) ==> final(self)@ == old(self)@.insert(
                port,
                PortAllocation { user, allocated_at: now },
            ),
            !old(self).available(port) ==> final(self)@ == old(self)@,
            final(self).last_saved() == old(self).last_saved(),
            old(self).wf() ==> final(self).wf(),
    {
        if self.is_available(port) {
            self.allocate_specific(user, port, now);
            Some(port)
        } else {
            None
        }
    }

    /// Frees `port`, whoever holds it, and says whether it was allocated.
    pub fn free(&mut self, port: u16) -> (freed: bool)
        ensures
            freed == old(self)@.contains_key(port),
            final(self)@ == old(self)@.remove(port),
            final(self).last_saved() == old(self).last_saved(),
            old(self).wf() ==> final(self).wf(),
    {
        let freed = self.allocations.remove(&port).is_some();
        assert(old(self).wf() ==> self.wf()) by {
            assert forall|p: u16| old(self).wf() && #[trigger] self@.contains_key(p) implies in_range(
                p,
            ) by {
                assert(old(self)@.contains_key(p));
            }
        }
        freed
    }

    /// Allocates to `user`, at the instant `now`, the first port not yet
    /// taken among ports drawn at random from the whole range, and gives up
    /// after `RANDOM_ATTEMPTS` draws that were all taken. With every port of
    /// the range taken, none comes back.
    pub fn allocate_random(&mut self, user: String, now: Timestamp) -> (r: Option<u16>)
        ensures
            exists|draws: Seq<u16>| #[trigger] random_search(old(self)@, draws, r),
            r matches Some(port) ==> (old(self).available(port) && final(self)@ == old(
                self,
            )@.insert(port, PortAllocation { user, allocated_at: now })),
            r is None ==> final(self)@ == old(self)@,
            (forall|port: u16| in_range(port) ==> old(self)@.contains_key(port)) ==> r is None,
            final(self).last_saved() == old(self).last_saved(),
            old(self).wf() ==> final(self).wf(),
    {
        let ghost mut draws: Seq<u16> = Seq::empty();
        let mut attempt: u32 = 0;
        while attempt < RANDOM_ATTEMPTS
            invariant
                *self == *old(self),
                attempt <= RANDOM_ATTEMPTS,
                draws.len() == attempt,
                forall|i: int| 0 <= i < draws.len() ==> in_range(#[trigger] draws[i]),
                first_free(self@, draws) is None,
            decreases RANDOM_ATTEMPTS - attempt,
        {
            let port = random_in_range(MIN_PORT, MAX_PORT);
            proof {
                lemma_first_free_push(self@, draws, port);
                draws = draws.push(port);
            }
            if self.is_available(port) {
                let r = self.allocate_at(user, port, now);
                assert(random_search(old(self)@, draws, r));
                return r;
            }
            attempt += 1;
        }
        assert(random_search(old(self)@, draws, None));
        None
    }

    /// Allocates a port to `user`: the requested one if it is available,
    /// or, where none is requested, one found by `allocate_random`. The
    /// allocation is stamped with the system clock's present reading.
    pub fn allocate(&mut self, user: String, requested_port: Option<u16>) -> (r: Option<u16>)
        ensures
            requested_port matches Some(port) ==> r == (if old(self).available(port) {
                Some(port)
            } else {
                None
            }),
            requested_port is None ==> exists|draws: Seq<u16>| #[trigger]
                random_search(old(self)@, draws, r),
            (forall|port: u16| in_range(port) ==> old(self)@.contains_key(port)) ==> r is None,
            exists|now: Timestamp| #[trigger] stamped(old(self)@, final(self)@, user, now, r),
            r matches Some(port) ==> {
                &&& old(self).available(port)
                &&& final(self)@.dom() == old(self)@.dom().insert(port)
                &&& final(self)@.remove(port) == old(self)@
                &&& final(self)@[port].user == user
            },
            r is None ==> final(self)@ == old(self)@,
            final(self).last_saved() == old(self).last_saved(),
            old(self).wf() ==> final(self).wf(),
    {
        let now = Timestamp::now();
        let r = match requested_port {
            Some(port) => self.allocate_at(user, port, now),
            None => self.allocate_random(user, now),
        };
        proof {
            if let Some(port) = r {
                assert(self@.remove(port) =~= old(self)@);
            }
            assert(stamped(old(self)@, self@, user, now, r));
        }
        r
    }

    /// Whether the allocation of `port` is among those that a lookup for
    /// `user` reports: every allocation where no user is named, and else
    /// those held by that user.
    pub open spec fn selects(self, user: Option<String>, port: u16) -> bool {
        self@.contains_key(port) && (user matches Some(u) ==> self@[port].user@ == u@)
    }

    /// What a lookup reports of the allocation of `port`. A port is never
    /// reported as active.
    pub open spec fn info(self, port: u16) -> PortInfo {
        PortInfo {
            port,
            user: self@[port].user,
            active: false,
            allocated_at: self@[port].allocated_at,
        }
    }

    /// Lists the allocations held by `user`, or all of them where no user is
    /// named: each selected allocation once, in no particular order.
    pub fn lookup(&self, user: Option<String>) -> (list: Vec<PortInfo>)
        ensures
            forall|i: int|
                #![trigger list[i]]
                0 <= i < list.len() ==> self.selects(user, list[i].port) && list[i] == self.info(
                    list[i].port,
                ),
            forall|i: int, j: int|
                #![trigger list[i], list[j]]
                0 <= i < j < list.len() ==> list[i].port != list[j].port,
            forall|port: u16| self.selects(user, port) ==> #[trigger] lists(list@, port),
    {
        let mut list: Vec<PortInfo> = Vec::new();
        let ghost rows = self.allocations.iter().remaining();
        for entry in it: self.allocations.iter()
            invariant
                it.seq() == rows,
                rows == self.allocations.iter().remaining(),
                rows.no_duplicates(),
                forall|i: int|
                    #![trigger list[i]]
                    0 <= i < list.len() ==> self.selects(user, list[i].port) && list[i]
                        == self.info(list[i].port) && walked(rows, it.index(), list[i].port),
                forall|i: int, j: int|
                    #![trigger list[i], list[j]]
                    0 <= i < j < list.len() ==> list[i].port != list[j].port,
                forall|k: int|
                    #![trigger rows[k]]
                    0 <= k < it.index() && self.selects(user, *rows[k].0) ==> lists(
                        list@,
                        *rows[k].0,
                    ),
        {
            let (port, allocation) = entry;
            let ghost before = list@;
            assert(entry == rows[it.index()]);
            assert(self@.contains_key(*port) && self@[*port] == *allocation);
            let wanted = match &user {
                Some(u) => allocation.user == *u,
                None => true,
            };
            assert(wanted == self.selects(user, *port));
            if wanted {
                list.push(
                    PortInfo {
                        port: *port,
                        user: allocation.user.clone(),
                        active: false,
                        allocated_at: allocation.allocated_at,
                    },
                );
                assert(list@[before.len() as int].port == *port);
            }
            proof {
                assert forall|k: int|
                    #![trigger rows[k]]
                    0 <= k <= it.index() && self.selects(user, *rows[k].0) implies lists(
                    list@,
                    *rows[k].0,
                ) by {
                    if k < it.index() {
                        let i = choose|i: int|
                            0 <= i < before.len() && (#[trigger] before[i]).port == *rows[k].0;
                        assert(list@[i].port == *rows[k].0);
                    }
                }
            }
        }
        list
    }

    /// Decides by the system clock whether the registry is to be written
    /// out now, and if so records the present reading as the time of that
    /// write. The caller writes the registry out when told that it is due.
    pub fn check_save(&mut self) -> (due: bool)
        ensures
            exists|now: Timestamp| #[trigger]
                save_checked(old(self).last_saved(), now, due, final(self).last_saved()),
            final(self)@ == old(self)@,
    {
        let now = Timestamp::now();
        self.check_save_at(now)
    }

    /// Decides at the instant `now` whether the registry is to be written
    /// out, and if so records `now` as the time of that write.
    pub fn check_save_at(&mut self, now: Timestamp) -> (due: bool)
        ensures
            save_checked(old(self).last_saved(), now, due, final(self).last_saved()),
            final(self)@ == old(self)@,
    {
        let due = match self.last_save {
            None => true,
            Some(t) => match now.duration_since(&t) {
                None => true,
                Some(d) => d.at_least(&Span::from_secs(SAVE_INTERVAL_SECS)),
            },
        };
        if due {
            self.last_save = Some(now);
        }
        due
    }
}

/// Draws a number with `rand::Rng::gen_range` on the inclusive range from
/// `low` to `high`, from the generator that `rand::thread_rng` gives. The
/// contract claims what the crate documents of every draw: the number lies
/// in the range. The range must not be empty, or the call panics.
#[verifier::external_body]
fn random_in_range(low: u16, high: u16) -> (r: u16)
    requires
        low <= high,
    ensures
        low <= r <= high,
{
    rand::thread_rng().gen_range(low..=high)
}

} // verus!
