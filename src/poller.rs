//! The per-database poller as a state machine: each event that the driving
//! loop observes yields the next state and the action to perform.
use vstd::prelude::*;
use crate::query::{distinct_records, record_set, RunningQuery, Snapshot};

verus! {

/// Sub-ticks that make up one poll cycle; the shutdown flag is read at each.
pub const SUB_TICKS_PER_CYCLE: u8 = 3;

/// Where a poller stands in its life.
#[derive(Clone, Copy, PartialEq, Eq, Structural, Debug)]
pub enum Phase {
    Connecting,
    Polling,
    Stopping,
    Closed,
    Failed,
}

/// What the driving loop observed.
pub enum Event {
    /// The initial connection was established.
    Connected,
    /// The initial connection could not be established.
    ConnectFailed,
    /// A sub-tick elapsed; `shutdown` is the flag as read at that moment.
    SubTick { shutdown: bool },
    /// A fetch returned these rows.
    Fetched(Vec<RunningQuery>),
    /// A fetch failed.
    FetchFailed,
    /// The connection was released.
    Released,
}

/// What the driving loop is to do next.
pub enum Action {
    /// Wait for the next sub-tick.
    Wait,
    /// Fetch the current snapshot.
    Fetch,
    /// Send one report for each of these finished queries, then wait.
    Notify(Vec<RunningQuery>),
    /// Release the connection.
    Release,
    /// The poller is closed: return.
    Finish,
    /// The initial connection failed: the poller gives up.
    Abort,
    /// The event does not apply in this phase; nothing to do.
    Idle,
}

/// One poller: its phase, the sub-ticks counted in the current cycle, and
/// the snapshot of the last successful fetch.
pub struct Poller {
    pub phase: Phase,
    pub sub_ticks: u8,
    pub previous: Snapshot,
}

/// The phase after event `e` in phase `p`.
pub open spec fn next_phase(p: Phase, e: Event) -> Phase {
    match e {
        Event::Connected => if p == Phase::Connecting { Phase::Polling } else { p },
        Event::ConnectFailed => if p == Phase::Connecting { Phase::Failed } else { p },
        Event::SubTick { shutdown } => if p == Phase::Polling && shutdown {
            Phase::Stopping
        } else {
            p
        },
        Event::Released => if p == Phase::Stopping { Phase::Closed } else { p },
        _ => p,
    }
}

/// How one event moves a poller from `s` to `t` and what action it yields.
pub open spec fn step_spec(s: Poller, e: Event, t: Poller, a: Action) -> bool {
    &&& t.phase == next_phase(s.phase, e)
    &&& match e {
        Event::Connected => if s.phase == Phase::Connecting {
            a is Wait && t.sub_ticks == 0 && t.previous@ == s.previous@
        } else {
            a is Idle && t.sub_ticks == s.sub_ticks && t.previous@ == s.previous@
        },
        Event::ConnectFailed => t.sub_ticks == s.sub_ticks && t.previous@ == s.previous@ && if s.phase
            == Phase::Connecting {
            a is Abort
        } else {
            a is Idle
        },
        Event::SubTick { shutdown } => t.previous@ == s.previous@ && if s.phase == Phase::Polling {
            if shutdown {
                a is Release && t.sub_ticks == s.sub_ticks
            } else if s.sub_ticks + 1 == SUB_TICKS_PER_CYCLE {
                a is Fetch && t.sub_ticks == 0
            } else {
                a is Wait && t.sub_ticks == s.sub_ticks + 1
            }
        } else {
            a is Idle && t.sub_ticks == s.sub_ticks
        },
        Event::Fetched(rows) => t.sub_ticks == s.sub_ticks && if s.phase == Phase::Polling {
            &&& t.previous@ == record_set(rows@)
            &&& a matches Action::Notify(done) && distinct_records(done@) && record_set(done@)
                == s.previous@.difference(record_set(rows@))
        } else {
            a is Idle && t.previous@ == s.previous@
        },
        Event::FetchFailed => t.sub_ticks == s.sub_ticks && t.previous@ == s.previous@ && if s.phase
            == Phase::Polling {
            a is Wait
        } else {
            a is Idle
        },
        Event::Released => t.sub_ticks == s.sub_ticks && t.previous@ == s.previous@ && if s.phase
            == Phase::Stopping {
            a is Finish
        } else {
            a is Idle
        },
    }
}

impl Poller {
    /// The counter stays within one cycle and the snapshot is well formed.
    pub open spec fn wf(&self) -> bool {
        &&& self.sub_ticks < SUB_TICKS_PER_CYCLE
        &&& self.previous.wf()
    }

    /// A poller about to connect, with an empty previous snapshot.
    pub fn new() -> (r: Poller)
        ensures
            r.wf(),
            r.phase == Phase::Connecting,
            r.sub_ticks == 0,
            r.previous@ == Set::<crate::query::QueryRecord>::empty(),
    {
        Poller { phase: Phase::Connecting, sub_ticks: 0, previous: Snapshot::new() }
    }

    /// Whether the poller has reached a terminal phase.
    pub fn is_done(&self) -> (r: bool)
        ensures
            r == (self.phase == Phase::Closed || self.phase == Phase::Failed),
    {
        match self.phase {
            Phase::Closed | Phase::Failed => true,
            _ => false,
        }
    }

    /// Applies one observed event and returns the action to perform.
    pub fn step(&mut self, e: Event) -> (a: Action)
        requires
            old(self).wf(),
        ensures
            final(self).wf(),
            step_spec(*old(self), e, *final(self), a),
    {
        match e {
            Event::Connected => {
                if self.phase == Phase::Connecting {
                    self.phase = Phase::Polling;
                    self.sub_ticks = 0;
                    Action::Wait
                } else {
                    Action::Idle
                }
            },
            Event::ConnectFailed => {
                if self.phase == Phase::Connecting {
                    self.phase = Phase::Failed;
                    Action::Abort
                } else {
                    Action::Idle
                }
            },
            Event::SubTick { shutdown } => {
                if self.phase == Phase::Polling {
                    if shutdown {
                        self.phase = Phase::Stopping;
                        Action::Release
                    } else if self.sub_ticks + 1 == SUB_TICKS_PER_CYCLE {
                        self.sub_ticks = 0;
                        Action::Fetch
                    } else {
                        self.sub_ticks = self.sub_ticks + 1;
                        Action::Wait
                    }
                } else {
                    Action::Idle
                }
            },
            Event::Fetched(rows) => {
                if self.phase == Phase::Polling {
                    let mut prev = Snapshot::from_rows(rows);
                    std::mem::swap(&mut self.previous, &mut prev);
                    let done = prev.finished_since(&self.previous);
                    Action::Notify(done)
                } else {
                    Action::Idle
                }
            },
            Event::FetchFailed => {
                if self.phase == Phase::Polling {
                    Action::Wait
                } else {
                    Action::Idle
                }
            },
            Event::Released => {
                if self.phase == Phase::Stopping {
                    self.phase = Phase::Closed;
                    Action::Finish
                } else {
                    Action::Idle
                }
            },
        }
    }
}

/// `trace` is a run of one poller: `events[i]` takes `trace[i]` to
/// `trace[i + 1]` and yields `actions[i]`.
pub open spec fn is_run(trace: Seq<Poller>, events: Seq<Event>, actions: Seq<Action>) -> bool {
    &&& trace.len() == events.len() + 1
    &&& actions.len() == events.len()
    &&& forall|i: int|
        0 <= i < events.len() ==> step_spec(trace[i], #[trigger] events[i], trace[i + 1], actions[i])
}

/// After a successful fetch the poller reports exactly the records of the
/// previous snapshot that the fetched rows no longer hold, each once.
pub proof fn notified_set_is_difference(s: Poller, rows: Vec<RunningQuery>, t: Poller, a: Action)
    requires
        s.phase == Phase::Polling,
        step_spec(s, Event::Fetched(rows), t, a),
    ensures
        a matches Action::Notify(done) && distinct_records(done@) && record_set(done@)
            == s.previous@.difference(record_set(rows@)),
{
}

/// A fetch that returns the previous snapshot again reports nothing.
pub proof fn unchanged_snapshot_reports_nothing(
    s: Poller,
    rows: Vec<RunningQuery>,
    t: Poller,
    a: Action,
)
    requires
        s.phase == Phase::Polling,
        record_set(rows@) == s.previous@,
        step_spec(s, Event::Fetched(rows), t, a),
    ensures
        a matches Action::Notify(done) && done@.len() == 0,
{
    if let Action::Notify(done) = a {
        assert(s.previous@.difference(record_set(rows@)) =~= Set::empty());
        if done@.len() > 0 {
            assert(record_set(done@).contains(done@[0]@));
        }
    }
}

/// After a successful fetch the previous snapshot for the next cycle is the
/// one just fetched; no event reports how the notifications went, so their
/// outcome cannot change it.
pub proof fn successful_fetch_replaces_previous(
    s: Poller,
    rows: Vec<RunningQuery>,
    t: Poller,
    a: Action,
)
    requires
        s.phase == Phase::Polling,
        step_spec(s, Event::Fetched(rows), t, a),
    ensures
        t.previous@ == record_set(rows@),
        t.phase == Phase::Polling,
{
}

/// A failed fetch leaves the previous snapshot as it was.
pub proof fn failed_fetch_keeps_previous(s: Poller, t: Poller, a: Action)
    requires
        step_spec(s, Event::FetchFailed, t, a),
    ensures
        t.previous@ == s.previous@,
        t.phase == s.phase,
{
}

/// A poller that is stopping or closed stays so and reports nothing more,
/// whatever events follow; once the connection is released it is closed.
pub proof fn no_report_after_stop(trace: Seq<Poller>, events: Seq<Event>, actions: Seq<Action>)
    requires
        is_run(trace, events, actions),
        trace[0].phase == Phase::Stopping || trace[0].phase == Phase::Closed,
    ensures
        forall|i: int| 0 <= i < actions.len() ==> !(#[trigger] actions[i] is Notify),
        forall|i: int|
            0 <= i < trace.len() ==> (#[trigger] trace[i]).phase == Phase::Stopping
                || trace[i].phase == Phase::Closed,
        forall|i: int|
            0 <= i < events.len() && #[trigger] events[i] is Released ==> trace[i + 1].phase
                == Phase::Closed,
    decreases events.len(),
{
    if events.len() > 0 {
        assert(step_spec(trace[0], events[0], trace[1], actions[0]));
        let n = events.len() as int;
        let rest = trace.subrange(1, n + 1);
        let evs = events.subrange(1, n);
        let acts = actions.subrange(1, n);
        assert forall|i: int| 0 <= i < evs.len() implies step_spec(
            rest[i],
            #[trigger] evs[i],
            rest[i + 1],
            acts[i],
        ) by {
            assert(step_spec(trace[i + 1], events[i + 1], trace[i + 2], actions[i + 1]));
        }
        no_report_after_stop(rest, evs, acts);
        assert forall|i: int| 0 <= i < actions.len() implies !(#[trigger] actions[i] is Notify) by {
            if i > 0 {
                assert(actions[i] == acts[i - 1]);
            }
        }
        assert forall|i: int| 0 <= i < trace.len() implies (#[trigger] trace[i]).phase
            == Phase::Stopping || trace[i].phase == Phase::Closed by {
            if i > 0 {
                assert(trace[i] == rest[i - 1]);
            }
        }
        assert forall|i: int| 0 <= i < events.len() && #[trigger] events[i] is Released implies trace[i
            + 1].phase == Phase::Closed by {
            if i > 0 {
                assert(events[i] == evs[i - 1]);
                assert(trace[i + 1] == rest[i]);
            }
        }
    }
}

/// Until the first sub-tick, a polling poller stays polling.
proof fn polling_until_sub_tick(
    trace: Seq<Poller>,
    events: Seq<Event>,
    actions: Seq<Action>,
    k: int,
)
    requires
        is_run(trace, events, actions),
        trace[0].phase == Phase::Polling,
        0 <= k <= events.len(),
        forall|j: int| 0 <= j < k ==> !(#[trigger] events[j] is SubTick),
    ensures
        trace[k].phase == Phase::Polling,
    decreases k,
{
    if k > 0 {
        polling_until_sub_tick(trace, events, actions, k - 1);
        assert(step_spec(trace[k - 1], events[k - 1], trace[k], actions[k - 1]));
        assert(!(events[k - 1] is SubTick));
    }
}

/// Once the shutdown flag is set, the first sub-tick that reads it stops the
/// poller, well within one poll cycle of sub-ticks; from then on no report
/// is sent, and the release of the connection closes it.
pub proof fn shutdown_bound(
    trace: Seq<Poller>,
    events: Seq<Event>,
    actions: Seq<Action>,
    k: int,
)
    requires
        is_run(trace, events, actions),
        trace[0].phase == Phase::Polling,
        0 <= k < events.len(),
        forall|j: int| 0 <= j < k ==> !(#[trigger] events[j] is SubTick),
        events[k] == (Event::SubTick { shutdown: true }),
    ensures
        trace[k + 1].phase == Phase::Stopping,
        actions[k] is Release,
        forall|i: int| k < i < actions.len() ==> !(#[trigger] actions[i] is Notify),
        forall|i: int|
            k < i < events.len() && #[trigger] events[i] is Released ==> trace[i + 1].phase
                == Phase::Closed,
{
    polling_until_sub_tick(trace, events, actions, k);
    assert(step_spec(trace[k], events[k], trace[k + 1], actions[k]));
    let n = events.len() as int;
    let rest = trace.subrange(k + 1, n + 1);
    let evs = events.subrange(k + 1, n);
    let acts = actions.subrange(k + 1, n);
    assert forall|i: int| 0 <= i < evs.len() implies step_spec(
        rest[i],
        #[trigger] evs[i],
        rest[i + 1],
        acts[i],
    ) by {
        assert(step_spec(
            trace[k + 1 + i],
            events[k + 1 + i],
            trace[k + 1 + i + 1],
            actions[k + 1 + i],
        ));
    }
    no_report_after_stop(rest, evs, acts);
    assert forall|i: int| k < i < actions.len() implies !(#[trigger] actions[i] is Notify) by {
        assert(actions[i] == acts[i - k - 1]);
    }
    assert forall|i: int| k < i < events.len() && #[trigger] events[i] is Released implies trace[i
        + 1].phase == Phase::Closed by {
        assert(events[i] == evs[i - k - 1]);
        assert(trace[i + 1] == rest[i - k]);
    }
}

} // verus!
