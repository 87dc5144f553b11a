use vstd::prelude::*;

verus! {

/// Where a tunnel stands in its life.
#[derive(Clone, Copy, Debug, PartialEq, Eq, Structural)]
pub enum Phase {
    Starting,
    Running,
    Terminating,
    Exited,
}

/// What a tunnel's driving task has seen happen.
#[derive(Clone, Copy, Debug, PartialEq, Eq, Structural)]
pub enum TunnelEvent {
    /// The external process was launched.
    Spawned,
    /// The external process could not be launched.
    SpawnFailed,
    /// The shutdown event was handed to this tunnel's subscription.
    Shutdown,
    /// The external process has exited.
    ProcessExited,
}

/// What the driving task has to do next.
#[derive(Clone, Copy, Debug, PartialEq, Eq, Structural)]
pub enum TunnelAction {
    /// Keep waiting for the next event.
    Wait,
    /// Send the termination request to the process.
    Terminate,
    /// Report that the process could not be launched; the tunnel is over.
    ReportSpawnFailure,
    /// Report that the process exited on its own; the tunnel is over.
    ReportEarlyExit,
    /// The process ended after the termination request; the tunnel is over.
    Finished,
}

/// The state that one tunnel's driving task keeps.
#[derive(Clone, Copy, Debug, PartialEq, Eq, Structural)]
pub struct Lifecycle {
    pub phase: Phase,
    /// The shutdown event has been seen.
    pub shutdown_seen: bool,
    /// The termination request has been sent.
    pub kill_sent: bool,
}

pub open spec fn initial() -> Lifecycle {
    Lifecycle { phase: Phase::Starting, shutdown_seen: false, kill_sent: false }
}

/// Moves to `Terminating`, asking for the termination request unless it was
/// already sent.
pub open spec fn request_termination(s: Lifecycle) -> (Lifecycle, TunnelAction) {
    (
        Lifecycle { phase: Phase::Terminating, shutdown_seen: true, kill_sent: true },
        if s.kill_sent {
            TunnelAction::Wait
        } else {
            TunnelAction::Terminate
        },
    )
}

/// One transition of a tunnel's life.
pub open spec fn next(s: Lifecycle, ev: TunnelEvent) -> (Lifecycle, TunnelAction) {
    match s.phase {
        Phase::Starting => match ev {
            TunnelEvent::Spawned => if s.shutdown_seen {
                request_termination(s)
            } else {
                (Lifecycle { phase: Phase::Running, ..s }, TunnelAction::Wait)
            },
            TunnelEvent::SpawnFailed => (
                Lifecycle { phase: Phase::Exited, ..s },
                TunnelAction::ReportSpawnFailure,
            ),
            TunnelEvent::Shutdown => (Lifecycle { shutdown_seen: true, ..s }, TunnelAction::Wait),
            TunnelEvent::ProcessExited => (s, TunnelAction::Wait),
        },
        Phase::Running => match ev {
            TunnelEvent::Shutdown => request_termination(s),
            TunnelEvent::ProcessExited => (
                Lifecycle { phase: Phase::Exited, ..s },
                TunnelAction::ReportEarlyExit,
            ),
            _ => (s, TunnelAction::Wait),
        },
        Phase::Terminating => match ev {
            TunnelEvent::ProcessExited => (
                Lifecycle { phase: Phase::Exited, ..s },
                TunnelAction::Finished,
            ),
            _ => (s, TunnelAction::Wait),
        },
        Phase::Exited => (s, TunnelAction::Wait),
    }
}

/// The state after the events `evs`, in order.
pub open spec fn run_events(s: Lifecycle, evs: Seq<TunnelEvent>) -> Lifecycle
    decreases evs.len(),
{
    if evs.len() == 0 {
        s
    } else {
        next(run_events(s, evs.drop_last()), evs.last()).0
    }
}

/// How many termination requests the events `evs` cause.
pub open spec fn terminations(s: Lifecycle, evs: Seq<TunnelEvent>) -> nat
    decreases evs.len(),
{
    if evs.len() == 0 {
        0
    } else {
        terminations(s, evs.drop_last()) + if next(run_events(s, evs.drop_last()), evs.last()).1
            == TunnelAction::Terminate {
            1nat
        } else {
            0nat
        }
    }
}

impl Lifecycle {
    /// A tunnel whose process has not been launched yet.
    pub fn new() -> (r: Lifecycle)
        ensures
            r == initial(),
    {
        Lifecycle { phase: Phase::Starting, shutdown_seen: false, kill_sent: false }
    }

    /// Whether the tunnel is over.
    pub fn is_exited(&self) -> (r: bool)
        ensures
            r == (self.phase == Phase::Exited),
    {
        self.phase == Phase::Exited
    }

    /// Takes one event and says what to do.
    pub fn on_event(&mut self, ev: TunnelEvent) -> (a: TunnelAction)
        ensures
            (*final(self), a) == next(*old(self), ev),
    {
        let s = *self;
        let (n, a) = match s.phase {
            Phase::Starting => match ev {
                TunnelEvent::Spawned => {
                    if s.shutdown_seen {
                        self.request()
                    } else {
                        (Lifecycle { phase: Phase::Running, ..s }, TunnelAction::Wait)
                    }
                },
                TunnelEvent::SpawnFailed => (
                    Lifecycle { phase: Phase::Exited, ..s },
                    TunnelAction::ReportSpawnFailure,
                ),
                TunnelEvent::Shutdown => (
                    Lifecycle { shutdown_seen: true, ..s },
                    TunnelAction::Wait,
                ),
                TunnelEvent::ProcessExited => (s, TunnelAction::Wait),
            },
            Phase::Running => match ev {
                TunnelEvent::Shutdown => self.request(),
                TunnelEvent::ProcessExited => (
                    Lifecycle { phase: Phase::Exited, ..s },
                    TunnelAction::ReportEarlyExit,
                ),
                _ => (s, TunnelAction::Wait),
            },
            Phase::Terminating => match ev {
                TunnelEvent::ProcessExited => (
                    Lifecycle { phase: Phase::Exited, ..s },
                    TunnelAction::Finished,
                ),
                _ => (s, TunnelAction::Wait),
            },
            Phase::Exited => (s, TunnelAction::Wait),
        };
        *self = n;
        a
    }

    fn request(&self) -> (r: (Lifecycle, TunnelAction))
        ensures
            r == request_termination(*self),
    {
        (
            Lifecycle { phase: Phase::Terminating, shutdown_seen: true, kill_sent: true },
            if self.kill_sent {
                TunnelAction::Wait
            } else {
                TunnelAction::Terminate
            },
        )
    }
}

/// Over any sequence of events from a fresh tunnel, the termination requests
/// sent number one if the request was recorded, else none: never more than one.
pub proof fn lemma_at_most_one_termination(evs: Seq<TunnelEvent>)
    ensures
        terminations(initial(), evs) == if run_events(initial(), evs).kill_sent {
            1nat
        } else {
            0nat
        },
        terminations(initial(), evs) <= 1,
    decreases evs.len(),
{
    if evs.len() > 0 {
        lemma_at_most_one_termination(evs.drop_last());
        let t = run_events(initial(), evs.drop_last());
        assert(t.kill_sent ==> next(t, evs.last()).0.kill_sent);
    }
}

/// Once shutdown is delivered, a tunnel whose process honours the termination
/// request (its next event is that process's exit) is over, whatever state it
/// was in; one that was still starting first learns whether its launch worked.
pub proof fn lemma_exit_after_shutdown(s: Lifecycle, launch: TunnelEvent)
    requires
        launch == TunnelEvent::Spawned || launch == TunnelEvent::SpawnFailed,
    ensures
        s.phase != Phase::Starting ==> run_events(
            s,
            seq![TunnelEvent::Shutdown, TunnelEvent::ProcessExited],
        ).phase == Phase::Exited,
        s.phase == Phase::Starting ==> run_events(
            s,
            seq![TunnelEvent::Shutdown, launch, TunnelEvent::ProcessExited],
        ).phase == Phase::Exited,
{
    let one = seq![TunnelEvent::Shutdown];
    let two = seq![TunnelEvent::Shutdown, TunnelEvent::ProcessExited];
    let three = seq![TunnelEvent::Shutdown, launch, TunnelEvent::ProcessExited];
    let mid = seq![TunnelEvent::Shutdown, launch];
    assert(one.drop_last() =~= Seq::<TunnelEvent>::empty());
    assert(two.drop_last() =~= one);
    assert(three.drop_last() =~= mid);
    assert(mid.drop_last() =~= one);
    let a = next(s, TunnelEvent::Shutdown).0;
    assert(run_events(s, Seq::<TunnelEvent>::empty()) == s);
    assert(one.last() == TunnelEvent::Shutdown);
    assert(run_events(s, one) == a);
    assert(run_events(s, two) == next(a, TunnelEvent::ProcessExited).0);
    assert(run_events(s, mid) == next(a, launch).0);
    assert(run_events(s, three) == next(next(a, launch).0, TunnelEvent::ProcessExited).0);
}

proof fn lemma_running_stops(t: Lifecycle)
    requires
        t.phase == Phase::Running,
        !t.kill_sent,
    ensures
        next(t, TunnelEvent::Shutdown).1 == TunnelAction::Terminate,
        terminations(t, seq![TunnelEvent::Shutdown, TunnelEvent::ProcessExited]) == 1,
        run_events(t, seq![TunnelEvent::Shutdown, TunnelEvent::ProcessExited]).phase
            == Phase::Exited,
{
    let one = seq![TunnelEvent::Shutdown];
    let two = seq![TunnelEvent::Shutdown, TunnelEvent::ProcessExited];
    assert(one.drop_last() =~= Seq::<TunnelEvent>::empty());
    assert(two.drop_last() =~= one);
    assert(run_events(t, Seq::<TunnelEvent>::empty()) == t);
    assert(terminations(t, Seq::<TunnelEvent>::empty()) == 0);
    assert(one.last() == TunnelEvent::Shutdown);
    let a = next(t, TunnelEvent::Shutdown).0;
    assert(run_events(t, one) == a);
    assert(terminations(t, one) == 1);
    assert(two.last() == TunnelEvent::ProcessExited);
    assert(next(a, TunnelEvent::ProcessExited).1 == TunnelAction::Finished);
}

/// A termination signal stops every running tunnel, however many: each one
/// that is running and has sent no termination request sends exactly one when
/// the shutdown is delivered, and is over once its process exits on it.
pub proof fn lemma_shutdown_stops_every_tunnel(ts: Seq<Lifecycle>)
    requires
        forall|k: int| 0 <= k < ts.len() ==> (#[trigger] ts[k]).phase == Phase::Running
            && !ts[k].kill_sent,
    ensures
        forall|k: int|
            0 <= k < ts.len() ==> next(#[trigger] ts[k], TunnelEvent::Shutdown).1
                == TunnelAction::Terminate && terminations(
                ts[k],
                seq![TunnelEvent::Shutdown, TunnelEvent::ProcessExited],
            ) == 1 && run_events(
                ts[k],
                seq![TunnelEvent::Shutdown, TunnelEvent::ProcessExited],
            ).phase == Phase::Exited,
{
    assert forall|k: int| 0 <= k < ts.len() implies next(#[trigger] ts[k], TunnelEvent::Shutdown).1
        == TunnelAction::Terminate && terminations(
        ts[k],
        seq![TunnelEvent::Shutdown, TunnelEvent::ProcessExited],
    ) == 1 && run_events(
        ts[k],
        seq![TunnelEvent::Shutdown, TunnelEvent::ProcessExited],
    ).phase == Phase::Exited by {
        lemma_running_stops(ts[k]);
    }
}

} // verus!
