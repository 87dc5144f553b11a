use rtun::lifecycle::{Lifecycle, Phase, TunnelAction, TunnelEvent};
use rtun::shutdown::{fire, Broadcast, Subscription};

#[test]
fn shutdown_terminates_a_running_tunnel_once() {
    let mut t = Lifecycle::new();
    assert_eq!(t.on_event(TunnelEvent::Spawned), TunnelAction::Wait);
    assert_eq!(t.phase, Phase::Running);
    assert_eq!(t.on_event(TunnelEvent::Shutdown), TunnelAction::Terminate);
    assert_eq!(t.on_event(TunnelEvent::Shutdown), TunnelAction::Wait);
    assert_eq!(t.phase, Phase::Terminating);
    assert_eq!(t.on_event(TunnelEvent::ProcessExited), TunnelAction::Finished);
    assert!(t.is_exited());
    assert_eq!(t.on_event(TunnelEvent::Shutdown), TunnelAction::Wait);
}

#[test]
fn early_exit_is_reported_without_termination() {
    let mut t = Lifecycle::new();
    t.on_event(TunnelEvent::Spawned);
    assert_eq!(t.on_event(TunnelEvent::ProcessExited), TunnelAction::ReportEarlyExit);
    assert!(t.is_exited());
    assert!(!t.kill_sent);
}

#[test]
fn spawn_failure_ends_the_tunnel() {
    let mut t = Lifecycle::new();
    assert_eq!(t.on_event(TunnelEvent::SpawnFailed), TunnelAction::ReportSpawnFailure);
    assert!(t.is_exited());
}

#[test]
fn shutdown_before_launch_terminates_after_launch() {
    let mut t = Lifecycle::new();
    assert_eq!(t.on_event(TunnelEvent::Shutdown), TunnelAction::Wait);
    assert_eq!(t.on_event(TunnelEvent::Spawned), TunnelAction::Terminate);
    assert_eq!(t.on_event(TunnelEvent::ProcessExited), TunnelAction::Finished);
}

#[test]
fn many_events_give_one_termination() {
    let mut t = Lifecycle::new();
    let events = [
        TunnelEvent::Shutdown,
        TunnelEvent::Spawned,
        TunnelEvent::Shutdown,
        TunnelEvent::Spawned,
        TunnelEvent::Shutdown,
        TunnelEvent::ProcessExited,
        TunnelEvent::Shutdown,
    ];
    let n = events.iter().filter(|e| t.on_event(**e) == TunnelAction::Terminate).count();
    assert_eq!(n, 1);
}

#[test]
fn fire_reports_only_the_first_call() {
    let mut fired = false;
    assert!(fire(&mut fired));
    assert!(fired);
    assert!(!fire(&mut fired));
    assert!(fired);
}

#[test]
fn subscription_observes_once() {
    let mut s = Subscription::new();
    assert!(!s.observe(false));
    assert!(s.observe(true));
    assert!(!s.observe(true));
}

#[test]
fn every_subscriber_gets_the_event_once() {
    let mut b = Broadcast::new();
    let early = b.subscribe();
    let other = b.subscribe();
    assert!(!b.poll(early));
    assert!(b.fire());
    let late = b.subscribe();
    assert!(!b.fire());
    assert!(b.is_fired());
    for id in [early, other, late] {
        assert!(b.poll(id));
        assert!(!b.poll(id));
    }
    assert!(!b.poll(99));
}

#[test]
fn firing_twice_is_firing_once() {
    let mut once = Broadcast::new();
    let mut twice = Broadcast::new();
    let a = once.subscribe();
    let b = twice.subscribe();
    once.fire();
    twice.fire();
    twice.fire();
    assert_eq!(once.poll(a), twice.poll(b));
    assert_eq!(once.poll(a), twice.poll(b));
}
