//! The poller and render state machines, and the shared dashboard state.

use zui::poller::{Poller, PollerAction, PollerEvent, PollerPhase};
use zui::render::{loop_step, remaining_timeout, KeyInput, TICK_RATE_MS};
use zui::services::{Capacity, TimesStat};
use zui::state::{DashboardState, StateUpdate, QUIT_KEY};

#[test]
fn poller_subscribes_retries_and_streams() {
    let mut p: Poller<u64> = Poller::new();
    assert_eq!(p.phase, PollerPhase::Disconnected);

    // Entry: open the subscription.
    let a = p.step(PollerEvent::SubscribeOk);
    assert_eq!(a, PollerAction::OpenSubscription);
    assert_eq!(p.phase, PollerPhase::Subscribing);

    // A failed subscribe is retried without limit.
    let a = p.step(PollerEvent::SubscribeFailed);
    assert_eq!(a, PollerAction::OpenSubscription);
    assert_eq!(p.phase, PollerPhase::Subscribing);
    let a = p.step(PollerEvent::SubscribeFailed);
    assert_eq!(a, PollerAction::OpenSubscription);
    assert_eq!(p.phase, PollerPhase::Subscribing);

    let a = p.step(PollerEvent::SubscribeOk);
    assert_eq!(a, PollerAction::AwaitItem);
    assert_eq!(p.phase, PollerPhase::Streaming);
}

#[test]
fn poller_alternating_errors_and_items_never_stops() {
    let mut p: Poller<u64> = Poller::new();
    p.step(PollerEvent::SubscribeOk);
    p.step(PollerEvent::SubscribeOk);
    assert_eq!(p.phase, PollerPhase::Streaming);

    for k in 0..50u64 {
        let a = p.step(PollerEvent::ItemError);
        assert_eq!(a, PollerAction::AwaitItem);
        assert_eq!(p.phase, PollerPhase::Streaming);

        let a = p.step(PollerEvent::Item(k));
        assert_eq!(a, PollerAction::PublishThenAwait);
        assert_eq!(p.phase, PollerPhase::Streaming);
        // The most recent successful value is what it exposes.
        assert_eq!(p.last, Some(k));
    }
    // A trailing error keeps the previous success exposed.
    p.step(PollerEvent::ItemError);
    assert_eq!(p.last, Some(49));
    assert_eq!(p.phase, PollerPhase::Streaming);
}

#[test]
fn poller_end_of_stream_resubscribes() {
    let mut p: Poller<u64> = Poller::new();
    p.step(PollerEvent::SubscribeOk);
    p.step(PollerEvent::SubscribeOk);
    p.step(PollerEvent::Item(5));
    let a = p.step(PollerEvent::StreamEnded);
    assert_eq!(a, PollerAction::OpenSubscription);
    assert_eq!(p.phase, PollerPhase::Subscribing);
    // The held value survives the disconnect.
    assert_eq!(p.last, Some(5));
}

#[test]
fn state_updates_replace_only_their_field() {
    let mut s = DashboardState::new();
    s.apply_update(StateUpdate::Capacity(Capacity { cru: 4, sru: 1, hru: 2, mru: 3, ipv4u: 0 }));
    assert!(s.version.is_none());
    assert!(s.capacity.is_some());
    assert!(s.cpu.is_none());
    assert!(!s.should_quit);

    s.apply_update(StateUpdate::Cpu(TimesStat { percent_bits: 42 }));
    assert_eq!(s.capacity.unwrap().cru, 4);
    assert_eq!(s.cpu.unwrap().percent_bits, 42);
}

#[test]
fn state_updates_to_different_fields_commute() {
    let cap = Capacity { cru: 8, sru: 0, hru: 0, mru: 16, ipv4u: 1 };
    let cpu = TimesStat { percent_bits: 7 };

    let mut a = DashboardState::new();
    a.apply_update(StateUpdate::Capacity(cap));
    a.apply_update(StateUpdate::Cpu(cpu));

    let mut b = DashboardState::new();
    b.apply_update(StateUpdate::Cpu(cpu));
    b.apply_update(StateUpdate::Capacity(cap));

    assert_eq!(a.capacity, b.capacity);
    assert_eq!(a.cpu, b.cpu);
    assert_eq!(a.should_quit, b.should_quit);
}

#[test]
fn quit_key_raises_the_flag_and_other_keys_do_not() {
    let mut s = DashboardState::new();
    s.on_key('x');
    assert!(!s.should_quit);
    s.on_key(QUIT_KEY);
    assert!(s.should_quit);
}

#[test]
fn remaining_timeout_clamps_to_zero() {
    assert_eq!(remaining_timeout(TICK_RATE_MS, 0), 250);
    assert_eq!(remaining_timeout(TICK_RATE_MS, 100), 150);
    assert_eq!(remaining_timeout(TICK_RATE_MS, 250), 0);
    assert_eq!(remaining_timeout(TICK_RATE_MS, 900), 0);
}

#[test]
fn loop_without_input_ticks_once_per_boundary() {
    let mut s = DashboardState::new();
    // Before the boundary: no tick, no exit.
    let r = loop_step(&mut s, TICK_RATE_MS, 120, None);
    assert!(!r.reset_tick);
    assert!(!r.exit);
    // At the boundary: exactly this iteration ticks and resets the clock.
    let r = loop_step(&mut s, TICK_RATE_MS, 250, None);
    assert!(r.reset_tick);
    assert!(!r.exit);
    // The reset clock starts a fresh interval.
    let r = loop_step(&mut s, TICK_RATE_MS, 10, None);
    assert!(!r.reset_tick);
    assert!(!r.exit);
}

#[test]
fn quit_key_exits_in_the_same_iteration() {
    let mut s = DashboardState::new();
    // Mid-interval, far from the tick boundary.
    let r = loop_step(&mut s, TICK_RATE_MS, 3, Some(KeyInput::Char(QUIT_KEY)));
    assert!(r.exit);
    assert!(!r.reset_tick);
}

#[test]
fn other_input_is_ignored() {
    let mut s = DashboardState::new();
    let r = loop_step(&mut s, TICK_RATE_MS, 3, Some(KeyInput::Char('z')));
    assert!(!r.exit);
    let r = loop_step(&mut s, TICK_RATE_MS, 3, Some(KeyInput::Other));
    assert!(!r.exit);
}
