//! The stream-poller state machine.
//!
//! One poller owns one telemetry subscription. It subscribes, consumes the
//! stream, and publishes every successfully received value; a failed
//! subscribe is retried without limit, an in-stream error skips the item,
//! and end-of-stream goes back to subscribing. The machine here takes the
//! outside world's answers as events and decides the next state and
//! action; the embedding binary performs the actions (the calls and the
//! awaiting) and feeds the answers back.

use vstd::prelude::*;

verus! {

/// Where a poller stands.
#[derive(Debug, Clone, Copy, PartialEq, Eq, Structural)]
pub enum PollerPhase {
    /// Not yet subscribed; the next action opens the subscription.
    Disconnected,
    /// A subscribe call is in flight.
    Subscribing,
    /// The subscription is open and items are awaited.
    Streaming,
}

/// What the outside world answered.
#[derive(Debug, Clone)]
pub enum PollerEvent<T> {
    /// The subscribe call succeeded.
    SubscribeOk,
    /// The subscribe call failed.
    SubscribeFailed,
    /// The stream yielded a value.
    Item(T),
    /// The stream yielded an error value; the item is skipped.
    ItemError,
    /// The stream ended without an error.
    StreamEnded,
}

/// What the embedding loop must do next.
#[derive(Debug, Clone, Copy, PartialEq, Eq, Structural)]
pub enum PollerAction {
    /// Issue the subscribe call for this poller's remote method.
    OpenSubscription,
    /// Await the next item from the open subscription.
    AwaitItem,
    /// Publish the held value into the dashboard state, then await the
    /// next item.
    PublishThenAwait,
}

/// One poller: its phase and the most recently received value, which is
/// what it exposes to the dashboard.
#[derive(Debug, Clone)]
pub struct Poller<T> {
    pub phase: PollerPhase,
    pub last: Option<T>,
}

/// The machine's transition: next state and next action for one event.
/// Events that cannot answer the standing action leave the state alone
/// and repeat the phase's own action.
pub open spec fn spec_step<T>(p: Poller<T>, e: PollerEvent<T>) -> (Poller<T>, PollerAction) {
    match p.phase {
        PollerPhase::Disconnected => (
            Poller { phase: PollerPhase::Subscribing, ..p },
            PollerAction::OpenSubscription,
        ),
        PollerPhase::Subscribing => match e {
            PollerEvent::SubscribeOk => (
                Poller { phase: PollerPhase::Streaming, ..p },
                PollerAction::AwaitItem,
            ),
            _ => (p, PollerAction::OpenSubscription),
        },
        PollerPhase::Streaming => match e {
            PollerEvent::Item(v) => (
                Poller { phase: PollerPhase::Streaming, last: Some(v) },
                PollerAction::PublishThenAwait,
            ),
            PollerEvent::StreamEnded => (
                Poller { phase: PollerPhase::Subscribing, ..p },
                PollerAction::OpenSubscription,
            ),
            _ => (p, PollerAction::AwaitItem),
        },
    }
}

impl<T> Poller<T> {
    /// A fresh poller: disconnected, nothing received yet.
    pub fn new() -> (r: Self)
        ensures
            r.phase is Disconnected,
            r.last is None,
    {
        Poller { phase: PollerPhase::Disconnected, last: None }
    }

    /// Feeds one event in and says what to do next.
    pub fn step(&mut self, e: PollerEvent<T>) -> (a: PollerAction)
        ensures
            *final(self) == spec_step(*old(self), e).0,
            a == spec_step(*old(self), e).1,
    {
        match self.phase {
            PollerPhase::Disconnected => {
                self.phase = PollerPhase::Subscribing;
                PollerAction::OpenSubscription
            },
            PollerPhase::Subscribing => match e {
                PollerEvent::SubscribeOk => {
                    self.phase = PollerPhase::Streaming;
                    PollerAction::AwaitItem
                },
                _ => PollerAction::OpenSubscription,
            },
            PollerPhase::Streaming => match e {
                PollerEvent::Item(v) => {
                    self.last = Some(v);
                    PollerAction::PublishThenAwait
                },
                PollerEvent::StreamEnded => {
                    self.phase = PollerPhase::Subscribing;
                    PollerAction::OpenSubscription
                },
                _ => PollerAction::AwaitItem,
            },
        }
    }
}

/// The poller after a whole sequence of events, first event first.
pub open spec fn spec_run<T>(p: Poller<T>, es: Seq<PollerEvent<T>>) -> Poller<T>
    decreases es.len(),
{
    if es.len() == 0 {
        p
    } else {
        spec_run(spec_step(p, es[0]).0, es.skip(1))
    }
}

/// The last value the events carry, later items winning; `None` when no
/// event carries one.
pub open spec fn spec_last_item<T>(es: Seq<PollerEvent<T>>) -> Option<T>
    decreases es.len(),
{
    if es.len() == 0 {
        None
    } else {
        match es[0] {
            PollerEvent::Item(v) => match spec_last_item(es.skip(1)) {
                Some(w) => Some(w),
                None => Some(v),
            },
            _ => spec_last_item(es.skip(1)),
        }
    }
}

/// A streaming poller fed any mix of items and in-stream errors — in
/// particular a stream that alternates between the two — never leaves the
/// streaming phase, and ends up exposing the most recent successful value
/// (or what it already held, when no item arrived).
pub proof fn lemma_poller_survives_errors<T>(p: Poller<T>, es: Seq<PollerEvent<T>>)
    requires
        p.phase is Streaming,
        forall|i: int| 0 <= i < es.len() ==> (#[trigger] es[i] is Item || es[i] is ItemError),
    ensures
        spec_run(p, es).phase is Streaming,
        spec_run(p, es).last == (match spec_last_item(es) {
            Some(v) => Some(v),
            None => p.last,
        }),
    decreases es.len(),
{
    if es.len() > 0 {
        let p1 = spec_step(p, es[0]).0;
        assert(es[0] is Item || es[0] is ItemError);
        assert(forall|i: int| 0 <= i < es.skip(1).len() ==> (#[trigger] es.skip(1)[i] is Item
            || es.skip(1)[i] is ItemError)) by {
            assert(forall|i: int| 0 <= i < es.skip(1).len() ==> es.skip(1)[i] == es[i + 1]);
        }
        lemma_poller_survives_errors(p1, es.skip(1));
    }
}

} // verus!
