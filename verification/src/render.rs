//! The render loop's decisions.
//!
//! The loop redraws the dashboard, then waits up to the remainder of the
//! 250 ms tick for a keyboard event. A character key goes to the state's
//! key handler; reaching the tick boundary runs the periodic tick action
//! and resets the tick clock; a raised quit flag ends the loop in the same
//! iteration. The waiting and drawing are the embedding binary's work;
//! the decisions are here, as one verified step per iteration.

use vstd::prelude::*;
use crate::state::{spec_on_key, DashboardState};

verus! {

/// The redraw cadence.
pub const TICK_RATE_MS: u64 = 250;

/// One keyboard event, as far as the loop cares: a character key, or
/// anything else, which is ignored.
#[derive(Debug, Clone, Copy)]
pub enum KeyInput {
    Char(char),
    Other,
}

/// What one iteration decided.
#[derive(Debug, Clone, Copy, PartialEq, Eq, Structural)]
pub struct StepOutcome {
    /// The tick boundary was reached: run the periodic action and restart
    /// the tick clock.
    pub reset_tick: bool,
    /// Leave the loop now, restoring the terminal.
    pub exit: bool,
}

/// How long to wait for a keyboard event: the time left until the tick
/// boundary, and none at all once the boundary has passed.
pub fn remaining_timeout(tick_rate_ms: u64, elapsed_ms: u64) -> (r: u64)
    ensures
        r == if elapsed_ms < tick_rate_ms { tick_rate_ms - elapsed_ms } else { 0 },
{
    if elapsed_ms < tick_rate_ms {
        tick_rate_ms - elapsed_ms
    } else {
        0
    }
}

/// One iteration's decisions, taken after the redraw and the wait: apply
/// a character key to the state (any other event changes nothing), reset
/// the tick clock exactly when the tick boundary was reached, and exit
/// exactly when the quit flag stands — so the quit key ends the loop in
/// the very iteration that received it.
pub fn loop_step(state: &mut DashboardState, tick_rate_ms: u64, elapsed_ms: u64, event: Option<
    KeyInput,
>) -> (r: StepOutcome)
    ensures
        *final(state) == (match event {
            Some(KeyInput::Char(c)) => spec_on_key(*old(state), c),
            _ => *old(state),
        }),
        r.reset_tick == (elapsed_ms >= tick_rate_ms),
        r.exit == final(state).should_quit,
{
    match event {
        Some(KeyInput::Char(c)) => {
            state.on_key(c);
        },
        _ => {},
    }
    let reset_tick = elapsed_ms >= tick_rate_ms;
    StepOutcome { reset_tick, exit: state.should_quit }
}

} // verus!
