//! Process-wide switches of the gesture daemon: whether gestures are
//! captured at all, and how many upcoming input events to let through
//! untouched (the daemon's own synthetic clicks).

use vstd::prelude::*;

verus! {

/// The daemon's switches. A fresh state is active with nothing to ignore.
pub struct AppState {
    pub active: bool,
    pub ignore_count: usize,
}

impl AppState {
    /// Active, with no events to ignore.
    pub fn new() -> (s: AppState)
        ensures
            s.active,
            s.ignore_count == 0,
    {
        AppState { active: true, ignore_count: 0 }
    }
}

/// What `should_ignore` leaves behind: one event fewer to ignore, if any.
pub open spec fn after_should_ignore(count: usize) -> usize {
    if count > 0 {
        (count - 1) as usize
    } else {
        count
    }
}

/// What `add_ignore_count` leaves behind: the counter grows by `n`,
/// wrapping around at `usize::MAX` as an atomic `fetch_add` does.
pub open spec fn after_add_ignore(count: usize, n: usize) -> usize {
    if count + n > usize::MAX {
        (count + n - (usize::MAX + 1)) as usize
    } else {
        (count + n) as usize
    }
}

/// Whether gestures are currently captured.
pub fn is_active(state: &AppState) -> (res: bool)
    ensures
        res == state.active,
{
    state.active
}

/// Turns gesture capture on or off.
pub fn set_active(state: &mut AppState, active: bool)
    ensures
        final(state).active == active,
        final(state).ignore_count == old(state).ignore_count,
{
    state.active = active;
}

/// Consumes one pending "ignore" token: true (and one token fewer) when
/// there is one, false (and nothing changed) otherwise.
pub fn should_ignore(state: &mut AppState) -> (res: bool)
    ensures
        res == (old(state).ignore_count > 0),
        final(state).ignore_count == after_should_ignore(old(state).ignore_count),
        final(state).active == old(state).active,
{
    let count = state.ignore_count;
    if count > 0 {
        state.ignore_count = count - 1;
        true
    } else {
        false
    }
}

/// Asks for the next `count` input events to be let through untouched.
pub fn add_ignore_count(state: &mut AppState, count: usize)
    ensures
        final(state).ignore_count == after_add_ignore(old(state).ignore_count, count),
        final(state).active == old(state).active,
{
    state.ignore_count = state.ignore_count.wrapping_add(count);
}

/// The ignore counter after `calls` calls of `should_ignore`.
pub open spec fn ignore_after_calls(count: usize, calls: nat) -> usize
    decreases calls,
{
    if calls == 0 {
        count
    } else {
        after_should_ignore(ignore_after_calls(count, (calls - 1) as nat))
    }
}

/// Law: after `add_ignore_count(n)` on a counter `c` that does not wrap,
/// the next `c + n` calls of `should_ignore` answer true and the one after
/// them answers false; the counter is then back at zero.
pub proof fn lemma_ignore_tokens_are_consumed_one_by_one(c: usize, n: usize, k: nat)
    requires
        c + n <= usize::MAX,
    ensures
        ignore_after_calls(after_add_ignore(c, n), k) == if k <= c + n {
            (c + n - k) as usize
        } else {
            0usize
        },
        (ignore_after_calls(after_add_ignore(c, n), k) > 0) == (k < c + n),
    decreases k,
{
    if k > 0 {
        lemma_ignore_tokens_are_consumed_one_by_one(c, n, (k - 1) as nat);
    }
}

} // verus!
