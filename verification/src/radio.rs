//! Radio silence while a stream is running.
//!
//! Looking for receivers and streaming to one of them compete for the **same
//! antenna**: a Wi-Fi Direct scan hops across the social channels, and on every
//! hop the link to the access point goes silent. So while a stream is running,
//! scanning stops.
use vstd::prelude::*;

verus! {

/// How many streams are currently running on this machine. Whoever runs the
/// process holds the one value of it.
#[derive(Debug)]
pub struct Radio {
    pub sessions: usize,
}

/// The sessions running after one more has started.
pub open spec fn after_start(sessions: nat) -> nat {
    sessions + 1
}

/// The sessions running after one has ended.
pub open spec fn after_end(sessions: nat) -> nat {
    if sessions > 0 {
        (sessions - 1) as nat
    } else {
        0
    }
}

impl Radio {
    /// No stream is running.
    pub fn new() -> (res: Self)
        ensures
            res.sessions == 0,
    {
        Radio { sessions: 0 }
    }

    /// Ends the silence that a guard stands for. The last one frees the radio.
    pub fn release(&mut self, guard: QuietGuard)
        ensures
            final(self).sessions == after_end(old(self).sessions as nat),
    {
        self.sessions = self.sessions.saturating_sub(1);
    }
}

/// Marks a running stream; releases the radio when handed back to
/// [`Radio::release`].
///
/// A guard rather than an on/off pair, on purpose: a session can end through an
/// error, a cancellation or end of stream, and forgetting the "off" on any one
/// of those paths would leave discovery disabled until the app is closed.
#[derive(Debug)]
pub struct QuietGuard {
    _private: (),
}

/// Asks for radio silence for as long as the returned value is not released.
pub fn quiet(radio: &mut Radio) -> (res: QuietGuard)
    requires
        old(radio).sessions < usize::MAX,
    ensures
        final(radio).sessions == after_start(old(radio).sessions as nat),
{
    radio.sessions = radio.sessions + 1;
    QuietGuard { _private: () }
}

/// Is a stream currently running?
pub fn is_quiet(radio: &Radio) -> (res: bool)
    ensures
        res == (radio.sessions > 0),
{
    radio.sessions > 0
}

/// The sessions running after a history of starts (`true`) and ends (`false`).
pub open spec fn sessions_after(history: Seq<bool>) -> nat
    decreases history.len(),
{
    if history.len() == 0 {
        0
    } else {
        let before = sessions_after(history.drop_last());
        if history.last() {
            after_start(before)
        } else {
            after_end(before)
        }
    }
}

/// How many times `b` stands in a history.
pub open spec fn times(history: Seq<bool>, b: bool) -> nat
    decreases history.len(),
{
    if history.len() == 0 {
        0
    } else {
        times(history.drop_last(), b) + (if history.last() == b { 1nat } else { 0 })
    }
}

/// Silence lasts while any session is alive: with at least as many starts as
/// ends at every point, as many sessions run as have started and not ended.
pub proof fn silence_lasts_while_any_session_is_alive(history: Seq<bool>)
    requires
        forall|n: int|
            0 <= n <= history.len() ==> times(#[trigger] history.take(n), false) <= times(
                history.take(n),
                true,
            ),
    ensures
        sessions_after(history) == times(history, true) - times(history, false),
    decreases history.len(),
{
    if history.len() > 0 {
        let before = history.drop_last();
        assert forall|n: int| 0 <= n <= before.len() implies times(
            #[trigger] before.take(n),
            false,
        ) <= times(before.take(n), true) by {
            assert(before.take(n) =~= history.take(n));
        }
        silence_lasts_while_any_session_is_alive(before);
        assert(history.take(history.len() as int) =~= history);
        assert(before.take(before.len() as int) =~= before);
    }
}

/// A start and the end that follows it leave as many sessions as there were, and
/// ending what was never started leaves none.
pub proof fn an_end_undoes_a_start(sessions: nat)
    ensures
        after_end(after_start(sessions)) == sessions,
        after_start(sessions) > 0,
        after_end(0) == 0,
{
}

} // verus!
