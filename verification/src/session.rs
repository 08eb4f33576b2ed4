//! Orchestration of a Chromecast cast session.
//!
//! The order of operations matters: the HTTP server listens before the LOAD, the
//! pipeline is ready before a client is handed to it, and it plays only once
//! there is one. Going to play before that makes the encoder run into the void
//! and burns the first keyframe, delaying the picture.
//!
//! Instants are nanoseconds of a clock that never goes back; playback rates are
//! the bits of an IEEE 754 double.
use crate::cast::CastEvent;
use crate::error::{protocol_error, unsupported_error, NdError};
use crate::json;
use crate::latency::{is_film, Latency};
use crate::pipeline::{
    AudioSource, GpuDriver, H264Encoder, Overrides, PipelineEvent, StreamConfig,
};
use crate::sink::{SinkState, SinkStatus};
use crate::text::{chars_of, copied, number_text, same_text, strip_prefix};
use serde_json::Value;
use vstd::prelude::*;

verus! {

use crate::error::ErrorView;
use crate::json::{
    double_of, json_text, json_tree, member, no_members, number_member, text_member, trees,
    JsonTree,
};
use crate::latency::Profile;
use crate::media_session::is_span;
use crate::pipeline::{driver_of, fitted};
use crate::sink::status_after;
use crate::text::{
    after_prefix, all_digits, decimal, decimal_reads_back, has_part, is_digit, part_of_first,
    part_of_itself, part_of_second, part_stands_at, text_of,
};
use vstd::math::{max, min};

/// How long to wait for the receiver to open the `GET` after the `LOAD`, in
/// seconds.
pub const FIRST_CLIENT_TIMEOUT_SECS: u64 = 20;

/// How far a deadline that no longer matters is pushed out, in seconds.
pub const FAR_OUT_SECS: u64 = 86_400;

/// How often we ask the receiver where it is playing, in seconds.
pub const LAG_PROBE_INTERVAL_SECS: u64 = 2;

/// The initial delay target, in nanoseconds.
///
/// It starts from a **safe** value and tightens from there. The opposite
/// approach (start aggressive and loosen on stalls) is worse: every stall throws
/// the delay past 3 s and stutters the picture.
pub const LAG_TARGET_START_NS: i64 = 900_000_000;

/// The target's ceiling: above it there is nothing left worth doing.
pub const LAG_TARGET_MAX_NS: i64 = 2_500_000_000;

/// The floor: below it the buffer cannot absorb even normal network variation.
pub const LAG_TARGET_MIN_NS: i64 = 350_000_000;

/// How much the target loosens on each detected stall.
pub const LAG_TARGET_STEP_NS: i64 = 250_000_000;

/// How much the target tightens after a stable stretch.
pub const LAG_TIGHTEN_STEP_NS: i64 = 100_000_000;

/// Consecutive stall-free samples before tightening further: about 20 s of
/// stability.
pub const LAG_TIGHTEN_AFTER: u32 = 10;

/// The safety margin above a target that demonstrably stalled.
///
/// Generous on purpose: scraping the same point again only produces more stalls,
/// and every stall is a visible stutter.
pub const LAG_STALL_MARGIN_NS: i64 = 400_000_000;

/// How many stalls are tolerated before the target is **frozen**. After that,
/// pushing further only costs smoothness.
pub const MAX_STALL_PROBES: u32 = 2;

/// Hysteresis: the margin above the target before speeding up again.
pub const LAG_TARGET_MARGIN_NS: i64 = 150_000_000;

/// The speed used to drain: 1.2, as the bits of a double. Above it the effect
/// becomes visible.
pub const DRAIN_RATE: u64 = 0x3FF3_3333_3333_3333;

/// The normal speed: 1, as the bits of a double.
pub const NORMAL_RATE: u64 = 0x3FF0_0000_0000_0000;

/// What to prioritise when the two cannot both be had.
///
/// The choice belongs to the user: watching a video, the delay is irrelevant and
/// any stutter grates; presenting or using the computer on the big screen, the
/// opposite holds.
#[derive(Clone, Copy, Debug, PartialEq, Eq, Default, Structural)]
pub enum LatencyPreference {
    /// No draining: uses the receiver's natural buffer (~2.6 s), smooth.
    Smooth,
    /// Drains the buffer for a quick response, accepting some stutter.
    #[default]
    Responsive,
}

/// The preference for the whole process. Whoever runs the process holds the one
/// value of it.
#[derive(Debug)]
pub struct PreferenceState {
    pub preference: LatencyPreference,
}

impl PreferenceState {
    /// The preference that a process starts with.
    pub fn new() -> (res: Self)
        ensures
            res.preference == LatencyPreference::Responsive,
    {
        PreferenceState { preference: LatencyPreference::Responsive }
    }
}

/// Sets the preference (process-wide). The interface calls this.
pub fn set_latency_preference(state: &mut PreferenceState, pref: LatencyPreference)
    ensures
        final(state).preference == pref,
{
    state.preference = pref;
}

/// The preference in force under a profile.
pub open spec fn preferred(preference: LatencyPreference, profile: Profile) -> LatencyPreference {
    if profile == Profile::Film {
        LatencyPreference::Smooth
    } else {
        preference
    }
}

/// The current preference. The film profile decides this too: on this path
/// "smooth" simply means leaving the receiver's own buffer alone.
pub fn latency_preference(state: &PreferenceState, latency: &Latency) -> (res: LatencyPreference)
    ensures
        res == preferred(state.preference, latency.profile),
{
    if is_film(latency) {
        LatencyPreference::Smooth
    } else {
        state.preference
    }
}

/// Keeps the receiver as close to real time as it can go without stalling.
///
/// **Why it exists.** The Default Media Receiver is a file player: it pre-buffers
/// a few seconds before starting and keeps that slack forever. Playing back
/// slightly faster consumes the slack and brings the picture closer to real time.
///
/// **Why it self-calibrates.** Draining too hard empties the buffer, the receiver
/// stalls to refill and the whole delay comes back. Exactly where that happens
/// depends on the device and the network, so the target moves on its own.
#[derive(Clone, Copy, Debug, PartialEq, Eq, Structural)]
pub struct DrainController {
    /// The delay aimed at, in nanoseconds.
    pub target: i64,
    /// The speed used to drain, as the bits of a double.
    pub rate: u64,
    pub enabled: bool,
    /// Consecutive stall-free samples.
    pub stable: u32,
    /// What the target never tightens below, in nanoseconds.
    pub floor: i64,
    /// How many stalls have happened in this session.
    pub stalls: u32,
    /// Probing has stopped: the target tightens no further.
    pub frozen: bool,
}

/// A controller that has seen nothing.
pub open spec fn fresh_drain(
    target: Option<i64>,
    rate: Option<u64>,
    allowed: bool,
    preference: LatencyPreference,
) -> DrainController {
    DrainController {
        target: match target {
            Some(target) => target,
            None => LAG_TARGET_START_NS,
        },
        rate: match rate {
            Some(rate) => rate,
            None => DRAIN_RATE,
        },
        enabled: allowed && preference == LatencyPreference::Responsive,
        stable: 0,
        floor: LAG_TARGET_MIN_NS,
        stalls: 0,
        frozen: false,
    }
}

/// A controller after a stall.
///
/// The floor gets a wide margin above the target that did not hold. Stalling even
/// after freezing means that not even the final target holds: draining is given
/// up, and the receiver is left with its natural buffer, which is smooth.
pub open spec fn after_stall(drain: DrainController) -> DrainController {
    if drain.enabled {
        DrainController {
            target: min(drain.target + LAG_TARGET_STEP_NS, LAG_TARGET_MAX_NS as int) as i64,
            rate: drain.rate,
            enabled: !drain.frozen,
            stable: 0,
            floor: min(drain.target + LAG_STALL_MARGIN_NS, LAG_TARGET_MAX_NS as int) as i64,
            stalls: (drain.stalls + 1) as u32,
            frozen: drain.frozen || drain.stalls + 1 >= MAX_STALL_PROBES,
        }
    } else {
        drain
    }
}

/// A controller after a stall-free sample.
///
/// This is how the target converges **downwards** without stuttering the picture:
/// it comes close to the floor from above and stops.
pub open spec fn after_stable(drain: DrainController) -> DrainController {
    if !drain.enabled {
        drain
    } else if drain.frozen || drain.stable + 1 < LAG_TIGHTEN_AFTER || drain.target <= drain.floor {
        DrainController { stable: (drain.stable + 1) as u32, ..drain }
    } else {
        DrainController {
            stable: 0,
            target: max(drain.target - LAG_TIGHTEN_STEP_NS, drain.floor as int) as i64,
            ..drain
        }
    }
}

/// The rate wanted at a delay; none to keep the current one.
pub open spec fn rate_for(drain: DrainController, lag: int) -> Option<u64> {
    if !drain.enabled {
        None
    } else if lag > drain.target + LAG_TARGET_MARGIN_NS {
        Some(drain.rate)
    } else if lag < drain.target {
        Some(NORMAL_RATE)
    } else {
        None
    }
}

impl DrainController {
    /// A controller for a session. `target` (nanoseconds) and `rate` override the
    /// usual ones; `allowed` is whether draining is not switched off altogether.
    pub fn new(
        target: Option<i64>,
        rate: Option<u64>,
        allowed: bool,
        preference: LatencyPreference,
    ) -> (res: Self)
        ensures
            res == fresh_drain(target, rate, allowed, preference),
    {
        DrainController {
            target: match target {
                Some(target) => target,
                None => LAG_TARGET_START_NS,
            },
            rate: match rate {
                Some(rate) => rate,
                None => DRAIN_RATE,
            },
            enabled: allowed && preference == LatencyPreference::Responsive,
            stable: 0,
            floor: LAG_TARGET_MIN_NS,
            stalls: 0,
            frozen: false,
        }
    }

    /// The receiver stalled: the target was too optimistic for this device.
    pub fn on_stall(&mut self)
        requires
            old(self).enabled ==> old(self).stalls < u32::MAX,
        ensures
            *final(self) == after_stall(*old(self)),
    {
        if !self.enabled {
            return;
        }
        self.stable = 0;
        self.stalls = self.stalls + 1;
        let target: i128 = self.target as i128;
        let max: i128 = LAG_TARGET_MAX_NS as i128;
        let margin: i128 = target + LAG_STALL_MARGIN_NS as i128;
        let step: i128 = target + LAG_TARGET_STEP_NS as i128;
        self.floor = if margin < max {
            margin as i64
        } else {
            LAG_TARGET_MAX_NS
        };
        self.target = if step < max {
            step as i64
        } else {
            LAG_TARGET_MAX_NS
        };
        if self.frozen {
            self.enabled = false;
            return;
        }
        if self.stalls >= MAX_STALL_PROBES {
            self.frozen = true;
        }
    }

    /// A stall-free sample: after enough stability, it tightens.
    pub fn on_stable(&mut self)
        requires
            old(self).enabled ==> old(self).stable < u32::MAX,
        ensures
            *final(self) == after_stable(*old(self)),
    {
        if !self.enabled {
            return;
        }
        self.stable = self.stable + 1;
        if self.frozen || self.stable < LAG_TIGHTEN_AFTER || self.target <= self.floor {
            return;
        }
        self.stable = 0;
        let tightened: i128 = self.target as i128 - LAG_TIGHTEN_STEP_NS as i128;
        self.target = if tightened > self.floor as i128 {
            tightened as i64
        } else {
            self.floor
        };
    }

    /// The rate wanted now, or `None` to keep the current one.
    pub fn wanted_rate(&self, lag: i128) -> (res: Option<u64>)
        ensures
            res == rate_for(*self, lag as int),
    {
        if !self.enabled {
            return None;
        }
        let target: i128 = self.target as i128;
        if lag > target + LAG_TARGET_MARGIN_NS as i128 {
            Some(self.rate)
        } else if lag < target {
            Some(NORMAL_RATE)
        } else {
            None
        }
    }

    /// The receiver refused to change its rate: no more draining.
    pub fn give_up(&mut self)
        ensures
            *final(self) == (DrainController { enabled: false, ..*old(self) }),
    {
        self.enabled = false;
    }
}

/// A controller after some stall-free samples.
pub open spec fn after_stables(drain: DrainController, samples: nat) -> DrainController
    decreases samples,
{
    if samples == 0 {
        drain
    } else {
        after_stable(after_stables(drain, (samples - 1) as nat))
    }
}

/// A controller after some stalls.
pub open spec fn after_stalls(drain: DrainController, stalls: nat) -> DrainController
    decreases stalls,
{
    if stalls == 0 {
        drain
    } else {
        after_stall(after_stalls(drain, (stalls - 1) as nat))
    }
}

/// However long it stays stable, the target only tightens, and never below the
/// floor.
pub proof fn tightening_stops_at_the_floor(drain: DrainController, samples: nat)
    ensures
        after_stables(drain, samples).floor == drain.floor,
        after_stables(drain, samples).target <= drain.target,
        drain.target >= drain.floor ==> after_stables(drain, samples).target >= drain.floor,
        drain.target < drain.floor ==> after_stables(drain, samples).target == drain.target,
    decreases samples,
{
    if samples > 0 {
        tightening_stops_at_the_floor(drain, (samples - 1) as nat);
    }
}

proof fn counting_up_to(drain: DrainController, samples: nat)
    requires
        drain.enabled,
        !drain.frozen,
        drain.stable + samples < LAG_TIGHTEN_AFTER,
    ensures
        after_stables(drain, samples) == (DrainController {
            stable: (drain.stable + samples) as u32,
            ..drain
        }),
    decreases samples,
{
    if samples > 0 {
        counting_up_to(drain, (samples - 1) as nat);
    }
}

/// Enough stall-free samples tighten a target above its floor by one step, or to
/// the floor.
pub proof fn stability_tightens(drain: DrainController)
    requires
        drain.enabled,
        !drain.frozen,
        drain.stable == 0,
        drain.target > drain.floor,
    ensures
        after_stables(drain, LAG_TIGHTEN_AFTER as nat).target == max(
            drain.target - LAG_TIGHTEN_STEP_NS,
            drain.floor as int,
        ),
        after_stables(drain, LAG_TIGHTEN_AFTER as nat).target < drain.target,
{
    counting_up_to(drain, (LAG_TIGHTEN_AFTER - 1) as nat);
}

/// A target that stalled is never tried again: a stall loosens it, and stays
/// above it however long the receiver is stable. One at the ceiling or above
/// cannot be loosened.
pub proof fn a_stalled_target_is_never_retried(drain: DrainController, samples: nat)
    requires
        drain.enabled,
        drain.target < LAG_TARGET_MAX_NS,
    ensures
        after_stables(after_stall(drain), samples).target > drain.target,
{
    tightening_stops_at_the_floor(after_stall(drain), samples);
}

/// Once frozen the target tightens no more.
pub proof fn a_frozen_target_stays(drain: DrainController, samples: nat)
    requires
        drain.frozen,
    ensures
        after_stables(drain, samples).target == drain.target,
        after_stables(drain, samples).frozen,
    decreases samples,
{
    if samples > 0 {
        a_frozen_target_stays(drain, (samples - 1) as nat);
    }
}

/// Stalls lead to freezing and then to giving up: a fresh controller is frozen
/// after as many as are tolerated, and has given up after one more, whatever
/// follows.
pub proof fn repeated_stalls_freeze_then_give_up(drain: DrainController, stalls: nat)
    requires
        drain.enabled,
        !drain.frozen,
        drain.stalls == 0,
    ensures
        stalls == MAX_STALL_PROBES ==> after_stalls(drain, stalls).frozen && after_stalls(
            drain,
            stalls,
        ).enabled,
        stalls > MAX_STALL_PROBES ==> !after_stalls(drain, stalls).enabled,
    decreases stalls,
{
    assert(after_stalls(drain, 0) == drain);
    assert(after_stalls(drain, 1) == after_stall(drain));
    assert(after_stalls(drain, 2) == after_stall(after_stall(drain)));
    if stalls == 3 {
        assert(after_stalls(drain, 3) == after_stall(after_stalls(drain, 2)));
    } else if stalls > 3 {
        repeated_stalls_freeze_then_give_up(drain, (stalls - 1) as nat);
    }
}

/// After a stall the target is at most the ceiling.
pub proof fn the_target_is_bounded(drain: DrainController)
    requires
        drain.enabled || drain.target <= LAG_TARGET_MAX_NS,
    ensures
        after_stall(drain).target <= LAG_TARGET_MAX_NS,
{
}

/// One that gave up never touches the rate again.
pub proof fn having_given_up_is_final(drain: DrainController, lag: int)
    requires
        !drain.enabled,
    ensures
        rate_for(drain, lag) is None,
        after_stall(drain) == drain,
        after_stable(drain) == drain,
{
}

/// Measures the receiver's real delay from its `MEDIA_STATUS` messages.
///
/// The receiver reports the position it is playing at within the stream. Since
/// the stream starts the moment it opens the connection, the time elapsed since,
/// less the position, is exactly **how far behind the receiver is**.
#[derive(Debug)]
pub struct LagMeter {
    /// The instant the receiver opened the connection. It only exists once that
    /// has happened.
    pub started: Option<u64>,
    /// The delays measured, in nanoseconds.
    pub samples: Vec<i128>,
    /// The last sample (instant, position), for detecting stalls.
    pub previous: Option<(u64, i64)>,
    /// Did the last observation indicate the receiver stopped advancing?
    pub stalled: bool,
}

/// How long ago something was: no less than nothing.
pub open spec fn since(now: u64, then: u64) -> int {
    if now > then {
        now - then
    } else {
        0
    }
}

/// How far behind the receiver is: the time since the stream started, less the
/// position that it plays at.
pub open spec fn lag_at(now: u64, started: u64, position: i64) -> i128 {
    (since(now, started) - position) as i128
}

/// A stall: the position advanced far less than the clock. That is the sign that
/// the buffer emptied and the receiver paused to refill.
pub open spec fn is_stall(previous: Option<(u64, i64)>, now: u64, position: i64) -> bool {
    match previous {
        Some((then, before)) => {
            let wall = since(now, then);
            let played = position - before;
            wall > 500_000_000 && played * 10 < wall * 6
        },
        None => false,
    }
}

/// Whether all numbers stand in order.
pub open spec fn in_order(s: Seq<i128>) -> bool {
    forall|i: int, j: int| 0 <= i <= j < s.len() ==> s[i] <= s[j]
}

/// Whether `m` stands in the middle of some numbers put in order: at half their
/// count, rounded down.
pub open spec fn is_middle(samples: Seq<i128>, m: i128) -> bool {
    exists|sorted: Seq<i128>|
        #![trigger in_order(sorted)]
        in_order(sorted) && sorted.to_multiset() == samples.to_multiset() && sorted.len()
            == samples.len() && m == sorted[(samples.len() / 2) as int]
}

fn insert_in_order(sorted: &mut Vec<i128>, n: i128)
    requires
        in_order(old(sorted)@),
    ensures
        in_order(final(sorted)@),
        final(sorted)@.to_multiset() == old(sorted)@.to_multiset().insert(n),
        final(sorted)@.len() == old(sorted)@.len() + 1,
{
    let mut at: usize = 0;
    while at < sorted.len() && sorted[at] < n
        invariant
            at <= sorted@.len(),
            forall|i: int| 0 <= i < at ==> sorted@[i] < n,
        decreases sorted@.len() - at,
    {
        at += 1;
    }
    let ghost before = sorted@;
    sorted.insert(at, n);
    assert(in_order(sorted@)) by {
        assert forall|i: int, j: int| 0 <= i <= j < sorted@.len() implies sorted@[i]
            <= sorted@[j] by {
            let a = if i < at {
                i
            } else {
                i - 1
            };
            let b = if j < at {
                j
            } else {
                j - 1
            };
            if i != at && j != at {
                assert(before[a] <= before[b]);
            } else if j == at && i < at {
                assert(before[i] < n);
            } else if i == at && j > at {
                assert(before[at as int] <= before[b]);
            }
        }
    }
    assert(sorted@ =~= before.insert(at as int, n));
    broadcast use vstd::seq_lib::group_to_multiset_ensures;

    assert(sorted@.to_multiset() =~= before.to_multiset().insert(n));
}

impl LagMeter {
    /// A meter that has measured nothing.
    pub fn new() -> (res: Self)
        ensures
            res.started is None,
            res.samples@ == Seq::<i128>::empty(),
            res.previous is None,
            !res.stalled,
    {
        LagMeter { started: None, samples: Vec::new(), previous: None, stalled: false }
    }

    /// Starts the stopwatch at the instant the stream started flowing. It starts
    /// once.
    pub fn start(&mut self, at: u64)
        ensures
            final(self).started == (match old(self).started {
                Some(first) => Some(first),
                None => Some(at),
            }),
            final(self).samples == old(self).samples,
            final(self).previous == old(self).previous,
            final(self).stalled == old(self).stalled,
    {
        if self.started.is_none() {
            self.started = Some(at);
        }
    }

    /// Records a sample: the position (nanoseconds) that was reported, if any.
    /// While the receiver is buffering the position stands still at nothing, and
    /// before the stream has started there is nothing to measure.
    pub fn observe(&mut self, position: Option<i64>, now: u64)
        ensures
            final(self).started == old(self).started,
            match (position, old(self).started) {
                (Some(position), Some(started)) if position > 0 => {
                    &&& final(self).samples@ == old(self).samples@.push(
                        lag_at(now, started, position),
                    )
                    &&& final(self).previous == Some((now, position))
                    &&& final(self).stalled == is_stall(old(self).previous, now, position)
                },
                _ => *final(self) == *old(self),
            },
    {
        let position: i64 = match position {
            Some(position) => position,
            None => {
                return;
            },
        };
        if position <= 0 {
            return;
        }
        let started: u64 = match self.started {
            Some(started) => started,
            None => {
                return;
            },
        };
        let elapsed: i128 = now.saturating_sub(started) as i128;
        let lag: i128 = elapsed - position as i128;
        self.stalled = match self.previous {
            Some((then, before)) => {
                let wall: i128 = now.saturating_sub(then) as i128;
                let played: i128 = position as i128 - before as i128;
                wall > 500_000_000 && played * 10 < wall * 6
            },
            None => false,
        };
        self.previous = Some((now, position));
        self.samples.push(lag);
    }

    /// The most recent measured sample.
    pub fn last(&self) -> (res: Option<i128>)
        ensures
            res == (if self.samples@.len() > 0 {
                Some(self.samples@.last())
            } else {
                None
            }),
    {
        let n: usize = self.samples.len();
        if n > 0 {
            Some(self.samples[n - 1])
        } else {
            None
        }
    }

    /// The samples' median — resistant to the spikes at the start.
    pub fn median(&self) -> (res: Option<i128>)
        ensures
            match res {
                Some(m) => self.samples@.len() > 0 && is_middle(self.samples@, m),
                None => self.samples@.len() == 0,
            },
    {
        if self.samples.len() == 0 {
            return None;
        }
        let mut sorted: Vec<i128> = Vec::new();
        let mut i: usize = 0;
        proof {
            broadcast use vstd::seq_lib::group_to_multiset_ensures;

            assert(self.samples@.take(0) =~= sorted@);
        }
        while i < self.samples.len()
            invariant
                i <= self.samples@.len(),
                in_order(sorted@),
                sorted@.len() == i,
                sorted@.to_multiset() == self.samples@.take(i as int).to_multiset(),
            decreases self.samples@.len() - i,
        {
            insert_in_order(&mut sorted, self.samples[i]);
            proof {
                broadcast use vstd::seq_lib::group_to_multiset_ensures;

                assert(self.samples@.take(i + 1) =~= self.samples@.take(i as int).push(
                    self.samples@[i as int],
                ));
            }
            i += 1;
        }
        assert(self.samples@.take(i as int) =~= self.samples@);
        let m: i128 = sorted[sorted.len() / 2];
        assert(in_order(sorted@));
        Some(m)
    }
}

/// The first entry of a status.
pub open spec fn first_entry(payload: JsonTree) -> Option<JsonTree> {
    match member(payload, "status"@) {
        Some(JsonTree::Array(entries)) => if entries.len() > 0 {
            Some(entries[0])
        } else {
            None
        },
        _ => None,
    }
}

fn find_first_entry(payload: &Value) -> (res: Option<&Value>)
    ensures
        match res {
            Some(entry) => first_entry(json_tree(*payload)) == Some(json_tree(*entry)),
            None => first_entry(json_tree(*payload)) is None,
        },
{
    let entries = match json::get(payload, "status") {
        Some(list) => json::as_array(list),
        None => None,
    };
    match entries {
        Some(entries) => if entries.len() > 0 {
            assert(trees(entries@)[0] == json_tree(entries@[0]));
            Some(&entries[0])
        } else {
            None
        },
        None => None,
    }
}

/// The position that a status reports, where it is above zero.
pub open spec fn position_in(payload: JsonTree) -> Option<u64> {
    match first_entry(payload) {
        Some(entry) => match member(entry, "currentTime"@) {
            Some(found) => match double_of(found) {
                Some(bits) if is_span(bits) => Some(bits),
                _ => None,
            },
            None => None,
        },
        None => None,
    }
}

/// The playback position of a `MEDIA_STATUS`, in seconds as the bits of a double:
/// none while the receiver is still buffering.
pub fn playback_position(payload: &Value) -> (res: Option<u64>)
    ensures
        res == position_in(json_tree(*payload)),
{
    let entry = match find_first_entry(payload) {
        Some(entry) => entry,
        None => {
            return None;
        },
    };
    let found = match json::get(entry, "currentTime") {
        Some(found) => json::as_double(found),
        None => None,
    };
    match found {
        Some(bits) => if 0 < bits && bits < 0x7FF0_0000_0000_0000 {
            Some(bits)
        } else {
            None
        },
        None => None,
    }
}

/// The `mediaSessionId` of a status.
pub open spec fn session_in(payload: JsonTree) -> Option<i64> {
    match first_entry(payload) {
        Some(entry) => match number_member(
            entry,
            "mediaSessionId"@,
            i64::MIN as int,
            i64::MAX as int,
        ) {
            Some(id) => Some(id as i64),
            None => None,
        },
        None => None,
    }
}

/// Extracts the `mediaSessionId` from a `MEDIA_STATUS` (required to command
/// media).
pub fn media_session_id(payload: &Value) -> (res: Option<i64>)
    ensures
        res == session_in(json_tree(*payload)),
{
    let entry = match find_first_entry(payload) {
        Some(entry) => entry,
        None => {
            return None;
        },
    };
    match json::get(entry, "mediaSessionId") {
        Some(found) => json::as_i64(found),
        None => None,
    }
}

/// Whether a message of this type says that media was refused.
pub open spec fn is_refusal(kind: Seq<char>) -> bool {
    kind == "LOAD_FAILED"@ || kind == "LOAD_CANCELLED"@ || kind == "INVALID_REQUEST"@ || kind
        == "ERROR"@
}

/// The reason that a refusal gives.
pub open spec fn refusal_detail(payload: JsonTree) -> Seq<char> {
    match member(payload, "reason"@) {
        Some(reason) => json_text(reason),
        None => match member(payload, "detailedErrorCode"@) {
            Some(code) => json_text(code),
            None => "no detail"@,
        },
    }
}

/// What a message from the receiver says of a failure of the media.
pub open spec fn error_in(payload: JsonTree) -> Option<Seq<char>> {
    match text_member(payload, "type"@) {
        None => None,
        Some(kind) => if is_refusal(kind) {
            Some(
                "the receiver refused the media ("@ + kind + ": "@ + refusal_detail(payload)
                    + ") — the container or the codec is not accepted by this device"@,
            )
        } else if kind == "MEDIA_STATUS"@ && first_entry(payload) is Some && text_member(
            first_entry(payload)->0,
            "idleReason"@,
        ) == Some("ERROR"@) {
            Some("the receiver stopped playback with a media error"@)
        } else {
            None
        },
    }
}

/// Turns a receiver message into an error when it signals the media was refused.
///
/// The Default Media Receiver does not close the connection when it cannot play
/// something: it answers `LOAD_FAILED`, or an idle `MEDIA_STATUS` with
/// `idleReason` `ERROR`. Without interpreting that, the app would say "streaming"
/// to a TV sitting on its home screen.
pub fn media_error(event: &CastEvent) -> (res: Option<String>)
    ensures
        text_of(res) == error_in(json_tree(event.payload)),
{
    let kind = match json::get_text(&event.payload, "type") {
        Some(kind) => kind,
        None => {
            return None;
        },
    };
    if same_text(kind, "LOAD_FAILED") || same_text(kind, "LOAD_CANCELLED") || same_text(
        kind,
        "INVALID_REQUEST",
    ) || same_text(kind, "ERROR") {
        let found = match json::get(&event.payload, "reason") {
            Some(reason) => Some(reason),
            None => json::get(&event.payload, "detailedErrorCode"),
        };
        let detail = match found {
            Some(value) => json::write(value),
            None => copied("no detail"),
        };
        return Some(
            copied("the receiver refused the media (").concat(kind).concat(": ").concat(
                detail.as_str(),
            ).concat(") — the container or the codec is not accepted by this device"),
        );
    }
    if !same_text(kind, "MEDIA_STATUS") {
        return None;
    }
    let idle_error = match find_first_entry(&event.payload) {
        Some(entry) => match json::get_text(entry, "idleReason") {
            Some(reason) => same_text(reason, "ERROR"),
            None => false,
        },
        None => false,
    };
    if idle_error {
        Some(copied("the receiver stopped playback with a media error"))
    } else {
        None
    }
}

/// The parameters of a session: the screen shrunk to what the receiver takes,
/// and the first candidate encoder. Shrinking preserves the aspect ratio, which
/// avoids both a rescale on the receiver and a stretched picture.
pub fn configure(
    size: (u32, u32),
    limit: (u32, u32),
    fps: u32,
    candidates: &[H264Encoder],
    audio: AudioSource,
    overrides: Overrides,
) -> (res: Result<StreamConfig, NdError>)
    ensures
        match res {
            Ok(cfg) => {
                &&& candidates@.len() > 0
                &&& cfg.width == fitted(size, limit).0
                &&& cfg.height == fitted(size, limit).1
                &&& cfg.fps == fps
                &&& cfg.bitrate_kbps == 0
                &&& cfg.encoder == candidates@[0]
                &&& cfg.audio == audio
                &&& !cfg.intra_refresh
                &&& cfg.overrides == overrides
            },
            Err(error) => candidates@.len() == 0 && error@ == ErrorView::Unsupported(
                "no H.264 encoder available — install gst-plugins-ugly (x264) ou gst-plugins-bad (openh264/va)"@,
            ),
        },
{
    if candidates.len() == 0 {
        return Err(
            unsupported_error(
                "no H.264 encoder available — install gst-plugins-ugly (x264) ou gst-plugins-bad (openh264/va)",
            ),
        );
    }
    let (width, height) = StreamConfig::fit_within(size, limit);
    Ok(
        StreamConfig {
            width,
            height,
            fps,
            bitrate_kbps: 0,
            encoder: candidates[0],
            audio,
            intra_refresh: false,
            overrides,
        },
    )
}

/// A step of setting a session up.
#[derive(Clone, Copy, Debug, PartialEq, Eq, Structural)]
pub enum SetupStep {
    /// Listen for the receiver: the URL of the LOAD has to answer already.
    BindServer,
    /// Build the pipeline, up to being ready: it takes no client before that.
    BuildPipeline,
    ConnectChannel,
    LaunchApp,
    /// Tell the receiver to fetch the stream.
    LoadMedia,
    /// Serve the receiver. The pipeline plays once a client was handed to it.
    Serve,
}

/// The place of a step in the order of setting up.
pub open spec fn place_of(step: SetupStep) -> int {
    match step {
        SetupStep::BindServer => 0,
        SetupStep::BuildPipeline => 1,
        SetupStep::ConnectChannel => 2,
        SetupStep::LaunchApp => 3,
        SetupStep::LoadMedia => 4,
        SetupStep::Serve => 5,
    }
}

/// What the interface shows when a step begins, where that changes.
pub open spec fn state_at(step: SetupStep) -> Option<SinkState> {
    match step {
        SetupStep::BindServer => Some(SinkState::Connecting),
        SetupStep::ConnectChannel => Some(SinkState::WaitSocket),
        SetupStep::Serve => Some(SinkState::WaitStreaming),
        _ => None,
    }
}

/// The step that follows one that succeeded; none after the last. Each has to be
/// done before the next can work.
pub fn next_setup_step(done: Option<SetupStep>) -> (res: Option<SetupStep>)
    ensures
        match done {
            None => res == Some(SetupStep::BindServer),
            Some(step) => match res {
                Some(next) => place_of(next) == place_of(step) + 1,
                None => step == SetupStep::Serve,
            },
        },
{
    match done {
        None => Some(SetupStep::BindServer),
        Some(SetupStep::BindServer) => Some(SetupStep::BuildPipeline),
        Some(SetupStep::BuildPipeline) => Some(SetupStep::ConnectChannel),
        Some(SetupStep::ConnectChannel) => Some(SetupStep::LaunchApp),
        Some(SetupStep::LaunchApp) => Some(SetupStep::LoadMedia),
        Some(SetupStep::LoadMedia) => Some(SetupStep::Serve),
        Some(SetupStep::Serve) => None,
    }
}

/// Shows the interface that a step begins.
pub fn show_step(status: &mut SinkStatus, step: SetupStep)
    ensures
        final(status)@ == (match state_at(step) {
            Some(state) => status_after(old(status)@, state),
            None => old(status)@,
        }),
{
    match step {
        SetupStep::BindServer => status.set(SinkState::Connecting),
        SetupStep::ConnectChannel => status.set(SinkState::WaitSocket),
        SetupStep::Serve => status.set(SinkState::WaitStreaming),
        _ => {},
    }
}

/// What happens during a session.
pub enum SessionEvent {
    /// The stream server ended, this way.
    Served(Result<(), NdError>),
    /// The deadline for the first client passed.
    FirstClientDue,
    /// The pipeline said something, or closed its bus.
    Pipeline(Option<PipelineEvent>),
    /// The receiver said something, with the position (nanoseconds) it reports.
    Receiver(CastEvent, Option<i64>),
    /// The control channel closed.
    ChannelClosed,
    /// It was asked to stop.
    Cancelled,
}

/// How a session goes on.
#[derive(Debug)]
pub enum SessionStep {
    Continue,
    /// Push the deadline for the first client far out: there is one.
    DisarmDeadline,
    End(Result<(), NdError>),
}

/// The course of a running session.
#[derive(Debug)]
pub struct CastSession {
    /// Whether the receiver has opened the connection.
    pub started: bool,
    pub lag: LagMeter,
    pub drain: DrainController,
}

/// A change of the playback rate to ask of the receiver.
#[derive(Clone, Copy, Debug, PartialEq, Eq, Structural)]
pub struct RateChange {
    pub session_id: i64,
    /// The bits of a double.
    pub rate: u64,
}

/// The failure of a receiver that never fetched the stream.
pub open spec fn never_fetched() -> Seq<char> {
    "the receiver did not fetch the stream within "@ + decimal(FIRST_CLIENT_TIMEOUT_SECS as nat)
        + "s — the receiver app ter sido fechado na TV"@
}

/// How a session goes on after an event. Warnings do not kill it, and neither
/// does a bus that closes.
pub open spec fn goes_on(step: SessionStep, started: bool, event: SessionEvent) -> bool {
    match event {
        SessionEvent::Served(result) => step == SessionStep::End(result),
        SessionEvent::FirstClientDue => if started {
            step is DisarmDeadline
        } else {
            step matches SessionStep::End(Err(error)) && error@ == ErrorView::Protocol(
                never_fetched(),
            )
        },
        SessionEvent::Pipeline(Some(PipelineEvent::Error { message, debug })) => step matches
            SessionStep::End(Err(error)) && error@ == ErrorView::Gst(message@),
        SessionEvent::Pipeline(Some(PipelineEvent::Eos)) => step == SessionStep::End(Ok(())),
        SessionEvent::Pipeline(_) => step is Continue,
        SessionEvent::Receiver(event, _) => match error_in(json_tree(event.payload)) {
            Some(message) => step matches SessionStep::End(Err(error)) && error@
                == ErrorView::Protocol(message),
            None => step is Continue,
        },
        SessionEvent::ChannelClosed => step matches SessionStep::End(Err(error)) && error@
            == ErrorView::Protocol("the receiver closed the control channel"@),
        SessionEvent::Cancelled => step == SessionStep::End(Ok(())),
    }
}

/// Whether a meter has taken over a report.
pub open spec fn has_observed(
    after: LagMeter,
    before: LagMeter,
    position: Option<i64>,
    now: u64,
) -> bool {
    &&& after.started == before.started
    &&& match (position, before.started) {
        (Some(position), Some(started)) if position > 0 => {
            &&& after.samples@ == before.samples@.push(lag_at(now, started, position))
            &&& after.previous == Some((now, position))
            &&& after.stalled == is_stall(before.previous, now, position)
        },
        _ => after == before,
    }
}

impl CastSession {
    /// A session whose receiver has not connected yet.
    pub fn new(drain: DrainController) -> (res: Self)
        ensures
            !res.started,
            res.lag.started is None,
            res.lag.samples@ == Seq::<i128>::empty(),
            res.lag.previous is None,
            !res.lag.stalled,
            res.drain == drain,
    {
        CastSession { started: false, lag: LagMeter::new(), drain }
    }

    /// Takes over an event. What a media status reports also counts as a sample
    /// of the delay.
    pub fn step(&mut self, event: SessionEvent, now: u64) -> (res: SessionStep)
        ensures
            goes_on(res, old(self).started, event),
            final(self).started == old(self).started,
            final(self).drain == old(self).drain,
            match event {
                SessionEvent::Receiver(event, position) if text_member(
                    json_tree(event.payload),
                    "type"@,
                ) == Some("MEDIA_STATUS"@) => has_observed(
                    final(self).lag,
                    old(self).lag,
                    position,
                    now,
                ),
                _ => final(self).lag == old(self).lag,
            },
    {
        match event {
            SessionEvent::Served(result) => SessionStep::End(result),
            SessionEvent::FirstClientDue => {
                if self.started {
                    return SessionStep::DisarmDeadline;
                }
                let secs = number_text(FIRST_CLIENT_TIMEOUT_SECS);
                SessionStep::End(
                    Err(
                        NdError::Protocol(
                            copied("the receiver did not fetch the stream within ").concat(
                                secs.as_str(),
                            ).concat("s — the receiver app ter sido fechado na TV"),
                        ),
                    ),
                )
            },
            SessionEvent::Pipeline(Some(PipelineEvent::Error { message, debug: _ })) => {
                SessionStep::End(Err(NdError::Gst(message)))
            },
            SessionEvent::Pipeline(Some(PipelineEvent::Eos)) => SessionStep::End(Ok(())),
            SessionEvent::Pipeline(_) => SessionStep::Continue,
            SessionEvent::Receiver(event, position) => {
                let is_status = match json::get_text(&event.payload, "type") {
                    Some(kind) => same_text(kind, "MEDIA_STATUS"),
                    None => false,
                };
                if is_status {
                    self.lag.observe(position, now);
                }
                match media_error(&event) {
                    Some(message) => SessionStep::End(Err(NdError::Protocol(message))),
                    None => SessionStep::Continue,
                }
            },
            SessionEvent::ChannelClosed => SessionStep::End(
                Err(protocol_error("the receiver closed the control channel")),
            ),
            SessionEvent::Cancelled => SessionStep::End(Ok(())),
        }
    }

    /// Takes over the reply to a probe: a sample of the delay, and what it means
    /// to the draining. Returns the rate to ask of the receiver, unless it should
    /// be left alone. A probe that fails changes nothing.
    pub fn on_probe(&mut self, reply: &Result<Value, NdError>, position: Option<i64>, now: u64) -> (res:
        Option<RateChange>)
        requires
            old(self).drain.enabled ==> old(self).drain.stalls < u32::MAX && old(self).drain.stable
                < u32::MAX,
        ensures
            final(self).started == old(self).started,
            match *reply {
                Err(_) => res is None && *final(self) == *old(self),
                Ok(status) => {
                    let lag = final(self).lag;
                    &&& has_observed(lag, old(self).lag, position, now)
                    &&& final(self).drain == (if lag.stalled {
                        after_stall(old(self).drain)
                    } else {
                        after_stable(old(self).drain)
                    })
                    &&& res == (match session_in(json_tree(status)) {
                        Some(session_id) if lag.samples@.len() > 0 => match rate_for(
                            final(self).drain,
                            lag.samples@.last() as int,
                        ) {
                            Some(rate) => Some(RateChange { session_id, rate }),
                            None => None,
                        },
                        _ => None,
                    })
                },
            },
    {
        let status = match reply {
            Ok(status) => status,
            Err(_) => {
                return None;
            },
        };
        self.lag.observe(position, now);
        if self.lag.stalled {
            self.drain.on_stall();
        } else {
            self.drain.on_stable();
        }
        let session_id: i64 = match media_session_id(status) {
            Some(id) => id,
            None => {
                return None;
            },
        };
        let lag: i128 = match self.lag.last() {
            Some(lag) => lag,
            None => {
                return None;
            },
        };
        match self.drain.wanted_rate(lag) {
            Some(rate) => Some(RateChange { session_id, rate }),
            None => None,
        }
    }
}

/// The request to change the playback rate, without the `playbackRate` itself.
pub fn rate_request(session_id: i64) -> (res: Value)
    ensures
        json_tree(res) == JsonTree::Object(
            no_members().insert("type"@, JsonTree::Text("SET_PLAYBACK_RATE"@)).insert(
                "mediaSessionId"@,
                JsonTree::Number(session_id as int),
            ),
        ),
{
    let mut payload = json::object();
    json::put_text(&mut payload, "type", "SET_PLAYBACK_RATE");
    json::put_number(&mut payload, "mediaSessionId", session_id);
    payload
}

/// An entry of `/sys/class/drm`, and the kernel module behind it.
#[derive(Debug)]
pub struct DrmEntry {
    pub name: String,
    pub module: Option<String>,
}

/// Whether an entry is a card: `card` and a number, not one of its connectors.
pub open spec fn is_card(name: Seq<char>) -> bool {
    match after_prefix(name, "card"@) {
        Some(rest) => all_digits(rest),
        None => false,
    }
}

/// The driver of an entry that is a card; unknown where it is none.
pub open spec fn card_driver(entry: DrmEntry) -> GpuDriver {
    match entry.module {
        Some(module) if is_card(entry.name@) => driver_of(module@),
        _ => GpuDriver::Unknown,
    }
}

/// Whether one text comes before another, or is the same: by the first character
/// in which they differ.
pub open spec fn comes_first(a: Seq<char>, b: Seq<char>) -> bool
    decreases a.len(),
{
    if a.len() == 0 {
        true
    } else if b.len() == 0 {
        false
    } else if a[0] == b[0] {
        comes_first(a.skip(1), b.skip(1))
    } else {
        a[0] < b[0]
    }
}

proof fn order_is_total(a: Seq<char>, b: Seq<char>)
    ensures
        comes_first(a, b) || comes_first(b, a),
    decreases a.len(),
{
    if a.len() > 0 && b.len() > 0 && a[0] == b[0] {
        order_is_total(a.skip(1), b.skip(1));
    }
}

proof fn order_is_transitive(a: Seq<char>, b: Seq<char>, c: Seq<char>)
    requires
        comes_first(a, b),
        comes_first(b, c),
    ensures
        comes_first(a, c),
    decreases a.len(),
{
    if a.len() > 0 && a[0] == b[0] && b[0] == c[0] {
        order_is_transitive(a.skip(1), b.skip(1), c.skip(1));
    }
}

fn is_before(a: &[char], b: &[char]) -> (res: bool)
    ensures
        res == comes_first(a@, b@),
{
    let mut i: usize = 0;
    assert(a@.skip(0) =~= a@);
    assert(b@.skip(0) =~= b@);
    while i < a.len() && i < b.len() && a[i] == b[i]
        invariant
            i <= a@.len(),
            i <= b@.len(),
            comes_first(a@, b@) == comes_first(a@.skip(i as int), b@.skip(i as int)),
        decreases a@.len() - i,
    {
        assert(a@.skip(i as int).skip(1) =~= a@.skip(i + 1));
        assert(b@.skip(i as int).skip(1) =~= b@.skip(i + 1));
        i += 1;
    }
    if i == a.len() {
        true
    } else if i == b.len() {
        false
    } else {
        a[i] < b[i]
    }
}

fn driver_of_card(entry: &DrmEntry) -> (res: GpuDriver)
    ensures
        res == card_driver(*entry),
{
    let name = chars_of(entry.name.as_str());
    let rest = match strip_prefix(name.as_slice(), "card") {
        Some(rest) => rest,
        None => {
            return GpuDriver::Unknown;
        },
    };
    let mut i: usize = 0;
    while i < rest.len()
        invariant
            i <= rest@.len(),
            after_prefix(entry.name@, "card"@) == Some(rest@),
            forall|j: int| 0 <= j < i ==> '0' <= #[trigger] rest@[j] <= '9',
        decreases rest@.len() - i,
    {
        if !('0' <= rest[i] && rest[i] <= '9') {
            assert(!is_digit(rest@[i as int]));
            return GpuDriver::Unknown;
        }
        i += 1;
    }
    match &entry.module {
        Some(module) => GpuDriver::from_kernel_module(module.as_str()),
        None => GpuDriver::Unknown,
    }
}

/// Whether the entry at `k` is the first card, by name, whose driver is known.
pub open spec fn is_first_known(entries: Seq<DrmEntry>, k: int) -> bool {
    &&& 0 <= k < entries.len()
    &&& card_driver(entries[k]) != GpuDriver::Unknown
    &&& forall|j: int|
        0 <= j < entries.len() && card_driver(#[trigger] entries[j]) != GpuDriver::Unknown
            ==> comes_first(entries[k].name@, entries[j].name@)
}

/// The KMS driver of this machine: that of the first card, by name, whose driver
/// is known.
pub fn detect_gpu_driver(entries: &[DrmEntry]) -> (res: GpuDriver)
    ensures
        if exists|j: int|
            0 <= j < entries@.len() && card_driver(#[trigger] entries@[j]) != GpuDriver::Unknown {
            exists|k: int|
                #![trigger entries@[k]]
                is_first_known(entries@, k) && res == card_driver(entries@[k])
        } else {
            res == GpuDriver::Unknown
        },
{
    let mut best: Option<usize> = None;
    let mut i: usize = 0;
    while i < entries.len()
        invariant
            i <= entries@.len(),
            match best {
                None => forall|j: int|
                    0 <= j < i ==> card_driver(#[trigger] entries@[j]) == GpuDriver::Unknown,
                Some(k) => {
                    &&& k < i
                    &&& card_driver(entries@[k as int]) != GpuDriver::Unknown
                    &&& forall|j: int|
                        0 <= j < i && card_driver(#[trigger] entries@[j]) != GpuDriver::Unknown
                            ==> comes_first(entries@[k as int].name@, entries@[j].name@)
                },
            },
        decreases entries@.len() - i,
    {
        if driver_of_card(&entries[i]) != GpuDriver::Unknown {
            match best {
                None => {
                    proof {
                        order_is_total(entries@[i as int].name@, entries@[i as int].name@);
                    }
                    best = Some(i);
                },
                Some(k) => {
                    let kept = chars_of(entries[k].name.as_str());
                    let name = chars_of(entries[i].name.as_str());
                    if is_before(kept.as_slice(), name.as_slice()) {
                    } else {
                        proof {
                            order_is_total(kept@, name@);
                            order_is_total(name@, name@);
                            assert forall|j: int|
                                0 <= j < i + 1 && card_driver(#[trigger] entries@[j])
                                    != GpuDriver::Unknown implies comes_first(
                                name@,
                                entries@[j].name@,
                            ) by {
                                if j < i {
                                    order_is_transitive(name@, kept@, entries@[j].name@);
                                }
                            }
                        }
                        best = Some(i);
                    }
                },
            }
        }
        i += 1;
    }
    match best {
        Some(k) => {
            assert(is_first_known(entries@, k as int));
            driver_of_card(&entries[k])
        },
        None => GpuDriver::Unknown,
    }
}

/// Draining follows the delay: beyond the target by more than 150 ms the receiver
/// plays at the draining speed, below the target at the normal one, and in between
/// it is left as it is.
pub proof fn the_rate_follows_the_delay(drain: DrainController, lag: int)
    requires
        drain.enabled,
    ensures
        lag > drain.target + 150_000_000 ==> rate_for(drain, lag) == Some(drain.rate),
        lag < drain.target ==> rate_for(drain, lag) == Some(0x3FF0_0000_0000_0000u64),
        drain.target <= lag <= drain.target + 150_000_000 ==> rate_for(drain, lag) is None,
{
}

/// A stall costs a quarter of a second of delay, up to two and a half, keeps the
/// target from coming back within 0.4 s of where it stalled, and starts the count
/// of stable samples over.
pub proof fn a_stall_loosens_the_target(drain: DrainController)
    requires
        drain.enabled,
        drain.stalls < u32::MAX,
    ensures
        ({
            let after = after_stall(drain);
            &&& drain.target <= 2_250_000_000 ==> after.target == drain.target + 250_000_000
            &&& drain.target >= 2_250_000_000 ==> after.target == 2_500_000_000
            &&& drain.target <= 2_100_000_000 ==> after.floor == drain.target + 400_000_000
            &&& drain.target >= 2_100_000_000 ==> after.floor == 2_500_000_000
            &&& after.stable == 0
            &&& after.stalls == drain.stalls + 1
            &&& after.rate == drain.rate
        }),
{
}

/// The receiver has stalled where, over more than half a second, it played less
/// than six tenths of the time that passed: standing still that long is a stall,
/// keeping up is none, and neither is the first report.
pub proof fn a_stall_is_playing_far_too_little(then: u64, before: i64, now: u64, position: i64)
    requires
        then <= now,
    ensures
        ({
            let wall = now - then;
            let stalled = is_stall(Some((then, before)), now, position);
            &&& stalled ==> wall > 500_000_000
            &&& position - before >= wall ==> !stalled
            &&& position == before && wall > 500_000_000 ==> stalled
            &&& wall > 500_000_000 ==> (stalled <==> (position - before) * 10 < wall * 6)
        }),
        !is_stall(None, now, position),
{
}

/// A status is read from its first entry: the session it is about and the
/// position, where that is above zero and finite.
pub proof fn a_status_is_read_from_its_first_entry(
    payload: JsonTree,
    entries: Seq<JsonTree>,
    session: i64,
    bits: u64,
)
    requires
        member(payload, "status"@) == Some(JsonTree::Array(entries)),
        entries.len() > 0,
    ensures
        member(entries[0], "mediaSessionId"@) == Some(JsonTree::Number(session as int))
            ==> session_in(payload) == Some(session),
        member(entries[0], "mediaSessionId"@) is None ==> session_in(payload) is None,
        member(entries[0], "currentTime"@) == Some(JsonTree::Real(bits)) ==> position_in(payload)
            == (if bits > 0 && bits < 0x7FF0_0000_0000_0000 {
            Some(bits)
        } else {
            None
        }),
        member(entries[0], "currentTime"@) is None ==> position_in(payload) is None,
{
}

/// The receiver reports a failure in two ways, and the message tells what it said:
/// by refusing the media outright, or by a status whose first entry stopped on an
/// error. A status of anything else, and any other message, is none.
pub proof fn a_refusal_is_an_error(payload: JsonTree, kind: Seq<char>, entries: Seq<JsonTree>)
    requires
        member(payload, "type"@) == Some(JsonTree::Text(kind)),
        member(payload, "status"@) == Some(JsonTree::Array(entries)),
    ensures
        kind == "LOAD_FAILED"@ || kind == "LOAD_CANCELLED"@ || kind == "INVALID_REQUEST"@ || kind
            == "ERROR"@ ==> (error_in(payload) matches Some(text) && has_part(text, kind) && (
        member(payload, "reason"@) matches Some(reason) ==> has_part(text, json_text(reason)))),
        kind == "MEDIA_STATUS"@ && entries.len() == 0 ==> error_in(payload) is None,
        kind == "MEDIA_STATUS"@ && entries.len() > 0 ==> (error_in(payload) is Some <==> member(
            entries[0],
            "idleReason"@,
        ) == Some(JsonTree::Text("ERROR"@))),
        kind != "LOAD_FAILED"@ && kind != "LOAD_CANCELLED"@ && kind != "INVALID_REQUEST"@ && kind
            != "ERROR"@ && kind != "MEDIA_STATUS"@ ==> error_in(payload) is None,
{
    reveal_strlit("LOAD_FAILED");
    reveal_strlit("LOAD_CANCELLED");
    reveal_strlit("INVALID_REQUEST");
    reveal_strlit("ERROR");
    reveal_strlit("MEDIA_STATUS");
    assert("MEDIA_STATUS"@.len() == 12 && "LOAD_FAILED"@.len() == 11 && "LOAD_CANCELLED"@.len()
        == 14 && "INVALID_REQUEST"@.len() == 15 && "ERROR"@.len() == 5);
    broadcast use {part_of_first, part_of_itself, part_of_second};

}

/// The receiver is told to fetch the stream only once the server listens and the
/// pipeline is built, by an application that has started on a channel that is
/// open; serving comes last.
pub proof fn loading_comes_after_what_it_needs()
    ensures
        place_of(SetupStep::BindServer) < place_of(SetupStep::BuildPipeline),
        place_of(SetupStep::BuildPipeline) < place_of(SetupStep::ConnectChannel),
        place_of(SetupStep::ConnectChannel) < place_of(SetupStep::LaunchApp),
        place_of(SetupStep::LaunchApp) < place_of(SetupStep::LoadMedia),
        place_of(SetupStep::LoadMedia) < place_of(SetupStep::Serve),
{
}

/// A session ends by what ends it, and by nothing else: a warning and a bus that
/// closes do not, nor does the deadline once a client has come.
pub proof fn a_session_ends_by_what_ends_it(
    step: SessionStep,
    started: bool,
    event: SessionEvent,
)
    requires
        goes_on(step, started, event),
    ensures
        event matches SessionEvent::Pipeline(Some(PipelineEvent::Warning { .. })) ==> step
            is Continue,
        event matches SessionEvent::Pipeline(None) ==> step is Continue,
        event matches SessionEvent::Pipeline(Some(PipelineEvent::Error { message, debug })) ==> (
        step matches SessionStep::End(Err(error)) && error@ == ErrorView::Gst(message@)),
        event matches SessionEvent::Pipeline(Some(PipelineEvent::Eos)) ==> (step matches
            SessionStep::End(Ok(_))),
        event is FirstClientDue && started ==> step is DisarmDeadline,
        event is FirstClientDue && !started ==> (step matches SessionStep::End(Err(_))),
        event is Cancelled ==> (step matches SessionStep::End(Ok(_))),
        event is ChannelClosed ==> (step matches SessionStep::End(Err(_))),
        event matches SessionEvent::Served(result) ==> step == SessionStep::End(result),
{
}

/// A card is named by a number after `card`: its connectors, which have more to
/// their names, are none.
pub proof fn a_card_has_a_number(n: nat, rest: Seq<char>)
    requires
        rest.len() > 0,
        !is_digit(rest[0]),
    ensures
        is_card("card"@ + decimal(n)),
        !is_card("card"@ + decimal(n) + rest),
        !is_card("card"@ + rest),
{
    reveal_strlit("card");
    decimal_reads_back(n, n);
    let digits = decimal(n);
    assert(("card"@ + digits).take(4) =~= "card"@);
    assert(("card"@ + digits).skip(4) =~= digits);
    assert(("card"@ + digits + rest).take(4) =~= "card"@);
    let tail = ("card"@ + digits + rest).skip(4);
    assert(tail =~= digits + rest);
    assert(tail[digits.len() as int] == rest[0]);
    assert(("card"@ + rest).take(4) =~= "card"@);
    assert(("card"@ + rest).skip(4) =~= rest);
}

/// Names are ordered by the first character in which they differ, a shorter one
/// before what continues it.
pub proof fn names_are_ordered_as_in_a_dictionary(
    common: Seq<char>,
    a: Seq<char>,
    b: Seq<char>,
)
    ensures
        comes_first(common, common + b),
        b.len() > 0 ==> !comes_first(common + b, common),
        a.len() > 0 && b.len() > 0 && a[0] != b[0] ==> (comes_first(common + a, common + b) <==> a[0]
            < b[0]),
    decreases common.len(),
{
    let (x, y) = (common + a, common + b);
    if common.len() > 0 {
        let rest = common.skip(1);
        names_are_ordered_as_in_a_dictionary(rest, a, b);
        assert(x.skip(1) =~= rest + a);
        assert(y.skip(1) =~= rest + b);
    } else {
        assert(x =~= a);
        assert(y =~= b);
    }
}

/// A receiver that keeps up stays as far behind as it was; one that stands still
/// falls behind by the time that passes, and one that plays faster catches up by
/// what it gains.
pub proof fn the_lag_is_what_was_not_played(
    now: u64,
    later: u64,
    started: u64,
    position: i64,
    played: i64,
)
    requires
        started <= now <= later,
        position + played <= i64::MAX,
        position + played >= i64::MIN,
    ensures
        lag_at(later, started, (position + played) as i64) - lag_at(now, started, position) == (later
            - now) - played,
        lag_at(started, started, 0) == 0,
{
}

/// Draining happens only where it is allowed and a quick response is wanted, which
/// the film profile never does; it starts from the target and the rate asked for,
/// else from 0.9 s, and the target stays above 0.35 s however far it tightens.
pub proof fn draining_starts_where_it_is_wanted(
    target: Option<i64>,
    rate: Option<u64>,
    allowed: bool,
    preference: LatencyPreference,
    profile: Profile,
    samples: nat,
)
    ensures
        ({
            let drain = fresh_drain(target, rate, allowed, preferred(preference, profile));
            &&& drain.enabled <==> allowed && preference == LatencyPreference::Responsive && profile
                != Profile::Film
            &&& target is None ==> drain.target == 900_000_000
            &&& target matches Some(asked) ==> drain.target == asked
            &&& rate matches Some(asked) ==> drain.rate == asked
            &&& !drain.frozen && drain.stalls == 0 && drain.stable == 0
            &&& target is None ==> after_stables(drain, samples).target >= 350_000_000
        }),
{
    let drain = fresh_drain(target, rate, allowed, preferred(preference, profile));
    tightening_stops_at_the_floor(drain, samples);
}

/// A card has the driver that its module tells, and what is no card, or has no
/// module, has none that is known, whatever else stands beside it.
pub proof fn only_a_card_tells_its_driver(entry: DrmEntry, n: nat, rest: Seq<char>)
    requires
        rest.len() > 0,
        !is_digit(rest[0]),
    ensures
        entry.module matches Some(module) && entry.name@ == "card"@ + decimal(n) ==> card_driver(
            entry,
        ) == driver_of(entry.module->0@),
        entry.name@ == "card"@ + decimal(n) + rest ==> card_driver(entry) == GpuDriver::Unknown,
        entry.module is None ==> card_driver(entry) == GpuDriver::Unknown,
{
    a_card_has_a_number(n, rest);
}

proof fn few_are_below(s: Seq<i128>, k: int, is_below: spec_fn(i128) -> bool)
    requires
        0 <= k <= s.len(),
        forall|j: int| k <= j < s.len() ==> !is_below(#[trigger] s[j]),
    ensures
        s.to_multiset().filter(is_below).len() <= k,
    decreases s.len(),
{
    broadcast use vstd::seq_lib::group_to_multiset_ensures;
    broadcast use vstd::multiset::group_multiset_axioms;

    if s.len() == 0 {
        assert(s.to_multiset().filter(is_below) =~= vstd::multiset::Multiset::empty());
    } else {
        let x = s.last();
        let rest = s.drop_last();
        few_are_below(rest, if k < s.len() { k } else { k - 1 }, is_below);
        assert(rest.push(x) =~= s);
        let all = rest.to_multiset().filter(is_below);
        if is_below(x) {
            assert(s.to_multiset().filter(is_below) =~= all.insert(x));
        } else {
            assert(s.to_multiset().filter(is_below) =~= all);
        }
    }
}

proof fn many_are_within(s: Seq<i128>, k: int, is_within: spec_fn(i128) -> bool)
    requires
        0 <= k <= s.len(),
        forall|j: int| 0 <= j < k ==> is_within(#[trigger] s[j]),
    ensures
        s.to_multiset().filter(is_within).len() >= k,
    decreases s.len(),
{
    broadcast use vstd::seq_lib::group_to_multiset_ensures;
    broadcast use vstd::multiset::group_multiset_axioms;

    if s.len() > 0 {
        let x = s.last();
        let rest = s.drop_last();
        many_are_within(rest, if k < s.len() { k } else { k - 1 }, is_within);
        assert(rest.push(x) =~= s);
        let all = rest.to_multiset().filter(is_within);
        if is_within(x) {
            assert(s.to_multiset().filter(is_within) =~= all.insert(x));
        } else {
            assert(s.to_multiset().filter(is_within) =~= all);
        }
    }
}

/// The median is one of the samples and parts them: at most half of them lie below
/// it, and more than half do not lie above it.
pub proof fn a_median_parts_the_samples(samples: Seq<i128>, m: i128)
    requires
        samples.len() > 0,
        is_middle(samples, m),
    ensures
        samples.contains(m),
        samples.to_multiset().filter(|n: i128| n < m).len() <= samples.len() / 2,
        samples.to_multiset().filter(|n: i128| n <= m).len() > samples.len() / 2,
{
    broadcast use vstd::seq_lib::group_to_multiset_ensures;

    let sorted = choose|sorted: Seq<i128>|
        #![trigger in_order(sorted)]
        in_order(sorted) && sorted.to_multiset() == samples.to_multiset() && sorted.len()
            == samples.len() && m == sorted[(samples.len() / 2) as int];
    let at = (samples.len() / 2) as int;
    assert(sorted.contains(m));
    assert(samples.to_multiset().count(m) > 0);
    few_are_below(sorted, at, |n: i128| n < m);
    many_are_within(sorted, at + 1, |n: i128| n <= m);
}

/// A report of a position is a sample of the delay, however early it comes; one
/// from before the playing began is none.
pub proof fn only_what_plays_is_a_sample(
    after: LagMeter,
    before: LagMeter,
    position: i64,
    now: u64,
)
    requires
        has_observed(after, before, Some(position), now),
    ensures
        position > 0 && before.started is Some ==> after.samples@.len() == before.samples@.len() + 1
            && after.samples@.last() == lag_at(now, before.started->0, position) && after.previous
            == Some((now, position)),
        position <= 0 || before.started is None ==> after == before,
{
}

/// A refusal of the media tells its kind and the reason given.
pub proof fn a_refusal_tells_its_kind_and_reason(payload: JsonTree, kind: Seq<char>)
    requires
        text_member(payload, "type"@) == Some(kind),
        is_refusal(kind),
    ensures
        error_in(payload) matches Some(message) && has_part(message, " media ("@ + kind + ": "@)
            && has_part(message, refusal_detail(payload)),
{
    reveal_strlit("the receiver refused the media (");
    reveal_strlit(" media (");
    let start = "the receiver refused the media ("@ + kind + ": "@;
    let detail = refusal_detail(payload);
    let end = ") — the container or the codec is not accepted by this device"@;
    part_stands_at(start, " media ("@ + kind + ": "@, 24);
    part_of_first(start, detail, " media ("@ + kind + ": "@);
    part_of_first(start + detail, end, " media ("@ + kind + ": "@);
    part_of_itself(detail);
    part_of_second(start, detail, detail);
    part_of_first(start + detail, end, detail);
}

} // verus!
