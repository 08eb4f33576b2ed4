//! Choosing between a quick response and smooth playback.
//!
//! These two cannot both be had: the pointer travels inside the same frames as
//! the video, and buffering delays everything by the same amount. So this is a
//! choice, made by the person watching.
use vstd::prelude::*;

verus! {

/// What to favour when delay and smoothness pull in opposite directions.
#[derive(Clone, Copy, Debug, Default, PartialEq, Eq, Structural)]
pub enum Profile {
    /// The lowest delay the pipeline can sustain.
    #[default]
    Responsive,
    /// Buffered playback: the picture rides out network variance, and
    /// everything — the pointer included — arrives later.
    Film,
}

/// Extra buffering asked of the pipeline in [`Profile::Film`].
pub const FILM_PIPELINE_LATENCY_MS: u64 = 400;

/// The RTP jitter buffer in [`Profile::Film`], for the Miracast path.
pub const FILM_RTP_LATENCY_MS: u64 = 200;

/// The playout delay asked of a Cast receiver in [`Profile::Film`].
pub const FILM_PLAYOUT_DELAY_MS: u32 = 400;

/// The profile in force for the whole process. Whoever runs the process holds
/// the one value of it.
#[derive(Debug)]
pub struct Latency {
    pub profile: Profile,
}

impl Latency {
    /// The profile that a process starts with.
    pub fn new() -> (res: Self)
        ensures
            res.profile == Profile::Responsive,
    {
        Latency { profile: Profile::Responsive }
    }
}

/// Sets the profile for the whole process. The interface calls this.
pub fn set(latency: &mut Latency, profile: Profile)
    ensures
        final(latency).profile == profile,
{
    latency.profile = profile;
}

/// The profile in force.
pub fn current(latency: &Latency) -> (res: Profile)
    ensures
        res == latency.profile,
{
    latency.profile
}

/// Is buffered playback in force?
pub fn is_film(latency: &Latency) -> (res: bool)
    ensures
        res == (latency.profile == Profile::Film),
{
    current(latency) == Profile::Film
}

/// Film mode buffers enough to absorb Wi-Fi variance and stays usable, and the
/// jitter buffer lives inside the pipeline's budget.
pub proof fn film_buffers_within_reason()
    ensures
        150 <= FILM_PIPELINE_LATENCY_MS <= 1000,
        FILM_RTP_LATENCY_MS < FILM_PIPELINE_LATENCY_MS,
{
}

} // verus!
