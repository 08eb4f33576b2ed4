//! What kind of thing a media file is, and the controls of its playback.
//!
//! A Chromecast is handed the file and decodes it, a Miracast receiver is a
//! screen and has to be shown a picture. A photo has no sound, a song has no
//! picture, and a film may have either missing.
use crate::error::{unsupported_error, NdError};
use vstd::prelude::*;

verus! {

use crate::error::ErrorView;

/// What a media file contains.
#[derive(Clone, Copy, Debug, PartialEq, Eq, Structural)]
pub enum MediaKind {
    Photo,
    Video,
    Music,
}

impl MediaKind {
    /// Does the file carry a picture of its own?
    ///
    /// A song does not, so something has to be drawn for the screen that is
    /// showing it.
    pub fn has_picture(self) -> (res: bool)
        ensures
            res == (self != MediaKind::Music),
    {
        matches!(self, MediaKind::Photo | MediaKind::Video)
    }

    /// Does the picture stand still?
    ///
    /// A photo has exactly one frame, and a receiver expecting a video stream
    /// needs that frame repeated rather than sent once and never again.
    pub fn is_still(self) -> (res: bool)
        ensures
            res == (self == MediaKind::Photo),
    {
        self == MediaKind::Photo
    }
}

/// Transport-independent controls exposed by the media page.
#[derive(Clone, Debug, PartialEq)]
pub enum MediaCommand {
    TogglePause,
    /// The seconds to move by, as the bits of an IEEE 754 double.
    SeekRelative(u64),
    Next,
    /// Take the file with this path off the list.
    Remove(String),
}

/// Where the playback of a file stands, and what can be done to it. Times are
/// seconds, as the bits of an IEEE 754 double.
#[derive(Clone, Copy, Debug, PartialEq, Eq)]
pub struct PlaybackState {
    pub paused: bool,
    pub seconds: u64,
    pub duration: Option<u64>,
    pub can_pause: bool,
    pub can_seek: bool,
}

impl Default for PlaybackState {
    /// Nothing is known of the playback, and nothing can be done to it. The bits
    /// of zero seconds are all zero.
    fn default() -> (res: Self)
        ensures
            res == (PlaybackState {
                paused: false,
                seconds: 0,
                duration: None,
                can_pause: false,
                can_seek: false,
            }),
    {
        PlaybackState {
            paused: false,
            seconds: 0,
            duration: None,
            can_pause: false,
            can_seek: false,
        }
    }
}

/// What can be done to a playback.
pub open spec fn abilities_of(state: PlaybackState) -> PlaybackAbilities {
    PlaybackAbilities {
        paused: state.paused,
        can_pause: state.can_pause,
        can_seek: state.can_seek,
    }
}

impl PlaybackState {
    /// What can be done to the playback.
    pub fn abilities(&self) -> (res: PlaybackAbilities)
        ensures
            res == abilities_of(*self),
    {
        PlaybackAbilities {
            paused: self.paused,
            can_pause: self.can_pause,
            can_seek: self.can_seek,
        }
    }
}

/// What the pipeline that plays a file can do right now.
#[derive(Clone, Copy, Debug, PartialEq, Eq, Structural)]
pub struct PlaybackAbilities {
    pub paused: bool,
    pub can_pause: bool,
    pub can_seek: bool,
}

/// What a command asks of the pipeline that plays a file.
#[derive(Clone, Copy, Debug, PartialEq, Eq, Structural)]
pub enum PlaybackAction {
    Play,
    Pause,
    /// Seek by these seconds, as the bits of an IEEE 754 double.
    Seek(u64),
}

/// The action for a command, where the pipeline can perform it.
pub open spec fn action_for(command: MediaCommand, now: PlaybackAbilities) -> Option<
    PlaybackAction,
> {
    match command {
        MediaCommand::TogglePause if now.can_pause => Some(
            if now.paused {
                PlaybackAction::Play
            } else {
                PlaybackAction::Pause
            },
        ),
        MediaCommand::SeekRelative(offset) if now.can_seek => Some(PlaybackAction::Seek(offset)),
        _ => None,
    }
}

/// Decides what a command does to the pipeline that plays a file. What the
/// pipeline cannot do, and what is no command to a pipeline, is refused.
pub fn playback_action(command: &MediaCommand, now: PlaybackAbilities) -> (res: Result<
    PlaybackAction,
    NdError,
>)
    ensures
        match res {
            Ok(action) => action_for(*command, now) == Some(action),
            Err(error) => action_for(*command, now) is None && error@ == ErrorView::Unsupported("playback control is not available for this item"@),
        },
{
    match command {
        MediaCommand::TogglePause if now.can_pause => Ok(
            if now.paused {
                PlaybackAction::Play
            } else {
                PlaybackAction::Pause
            },
        ),
        MediaCommand::SeekRelative(offset) if now.can_seek => Ok(PlaybackAction::Seek(*offset)),
        _ => Err(unsupported_error("playback control is not available for this item")),
    }
}

/// A command does to a playback what it says, where that can be done: the button
/// resumes what is paused and pauses what is not, a seek moves by its own offset
/// whether paused or not. What cannot be done is refused, and the commands that
/// are about the list of files do nothing to the playback.
pub proof fn a_command_does_what_it_says(now: PlaybackAbilities, offset: u64, path: String)
    ensures
        now.can_pause && now.paused ==> action_for(MediaCommand::TogglePause, now) == Some(
            PlaybackAction::Play,
        ),
        now.can_pause && !now.paused ==> action_for(MediaCommand::TogglePause, now) == Some(
            PlaybackAction::Pause,
        ),
        !now.can_pause ==> action_for(MediaCommand::TogglePause, now) is None,
        now.can_seek ==> action_for(MediaCommand::SeekRelative(offset), now) == Some(
            PlaybackAction::Seek(offset),
        ),
        !now.can_seek ==> action_for(MediaCommand::SeekRelative(offset), now) is None,
        action_for(MediaCommand::Next, now) is None,
        action_for(MediaCommand::Remove(path), now) is None,
{
}

} // verus!
