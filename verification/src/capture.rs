//! Screen capture: what is captured, and what it feeds the pipeline with.
use crate::media::MediaKind;
use crate::pipeline::VideoSource;
use vstd::prelude::*;

verus! {

/// What is going to be captured.
#[derive(Clone, Copy, Debug, PartialEq, Eq, Structural)]
pub enum SourceType {
    /// A whole physical monitor.
    Monitor,
    /// One specific window (needs a backend with window-capture support).
    Window,
    /// A **virtual** monitor created on demand (Mutter path; ideal for WFD).
    Virtual,
}

/// A PipeWire stream ready to feed the encoding pipeline.
///
/// `node_id` is **always** required: it is what identifies the node to capture.
/// `pipewire_fd` is the remote descriptor handed over by the portal. Mutter
/// directly hands over no descriptor, and the field is `None`.
#[derive(Debug)]
pub struct CaptureSource {
    /// The PipeWire socket descriptor, when the backend provides one. Whoever
    /// opened it keeps it open while the pipeline is being built.
    pub pipewire_fd: Option<i32>,
    /// The PipeWire node to consume.
    pub node_id: u32,
    /// The effective source type.
    pub source_type: SourceType,
    /// Known dimensions, when the backend reports them (None = negotiate).
    pub size: Option<(u32, u32)>,
    /// When set, this is not a capture at all: it is a file being played to the
    /// receiver in place of the screen.
    pub media: Option<MediaPlayback>,
}

/// A file being played to a receiver instead of a screen.
#[derive(Debug, PartialEq, Eq)]
pub struct MediaPlayback {
    pub path: String,
    pub kind: MediaKind,
    /// The name to show when the file has no picture of its own.
    pub title: String,
}

impl Clone for MediaPlayback {
    fn clone(&self) -> (res: Self)
        ensures
            res == *self,
    {
        MediaPlayback { path: self.path.clone(), kind: self.kind, title: self.title.clone() }
    }
}

/// The picture that a source stands for.
#[derive(Debug)]
pub enum CapturedVideo {
    /// A PipeWire node, with the size to ask of it where it has none of its own.
    PipeWire { fd: Option<i32>, node_id: u32, size: Option<(u32, u32)> },
    /// A file played in place of a screen.
    MediaFile { path: String, kind: MediaKind, title: String },
}

/// The sound that goes with a source.
#[derive(Clone, Copy, Debug, PartialEq, Eq, Structural)]
pub enum CapturedAudio {
    /// The file's own sound.
    MediaFile,
    /// Whatever the computer offers and the preferences say.
    Detect,
}

/// The picture of a source: the file where it plays one, else its node, with a size
/// to ask for where the screen has none of its own.
pub open spec fn video_of(source: CaptureSource) -> CapturedVideo {
    match source.media {
        Some(playback) => CapturedVideo::MediaFile {
            path: playback.path,
            kind: playback.kind,
            title: playback.title,
        },
        None => CapturedVideo::PipeWire {
            fd: source.pipewire_fd,
            node_id: source.node_id,
            size: if source.source_type == SourceType::Virtual { source.size } else { None },
        },
    }
}

/// The screen of a source, where it is one.
pub open spec fn screen_of(source: CaptureSource) -> Option<VideoSource> {
    if source.media is Some {
        None
    } else {
        Some(VideoSource::PipeWire { fd: source.pipewire_fd, node_id: source.node_id })
    }
}

impl CaptureSource {
    /// The raw descriptor, for building the `pipewiresrc` description.
    pub fn raw_fd(&self) -> (res: Option<i32>)
        ensures
            res == self.pipewire_fd,
    {
        self.pipewire_fd
    }

    /// A source that plays a file rather than capturing anything.
    ///
    /// `size` is what the file will be scaled to; the receiver's own limit and
    /// the person's quality preference still apply on top of it.
    pub fn media_file(playback: MediaPlayback, size: (u32, u32)) -> (res: Self)
        ensures
            res == (CaptureSource {
                pipewire_fd: None,
                node_id: 0,
                source_type: SourceType::Monitor,
                size: Some(size),
                media: Some(playback),
            }),
    {
        CaptureSource {
            pipewire_fd: None,
            node_id: 0,
            source_type: SourceType::Monitor,
            size: Some(size),
            media: Some(playback),
        }
    }

    /// The sound that goes with this source.
    ///
    /// A file brings its own; a screen capture takes whatever the preferences
    /// say. Deciding it here keeps the two from disagreeing.
    pub fn audio_source(&self) -> (res: CapturedAudio)
        ensures
            res == (if self.media is Some {
                CapturedAudio::MediaFile
            } else {
                CapturedAudio::Detect
            }),
    {
        match &self.media {
            Some(_) => CapturedAudio::MediaFile,
            None => CapturedAudio::Detect,
        }
    }

    /// The matching video source, with the descriptor and the node filled in.
    ///
    /// Always going through this rules out the class of bug where the pipeline
    /// was assembled without `fd=`/`path=` and captured some arbitrary node
    /// instead of the stream the user authorised.
    pub fn video_source(&self) -> (res: CapturedVideo)
        ensures
            res == video_of(*self),
    {
        if let Some(playback) = &self.media {
            return CapturedVideo::MediaFile {
                path: playback.path.clone(),
                kind: playback.kind,
                title: playback.title.clone(),
            };
        }
        // A virtual monitor has no panel of its own: whatever the pipeline
        // negotiates *is* the screen's resolution, so it has to be asked for.
        // A real monitor keeps its own.
        let size = if self.source_type == SourceType::Virtual { self.size } else { None };
        CapturedVideo::PipeWire { fd: self.raw_fd(), node_id: self.node_id, size }
    }

    /// The pipeline's source for a screen capture; `None` for a file.
    pub fn screen_source(&self) -> (res: Option<VideoSource>)
        ensures
            res == screen_of(*self),
    {
        match &self.media {
            Some(_) => None,
            None => Some(VideoSource::PipeWire { fd: self.raw_fd(), node_id: self.node_id }),
        }
    }

    /// The known resolution, or the given guess.
    pub fn size_or(&self, default: (u32, u32)) -> (res: (u32, u32))
        ensures
            res == (match self.size {
                Some(known) => known,
                None => default,
            }),
    {
        match self.size {
            Some(known) => known,
            None => default,
        }
    }
}

/// What was authorised is what is captured: a screen gives its own node on its own
/// descriptor, and is asked for a size only where it is a virtual one; a file gives
/// itself, and no screen.
pub proof fn what_was_authorised_is_captured(source: CaptureSource)
    ensures
        source.media is None ==> {
            &&& video_of(source) matches CapturedVideo::PipeWire { fd, node_id, size } && fd
                == source.pipewire_fd && node_id == source.node_id && (source.source_type
                == SourceType::Virtual ==> size == source.size) && (source.source_type
                != SourceType::Virtual ==> size is None)
            &&& screen_of(source) matches Some(VideoSource::PipeWire { fd, node_id }) && fd
                == source.pipewire_fd && node_id == source.node_id
        },
        source.media matches Some(playback) ==> {
            &&& screen_of(source) is None
            &&& video_of(source) matches CapturedVideo::MediaFile { path, kind, title } && path
                == playback.path && kind == playback.kind && title == playback.title
        },
{
}

} // verus!
