//! File queues and playback controls for Cast and mirrored media.
use crate::cast::{CastEvent, NS_MEDIA};
use crate::error::{protocol_error, NdError};
use crate::file_server::MediaFile;
use crate::json;
use crate::media::{MediaCommand, MediaKind, PlaybackAction, PlaybackState};
use crate::path::same_path;
use crate::text::{copied, same_text};
use serde_json::Value;
use std::collections::VecDeque;
use vstd::prelude::*;

verus! {

use crate::error::{error_text, ErrorView};
use crate::file_server::title_of;
use crate::json::{
    double_of, json_tree, member, no_members, number_member, text_member, trees, JsonTree,
};
use crate::media::{abilities_of, action_for};
use crate::path::path_parts;
use crate::text::text_of;

/// How long a photo stays on the screen, in seconds.
pub const PHOTO_SECONDS: u64 = 8;

/// How long the receiver may report nothing, in seconds.
pub const SILENCE_TIMEOUT_SECS: u64 = 60;

/// How often a Cast receiver is asked for its status, in milliseconds.
pub const STATUS_POLL_MS: u64 = 1000;

/// How often a mirrored playback is looked at, in milliseconds.
pub const MIRROR_POLL_MS: u64 = 250;

/// How many commands may wait.
pub const COMMAND_BACKLOG: usize = 32;

/// How long the end of a session may take to stop the receiver, in seconds.
pub const TEARDOWN_SECS: u64 = 5;

/// What the interface shows of a session.
#[derive(Clone, Debug, PartialEq)]
pub struct MediaStatus {
    /// Which item is playing, from one.
    pub position: usize,
    pub total: usize,
    pub title: String,
    /// The paths still to play, the current one first.
    pub queue: Vec<String>,
    pub playback: PlaybackState,
    pub finished: bool,
    pub error: Option<String>,
    pub control_error: Option<String>,
}

/// What some texts hold.
pub open spec fn all_texts(list: Seq<String>) -> Seq<Seq<char>> {
    Seq::new(list.len(), |i: int| list[i]@)
}

/// A playback of which nothing is known.
pub open spec fn no_playback() -> PlaybackState {
    PlaybackState { paused: false, seconds: 0, duration: None, can_pause: false, can_seek: false }
}

/// The paths of some files.
pub open spec fn paths_of_files(files: Seq<MediaFile>) -> Seq<Seq<char>> {
    Seq::new(files.len(), |i: int| files[i].path@)
}

impl Default for MediaStatus {
    /// Nothing is queued, and nothing has been played.
    fn default() -> (res: Self)
        ensures
            res.position == 0,
            res.total == 0,
            res.title@ == Seq::<char>::empty(),
            res.queue@ == Seq::<String>::empty(),
            res.playback == no_playback(),
            !res.finished,
            res.error is None,
            res.control_error is None,
    {
        MediaStatus {
            position: 0,
            total: 0,
            title: String::new(),
            queue: Vec::new(),
            playback: PlaybackState::default(),
            finished: false,
            error: None,
            control_error: None,
        }
    }
}

/// The status of a session that is about to play some files. There have to be
/// some.
pub fn start(files: &Vec<MediaFile>) -> (res: Result<MediaStatus, NdError>)
    ensures
        match res {
            Ok(status) => {
                &&& files@.len() > 0
                &&& status.position == 0
                &&& status.total == files@.len()
                &&& status.title@ == Seq::<char>::empty()
                &&& all_texts(status.queue@) == paths_of_files(files@)
                &&& status.playback == no_playback()
                &&& !status.finished
                &&& status.error is None
                &&& status.control_error is None
            },
            Err(error) => files@.len() == 0 && error@ == ErrorView::Protocol("no files to send"@),
        },
{
    if files.len() == 0 {
        return Err(protocol_error("no files to send"));
    }
    let mut queue: Vec<String> = Vec::new();
    let mut i: usize = 0;
    while i < files.len()
        invariant
            i <= files@.len(),
            queue@.len() == i,
            forall|j: int| 0 <= j < i ==> (#[trigger] queue@[j])@ == files@[j].path@,
        decreases files@.len() - i,
    {
        queue.push(files[i].path.clone());
        i += 1;
    }
    assert(all_texts(queue@) =~= paths_of_files(files@));
    Ok(MediaStatus { total: files.len(), queue, ..MediaStatus::default() })
}

/// Records how a session ended. A failure that follows a request to stop is not
/// worth showing.
pub fn finish(status: &mut MediaStatus, outcome: &Result<(), NdError>, stopping: bool)
    ensures
        final(status).finished,
        if stopping {
            final(status).error == old(status).error
        } else {
            text_of(final(status).error) == (match *outcome {
                Ok(_) => None,
                Err(error) => Some(error_text(error)),
            })
        },
        final(status).position == old(status).position,
        final(status).total == old(status).total,
        final(status).title == old(status).title,
        final(status).queue == old(status).queue,
        final(status).playback == old(status).playback,
        final(status).control_error == old(status).control_error,
{
    status.finished = true;
    if !stopping {
        status.error = match outcome {
            Ok(()) => None,
            Err(error) => Some(error.message()),
        };
    }
}

/// The files still to play, each with its place in the list that the file server
/// was given.
///
/// Immutable HTTP indexes survive removal of pending files.
#[derive(Debug)]
pub struct Queue {
    pub pending: VecDeque<(usize, MediaFile)>,
    pub completed: usize,
}

/// Files numbered from zero.
pub open spec fn numbered(files: Seq<MediaFile>) -> Seq<(usize, MediaFile)> {
    Seq::new(files.len(), |i: int| (i as usize, files[i]))
}

/// The pending files without those at a path.
pub open spec fn without_path(pending: Seq<(usize, MediaFile)>, path: Seq<char>) -> Seq<
    (usize, MediaFile),
>
    decreases pending.len(),
{
    if pending.len() == 0 {
        Seq::empty()
    } else {
        let before = without_path(pending.drop_last(), path);
        if path_parts(pending.last().1.path@) == path_parts(path) {
            before
        } else {
            before.push(pending.last())
        }
    }
}

/// The pending files without the current one.
pub open spec fn after_first(pending: Seq<(usize, MediaFile)>) -> Seq<(usize, MediaFile)> {
    if pending.len() > 0 {
        pending.skip(1)
    } else {
        pending
    }
}

/// The pending files after a command.
pub open spec fn edited(pending: Seq<(usize, MediaFile)>, command: MediaCommand) -> Seq<
    (usize, MediaFile),
> {
    match command {
        MediaCommand::Next => after_first(pending),
        MediaCommand::Remove(path) => without_path(pending, path@),
        _ => pending,
    }
}

/// Whether a command takes the current item away, so that it must stop.
pub open spec fn ends_item(pending: Seq<(usize, MediaFile)>, command: MediaCommand) -> bool {
    match command {
        MediaCommand::Next => true,
        MediaCommand::Remove(path) => pending.len() > 0 && path_parts(pending[0].1.path@)
            == path_parts(path@),
        _ => false,
    }
}

/// How many items have been completed after a command: those passed over count,
/// those removed do not.
pub open spec fn completed_after(queue: Queue, command: MediaCommand) -> int {
    if command is Next && queue.pending@.len() > 0 {
        queue.completed + 1
    } else {
        queue.completed as int
    }
}

/// The paths of the pending files.
pub open spec fn pending_paths(pending: Seq<(usize, MediaFile)>) -> Seq<Seq<char>> {
    Seq::new(pending.len(), |i: int| pending[i].1.path@)
}

/// Which item is playing, from one; the number of those played where none is.
pub open spec fn position_of(completed: int, pending: Seq<(usize, MediaFile)>) -> int {
    completed + (if pending.len() > 0 {
        1int
    } else {
        0
    })
}

/// What a status shows of a queue.
pub open spec fn shows(status: MediaStatus, queue: Queue) -> bool {
    &&& all_texts(status.queue@) == pending_paths(queue.pending@)
    &&& status.total == queue.completed + queue.pending@.len()
}

/// Whether the length of what was and is queued can be counted.
pub open spec fn is_countable(queue: Queue) -> bool {
    queue.completed + queue.pending@.len() <= usize::MAX
}

proof fn removal_shrinks(pending: Seq<(usize, MediaFile)>, path: Seq<char>)
    ensures
        without_path(pending, path).len() <= pending.len(),
    decreases pending.len(),
{
    if pending.len() > 0 {
        removal_shrinks(pending.drop_last(), path);
    }
}

impl Queue {
    /// A queue of some files, none of them played.
    pub fn new(files: Vec<MediaFile>) -> (res: Self)
        ensures
            res.pending@ == numbered(files@),
            res.completed == 0,
            is_countable(res),
    {
        let mut pending: VecDeque<(usize, MediaFile)> = VecDeque::new();
        let mut i: usize = 0;
        while i < files.len()
            invariant
                i <= files@.len(),
                pending@ == numbered(files@.take(i as int)),
            decreases files@.len() - i,
        {
            let file = files[i].clone();
            pending.push_back((i, file));
            assert(pending@ =~= numbered(files@.take(i + 1)));
            i += 1;
        }
        assert(files@.take(i as int) =~= files@);
        Queue { pending, completed: 0 }
    }

    /// The item to play now, with its place in the server's list. There is none
    /// once the session is to stop.
    pub fn current(&self, stopping: bool) -> (res: Option<(usize, MediaFile)>)
        ensures
            res == (if stopping || self.pending@.len() == 0 {
                None
            } else {
                Some(self.pending@[0])
            }),
    {
        if stopping || self.pending.len() == 0 {
            return None;
        }
        let file = self.pending[0].1.clone();
        Some((self.pending[0].0, file))
    }

    /// Brings a status up to date. A new item also starts its position, title and
    /// playback afresh.
    pub fn publish(&self, status: &mut MediaStatus, new_item: bool)
        requires
            is_countable(*self),
        ensures
            shows(*final(status), *self),
            final(status).finished == old(status).finished,
            final(status).error == old(status).error,
            if new_item {
                &&& final(status).position == position_of(self.completed as int, self.pending@)
                &&& final(status).title@ == (if self.pending@.len() > 0 {
                    title_of(self.pending@[0].1.path@)
                } else {
                    Seq::empty()
                })
                &&& final(status).playback == no_playback()
                &&& final(status).control_error is None
            } else {
                &&& final(status).position == old(status).position
                &&& final(status).title == old(status).title
                &&& final(status).playback == old(status).playback
                &&& final(status).control_error == old(status).control_error
            },
    {
        let mut queue: Vec<String> = Vec::new();
        let mut i: usize = 0;
        while i < self.pending.len()
            invariant
                i <= self.pending@.len(),
                queue@.len() == i,
                forall|j: int| 0 <= j < i ==> (#[trigger] queue@[j])@ == self.pending@[j].1.path@,
            decreases self.pending@.len() - i,
        {
            queue.push(self.pending[i].1.path.clone());
            i += 1;
        }
        assert(all_texts(queue@) =~= pending_paths(self.pending@));
        status.queue = queue;
        status.total = self.completed + self.pending.len();
        if new_item {
            if self.pending.len() > 0 {
                status.position = self.completed + 1;
                status.title = self.pending[0].1.title();
            } else {
                status.position = self.completed;
                status.title = String::new();
            }
            status.playback = PlaybackState::default();
            status.control_error = None;
        }
    }

    /// Passes over the current item.
    pub fn advance(&mut self)
        requires
            is_countable(*old(self)),
        ensures
            final(self).pending@ == after_first(old(self).pending@),
            final(self).completed == old(self).completed + (if old(self).pending@.len() > 0 {
                1int
            } else {
                0
            }),
            is_countable(*final(self)),
    {
        if self.pending.len() > 0 {
            let ghost before = self.pending@;
            let _ = self.pending.pop_front();
            assert(self.pending@ =~= before.skip(1));
            self.completed = self.completed + 1;
        }
    }

    fn remove(&mut self, path: &str)
        requires
            is_countable(*old(self)),
        ensures
            final(self).pending@ == without_path(old(self).pending@, path@),
            final(self).completed == old(self).completed,
            is_countable(*final(self)),
    {
        let mut kept: VecDeque<(usize, MediaFile)> = VecDeque::new();
        let mut i: usize = 0;
        while i < self.pending.len()
            invariant
                i <= self.pending@.len(),
                kept@ == without_path(self.pending@.take(i as int), path@),
            decreases self.pending@.len() - i,
        {
            assert(self.pending@.take(i + 1).drop_last() =~= self.pending@.take(i as int));
            assert(self.pending@.take(i + 1).last() == self.pending@[i as int]);
            if !same_path(self.pending[i].1.path.as_str(), path) {
                let file = self.pending[i].1.clone();
                kept.push_back((self.pending[i].0, file));
            }
            i += 1;
        }
        assert(self.pending@.take(i as int) =~= self.pending@);
        proof {
            removal_shrinks(self.pending@, path@);
        }
        self.pending = kept;
    }

    /// Carries out what a command asks of the queue. Returns true if the current
    /// item was removed and must stop.
    pub fn edit(&mut self, command: &MediaCommand, status: &mut MediaStatus) -> (res: bool)
        requires
            is_countable(*old(self)),
        ensures
            res == ends_item(old(self).pending@, *command),
            final(self).pending@ == edited(old(self).pending@, *command),
            final(self).completed == completed_after(*old(self), *command),
            is_countable(*final(self)),
            shows(*final(status), *final(self)),
            final(status).finished == old(status).finished,
            final(status).error == old(status).error,
            final(status).position == old(status).position,
            final(status).title == old(status).title,
            final(status).playback == old(status).playback,
            final(status).control_error == old(status).control_error,
    {
        let advance = match command {
            MediaCommand::Next => {
                self.advance();
                true
            },
            MediaCommand::Remove(path) => {
                let current = self.pending.len() > 0 && same_path(
                    self.pending[0].1.path.as_str(),
                    path.as_str(),
                );
                self.remove(path.as_str());
                current
            },
            _ => false,
        };
        self.publish(status, false);
        advance
    }
}

/// Whether every pending item still stands at its place of the list that the
/// server was given, in the order of that list.
pub open spec fn serves(pending: Seq<(usize, MediaFile)>, files: Seq<MediaFile>) -> bool {
    &&& forall|i: int|
        0 <= i < pending.len() ==> (#[trigger] pending[i]).0 < files.len() && pending[i].1
            == files[pending[i].0 as int]
    &&& forall|i: int, j: int|
        0 <= i < j < pending.len() ==> (#[trigger] pending[i]).0 < (#[trigger] pending[j]).0
}

/// A new queue serves the files it was made of.
pub proof fn a_new_queue_serves_its_files(files: Seq<MediaFile>)
    requires
        files.len() <= usize::MAX,
    ensures
        serves(numbered(files), files),
{
}

proof fn removal_keeps_the_rest(pending: Seq<(usize, MediaFile)>, files: Seq<MediaFile>, path: Seq<char>)
    requires
        serves(pending, files),
    ensures
        serves(without_path(pending, path), files),
        forall|i: int|
            0 <= i < without_path(pending, path).len() ==> pending.contains(
                #[trigger] without_path(pending, path)[i],
            ),
        forall|i: int|
            0 <= i < pending.len() && path_parts((#[trigger] pending[i]).1.path@) != path_parts(
                path,
            ) ==> without_path(pending, path).contains(pending[i]),
        forall|i: int|
            0 <= i < without_path(pending, path).len() ==> path_parts(
                (#[trigger] without_path(pending, path)[i]).1.path@,
            ) != path_parts(path),
    decreases pending.len(),
{
    if pending.len() > 0 {
        let front = pending.drop_last();
        let last = pending.last();
        assert(serves(front, files)) by {
            assert forall|i: int| 0 <= i < front.len() implies (#[trigger] front[i]).0
                < files.len() && front[i].1 == files[front[i].0 as int] by {
                assert(pending[i] == front[i]);
            }
            assert forall|i: int, j: int| 0 <= i < j < front.len() implies (#[trigger] front[i]).0
                < (#[trigger] front[j]).0 by {
                assert(pending[i] == front[i] && pending[j] == front[j]);
            }
        }
        removal_keeps_the_rest(front, files, path);
        let before = without_path(front, path);
        let after = without_path(pending, path);
        assert(pending[pending.len() - 1] == last);
        assert forall|i: int| 0 <= i < after.len() implies pending.contains(#[trigger] after[i]) by {
            if i < before.len() {
                assert(after[i] == before[i]);
                assert(front.contains(before[i]));
                let k = choose|k: int| 0 <= k < front.len() && front[k] == before[i];
                assert(pending[k] == after[i]);
            } else {
                assert(after[i] == last);
            }
        }
        assert forall|i: int| 0 <= i < after.len() implies (#[trigger] after[i]).0 < files.len()
            && after[i].1 == files[after[i].0 as int] by {
            assert(pending.contains(after[i]));
        }
        assert forall|i: int, j: int| 0 <= i < j < after.len() implies (#[trigger] after[i]).0
            < (#[trigger] after[j]).0 by {
            assert(after[i] == before[i]);
            if j < before.len() {
                assert(after[j] == before[j]);
            } else {
                assert(after[j] == last);
                assert(front.contains(before[i]));
                let k = choose|k: int| 0 <= k < front.len() && front[k] == before[i];
                assert(pending[k] == after[i]);
            }
        }
        assert forall|i: int| 0 <= i < pending.len() && path_parts((#[trigger] pending[i]).1.path@)
            != path_parts(path) implies after.contains(pending[i]) by {
            if i < front.len() {
                assert(front[i] == pending[i]);
                assert(before.contains(front[i]));
                let k = choose|k: int| 0 <= k < before.len() && before[k] == front[i];
                assert(after[k] == pending[i]);
            } else {
                assert(after[after.len() - 1] == last);
            }
        }
        assert forall|i: int| 0 <= i < after.len() implies path_parts((#[trigger] after[i]).1.path@)
            != path_parts(path) by {
            if i < before.len() {
                assert(after[i] == before[i]);
            }
        }
    }
}

/// Whatever is skipped or removed, every item left keeps its place in the
/// server's list: its URL stays the one it had.
pub proof fn editing_keeps_http_indexes(
    pending: Seq<(usize, MediaFile)>,
    files: Seq<MediaFile>,
    command: MediaCommand,
)
    requires
        serves(pending, files),
    ensures
        serves(edited(pending, command), files),
{
    match command {
        MediaCommand::Next => {
            if pending.len() > 0 {
                let rest = pending.skip(1);
                assert forall|i: int| 0 <= i < rest.len() implies (#[trigger] rest[i]).0
                    < files.len() && rest[i].1 == files[rest[i].0 as int] by {
                    assert(pending[i + 1] == rest[i]);
                }
                assert forall|i: int, j: int| 0 <= i < j < rest.len() implies (
                #[trigger] rest[i]).0 < (#[trigger] rest[j]).0 by {
                    assert(pending[i + 1] == rest[i] && pending[j + 1] == rest[j]);
                }
            }
        },
        MediaCommand::Remove(path) => {
            removal_keeps_the_rest(pending, files, path@);
        },
        _ => {},
    }
}

/// A removed path is gone from the queue, and nothing else is.
pub proof fn removal_removes_that_path_alone(
    pending: Seq<(usize, MediaFile)>,
    files: Seq<MediaFile>,
    path: Seq<char>,
    item: (usize, MediaFile),
)
    requires
        serves(pending, files),
    ensures
        without_path(pending, path).contains(item) <==> pending.contains(item) && path_parts(
            item.1.path@,
        ) != path_parts(path),
{
    removal_keeps_the_rest(pending, files, path);
    let after = without_path(pending, path);
    if after.contains(item) {
        let i = choose|i: int| 0 <= i < after.len() && after[i] == item;
        assert(pending.contains(after[i]));
    }
    if pending.contains(item) && path_parts(item.1.path@) != path_parts(path) {
        let i = choose|i: int| 0 <= i < pending.len() && pending[i] == item;
        assert(after.contains(pending[i]));
    }
}

/// Whether the bits of a double are those of a finite number that is not
/// negative; minus zero is not.
pub open spec fn is_time(bits: u64) -> bool {
    bits < 0x7FF0_0000_0000_0000 || bits == 0x8000_0000_0000_0000
}

/// Whether the bits of a double are those of a finite number above zero.
pub open spec fn is_span(bits: u64) -> bool {
    0 < bits < 0x7FF0_0000_0000_0000
}

/// The number of a member, as the bits of a double.
pub open spec fn double_member(tree: JsonTree, key: Seq<char>) -> Option<u64> {
    match member(tree, key) {
        Some(found) => double_of(found),
        None => None,
    }
}

/// The length of the item that an entry of a status is about.
pub open spec fn duration_in(entry: JsonTree) -> Option<u64> {
    match member(entry, "media"@) {
        Some(media) => double_member(media, "duration"@),
        None => None,
    }
}

/// A playback after the receiver's report of it. What the report leaves out stays
/// as it was.
pub open spec fn playback_after(
    playback: PlaybackState,
    entry: JsonTree,
    photo: bool,
) -> PlaybackState {
    let flags = number_member(entry, "supportedMediaCommands"@, 0, u64::MAX as int);
    PlaybackState {
        seconds: match double_member(entry, "currentTime"@) {
            Some(bits) if is_time(bits) => bits,
            _ => playback.seconds,
        },
        duration: match duration_in(entry) {
            Some(bits) if is_span(bits) => Some(bits),
            _ => playback.duration,
        },
        paused: match text_member(entry, "playerState"@) {
            Some(state) => state == "PAUSED"@,
            None => playback.paused,
        },
        can_pause: match flags {
            Some(flags) => !photo && flags % 2 == 1,
            None => playback.can_pause,
        },
        can_seek: match flags {
            Some(flags) => !photo && flags / 2 % 2 == 1,
            None => playback.can_seek,
        },
    }
}

fn get_double(value: &Value, key: &str) -> (res: Option<u64>)
    ensures
        res == double_member(json_tree(*value), key@),
{
    match json::get(value, key) {
        Some(found) => json::as_double(found),
        None => None,
    }
}

/// Takes over what the receiver reports of a playback. A photo can be neither
/// paused nor sought in.
pub fn update_playback(playback: &mut PlaybackState, entry: &Value, photo: bool)
    ensures
        *final(playback) == playback_after(*old(playback), json_tree(*entry), photo),
{
    if let Some(bits) = get_double(entry, "currentTime") {
        if bits < 0x7FF0_0000_0000_0000 || bits == 0x8000_0000_0000_0000 {
            playback.seconds = bits;
        }
    }
    if let Some(media) = json::get(entry, "media") {
        if let Some(bits) = get_double(media, "duration") {
            if 0 < bits && bits < 0x7FF0_0000_0000_0000 {
                playback.duration = Some(bits);
            }
        }
    }
    if let Some(state) = json::get_text(entry, "playerState") {
        playback.paused = same_text(state, "PAUSED");
    }
    let flags = match json::get(entry, "supportedMediaCommands") {
        Some(found) => json::as_u64(found),
        None => None,
    };
    if let Some(flags) = flags {
        playback.can_pause = !photo && flags % 2 == 1;
        playback.can_seek = !photo && flags / 2 % 2 == 1;
    }
}

/// What to ask of the receiver.
pub struct ControlRequest {
    pub payload: Value,
    /// The seconds to seek by, as the bits of a double: the payload still needs
    /// the `currentTime` to go to.
    pub seek: Option<u64>,
}

/// The payload of a control.
pub open spec fn control_tree(action: PlaybackAction, session_id: i64) -> JsonTree {
    JsonTree::Object(
        no_members().insert(
            "type"@,
            JsonTree::Text(
                match action {
                    PlaybackAction::Play => "PLAY"@,
                    PlaybackAction::Pause => "PAUSE"@,
                    PlaybackAction::Seek(_) => "SEEK"@,
                },
            ),
        ).insert("mediaSessionId"@, JsonTree::Number(session_id as int)),
    )
}

/// Whether a request carries out an action.
pub open spec fn requests(
    request: ControlRequest,
    action: PlaybackAction,
    session_id: i64,
) -> bool {
    &&& json_tree(request.payload) == control_tree(action, session_id)
    &&& request.seek == (match action {
        PlaybackAction::Seek(offset) => Some(offset),
        _ => None,
    })
}

fn addressed(kind: &str, session_id: i64) -> (res: Value)
    ensures
        json_tree(res) == JsonTree::Object(
            no_members().insert("type"@, JsonTree::Text(kind@)).insert(
                "mediaSessionId"@,
                JsonTree::Number(session_id as int),
            ),
        ),
{
    let mut payload = json::object();
    json::put_text(&mut payload, "type", kind);
    json::put_number(&mut payload, "mediaSessionId", session_id);
    payload
}

/// The request that a command becomes, where the receiver can carry it out.
/// Seeking leaves a paused item paused.
pub fn control_request(command: &MediaCommand, session_id: i64, state: &PlaybackState) -> (res:
    Option<ControlRequest>)
    ensures
        match action_for(*command, abilities_of(*state)) {
            Some(action) => res matches Some(request) && requests(request, action, session_id),
            None => res is None,
        },
{
    match command {
        MediaCommand::TogglePause if state.can_pause => {
            let kind = if state.paused {
                "PLAY"
            } else {
                "PAUSE"
            };
            Some(ControlRequest { payload: addressed(kind, session_id), seek: None })
        },
        MediaCommand::SeekRelative(offset) if state.can_seek => Some(
            ControlRequest { payload: addressed("SEEK", session_id), seek: Some(*offset) },
        ),
        _ => None,
    }
}

/// The request for the status of a media session.
pub fn status_request(session_id: i64) -> (res: Value)
    ensures
        json_tree(res) == JsonTree::Object(
            no_members().insert("type"@, JsonTree::Text("GET_STATUS"@)).insert(
                "mediaSessionId"@,
                JsonTree::Number(session_id as int),
            ),
        ),
{
    addressed("GET_STATUS", session_id)
}

/// Whether an entry of a status is about that session, and not about another
/// file.
pub open spec fn is_about(entry: JsonTree, session_id: i64, url: Seq<char>) -> bool {
    &&& number_member(entry, "mediaSessionId"@, i64::MIN as int, i64::MAX as int) == Some(
        session_id as int,
    )
    &&& match member(entry, "media"@) {
        Some(media) => match text_member(media, "contentId"@) {
            Some(id) => id == url,
            None => true,
        },
        None => true,
    }
}

/// The first entry about a session.
pub open spec fn entry_about(entries: Seq<JsonTree>, session_id: i64, url: Seq<char>) -> Option<
    JsonTree,
>
    decreases entries.len(),
{
    if entries.len() == 0 {
        None
    } else if is_about(entries[0], session_id, url) {
        Some(entries[0])
    } else {
        entry_about(entries.skip(1), session_id, url)
    }
}

/// The entries of a media status; none of any other message.
pub open spec fn status_entries(payload: JsonTree) -> Seq<JsonTree> {
    if text_member(payload, "type"@) == Some("MEDIA_STATUS"@) {
        match member(payload, "status"@) {
            Some(JsonTree::Array(entries)) => entries,
            _ => Seq::empty(),
        }
    } else {
        Seq::empty()
    }
}

/// What a message says of a session.
pub open spec fn status_about(payload: JsonTree, session_id: i64, url: Seq<char>) -> Option<
    JsonTree,
> {
    entry_about(status_entries(payload), session_id, url)
}

fn entries_of(payload: &Value) -> (res: Option<&Vec<Value>>)
    ensures
        match res {
            Some(entries) => status_entries(json_tree(*payload)) == trees(entries@),
            None => status_entries(json_tree(*payload)).len() == 0,
        },
{
    let is_status = match json::get_text(payload, "type") {
        Some(kind) => same_text(kind, "MEDIA_STATUS"),
        None => false,
    };
    if !is_status {
        return None;
    }
    match json::get(payload, "status") {
        Some(list) => json::as_array(list),
        None => None,
    }
}

fn concerns(entry: &Value, session_id: i64, url: &str) -> (res: bool)
    ensures
        res == is_about(json_tree(*entry), session_id, url@),
{
    let id = match json::get(entry, "mediaSessionId") {
        Some(found) => json::as_i64(found),
        None => None,
    };
    let same_session = match id {
        Some(id) => id == session_id,
        None => false,
    };
    let same_file = match json::get(entry, "media") {
        Some(media) => match json::get_text(media, "contentId") {
            Some(content) => same_text(content, url),
            None => true,
        },
        None => true,
    };
    same_session && same_file
}

/// What a message says of the current item: the entry of a media status with that
/// session, unless it names another file. Anything else is stale, or about
/// something else.
pub fn active_status<'a>(payload: &'a Value, session_id: i64, url: &str) -> (res: Option<&'a Value>)
    ensures
        match res {
            Some(entry) => status_about(json_tree(*payload), session_id, url@) == Some(
                json_tree(*entry),
            ),
            None => status_about(json_tree(*payload), session_id, url@) is None,
        },
{
    let entries = match entries_of(payload) {
        Some(entries) => entries,
        None => {
            return None;
        },
    };
    let ghost all = trees(entries@);
    let mut i: usize = 0;
    assert(all.skip(0) =~= all);
    while i < entries.len()
        invariant
            i <= entries@.len(),
            all == trees(entries@),
            all == status_entries(json_tree(*payload)),
            entry_about(all, session_id, url@) == entry_about(
                all.skip(i as int),
                session_id,
                url@,
            ),
        decreases entries@.len() - i,
    {
        assert(all.skip(i as int).skip(1) =~= all.skip(i + 1));
        if concerns(&entries[i], session_id, url) {
            return Some(&entries[i]);
        }
        i += 1;
    }
    None
}

proof fn entry_about_is_about(entries: Seq<JsonTree>, session_id: i64, url: Seq<char>)
    ensures
        match entry_about(entries, session_id, url) {
            Some(entry) => is_about(entry, session_id, url) && entries.contains(entry),
            None => forall|i: int|
                0 <= i < entries.len() ==> !is_about(#[trigger] entries[i], session_id, url),
        },
    decreases entries.len(),
{
    if entries.len() > 0 {
        let rest = entries.skip(1);
        entry_about_is_about(rest, session_id, url);
        if is_about(entries[0], session_id, url) {
            assert(entries.contains(entries[0]));
        } else if let Some(entry) = entry_about(rest, session_id, url) {
            let i = choose|i: int| 0 <= i < rest.len() && rest[i] == entry;
            assert(entries[i + 1] == entry);
        } else {
            assert forall|i: int| 0 <= i < entries.len() implies !is_about(
                #[trigger] entries[i],
                session_id,
                url,
            ) by {
                if i > 0 {
                    assert(rest[i - 1] == entries[i]);
                }
            }
        }
    }
}

/// A stale status cannot finish the current item: what is taken as being about it
/// has its session, and names no other file.
pub proof fn a_stale_status_is_ignored(payload: JsonTree, session_id: i64, url: Seq<char>)
    ensures
        match status_about(payload, session_id, url) {
            Some(entry) => is_about(entry, session_id, url) && status_entries(payload).contains(
                entry,
            ),
            None => forall|i: int|
                0 <= i < status_entries(payload).len() ==> !is_about(
                    #[trigger] status_entries(payload)[i],
                    session_id,
                    url,
                ),
        },
{
    entry_about_is_about(status_entries(payload), session_id, url);
}

/// Whether an entry says that its item has ended: idle, for a reason. Idle alone
/// is also what is reported before the first item starts.
pub open spec fn has_ended(entry: JsonTree) -> bool {
    let reason = text_member(entry, "idleReason"@);
    &&& text_member(entry, "playerState"@) == Some("IDLE"@)
    &&& reason == Some("FINISHED"@) || reason == Some("ERROR"@) || reason == Some("CANCELLED"@)
}

fn is_member(value: &Value, key: &str, wanted: &str) -> (res: bool)
    ensures
        res == (text_member(json_tree(*value), key@) == Some(wanted@)),
{
    match json::get_text(value, key) {
        Some(text) => same_text(text, wanted),
        None => false,
    }
}

fn entry_has_ended(entry: &Value) -> (res: bool)
    ensures
        res == has_ended(json_tree(*entry)),
{
    let idle = is_member(entry, "playerState", "IDLE");
    // `FINISHED`: played to the end. `ERROR`/`CANCELLED`: it will not play, and
    // waiting longer will not change that.
    let finished = is_member(entry, "idleReason", "FINISHED");
    let failed = is_member(entry, "idleReason", "ERROR");
    let cancelled = is_member(entry, "idleReason", "CANCELLED");
    idle && (finished || failed || cancelled)
}

/// Does this `MEDIA_STATUS` say the item has ended?
///
/// The receiver reports the end as `playerState: IDLE` with an `idleReason`.
/// `IDLE` on its own is not enough — it is also what is reported *before* the
/// first item starts, and treating that as "finished" would skip straight past
/// the file the person asked for.
pub fn item_has_ended(payload: &Value) -> (res: bool)
    ensures
        res == exists|i: int|
            0 <= i < status_entries(json_tree(*payload)).len() && has_ended(
                #[trigger] status_entries(json_tree(*payload))[i],
            ),
{
    let entries = match entries_of(payload) {
        Some(entries) => entries,
        None => {
            return false;
        },
    };
    let ghost all = trees(entries@);
    let mut i: usize = 0;
    while i < entries.len()
        invariant
            i <= entries@.len(),
            all == trees(entries@),
            all == status_entries(json_tree(*payload)),
            forall|j: int| 0 <= j < i ==> !has_ended(#[trigger] all[j]),
        decreases entries@.len() - i,
    {
        if entry_has_ended(&entries[i]) {
            assert(has_ended(all[i as int]));
            return true;
        }
        i += 1;
    }
    false
}

/// The failure of a LOAD.
pub fn load_error(file: &MediaFile, error: &NdError) -> (res: NdError)
    ensures
        res@ == ErrorView::Protocol(
            "the receiver refused "@ + title_of(file.path@) + ": "@ + error_text(*error),
        ),
{
    let title = file.title();
    let cause = error.message();
    NdError::Protocol(
        copied("the receiver refused ").concat(title.as_str()).concat(": ").concat(
            cause.as_str(),
        ),
    )
}

/// The first of a list; of an object, the member under `0`.
pub open spec fn first_in(tree: JsonTree) -> Option<JsonTree> {
    match tree {
        JsonTree::Array(items) => if items.len() > 0 {
            Some(items[0])
        } else {
            None
        },
        _ => member(tree, "0"@),
    }
}

/// The session that a LOAD created.
pub open spec fn loaded_session(reply: JsonTree) -> Option<i64> {
    match member(reply, "status"@) {
        Some(status) => match first_in(status) {
            Some(entry) => match number_member(
                entry,
                "mediaSessionId"@,
                i64::MIN as int,
                i64::MAX as int,
            ) {
                Some(id) => Some(id as i64),
                None => None,
            },
            None => None,
        },
        None => None,
    }
}

/// Reads the session that a LOAD created.
pub fn media_session(reply: &Value) -> (res: Result<i64, NdError>)
    ensures
        match res {
            Ok(id) => loaded_session(json_tree(*reply)) == Some(id),
            Err(error) => loaded_session(json_tree(*reply)) is None && error@
                == ErrorView::Protocol("LOAD returned no media session"@),
        },
{
    let entry = match json::get(reply, "status") {
        Some(status) => match json::as_array(status) {
            Some(items) => if items.len() > 0 {
                Some(&items[0])
            } else {
                None
            },
            None => json::get(status, "0"),
        },
        None => None,
    };
    let found = match entry {
        Some(entry) => json::get(entry, "mediaSessionId"),
        None => None,
    };
    let id = match found {
        Some(found) => json::as_i64(found),
        None => None,
    };
    match id {
        Some(id) => Ok(id),
        None => Err(protocol_error("LOAD returned no media session")),
    }
}

/// What follows a command to a Cast playback.
pub enum AfterCommand {
    /// Whoever gives commands is gone: the session is over.
    Finished,
    /// The current item is over.
    NextItem,
    /// Nothing more.
    Continue,
    /// Ask this of the receiver.
    Ask(ControlRequest),
}

/// Carries out a command to a Cast playback: on the queue, and as what to ask of
/// the receiver.
pub fn on_command(
    queue: &mut Queue,
    status: &mut MediaStatus,
    command: Option<&MediaCommand>,
    session_id: i64,
) -> (res: AfterCommand)
    requires
        is_countable(*old(queue)),
    ensures
        is_countable(*final(queue)),
        final(status).finished == old(status).finished,
        final(status).error == old(status).error,
        final(status).position == old(status).position,
        final(status).title == old(status).title,
        final(status).playback == old(status).playback,
        final(status).control_error == old(status).control_error,
        match command {
            None => res is Finished && *final(queue) == *old(queue) && *final(status) == *old(
                status,
            ),
            Some(command) => {
                &&& final(queue).pending@ == edited(old(queue).pending@, *command)
                &&& final(queue).completed == completed_after(*old(queue), *command)
                &&& shows(*final(status), *final(queue))
                &&& if ends_item(old(queue).pending@, *command) {
                    res is NextItem
                } else {
                    match action_for(*command, abilities_of(old(status).playback)) {
                        Some(action) => res matches AfterCommand::Ask(request) && requests(
                            request,
                            action,
                            session_id,
                        ),
                        None => res is Continue,
                    }
                }
            },
        },
{
    let command = match command {
        Some(command) => command,
        None => {
            return AfterCommand::Finished;
        },
    };
    if queue.edit(command, status) {
        return AfterCommand::NextItem;
    }
    match control_request(command, session_id, &status.playback) {
        Some(request) => AfterCommand::Ask(request),
        None => AfterCommand::Continue,
    }
}

/// Takes over the receiver's answer to a control: whether it is a report on the
/// current item. Where it is not, the status says what went wrong.
pub fn on_control_reply(
    status: &mut MediaStatus,
    reply: &Result<Value, NdError>,
    session_id: i64,
    url: &str,
) -> (res: bool)
    ensures
        res == (match *reply {
            Ok(payload) => status_about(json_tree(payload), session_id, url@) is Some,
            Err(_) => false,
        }),
        text_of(final(status).control_error) == (if res {
            None
        } else {
            Some(
                match *reply {
                    Ok(_) => "receiver rejected the playback control"@,
                    Err(error) => error_text(error),
                },
            )
        }),
        final(status).position == old(status).position,
        final(status).total == old(status).total,
        final(status).title == old(status).title,
        final(status).queue == old(status).queue,
        final(status).playback == old(status).playback,
        final(status).finished == old(status).finished,
        final(status).error == old(status).error,
{
    match reply {
        Ok(payload) => {
            if active_status(payload, session_id, url).is_some() {
                status.control_error = None;
                return true;
            }
            status.control_error = Some(copied("receiver rejected the playback control"));
        },
        Err(error) => {
            status.control_error = Some(error.message());
        },
    }
    false
}

/// Picks the media messages out of the channel's events. A channel that closed
/// ends the session.
pub fn on_channel_event(event: Option<CastEvent>) -> (res: Result<Option<Value>, NdError>)
    ensures
        match event {
            None => res matches Err(error) && error@ == ErrorView::Protocol(
                "media channel closed"@,
            ),
            Some(event) => res == Ok::<Option<Value>, NdError>(
                if event.namespace@ == NS_MEDIA@ {
                    Some(event.payload)
                } else {
                    None
                },
            ),
        },
{
    match event {
        None => Err(protocol_error("media channel closed")),
        Some(event) => {
            if same_text(event.namespace.as_str(), NS_MEDIA) {
                Ok(Some(event.payload))
            } else {
                Ok(None)
            }
        },
    }
}

/// The failure of a receiver that reports nothing for too long.
pub fn silence_error() -> (res: NdError)
    ensures
        res@ == ErrorView::Protocol("media receiver stopped reporting status"@),
{
    protocol_error("media receiver stopped reporting status")
}

/// What follows a report from the receiver.
#[derive(Debug)]
pub enum AfterReport {
    /// It says nothing of the current item.
    Nothing,
    /// It is about the current item, which goes on.
    Heard,
    /// The current item has been played to its end.
    NextItem,
    /// The current item will not play.
    Failed(NdError),
}

/// Whether an entry says that the current item is over. A photo is over by the clock
/// alone.
pub open spec fn is_over(entry: JsonTree, photo: bool) -> bool {
    !photo && has_ended(entry)
}

/// Whether an entry says that its item was played to its end.
pub open spec fn was_played(entry: JsonTree) -> bool {
    text_member(entry, "idleReason"@) == Some("FINISHED"@)
}

/// Takes over a report from the receiver. A photo ends by the clock, never by a
/// report.
pub fn on_report(
    queue: &mut Queue,
    status: &mut MediaStatus,
    payload: &Value,
    session_id: i64,
    url: &str,
    photo: bool,
) -> (res: AfterReport)
    requires
        is_countable(*old(queue)),
    ensures
        is_countable(*final(queue)),
        final(status).position == old(status).position,
        final(status).total == old(status).total,
        final(status).title == old(status).title,
        final(status).queue == old(status).queue,
        final(status).finished == old(status).finished,
        final(status).error == old(status).error,
        final(status).control_error == old(status).control_error,
        match status_about(json_tree(*payload), session_id, url@) {
            None => {
                &&& res is Nothing
                &&& *final(queue) == *old(queue)
                &&& final(status).playback == old(status).playback
            },
            Some(entry) => {
                let over = is_over(entry, photo);
                let played = was_played(entry);
                &&& final(status).playback == playback_after(old(status).playback, entry, photo)
                &&& if over && played {
                    &&& res is NextItem
                    &&& final(queue).pending@ == after_first(old(queue).pending@)
                    &&& final(queue).completed == old(queue).completed + (if old(
                        queue,
                    ).pending@.len() > 0 {
                        1int
                    } else {
                        0
                    })
                } else {
                    &&& *final(queue) == *old(queue)
                    &&& if over {
                        res matches AfterReport::Failed(error) && error@ == ErrorView::Protocol(
                            "receiver cancelled or failed to play the item"@,
                        )
                    } else {
                        res is Heard
                    }
                }
            },
        },
{
    let entry = match active_status(payload, session_id, url) {
        Some(entry) => entry,
        None => {
            return AfterReport::Nothing;
        },
    };
    let mut playback = status.playback;
    update_playback(&mut playback, entry, photo);
    status.playback = playback;
    if !photo && entry_has_ended(entry) {
        if !is_member(entry, "idleReason", "FINISHED") {
            return AfterReport::Failed(
                protocol_error("receiver cancelled or failed to play the item"),
            );
        }
        queue.advance();
        return AfterReport::NextItem;
    }
    AfterReport::Heard
}

/// Whether a file is shown for a fixed time.
pub fn is_photo(file: &MediaFile) -> (res: bool)
    ensures
        res == (file.kind == MediaKind::Photo),
{
    file.kind == MediaKind::Photo
}

/// What follows a command to a mirrored playback.
#[derive(Clone, Copy, Debug, PartialEq, Eq, Structural)]
pub enum AfterMirrorCommand {
    /// Whoever gives commands is gone: stop the stream, and the session is over.
    StopAndFinish,
    /// Stop the stream; the current item is over.
    StopAndNext,
    /// Nothing more.
    Continue,
    /// Hand the command to the pipeline.
    Control,
}

/// Carries out a command to a mirrored playback: on the queue, and as what to do
/// with the stream.
pub fn on_mirror_command(
    queue: &mut Queue,
    status: &mut MediaStatus,
    command: Option<&MediaCommand>,
) -> (res: AfterMirrorCommand)
    requires
        is_countable(*old(queue)),
    ensures
        is_countable(*final(queue)),
        final(status).finished == old(status).finished,
        final(status).error == old(status).error,
        final(status).position == old(status).position,
        final(status).title == old(status).title,
        final(status).playback == old(status).playback,
        final(status).control_error == old(status).control_error,
        match command {
            None => {
                &&& res == AfterMirrorCommand::StopAndFinish
                &&& *final(queue) == *old(queue)
                &&& *final(status) == *old(status)
            },
            Some(command) => {
                &&& final(queue).pending@ == edited(old(queue).pending@, *command)
                &&& final(queue).completed == completed_after(*old(queue), *command)
                &&& shows(*final(status), *final(queue))
                &&& res == (if ends_item(old(queue).pending@, *command) {
                    AfterMirrorCommand::StopAndNext
                } else if command is Remove {
                    AfterMirrorCommand::Continue
                } else {
                    AfterMirrorCommand::Control
                })
            },
        },
{
    let command = match command {
        Some(command) => command,
        None => {
            return AfterMirrorCommand::StopAndFinish;
        },
    };
    if queue.edit(command, status) {
        return AfterMirrorCommand::StopAndNext;
    }
    if matches!(command, MediaCommand::Remove(_)) {
        return AfterMirrorCommand::Continue;
    }
    AfterMirrorCommand::Control
}

/// Takes over the pipeline's answer to a control.
pub fn on_mirror_control(status: &mut MediaStatus, failure: Option<String>)
    ensures
        final(status).control_error == failure,
        final(status).position == old(status).position,
        final(status).total == old(status).total,
        final(status).title == old(status).title,
        final(status).queue == old(status).queue,
        final(status).playback == old(status).playback,
        final(status).finished == old(status).finished,
        final(status).error == old(status).error,
{
    status.control_error = failure;
}

/// What a look at a mirrored playback leads to.
#[derive(Clone, Copy, Debug, PartialEq, Eq, Structural)]
pub enum AfterMirrorPoll {
    /// The status shows the playback.
    Shown,
    /// So it does, and a photo's time starts now.
    PhotoBegins,
    /// The photo's time is over: stop the stream; the current item is over.
    StopAndNext,
}

/// Whether a photo has been shown for its time.
pub open spec fn photo_is_over(photo: bool, shown_ms: Option<u64>) -> bool {
    photo && shown_ms is Some && shown_ms->0 >= PHOTO_SECONDS * 1000
}

/// Takes over the state of a mirrored playback. A photo can be neither paused nor
/// sought in; its time counts from when it is first seen playing.
/// `shown_ms` is how long that has been.
pub fn on_mirror_poll(
    queue: &mut Queue,
    status: &mut MediaStatus,
    playback: PlaybackState,
    photo: bool,
    shown_ms: Option<u64>,
) -> (res: AfterMirrorPoll)
    requires
        is_countable(*old(queue)),
    ensures
        is_countable(*final(queue)),
        final(status).position == old(status).position,
        final(status).total == old(status).total,
        final(status).title == old(status).title,
        final(status).queue == old(status).queue,
        final(status).finished == old(status).finished,
        final(status).error == old(status).error,
        final(status).control_error == old(status).control_error,
        ({
            let over = photo_is_over(photo, shown_ms);
            &&& res == (if over {
                AfterMirrorPoll::StopAndNext
            } else if photo && shown_ms is None && playback.can_pause {
                AfterMirrorPoll::PhotoBegins
            } else {
                AfterMirrorPoll::Shown
            })
            &&& if over {
                &&& final(status).playback == old(status).playback
                &&& final(queue).pending@ == after_first(old(queue).pending@)
                &&& final(queue).completed == old(queue).completed + (if old(
                    queue,
                ).pending@.len() > 0 {
                    1int
                } else {
                    0
                })
            } else {
                &&& *final(queue) == *old(queue)
                &&& final(status).playback == (if photo {
                    PlaybackState { can_pause: false, can_seek: false, ..playback }
                } else {
                    playback
                })
            }
        }),
{
    if !photo {
        status.playback = playback;
        return AfterMirrorPoll::Shown;
    }
    if let Some(ms) = shown_ms {
        if ms >= PHOTO_SECONDS * 1000 {
            queue.advance();
            return AfterMirrorPoll::StopAndNext;
        }
    }
    status.playback = PlaybackState { can_pause: false, can_seek: false, ..playback };
    if shown_ms.is_none() && playback.can_pause {
        AfterMirrorPoll::PhotoBegins
    } else {
        AfterMirrorPoll::Shown
    }
}

/// The failure of a command that cannot be taken.
pub fn command_refused() -> (res: NdError)
    ensures
        res@ == ErrorView::Protocol("media control is busy or playback has ended"@),
{
    protocol_error("media control is busy or playback has ended")
}

/// A report that names a player state decides alone whether the item is paused,
/// whatever was known of the playback before: it is exactly when the state is
/// `PAUSED`, and so not while it plays. A report that names none leaves that as it
/// was.
pub proof fn a_report_decides_whether_it_is_paused(
    before: PlaybackState,
    other: PlaybackState,
    entry: JsonTree,
    photo: bool,
)
    ensures
        member(entry, "playerState"@) matches Some(JsonTree::Text(state)) ==> {
            &&& playback_after(before, entry, photo).paused <==> state == "PAUSED"@
            &&& playback_after(before, entry, photo).paused == playback_after(
                other,
                entry,
                photo,
            ).paused
            &&& state == "PLAYING"@ ==> !playback_after(before, entry, photo).paused
        },
        !(member(entry, "playerState"@) matches Some(JsonTree::Text(_)))
            ==> playback_after(before, entry, photo).paused == before.paused,
{
    reveal_strlit("PAUSED");
    reveal_strlit("PLAYING");
    assert("PAUSED"@.len() != "PLAYING"@.len());
}

/// A report's position is taken over where it is a time, and its item's length
/// where it is a length; neither one depends on what was known before, and what
/// is neither leaves what was known.
pub proof fn a_report_decides_position_and_length(
    before: PlaybackState,
    entry: JsonTree,
    media: JsonTree,
    photo: bool,
)
    requires
        member(entry, "media"@) == Some(media),
    ensures
        member(entry, "currentTime"@) matches Some(JsonTree::Real(bits)) ==> playback_after(
            before,
            entry,
            photo,
        ).seconds == (if bits < 0x7FF0_0000_0000_0000 || bits == 0x8000_0000_0000_0000 {
            bits
        } else {
            before.seconds
        }),
        member(entry, "currentTime"@) is None ==> playback_after(before, entry, photo).seconds
            == before.seconds,
        member(media, "duration"@) matches Some(JsonTree::Real(bits)) ==> playback_after(
            before,
            entry,
            photo,
        ).duration == (if 0 < bits && bits < 0x7FF0_0000_0000_0000 {
            Some(bits)
        } else {
            before.duration
        }),
        member(media, "duration"@) is None ==> playback_after(before, entry, photo).duration
            == before.duration,
{
}

/// A report's flags decide alone what can be done to the item: the lowest allows
/// pausing, the next one seeking, and neither is allowed of a photo. Without
/// flags it stays as it was.
pub proof fn a_report_decides_what_can_be_done(
    before: PlaybackState,
    entry: JsonTree,
    photo: bool,
    flags: u64,
)
    ensures
        member(entry, "supportedMediaCommands"@) == Some(JsonTree::Number(flags as int)) ==> {
            let after = playback_after(before, entry, photo);
            &&& photo ==> !after.can_pause && !after.can_seek
            &&& !photo ==> (after.can_pause <==> flags % 2 == 1)
            &&& !photo ==> (after.can_seek <==> flags % 4 >= 2)
        },
        member(entry, "supportedMediaCommands"@) is None ==> {
            let after = playback_after(before, entry, photo);
            after.can_pause == before.can_pause && after.can_seek == before.can_seek
        },
{
}

/// Pausing follows the receiver: after a report the button resumes what is paused
/// and pauses what is not, of the session that was reported on.
pub proof fn the_button_does_the_opposite_of_the_report(
    before: PlaybackState,
    entry: JsonTree,
    state: Seq<char>,
    session_id: i64,
)
    requires
        member(entry, "playerState"@) == Some(JsonTree::Text(state)),
        playback_after(before, entry, false).can_pause,
    ensures
        action_for(
            MediaCommand::TogglePause,
            abilities_of(playback_after(before, entry, false)),
        ) matches Some(action) && {
            let asked = control_tree(action, session_id);
            &&& member(asked, "type"@) == Some(
                JsonTree::Text(
                    if state == "PAUSED"@ {
                        "PLAY"@
                    } else {
                        "PAUSE"@
                    },
                ),
            )
            &&& member(asked, "mediaSessionId"@) == Some(JsonTree::Number(session_id as int))
        },
{
    reveal_strlit("type");
    reveal_strlit("mediaSessionId");
    assert("type"@.len() != "mediaSessionId"@.len());
}

/// An entry is about a session exactly when it has the session's number and names
/// no other file: another session's is not, nor is one with another file, while
/// one that names no file at all is.
pub proof fn an_entry_is_about_its_session_and_file(
    entry: JsonTree,
    number: i64,
    session_id: i64,
    url: Seq<char>,
)
    requires
        member(entry, "mediaSessionId"@) == Some(JsonTree::Number(number as int)),
    ensures
        number != session_id ==> !is_about(entry, session_id, url),
        member(entry, "media"@) is None ==> (is_about(entry, session_id, url) <==> number
            == session_id),
        member(entry, "media"@) matches Some(media) ==> (member(media, "contentId"@) matches Some(
            JsonTree::Text(id),
        ) ==> (is_about(entry, session_id, url) <==> number == session_id && id == url)),
        member(entry, "media"@) matches Some(media) ==> (member(media, "contentId"@) is None ==> (
        is_about(entry, session_id, url) <==> number == session_id)),
{
}

/// An item has ended exactly when it is idle for one of the reasons that end it:
/// what plays, is paused or buffers has not, nor has what is idle for no reason.
pub proof fn only_idle_with_a_reason_has_ended(entry: JsonTree, state: Seq<char>)
    requires
        member(entry, "playerState"@) == Some(JsonTree::Text(state)),
    ensures
        state != "IDLE"@ ==> !has_ended(entry),
        state == "PLAYING"@ || state == "PAUSED"@ || state == "BUFFERING"@ ==> !has_ended(entry),
        member(entry, "idleReason"@) is None ==> !has_ended(entry),
        state == "IDLE"@ ==> (member(entry, "idleReason"@) matches Some(JsonTree::Text(reason))
            ==> (has_ended(entry) <==> reason == "FINISHED"@ || reason == "ERROR"@ || reason
            == "CANCELLED"@)),
{
    reveal_strlit("IDLE");
    reveal_strlit("PLAYING");
    reveal_strlit("PAUSED");
    reveal_strlit("BUFFERING");
    assert("IDLE"@.len() == 4 && "PLAYING"@.len() == 7 && "PAUSED"@.len() == 6 && "BUFFERING"@.len()
        == 9);
}

/// The session of a LOAD is the one that the first entry of its reply numbers.
pub proof fn a_load_gives_its_first_session(
    reply: JsonTree,
    entries: Seq<JsonTree>,
    number: i64,
)
    requires
        member(reply, "status"@) == Some(JsonTree::Array(entries)),
    ensures
        entries.len() == 0 ==> loaded_session(reply) is None,
        entries.len() > 0 && member(entries[0], "mediaSessionId"@) == Some(
            JsonTree::Number(number as int),
        ) ==> loaded_session(reply) == Some(number),
        entries.len() > 0 && member(entries[0], "mediaSessionId"@) is None ==> loaded_session(reply)
            is None,
{
}

/// A photo is shown for eight seconds, from when it is first seen, and nothing else
/// ends by the clock; a report never ends a photo, and ends anything else exactly
/// where it says that it has ended, as played only where it finished.
pub proof fn a_photo_ends_by_the_clock_alone(
    photo: bool,
    shown_ms: Option<u64>,
    entry: JsonTree,
    reason: Seq<char>,
)
    requires
        member(entry, "playerState"@) == Some(JsonTree::Text("IDLE"@)),
        member(entry, "idleReason"@) == Some(JsonTree::Text(reason)),
    ensures
        photo_is_over(photo, shown_ms) ==> photo && (shown_ms matches Some(ms) && ms >= 8000),
        shown_ms matches Some(ms) ==> (photo && ms >= 8000 ==> photo_is_over(photo, shown_ms)),
        photo ==> !is_over(entry, photo),
        !photo ==> (is_over(entry, photo) <==> reason == "FINISHED"@ || reason == "ERROR"@ || reason
            == "CANCELLED"@),
        was_played(entry) <==> reason == "FINISHED"@,
{
}

/// The position counts from one and follows the queue: it lies within the total
/// while anything is left, and passing over the current item, which takes that item
/// alone off the queue, moves it on by one as long as another follows.
pub proof fn the_position_follows_the_queue(completed: nat, pending: Seq<(usize, MediaFile)>)
    ensures
        pending.len() > 0 ==> 1 <= position_of(completed as int, pending) <= completed
            + pending.len(),
        pending.len() > 1 ==> position_of(completed as int + 1, after_first(pending)) == position_of(
            completed as int,
            pending,
        ) + 1,
        pending.len() == 1 ==> position_of(completed as int + 1, after_first(pending)) == position_of(
            completed as int,
            pending,
        ),
        after_first(pending).len() == (if pending.len() > 0 {
            pending.len() - 1
        } else {
            0
        }),
        forall|i: int|
            0 <= i < after_first(pending).len() ==> #[trigger] after_first(pending)[i] == pending[i
                + 1],
{
}

/// Commands to the queue do what they say: the next item passes over the current
/// one alone, a removal ends the current item exactly where it is the one removed,
/// and the controls of the playback leave the queue alone and end nothing.
pub proof fn commands_edit_the_queue_as_they_say(
    pending: Seq<(usize, MediaFile)>,
    path: String,
    offset: u64,
)
    ensures
        edited(pending, MediaCommand::Next) == after_first(pending),
        ends_item(pending, MediaCommand::Next),
        edited(pending, MediaCommand::TogglePause) == pending,
        edited(pending, MediaCommand::SeekRelative(offset)) == pending,
        !ends_item(pending, MediaCommand::TogglePause),
        !ends_item(pending, MediaCommand::SeekRelative(offset)),
        pending.len() > 0 ==> (ends_item(pending, MediaCommand::Remove(path)) <==> path_parts(
            pending[0].1.path@,
        ) == path_parts(path@)),
        pending.len() == 0 ==> !ends_item(pending, MediaCommand::Remove(path)),
{
}

/// Of a playback that has not begun nothing is known: it stands at the start, is
/// not paused, and offers nothing to do.
pub proof fn a_new_playback_offers_nothing()
    ensures
        !no_playback().paused,
        no_playback().seconds == 0,
        no_playback().duration is None,
        !no_playback().can_pause,
        !no_playback().can_seek,
{
}

/// A media status lists its entries under `status`, all of them and in order; no
/// other message lists any.
pub proof fn a_media_status_lists_its_entries(payload: JsonTree, entries: Seq<JsonTree>)
    ensures
        text_member(payload, "type"@) == Some("MEDIA_STATUS"@) && member(payload, "status"@)
            == Some(JsonTree::Array(entries)) ==> status_entries(payload) == entries,
        text_member(payload, "type"@) != Some("MEDIA_STATUS"@) ==> status_entries(payload).len()
            == 0,
        member(payload, "status"@) is None ==> status_entries(payload).len() == 0,
{
}

} // verus!
