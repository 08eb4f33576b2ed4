//! The **sink** (receiver): the lifecycle of a cast session.
use crate::text::{chars_of, copied, copied_option, is_control, string_of, trim};
use vstd::prelude::*;

verus! {

use crate::text::{is_control_char, is_space, text_of, trimmed, trimmed_already, trimming_is_idempotent};

/// The receiver's protocol.
#[derive(Clone, Copy, Debug, PartialEq, Eq, Structural)]
pub enum SinkKind {
    /// Google Chromecast (mDNS + Cast + HTTP).
    Chromecast,
    /// Apple AirPlay (mDNS). Discovered, but casting is out of scope.
    AirPlay,
    /// Wi-Fi Display over Wi-Fi Direct / P2P.
    WfdP2p,
    /// Wi-Fi Display over infrastructure (MICE, ordinary LAN).
    WfdMice,
    /// Fake sink for testing (`NETWORK_DISPLAYS_DUMMY`).
    Dummy,
}

impl SinkKind {
    /// Whether streaming to this kind is implemented.
    ///
    /// The UI uses this so it never offers "Cast" where only an error awaits:
    /// receivers that are merely discovered still show up, but disabled.
    pub fn is_castable(self) -> (res: bool)
        ensures
            res == (self == SinkKind::Chromecast || self == SinkKind::WfdP2p || self
                == SinkKind::WfdMice),
    {
        match self {
            SinkKind::Chromecast | SinkKind::WfdP2p | SinkKind::WfdMice => true,
            // AirPlay requires FairPlay/SAP; streaming is out of scope.
            SinkKind::AirPlay => false,
            SinkKind::Dummy => false,
        }
    }

    /// A short, stable label for logs.
    pub fn as_str(self) -> (res: &'static str)
        ensures
            res@ == (match self {
                SinkKind::Chromecast => "chromecast"@,
                SinkKind::AirPlay => "airplay"@,
                SinkKind::WfdP2p => "wfd-p2p"@,
                SinkKind::WfdMice => "wfd-mice"@,
                SinkKind::Dummy => "dummy"@,
            }),
    {
        match self {
            SinkKind::Chromecast => "chromecast",
            SinkKind::AirPlay => "airplay",
            SinkKind::WfdP2p => "wfd-p2p",
            SinkKind::WfdMice => "wfd-mice",
            SinkKind::Dummy => "dummy",
        }
    }
}

/// The possible states of a session.
///
/// The transition into [`SinkState::Error`] is **terminal** and must not be
/// silently overwritten by `Disconnected`. [`SinkStatus::set`] enforces that.
#[derive(Clone, Copy, Debug, PartialEq, Eq, Structural)]
pub enum SinkState {
    /// Idle, available to connect.
    Disconnected,
    /// Forming the Wi-Fi Direct group (WFD/P2P only).
    Connecting,
    /// Making sure of the firewall zone (WFD/P2P on the native build only).
    EnsuringFirewall,
    /// Waiting for the receiver's transport socket.
    WaitSocket,
    /// Connected; waiting for the media flow to start.
    WaitStreaming,
    /// Streaming.
    Streaming,
    /// Terminal error; the message describes the cause for the UI.
    Error,
}

impl SinkState {
    /// A session is under way (the UI shows progress).
    pub fn is_busy(self) -> (res: bool)
        ensures
            res == !(self == SinkState::Disconnected || self == SinkState::Streaming || self
                == SinkState::Error),
    {
        matches!(
            self,
            SinkState::Connecting
                | SinkState::EnsuringFirewall
                | SinkState::WaitSocket
                | SinkState::WaitStreaming
        )
    }
}

/// A sink's state and the message that goes with it.
#[derive(Debug)]
pub struct SinkStatus {
    state: SinkState,
    message: Option<String>,
}

/// The contents of a [`SinkStatus`].
pub ghost struct StatusView {
    pub state: SinkState,
    pub message: Option<Seq<char>>,
}

impl View for SinkStatus {
    type V = StatusView;

    closed spec fn view(&self) -> StatusView {
        StatusView { state: self.state, message: text_of(self.message) }
    }
}

/// A status after a change of state: an error stays where a disconnect follows,
/// and any other state but an error clears the message.
pub open spec fn status_after(status: StatusView, state: SinkState) -> StatusView {
    if status.state == SinkState::Error && state == SinkState::Disconnected {
        status
    } else {
        StatusView { state, message: if state == SinkState::Error { status.message } else { None } }
    }
}

/// Idle, with nothing to say.
pub open spec fn idle() -> StatusView {
    StatusView { state: SinkState::Disconnected, message: None }
}

/// Failed, with the cause.
pub open spec fn failed(cause: Seq<char>) -> StatusView {
    StatusView { state: SinkState::Error, message: Some(cause) }
}

impl SinkStatus {
    /// Idle, with nothing to say.
    pub fn new() -> (res: Self)
        ensures
            res@ == idle(),
    {
        SinkStatus { state: SinkState::Disconnected, message: None }
    }

    /// The current state.
    pub fn state(&self) -> (res: SinkState)
        ensures
            res == self@.state,
    {
        self.state
    }

    /// The message attached to the current state (usually the error's cause).
    pub fn message(&self) -> (res: Option<String>)
        ensures
            text_of(res) == self@.message,
    {
        copied_option(&self.message)
    }

    /// Changes the state.
    ///
    /// An error state is **not** overwritten by `Disconnected`: that is how the
    /// reason for a failure survives long enough for the user to read it. Use
    /// [`Self::reset`] to clear it explicitly.
    pub fn set(&mut self, state: SinkState)
        ensures
            final(self)@ == status_after(old(self)@, state),
    {
        if self.state == SinkState::Error && state == SinkState::Disconnected {
            return;
        }
        self.state = state;
        if state != SinkState::Error {
            self.message = None;
        }
    }

    /// Records a terminal error along with its cause.
    pub fn fail(&mut self, message: &str)
        ensures
            final(self)@ == failed(message@),
    {
        self.state = SinkState::Error;
        self.message = Some(copied(message));
    }

    /// Returns to idle, clearing any previous error (a fresh attempt).
    pub fn reset(&mut self)
        ensures
            final(self)@ == idle(),
    {
        self.state = SinkState::Disconnected;
        self.message = None;
    }
}

impl Default for SinkStatus {
    fn default() -> (res: Self)
        ensures
            res@ == idle(),
    {
        SinkStatus::new()
    }
}

/// A failure and its cause outlive any number of disconnects.
pub proof fn error_is_not_masked_by_disconnect(status: StatusView)
    requires
        status.state == SinkState::Error,
    ensures
        status_after(status, SinkState::Disconnected) == status,
{
}

/// Progress never shows a stale message.
pub proof fn progress_clears_the_message(status: StatusView, state: SinkState)
    requires
        state != SinkState::Error,
        state != SinkState::Disconnected,
    ensures
        status_after(status, state) == (StatusView { state, message: None }),
{
}

/// What a status is told.
pub ghost enum StatusChange {
    Enter(SinkState),
    Fail(Seq<char>),
    Reset,
}

/// A new status after some changes, in order.
pub open spec fn status_after_all(changes: Seq<StatusChange>) -> StatusView
    decreases changes.len(),
{
    if changes.len() == 0 {
        idle()
    } else {
        match changes.last() {
            StatusChange::Enter(state) => status_after(status_after_all(changes.drop_last()), state),
            StatusChange::Fail(cause) => failed(cause),
            StatusChange::Reset => idle(),
        }
    }
}

/// Only an error carries a message, whatever a status has been told.
pub proof fn only_an_error_carries_a_message(changes: Seq<StatusChange>)
    ensures
        status_after_all(changes).message is Some ==> status_after_all(changes).state
            == SinkState::Error,
    decreases changes.len(),
{
    if changes.len() > 0 {
        only_an_error_carries_a_message(changes.drop_last());
    }
}

/// A sink's stable identifying data (for the GUI list).
#[derive(Debug, PartialEq, Eq)]
pub struct SinkInfo {
    /// Unique, stable identifier for the instance.
    pub id: String,
    /// Friendly name announced by the receiver (already sanitised).
    pub display_name: String,
    /// The protocol.
    pub kind: SinkKind,
    /// Address/host where applicable (Chromecast IP, P2P MAC, …).
    pub address: Option<String>,
}

impl Clone for SinkInfo {
    fn clone(&self) -> (res: Self)
        ensures
            res.id@ == self.id@,
            res.display_name@ == self.display_name@,
            res.kind == self.kind,
            text_of(res.address) == text_of(self.address),
    {
        SinkInfo {
            id: self.id.clone(),
            display_name: self.display_name.clone(),
            kind: self.kind,
            address: copied_option(&self.address),
        }
    }
}

/// How many characters of a name are kept.
pub const MAX_NAME_CHARS: usize = 64;

/// Whether a character may stand in a name: neither a control character
/// (newlines included) nor a shell metacharacter.
pub open spec fn is_harmless(c: char) -> bool {
    &&& !is_control_char(c)
    &&& c != '"'
    &&& c != '\''
    &&& c != '\\'
    &&& c != '`'
    &&& c != '$'
    &&& c != ';'
}

/// At most the first `n` of some characters.
pub open spec fn at_most(s: Seq<char>, n: nat) -> Seq<char> {
    if s.len() > n {
        s.take(n as int)
    } else {
        s
    }
}

/// The harmless characters of a name, in order.
pub open spec fn harmless(raw: Seq<char>) -> Seq<char>
    decreases raw.len(),
{
    if raw.len() == 0 {
        Seq::empty()
    } else if is_harmless(raw.last()) {
        harmless(raw.drop_last()).push(raw.last())
    } else {
        harmless(raw.drop_last())
    }
}

/// A name fit to be shown: its harmless characters, at most so many, trimmed; a
/// name of our own where nothing is left.
pub open spec fn sanitized(raw: Seq<char>) -> Seq<char> {
    let name = trimmed(at_most(harmless(raw), MAX_NAME_CHARS as nat));
    if name.len() == 0 {
        "Unnamed receiver"@
    } else {
        name
    }
}

/// Sanitises a name coming off the network (mDNS/P2P) before displaying it or
/// passing it as an argument to another process.
pub fn sanitize_name(raw: &str) -> (res: String)
    ensures
        res@ == sanitized(raw@),
{
    let chars = chars_of(raw);
    let mut cleaned: Vec<char> = Vec::new();
    let mut i: usize = 0;
    while i < chars.len()
        invariant
            i <= chars@.len(),
            chars@ == raw@,
            cleaned@ == at_most(harmless(raw@.take(i as int)), MAX_NAME_CHARS as nat),
        decreases chars@.len() - i,
    {
        let c = chars[i];
        let ghost before = harmless(raw@.take(i as int));
        assert(raw@.take(i + 1).drop_last() =~= raw@.take(i as int));
        let dropped = is_control(c) || c == '"' || c == '\'' || c == '\\' || c == '`' || c == '$'
            || c == ';';
        if !dropped && cleaned.len() < MAX_NAME_CHARS {
            cleaned.push(c);
        }
        assert(cleaned@ =~= at_most(
            harmless(raw@.take(i + 1)),
            MAX_NAME_CHARS as nat,
        ));
        i += 1;
    }
    assert(raw@.take(i as int) =~= raw@);
    let name = trim(cleaned.as_slice());
    if name.len() == 0 {
        copied("Unnamed receiver")
    } else {
        string_of(name)
    }
}

proof fn harmless_is_harmless(raw: Seq<char>)
    ensures
        forall|i: int| 0 <= i < harmless(raw).len() ==> is_harmless(#[trigger] harmless(raw)[i]),
    decreases raw.len(),
{
    if raw.len() > 0 {
        harmless_is_harmless(raw.drop_last());
        let before = harmless(raw.drop_last());
        assert forall|i: int| 0 <= i < harmless(raw).len() implies is_harmless(
            #[trigger] harmless(raw)[i],
        ) by {
            if i < before.len() {
                assert(is_harmless(before[i]));
            }
        }
    }
}

proof fn trimmed_is_part(s: Seq<char>)
    ensures
        trimmed(s).len() <= s.len(),
        forall|p: spec_fn(char) -> bool|
            #![trigger seq_all(trimmed(s), p)]
            seq_all(s, p) ==> seq_all(trimmed(s), p),
{
    trim_start_is_part(s);
    trim_end_is_part(crate::text::trim_start(s));
}

spec fn seq_all(s: Seq<char>, p: spec_fn(char) -> bool) -> bool {
    forall|i: int| 0 <= i < s.len() ==> p(#[trigger] s[i])
}

proof fn trim_start_is_part(s: Seq<char>)
    ensures
        crate::text::trim_start(s).len() <= s.len(),
        forall|p: spec_fn(char) -> bool|
            #![trigger seq_all(crate::text::trim_start(s), p)]
            seq_all(s, p) ==> seq_all(crate::text::trim_start(s), p),
    decreases s.len(),
{
    if s.len() > 0 && crate::text::is_space(s[0]) {
        trim_start_is_part(s.skip(1));
        assert forall|p: spec_fn(char) -> bool|
            #![trigger seq_all(crate::text::trim_start(s), p)]
            seq_all(s, p) implies seq_all(crate::text::trim_start(s), p) by {
            assert(seq_all(s.skip(1), p));
            assert(seq_all(crate::text::trim_start(s.skip(1)), p));
        }
    }
}

proof fn trim_end_is_part(s: Seq<char>)
    ensures
        crate::text::trim_end(s).len() <= s.len(),
        forall|p: spec_fn(char) -> bool|
            #![trigger seq_all(crate::text::trim_end(s), p)]
            seq_all(s, p) ==> seq_all(crate::text::trim_end(s), p),
    decreases s.len(),
{
    if s.len() > 0 && crate::text::is_space(s.last()) {
        trim_end_is_part(s.drop_last());
        assert forall|p: spec_fn(char) -> bool|
            #![trigger seq_all(crate::text::trim_end(s), p)]
            seq_all(s, p) implies seq_all(crate::text::trim_end(s), p) by {
            assert(seq_all(s.drop_last(), p));
            assert(seq_all(crate::text::trim_end(s.drop_last()), p));
        }
    }
}

/// Whatever the network announces, a name is not empty, at most so long, and
/// holds only harmless characters.
pub proof fn a_sanitized_name_is_harmless(raw: Seq<char>)
    ensures
        0 < sanitized(raw).len() <= MAX_NAME_CHARS,
        forall|i: int| 0 <= i < sanitized(raw).len() ==> is_harmless(#[trigger] sanitized(raw)[i]),
{
    reveal_strlit("Unnamed receiver");
    harmless_is_harmless(raw);
    let kept = at_most(harmless(raw), MAX_NAME_CHARS as nat);
    let p = |c: char| is_harmless(c);
    assert(seq_all(kept, p));
    trimmed_is_part(kept);
    assert(seq_all(trimmed(kept), p));
    if trimmed(kept).len() > 0 {
        assert forall|i: int| 0 <= i < sanitized(raw).len() implies is_harmless(
            #[trigger] sanitized(raw)[i],
        ) by {
            assert(p(trimmed(kept)[i]));
        }
    }
}

/// A sanitised name is trimmed, and sanitising it again changes nothing.
pub proof fn sanitizing_is_idempotent(raw: Seq<char>)
    ensures
        trimmed(sanitized(raw)) == sanitized(raw),
        sanitized(sanitized(raw)) == sanitized(raw),
{
    let name = sanitized(raw);
    reveal_strlit("Unnamed receiver");
    trimmed_already("Unnamed receiver"@);
    trimming_is_idempotent(at_most(harmless(raw), MAX_NAME_CHARS as nat));
    a_sanitized_name_is_harmless(raw);
    all_harmless_stays(name);
}

proof fn all_harmless_stays(s: Seq<char>)
    requires
        forall|i: int| 0 <= i < s.len() ==> is_harmless(#[trigger] s[i]),
    ensures
        harmless(s) == s,
    decreases s.len(),
{
    if s.len() > 0 {
        assert forall|i: int| 0 <= i < s.drop_last().len() implies is_harmless(
            #[trigger] s.drop_last()[i],
        ) by {
            assert(s.drop_last()[i] == s[i]);
        }
        all_harmless_stays(s.drop_last());
        assert(is_harmless(s[s.len() - 1]));
        assert(s.drop_last().push(s.last()) =~= s);
    }
}

/// A state is entered as told, but for a disconnect after a failure, which leaves
/// the failure; and a failure's cause goes with anything that follows but that.
pub proof fn a_state_is_entered_as_told(status: StatusView, state: SinkState)
    ensures
        !(status.state == SinkState::Error && state == SinkState::Disconnected) ==> status_after(
            status,
            state,
        ).state == state,
        state != SinkState::Error && status.state != SinkState::Error ==> status_after(
            status,
            state,
        ).message is None,
        state == SinkState::Error ==> status_after(status, state).message == status.message,
{
}

proof fn harmless_of_concatenation(a: Seq<char>, b: Seq<char>)
    ensures
        harmless(a + b) == harmless(a) + harmless(b),
    decreases b.len(),
{
    if b.len() == 0 {
        assert(a + b =~= a);
        assert(harmless(a) + harmless(b) =~= harmless(a));
    } else {
        assert((a + b).last() == b.last());
        assert((a + b).drop_last() =~= a + b.drop_last());
        harmless_of_concatenation(a, b.drop_last());
        assert(harmless(a + b) =~= harmless(a) + harmless(b));
    }
}

/// A harmless name is shown as it is, up to its first 64 characters; a character
/// that could do harm drops out wherever it stands, and takes nothing with it; and
/// a name of which nothing is left is told apart from every other.
pub proof fn only_what_could_do_harm_drops_out(a: Seq<char>, c: char, b: Seq<char>)
    ensures
        c == '"' || c == '\'' || c == '\\' || c == '`' || c == '$' || c == ';' || c as u32 <= 0x1F
            || 0x7F <= c as u32 <= 0x9F ==> sanitized(a + seq![c] + b) == sanitized(a + b),
        (forall|i: int| 0 <= i < a.len() ==> is_harmless(#[trigger] a[i])) && 0 < a.len() <= 64
            && !is_space(a[0]) && !is_space(a.last()) ==> sanitized(a) == a,
        (forall|i: int| 0 <= i < a.len() ==> is_harmless(#[trigger] a[i])) && a.len() > 64
            && !is_space(a[0]) && !is_space(a[63]) ==> sanitized(a) == a.take(64),
        sanitized(Seq::empty()) == "Unnamed receiver"@,
{
    harmless_of_concatenation(a, b);
    harmless_of_concatenation(a + seq![c], b);
    harmless_of_concatenation(a, seq![c]);
    let none = Seq::<char>::empty();
    assert(seq![c].drop_last() =~= none);
    assert(harmless(none) =~= none);
    assert(trimmed(none) =~= none);
    if !is_harmless(c) {
        assert(harmless(seq![c]) =~= none);
        assert(harmless(a) + none =~= harmless(a));
    }
    if forall|i: int| 0 <= i < a.len() ==> is_harmless(#[trigger] a[i]) {
        all_harmless_stays(a);
        if 0 < a.len() <= 64 && !is_space(a[0]) && !is_space(a.last()) {
            trimmed_already(a);
        } else if a.len() > 64 && !is_space(a[0]) && !is_space(a[63]) {
            assert(a.take(64).last() == a[63]);
            trimmed_already(a.take(64));
        }
    }
}

/// A failure tells its cause until something else begins: a disconnect leaves it,
/// progress clears it, and a reset leaves nothing behind.
pub proof fn a_failure_tells_its_cause(cause: Seq<char>, state: SinkState)
    ensures
        failed(cause).state == SinkState::Error,
        failed(cause).message == Some(cause),
        status_after(failed(cause), SinkState::Disconnected) == failed(cause),
        state != SinkState::Error && state != SinkState::Disconnected ==> status_after(
            failed(cause),
            state,
        ).message is None,
        idle().state == SinkState::Disconnected,
        idle().message is None,
{
}

} // verus!
