//! Screen capture backends: the portal, and which of the backends to use.
//!
//! The portal works on any desktop, and is the only viable path under Flatpak.
//! Mutter directly is for the **virtual monitor** on native GNOME.
//!
//! A restore token makes later captures start with no dialog at all. It lives in
//! `$XDG_DATA_HOME/bignetscreen/restore-token`.
use crate::capture::{CaptureSource, SourceType};
use crate::error::{capture_error, NdError};
use crate::path::join;
use crate::text::{chars_of, copied, same_text, string_of, trim};
use vstd::prelude::*;

verus! {

use crate::error::ErrorView;
use crate::path::{a_slash_parts_names, joined, joining_appends_names, path_parts};
use crate::text::{
    content, has_part, part_of_first, part_of_itself, part_of_second, text_of, trimmed,
};

/// Where the portal's restore token is kept: in the user's data directory.
pub open spec fn token_path(data_home: Option<Seq<char>>, home: Option<Seq<char>>) -> Option<
    Seq<char>,
> {
    match data_home {
        Some(base) => Some(joined(joined(base, "bignetscreen"@), "restore-token"@)),
        None => match home {
            Some(home) => Some(
                joined(
                    joined(joined(home, ".local/share"@), "bignetscreen"@),
                    "restore-token"@,
                ),
            ),
            None => None,
        },
    }
}

/// Path of the portal session's restore token, by the values of `XDG_DATA_HOME`
/// and `HOME`.
pub fn restore_token_path(data_home: Option<&str>, home: Option<&str>) -> (res: Option<String>)
    ensures
        text_of(res) == token_path(content(data_home), content(home)),
{
    let base = match data_home {
        Some(base) => copied(base),
        None => match home {
            Some(home) => join(home, ".local/share"),
            None => {
                return None;
            },
        },
    };
    let dir = join(base.as_str(), "bignetscreen");
    Some(join(dir.as_str(), "restore-token"))
}

/// The token in the contents of its file; none where there is only space.
pub fn load_restore_token(contents: Option<&str>) -> (res: Option<String>)
    ensures
        text_of(res) == (match content(contents) {
            Some(text) => if trimmed(text).len() > 0 {
                Some(trimmed(text))
            } else {
                None
            },
            None => None,
        }),
{
    match contents {
        Some(text) => {
            let chars = chars_of(text);
            let token = trim(chars.as_slice());
            if token.len() > 0 {
                Some(string_of(token))
            } else {
                None
            }
        },
        None => None,
    }
}

/// The window identifier for the portal dialog.
///
/// Without it the dialog may open parentless, non-modal and behind the app's own
/// window.
#[derive(Clone, Debug)]
pub struct ParentWindow {
    pub handle: Option<String>,
}

impl ParentWindow {
    /// No window.
    pub fn none() -> (res: Self)
        ensures
            res.handle is None,
    {
        ParentWindow { handle: None }
    }

    /// A handle exported through `xdg-foreign` (Wayland) or an XID (X11).
    pub fn from_handle(handle: &str) -> (res: Self)
        ensures
            res.handle matches Some(text) && text@ == handle@,
    {
        ParentWindow { handle: Some(copied(handle)) }
    }
}

impl Default for ParentWindow {
    fn default() -> (res: Self)
        ensures
            res.handle is None,
    {
        ParentWindow::none()
    }
}

/// The source types that a portal says it has.
#[derive(Clone, Copy, Debug, PartialEq, Eq, Structural)]
pub struct PortalSources {
    pub monitor: bool,
    pub window: bool,
    pub virtual_monitor: bool,
}

/// How the cursor is captured.
#[derive(Clone, Copy, Debug, PartialEq, Eq, Structural)]
pub enum PortalCursor {
    Hidden,
    /// Drawn into the video.
    Embedded,
}

/// The choices of a capture through the portal.
#[derive(Debug)]
pub struct PortalBackend {
    pub parent: ParentWindow,
}

/// What a portal offers. One that is not there offers nothing; an old one that
/// does not say offers a monitor, the guaranteed minimum.
pub open spec fn offered(reachable: bool, sources: Option<PortalSources>) -> Seq<SourceType> {
    if !reachable {
        Seq::empty()
    } else {
        match sources {
            None => seq![SourceType::Monitor],
            Some(sources) => (if sources.monitor {
                seq![SourceType::Monitor]
            } else {
                Seq::empty()
            }) + (if sources.window {
                seq![SourceType::Window]
            } else {
                Seq::empty()
            }) + (if sources.virtual_monitor {
                seq![SourceType::Virtual]
            } else {
                Seq::empty()
            }),
        }
    }
}

/// The name of a source type.
pub open spec fn source_name(source_type: SourceType) -> Seq<char> {
    match source_type {
        SourceType::Monitor => "Monitor"@,
        SourceType::Window => "Window"@,
        SourceType::Virtual => "Virtual"@,
    }
}

fn name_of_type(source_type: SourceType) -> (res: &'static str)
    ensures
        res@ == source_name(source_type),
{
    match source_type {
        SourceType::Monitor => "Monitor",
        SourceType::Window => "Window",
        SourceType::Virtual => "Virtual",
    }
}

/// The names of some source types, with commas between them.
pub open spec fn source_names(types: Seq<SourceType>) -> Seq<char>
    decreases types.len(),
{
    if types.len() == 0 {
        Seq::empty()
    } else if types.len() == 1 {
        source_name(types[0])
    } else {
        source_names(types.drop_last()) + ", "@ + source_name(types.last())
    }
}

fn list_types(types: &[SourceType]) -> (res: String)
    ensures
        res@ == source_names(types@),
{
    let mut out = String::new();
    let mut i: usize = 0;
    assert(out@ =~= source_names(types@.take(0)));
    while i < types.len()
        invariant
            i <= types@.len(),
            out@ == source_names(types@.take(i as int)),
        decreases types@.len() - i,
    {
        assert(types@.take(i + 1).drop_last() =~= types@.take(i as int));
        assert(types@.take(i + 1).last() == types@[i as int]);
        if i > 0 {
            out = out.concat(", ");
        }
        out = out.concat(name_of_type(types[i]));
        assert(out@ =~= source_names(types@.take(i + 1)));
        i += 1;
    }
    assert(types@.take(i as int) =~= types@);
    out
}

impl Default for PortalBackend {
    fn default() -> (res: Self)
        ensures
            res.parent.handle is None,
    {
        PortalBackend::new()
    }
}

impl PortalBackend {
    /// A capture without a parent window.
    pub fn new() -> (res: Self)
        ensures
            res.parent.handle is None,
    {
        PortalBackend { parent: ParentWindow::none() }
    }

    /// Sets the parent window, so the portal dialog opens correctly.
    pub fn with_parent(parent: ParentWindow) -> (res: Self)
        ensures
            res.parent == parent,
    {
        PortalBackend { parent }
    }

    /// A short, stable label for logs.
    pub fn id(&self) -> (res: &'static str)
        ensures
            res@ == "portal"@,
    {
        "portal"
    }

    /// What the portal offers.
    pub fn supported_sources(&self, reachable: bool, sources: Option<PortalSources>) -> (res: Vec<
        SourceType,
    >)
        ensures
            res@ == offered(reachable, sources),
    {
        let mut out: Vec<SourceType> = Vec::new();
        if !reachable {
            return out;
        }
        match sources {
            None => {
                out.push(SourceType::Monitor);
            },
            Some(sources) => {
                if sources.monitor {
                    out.push(SourceType::Monitor);
                }
                if sources.window {
                    out.push(SourceType::Window);
                }
                if sources.virtual_monitor {
                    out.push(SourceType::Virtual);
                }
            },
        }
        assert(out@ =~= offered(reachable, sources));
        out
    }

    /// Whether a capture can be asked for. Asking for a type the portal does not
    /// support gets the session closed with no explanation; checking first gives
    /// the user a useful message.
    pub fn start(&self, source_type: SourceType, supported: &[SourceType]) -> (res: Result<
        (),
        NdError,
    >)
        ensures
            match res {
                Ok(_) => supported@.contains(source_type),
                Err(error) => !supported@.contains(source_type) && error@
                    == ErrorView::Unsupported(
                    "this desktop's portal does not offer "@ + source_name(source_type)
                        + " capture (available: ["@ + source_names(supported@) + "])"@,
                ),
            },
    {
        let mut i: usize = 0;
        while i < supported.len()
            invariant
                i <= supported@.len(),
                forall|j: int| 0 <= j < i ==> supported@[j] != source_type,
            decreases supported@.len() - i,
        {
            if supported[i] == source_type {
                assert(supported@[i as int] == source_type);
                return Ok(());
            }
            i += 1;
        }
        let available = list_types(supported);
        Err(
            NdError::Unsupported(
                copied("this desktop's portal does not offer ").concat(
                    name_of_type(source_type),
                ).concat(" capture (available: [").concat(available.as_str()).concat("])"),
            ),
        )
    }

    /// The cursor mode to ask for. The cursor has to come embedded in the video;
    /// if the portal does not support that, or does not say, the capture goes on
    /// without it.
    pub fn cursor_mode(&self, embeds: Option<bool>) -> (res: PortalCursor)
        ensures
            res == (if embeds == Some(true) {
                PortalCursor::Embedded
            } else {
                PortalCursor::Hidden
            }),
    {
        match embeds {
            Some(true) => PortalCursor::Embedded,
            _ => PortalCursor::Hidden,
        }
    }

    /// Whether a restore token is discarded after the start was answered: one that
    /// the portal rejected would make every later attempt fail.
    pub fn discards_token(&self, accepted: bool, had_token: bool) -> (res: bool)
        ensures
            res == (!accepted && had_token),
    {
        !accepted && had_token
    }

    /// The capture that has started: the first of the streams, on the descriptor
    /// that the portal handed over.
    pub fn started(
        &self,
        source_type: SourceType,
        streams: &[(u32, Option<(u32, u32)>)],
        pipewire_fd: i32,
    ) -> (res: Result<CaptureSource, NdError>)
        ensures
            if streams@.len() > 0 {
                res == Ok::<CaptureSource, NdError>(
                    CaptureSource {
                        pipewire_fd: Some(pipewire_fd),
                        node_id: streams@[0].0,
                        source_type,
                        size: streams@[0].1,
                        media: None,
                    },
                )
            } else {
                res matches Err(error) && error@ == ErrorView::Capture(
                    "the portal returned no capture stream"@,
                )
            },
    {
        if streams.len() == 0 {
            return Err(capture_error("the portal returned no capture stream"));
        }
        let (node_id, size) = streams[0];
        Ok(
            CaptureSource {
                pipewire_fd: Some(pipewire_fd),
                node_id,
                source_type,
                size,
                media: None,
            },
        )
    }
}

/// A backend to capture with.
#[derive(Clone, Copy, Debug, PartialEq, Eq, Structural)]
pub enum Backend {
    Portal,
    /// Mutter, with the portal to fall back to.
    Mutter,
}

/// A backend that tries Mutter and falls back to the portal when it fails.
///
/// Mutter's interface is a **private GNOME API**. Being "available" on the bus
/// does not mean that a capture will work — which is why the fall back happens at
/// the point of failure, not only in the availability check.
#[derive(Debug)]
pub struct MutterWithPortalFallback {
    /// `true` once Mutter has failed: do not keep trying.
    pub fell_back: bool,
}

impl MutterWithPortalFallback {
    /// One that has not tried yet.
    pub fn new() -> (res: Self)
        ensures
            !res.fell_back,
    {
        MutterWithPortalFallback { fell_back: false }
    }

    /// Has Mutter failed before?
    pub fn using_portal(&self) -> (res: bool)
        ensures
            res == self.fell_back,
    {
        self.fell_back
    }

    /// A short, stable label for logs.
    pub fn id(&self) -> (res: &'static str)
        ensures
            res@ == (if self.fell_back {
                "portal"@
            } else {
                "mutter"@
            }),
    {
        if self.fell_back {
            "portal"
        } else {
            "mutter"
        }
    }

    /// Whether anything can be captured.
    pub fn is_available(&self, mutter: bool, portal: bool) -> (res: bool)
        ensures
            res == (mutter || portal),
    {
        mutter || portal
    }

    /// Whether the capture is done once Mutter was tried. One that failed falls
    /// back to the portal, now and from now on.
    pub fn start(&mut self, mutter: Result<CaptureSource, NdError>) -> (res: Option<CaptureSource>)
        ensures
            match mutter {
                Ok(source) => res == Some(source) && final(self).fell_back == old(self).fell_back,
                Err(_) => res is None && final(self).fell_back,
            },
    {
        match mutter {
            Ok(source) => Some(source),
            Err(_) => {
                self.fell_back = true;
                None
            },
        }
    }
}

/// The backend for a source. `forced` is the value of `BIGNETSCREEN_CAPTURE`.
pub open spec fn backend_for(
    source_type: SourceType,
    forced: Option<Seq<char>>,
    mutter_available: bool,
) -> Backend {
    if forced == Some("portal"@) {
        Backend::Portal
    } else if mutter_available && (forced == Some("mutter"@) || source_type
        == SourceType::Virtual) {
        Backend::Mutter
    } else {
        Backend::Portal
    }
}

/// Selects the capture backend that suits the environment and source type.
///
/// The portal is the default: it works on every desktop, and it is mandatory under
/// Flatpak. Talking to Mutter directly is reserved for the **virtual monitor** and
/// for whoever asks explicitly, and only where it is on the bus.
pub fn select_backend_for(source_type: SourceType, forced: Option<&str>, mutter_available: bool) -> (res:
    Backend)
    ensures
        res == backend_for(source_type, content(forced), mutter_available),
{
    let (wants_portal, wants_mutter) = match forced {
        Some(name) => (same_text(name, "portal"), same_text(name, "mutter")),
        None => (false, false),
    };
    if wants_portal {
        return Backend::Portal;
    }
    if mutter_available && (wants_mutter || source_type == SourceType::Virtual) {
        Backend::Mutter
    } else {
        Backend::Portal
    }
}

/// A shortcut for the common case (monitor capture).
pub fn select_backend(forced: Option<&str>, mutter_available: bool) -> (res: Backend)
    ensures
        res == backend_for(SourceType::Monitor, content(forced), mutter_available),
{
    select_backend_for(SourceType::Monitor, forced, mutter_available)
}

/// Mutter is never chosen where it is not on the bus, nor against the user's wish.
pub proof fn mutter_is_never_imposed(
    source_type: SourceType,
    forced: Option<Seq<char>>,
    mutter_available: bool,
)
    ensures
        !mutter_available ==> backend_for(source_type, forced, mutter_available)
            == Backend::Portal,
        forced == Some("portal"@) ==> backend_for(source_type, forced, mutter_available)
            == Backend::Portal,
{
}

/// Are we running inside a Flatpak sandbox? By whether its information file is
/// there, or `FLATPAK_ID` is set.
///
/// Inside the sandbox NetworkManager/firewalld do not exist: the app has to
/// degrade to "Chromecast only" and say so to the user.
pub fn is_sandboxed(has_info_file: bool, has_id: bool) -> (res: bool)
    ensures
        res == (has_info_file || has_id),
{
    has_info_file || has_id
}

/// The token lies in the application's own directory of the data directory, which
/// is the one named for it, else the usual one of the home directory.
pub proof fn the_token_lies_in_the_data_directory(base: Seq<char>, home: Option<Seq<char>>)
    requires
        base.len() > 0,
    ensures
        token_path(Some(base), home) matches Some(path) && path_parts(path).names == path_parts(
            base,
        ).names + seq!["bignetscreen"@, "restore-token"@] && path_parts(path).rooted == path_parts(
            base,
        ).rooted,
        token_path(None, Some(base)) matches Some(path) && path_parts(path).names == path_parts(
            base,
        ).names + seq![".local"@, "share"@, "bignetscreen"@, "restore-token"@],
        token_path(None, None) is None,
{
    reveal_strlit("bignetscreen");
    reveal_strlit("restore-token");
    reveal_strlit(".local/share");
    reveal_strlit(".local");
    reveal_strlit("share");
    let none = Seq::<char>::empty();
    a_slash_parts_names(none, "bignetscreen"@);
    a_slash_parts_names(none, "restore-token"@);
    a_slash_parts_names(none, ".local"@);
    a_slash_parts_names(".local"@, "share"@);
    assert(".local"@ + seq!['/'] + "share"@ =~= ".local/share"@);
    assert("bignetscreen"@.len() == 12 && "restore-token"@.len() == 13 && ".local"@.len() == 6
        && "share"@.len() == 5);
    let first = joined(base, "bignetscreen"@);
    joining_appends_names(base, "bignetscreen"@);
    joining_appends_names(first, "restore-token"@);
    assert(path_parts(joined(first, "restore-token"@)).names =~= path_parts(base).names + seq![
        "bignetscreen"@,
        "restore-token"@,
    ]);
    let share = joined(base, ".local/share"@);
    let second = joined(share, "bignetscreen"@);
    joining_appends_names(base, ".local/share"@);
    joining_appends_names(share, "bignetscreen"@);
    joining_appends_names(second, "restore-token"@);
    assert(path_parts(joined(second, "restore-token"@)).names =~= path_parts(base).names + seq![
        ".local"@,
        "share"@,
        "bignetscreen"@,
        "restore-token"@,
    ]);
}

/// A portal offers what it says it has, each once; one that is reached but does
/// not say offers a monitor, and one that is not reached offers nothing.
pub proof fn a_portal_offers_what_it_has(sources: PortalSources)
    ensures
        ({
            let types = offered(true, Some(sources));
            &&& types.contains(SourceType::Monitor) <==> sources.monitor
            &&& types.contains(SourceType::Window) <==> sources.window
            &&& types.contains(SourceType::Virtual) <==> sources.virtual_monitor
            &&& types.no_duplicates()
        }),
        offered(true, None) == seq![SourceType::Monitor],
        offered(false, Some(sources)).len() == 0,
        offered(false, None).len() == 0,
{
    let types = offered(true, Some(sources));
    assert(sources.monitor ==> types[0] == SourceType::Monitor);
    assert(sources.window ==> types[if sources.monitor {
        1
    } else {
        0
    }] == SourceType::Window);
    assert(sources.virtual_monitor ==> types[types.len() - 1] == SourceType::Virtual);
}

/// Mutter is used exactly where it is on the bus and either asked for or needed:
/// for a virtual monitor, unless the portal is asked for.
pub proof fn mutter_is_used_where_it_is_needed(
    source_type: SourceType,
    forced: Option<Seq<char>>,
)
    ensures
        backend_for(source_type, Some("mutter"@), true) == Backend::Mutter,
        backend_for(SourceType::Virtual, None, true) == Backend::Mutter,
        source_type != SourceType::Virtual ==> backend_for(source_type, None, true)
            == Backend::Portal,
        backend_for(source_type, forced, true) == Backend::Mutter <==> forced != Some("portal"@)
            && (forced == Some("mutter"@) || source_type == SourceType::Virtual),
{
    reveal_strlit("mutter");
    reveal_strlit("portal");
    assert("mutter"@[0] == 'm' && "portal"@[0] == 'p');
}

/// A list of types names each of them.
pub proof fn a_list_of_types_names_each(types: Seq<SourceType>, i: int)
    requires
        0 <= i < types.len(),
    ensures
        has_part(source_names(types), source_name(types[i])),
        has_part(source_name(types[i]), "Monitor"@) || types[i] != SourceType::Monitor,
        has_part(source_name(types[i]), "Window"@) || types[i] != SourceType::Window,
        has_part(source_name(types[i]), "Virtual"@) || types[i] != SourceType::Virtual,
    decreases types.len(),
{
    broadcast use {part_of_first, part_of_itself, part_of_second};

    if i < types.len() - 1 {
        assert(types.drop_last()[i] == types[i]);
        a_list_of_types_names_each(types.drop_last(), i);
    }
}

} // verus!
