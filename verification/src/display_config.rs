//! Keeping the user's own screen out of the virtual monitor's way.
//!
//! Adding a virtual monitor changes the set of monitors, and the compositor reacts
//! by generating a default configuration, which uses each monitor's *preferred*
//! mode and scale. Whatever the user had chosen for their laptop is thrown away.
//!
//! So this module takes the layout over: it snapshots the arrangement before the
//! virtual monitor appears, and puts it back afterwards with the new screen
//! appended to the right. The user's monitors keep the exact mode, scale and
//! position they had.
//!
//! Scales are the bits of an IEEE 754 double.
use crate::error::NdError;
use crate::text::{copied, number_text, same_text};
use vstd::prelude::*;

verus! {

use crate::error::ErrorView;
use crate::text::{decimal, text_of};

/// How a configuration is applied: temporarily. It applies now and is not written
/// to the user's stored configuration.
pub const METHOD_TEMPORARY: u32 = 1;

/// How many times to retry restoring the layout.
pub const RESTORE_ATTEMPTS: u32 = 8;

/// The wait between restore attempts, while the monitor set settles, in
/// milliseconds.
pub const RESTORE_RETRY_DELAY_MS: u64 = 300;

/// The scale 1, as the bits of a double.
pub const UNSCALED: u64 = 0x3FF0_0000_0000_0000;

/// A mode of a monitor.
#[derive(Debug)]
pub struct Mode {
    pub id: String,
    pub width: i32,
    pub height: i32,
    pub is_current: bool,
    pub is_preferred: bool,
}

/// A monitor that is attached.
#[derive(Debug)]
pub struct Monitor {
    pub connector: String,
    pub modes: Vec<Mode>,
    pub underscanning: Option<bool>,
    pub color_mode: Option<u32>,
}

/// A part of the desktop, and the connectors that show it.
#[derive(Debug)]
pub struct LogicalMonitor {
    pub x: i32,
    pub y: i32,
    pub scale: u64,
    pub transform: u32,
    pub primary: bool,
    pub connectors: Vec<String>,
}

/// The display configuration in force.
#[derive(Debug)]
pub struct DisplayState {
    pub monitors: Vec<Monitor>,
    pub logical: Vec<LogicalMonitor>,
    pub layout_mode: Option<u32>,
    pub supports_layout_mode: Option<bool>,
    pub global_scale_required: Option<bool>,
}

/// A connector in a configuration, with its mode.
#[derive(Clone, Debug)]
pub struct Assigned {
    pub connector: String,
    pub mode: String,
    pub underscanning: Option<bool>,
    pub color_mode: Option<u32>,
}

/// A part of the desktop as a configuration has it.
#[derive(Clone, Debug)]
pub struct LogicalConfig {
    pub x: i32,
    pub y: i32,
    pub scale: u64,
    pub transform: u32,
    pub primary: bool,
    pub assigned: Vec<Assigned>,
}

/// The desktop arrangement as it was before we touched anything.
#[derive(Clone, Debug)]
pub struct LayoutSnapshot {
    pub logical: Vec<LogicalConfig>,
    /// The rightmost edge, in logical pixels: where a new screen goes.
    pub right_edge: i32,
    pub layout_mode: u32,
    pub supports_layout_mode: bool,
    /// The scale that every screen has to share, where the compositor asks for it.
    pub global_scale: Option<u64>,
    pub connectors: Vec<String>,
}

/// The contents of an [`Assigned`].
pub ghost struct AssignedView {
    pub connector: Seq<char>,
    pub mode: Seq<char>,
    pub underscanning: Option<bool>,
    pub color_mode: Option<u32>,
}

impl View for Assigned {
    type V = AssignedView;

    open spec fn view(&self) -> AssignedView {
        AssignedView {
            connector: self.connector@,
            mode: self.mode@,
            underscanning: self.underscanning,
            color_mode: self.color_mode,
        }
    }
}

/// The contents of a [`LogicalConfig`].
pub ghost struct LogicalView {
    pub x: i32,
    pub y: i32,
    pub scale: u64,
    pub transform: u32,
    pub primary: bool,
    pub assigned: Seq<AssignedView>,
}

/// The contents of some assignments.
pub open spec fn assigned_views(list: Seq<Assigned>) -> Seq<AssignedView> {
    Seq::new(list.len(), |i: int| list[i]@)
}

impl View for LogicalConfig {
    type V = LogicalView;

    open spec fn view(&self) -> LogicalView {
        LogicalView {
            x: self.x,
            y: self.y,
            scale: self.scale,
            transform: self.transform,
            primary: self.primary,
            assigned: assigned_views(self.assigned@),
        }
    }
}

/// The contents of some parts of the desktop.
pub open spec fn logical_views(list: Seq<LogicalConfig>) -> Seq<LogicalView> {
    Seq::new(list.len(), |i: int| list[i]@)
}

/// What some texts hold.
pub open spec fn names(list: Seq<String>) -> Seq<Seq<char>> {
    Seq::new(list.len(), |i: int| list[i]@)
}

/// The connectors of some monitors.
pub open spec fn connectors_of(monitors: Seq<Monitor>) -> Seq<Seq<char>> {
    Seq::new(monitors.len(), |i: int| monitors[i].connector@)
}

/// The first monitor on a connector.
pub open spec fn monitor_on(monitors: Seq<Monitor>, connector: Seq<char>) -> Option<Monitor>
    decreases monitors.len(),
{
    if monitors.len() == 0 {
        None
    } else if monitors[0].connector@ == connector {
        Some(monitors[0])
    } else {
        monitor_on(monitors.skip(1), connector)
    }
}

/// The first mode that is in use.
pub open spec fn current_in(modes: Seq<Mode>) -> Option<Mode>
    decreases modes.len(),
{
    if modes.len() == 0 {
        None
    } else if modes[0].is_current {
        Some(modes[0])
    } else {
        current_in(modes.skip(1))
    }
}

/// The first mode that is preferred.
pub open spec fn preferred_in(modes: Seq<Mode>) -> Option<Mode>
    decreases modes.len(),
{
    if modes.len() == 0 {
        None
    } else if modes[0].is_preferred {
        Some(modes[0])
    } else {
        preferred_in(modes.skip(1))
    }
}

/// The mode that a connector is on.
pub open spec fn current_mode(monitors: Seq<Monitor>, connector: Seq<char>) -> Option<Mode> {
    match monitor_on(monitors, connector) {
        Some(monitor) => current_in(monitor.modes@),
        None => None,
    }
}

fn find_monitor<'a>(monitors: &'a Vec<Monitor>, connector: &str) -> (res: Option<&'a Monitor>)
    ensures
        match res {
            Some(monitor) => monitor_on(monitors@, connector@) == Some(*monitor),
            None => monitor_on(monitors@, connector@) is None,
        },
{
    let mut i: usize = 0;
    assert(monitors@.skip(0) =~= monitors@);
    while i < monitors.len()
        invariant
            i <= monitors@.len(),
            monitor_on(monitors@, connector@) == monitor_on(monitors@.skip(i as int), connector@),
        decreases monitors@.len() - i,
    {
        assert(monitors@.skip(i as int).skip(1) =~= monitors@.skip(i + 1));
        if same_text(monitors[i].connector.as_str(), connector) {
            return Some(&monitors[i]);
        }
        i += 1;
    }
    None
}

fn find_current(modes: &Vec<Mode>) -> (res: Option<&Mode>)
    ensures
        match res {
            Some(mode) => current_in(modes@) == Some(*mode),
            None => current_in(modes@) is None,
        },
{
    let mut i: usize = 0;
    assert(modes@.skip(0) =~= modes@);
    while i < modes.len()
        invariant
            i <= modes@.len(),
            current_in(modes@) == current_in(modes@.skip(i as int)),
        decreases modes@.len() - i,
    {
        assert(modes@.skip(i as int).skip(1) =~= modes@.skip(i + 1));
        if modes[i].is_current {
            return Some(&modes[i]);
        }
        i += 1;
    }
    None
}

fn find_preferred(modes: &Vec<Mode>) -> (res: Option<&Mode>)
    ensures
        match res {
            Some(mode) => preferred_in(modes@) == Some(*mode),
            None => preferred_in(modes@) is None,
        },
{
    let mut i: usize = 0;
    assert(modes@.skip(0) =~= modes@);
    while i < modes.len()
        invariant
            i <= modes@.len(),
            preferred_in(modes@) == preferred_in(modes@.skip(i as int)),
        decreases modes@.len() - i,
    {
        assert(modes@.skip(i as int).skip(1) =~= modes@.skip(i + 1));
        if modes[i].is_preferred {
            return Some(&modes[i]);
        }
        i += 1;
    }
    None
}

fn find_current_mode<'a>(monitors: &'a Vec<Monitor>, connector: &str) -> (res: Option<&'a Mode>)
    ensures
        match res {
            Some(mode) => current_mode(monitors@, connector@) == Some(*mode),
            None => current_mode(monitors@, connector@) is None,
        },
{
    match find_monitor(monitors, connector) {
        Some(monitor) => find_current(&monitor.modes),
        None => None,
    }
}

/// What a monitor's width is measured by: the extent that its current mode has
/// across the desktop, and the scale that divides it.
#[derive(Clone, Copy, Debug, PartialEq, Eq, Structural)]
pub struct Extent {
    /// In physical pixels.
    pub pixels: i32,
    /// The bits of a double.
    pub scale: u64,
}

/// The extent of a part of the desktop. On its side, a screen is as wide as it
/// is high; in physical layout mode the scale does not count.
pub open spec fn extent_of(
    monitors: Seq<Monitor>,
    logical: LogicalMonitor,
    layout_mode: u32,
) -> Option<Extent> {
    if logical.connectors@.len() == 0 {
        None
    } else {
        match current_mode(monitors, logical.connectors@[0]@) {
            Some(mode) => Some(
                Extent {
                    pixels: if logical.transform % 2 == 1 {
                        mode.height
                    } else {
                        mode.width
                    },
                    scale: if layout_mode == 2 {
                        UNSCALED
                    } else {
                        logical.scale
                    },
                },
            ),
            None => None,
        }
    }
}

/// What a logical monitor's width in logical pixels (physical width ÷ scale) is
/// computed from.
pub fn logical_width(monitors: &Vec<Monitor>, logical: &LogicalMonitor, layout_mode: u32) -> (res:
    Option<Extent>)
    ensures
        res == extent_of(monitors@, *logical, layout_mode),
{
    if logical.connectors.len() == 0 {
        return None;
    }
    match find_current_mode(monitors, logical.connectors[0].as_str()) {
        Some(mode) => Some(
            Extent {
                pixels: if logical.transform % 2 == 1 {
                    mode.height
                } else {
                    mode.width
                },
                scale: if layout_mode == 2 {
                    UNSCALED
                } else {
                    logical.scale
                },
            },
        ),
        None => None,
    }
}

/// The layout mode in force: logical, unless said otherwise.
pub open spec fn mode_of(state: DisplayState) -> u32 {
    match state.layout_mode {
        Some(mode) => mode,
        None => 1,
    }
}

impl DisplayState {
    /// The layout mode in force: logical, unless said otherwise.
    pub fn layout_mode(&self) -> (res: u32)
        ensures
            res == mode_of(*self),
    {
        match self.layout_mode {
            Some(mode) => mode,
            None => 1,
        }
    }
}

/// The assignments of some connectors: each that is on a mode keeps it, with the
/// properties of its monitor.
pub open spec fn kept_assignments(monitors: Seq<Monitor>, connectors: Seq<String>) -> Seq<
    AssignedView,
>
    decreases connectors.len(),
{
    if connectors.len() == 0 {
        Seq::empty()
    } else {
        let before = kept_assignments(monitors, connectors.drop_last());
        let connector = connectors.last()@;
        match current_mode(monitors, connector) {
            Some(mode) => {
                let monitor = monitor_on(monitors, connector)->0;
                before.push(
                    AssignedView {
                        connector,
                        mode: mode.id@,
                        underscanning: monitor.underscanning,
                        color_mode: monitor.color_mode,
                    },
                )
            },
            None => before,
        }
    }
}

/// A part of the desktop as a configuration keeps it.
pub open spec fn kept_logical(monitors: Seq<Monitor>, logical: LogicalMonitor) -> LogicalView {
    LogicalView {
        x: logical.x,
        y: logical.y,
        scale: logical.scale,
        transform: logical.transform,
        primary: logical.primary,
        assigned: kept_assignments(monitors, logical.connectors@),
    }
}

/// The arrangement of a desktop: the parts of it that show on some monitor.
pub open spec fn kept_layout(monitors: Seq<Monitor>, logical: Seq<LogicalMonitor>) -> Seq<
    LogicalView,
>
    decreases logical.len(),
{
    if logical.len() == 0 {
        Seq::empty()
    } else {
        let before = kept_layout(monitors, logical.drop_last());
        let last = kept_logical(monitors, logical.last());
        if last.assigned.len() == 0 {
            before
        } else {
            before.push(last)
        }
    }
}

/// The rightmost edge of the parts that are kept and whose width is known; never
/// left of the origin.
pub open spec fn rightmost(
    monitors: Seq<Monitor>,
    logical: Seq<LogicalMonitor>,
    widths: Seq<Option<i32>>,
) -> int
    decreases logical.len(),
{
    if logical.len() == 0 {
        0
    } else {
        let before = rightmost(monitors, logical.drop_last(), widths);
        let edge = logical.last().x + (match widths[logical.len() - 1] {
            Some(width) => width as int,
            None => 0,
        });
        if kept_logical(monitors, logical.last()).assigned.len() > 0 && widths[logical.len() - 1]
            is Some && edge > before {
            edge
        } else {
            before
        }
    }
}

/// Whether the right edge of each part is a position of the desktop.
pub open spec fn edges_fit(logical: Seq<LogicalMonitor>, widths: Seq<Option<i32>>) -> bool {
    &&& widths.len() == logical.len()
    &&& forall|i: int|
        0 <= i < logical.len() ==> match widths[i] {
            Some(width) => i32::MIN <= (#[trigger] logical[i]).x + width <= i32::MAX,
            None => true,
        }
}

/// The scale that every screen has to share, where there is one.
pub open spec fn shared_scale(state: DisplayState) -> Option<u64> {
    if state.global_scale_required == Some(true) {
        Some(
            if state.logical@.len() > 0 {
                state.logical@[0].scale
            } else {
                UNSCALED
            },
        )
    } else {
        None
    }
}

fn keep_assignments(monitors: &Vec<Monitor>, connectors: &Vec<String>) -> (res: Vec<Assigned>)
    ensures
        assigned_views(res@) == kept_assignments(monitors@, connectors@),
{
    let mut out: Vec<Assigned> = Vec::new();
    let mut i: usize = 0;
    assert(assigned_views(out@) =~= Seq::<AssignedView>::empty());
    while i < connectors.len()
        invariant
            i <= connectors@.len(),
            assigned_views(out@) == kept_assignments(monitors@, connectors@.take(i as int)),
        decreases connectors@.len() - i,
    {
        assert(connectors@.take(i + 1).drop_last() =~= connectors@.take(i as int));
        let ghost before = assigned_views(out@);
        let connector = connectors[i].as_str();
        if let Some(monitor) = find_monitor(monitors, connector) {
            if let Some(mode) = find_current(&monitor.modes) {
                let assigned = Assigned {
                    connector: copied(connector),
                    mode: mode.id.clone(),
                    underscanning: monitor.underscanning,
                    color_mode: monitor.color_mode,
                };
                let ghost view = assigned@;
                out.push(assigned);
                assert(assigned_views(out@) =~= before.push(view));
            }
        }
        i += 1;
    }
    assert(connectors@.take(i as int) =~= connectors@);
    out
}

/// The connectors currently attached.
pub fn connectors(state: &DisplayState) -> (res: Vec<String>)
    ensures
        names(res@) == connectors_of(state.monitors@),
{
    let mut out: Vec<String> = Vec::new();
    let mut i: usize = 0;
    while i < state.monitors.len()
        invariant
            i <= state.monitors@.len(),
            out@.len() == i,
            forall|j: int| 0 <= j < i ==> (#[trigger] out@[j])@ == state.monitors@[j].connector@,
        decreases state.monitors@.len() - i,
    {
        out.push(state.monitors[i].connector.clone());
        i += 1;
    }
    assert(names(out@) =~= connectors_of(state.monitors@));
    out
}

/// Whether a list of connectors holds a name.
pub open spec fn lists(list: Seq<String>, name: Seq<char>) -> bool {
    exists|i: int| 0 <= i < list.len() && (#[trigger] list[i])@ == name
}

fn is_listed(list: &Vec<String>, name: &str) -> (res: bool)
    ensures
        res == lists(list@, name@),
{
    let mut i: usize = 0;
    while i < list.len()
        invariant
            i <= list@.len(),
            forall|j: int| 0 <= j < i ==> (#[trigger] list@[j])@ != name@,
        decreases list@.len() - i,
    {
        if same_text(list[i].as_str(), name) {
            return true;
        }
        i += 1;
    }
    false
}

/// Some names without one of them.
pub open spec fn names_without(list: Seq<Seq<char>>, name: Seq<char>) -> Seq<Seq<char>>
    decreases list.len(),
{
    if list.len() == 0 {
        Seq::empty()
    } else {
        let before = names_without(list.drop_last(), name);
        if list.last() == name {
            before
        } else {
            before.push(list.last())
        }
    }
}

/// Some assignments without that of one connector.
pub open spec fn assigned_without(list: Seq<AssignedView>, name: Seq<char>) -> Seq<AssignedView>
    decreases list.len(),
{
    if list.len() == 0 {
        Seq::empty()
    } else {
        let before = assigned_without(list.drop_last(), name);
        if list.last().connector == name {
            before
        } else {
            before.push(list.last())
        }
    }
}

/// An arrangement without one connector: the parts that it alone showed are gone.
pub open spec fn layout_without(list: Seq<LogicalView>, name: Seq<char>) -> Seq<LogicalView>
    decreases list.len(),
{
    if list.len() == 0 {
        Seq::empty()
    } else {
        let before = layout_without(list.drop_last(), name);
        let assigned = assigned_without(list.last().assigned, name);
        if assigned.len() == 0 {
            before
        } else {
            before.push(LogicalView { assigned, ..list.last() })
        }
    }
}

/// Whether some part of an arrangement is the primary one.
pub open spec fn has_primary(list: Seq<LogicalView>) -> bool {
    exists|i: int| 0 <= i < list.len() && (#[trigger] list[i]).primary
}

/// An arrangement with a primary part: the first, where there is none.
pub open spec fn with_primary(list: Seq<LogicalView>) -> Seq<LogicalView> {
    if list.len() == 0 || has_primary(list) {
        list
    } else {
        list.update(0, LogicalView { primary: true, ..list[0] })
    }
}

fn copy_names_without(list: &Vec<String>, name: &str) -> (res: Vec<String>)
    ensures
        names(res@) == names_without(names(list@), name@),
{
    let ghost all = names(list@);
    let mut out: Vec<String> = Vec::new();
    let mut i: usize = 0;
    assert(names(out@) =~= Seq::<Seq<char>>::empty());
    while i < list.len()
        invariant
            i <= list@.len(),
            all == names(list@),
            names(out@) == names_without(all.take(i as int), name@),
        decreases list@.len() - i,
    {
        assert(all.take(i + 1).drop_last() =~= all.take(i as int));
        let ghost before = names(out@);
        if !same_text(list[i].as_str(), name) {
            out.push(list[i].clone());
            assert(names(out@) =~= before.push(all[i as int]));
        }
        i += 1;
    }
    assert(all.take(i as int) =~= all);
    out
}

fn copy_assigned(item: &Assigned) -> (res: Assigned)
    ensures
        res@ == item@,
{
    Assigned {
        connector: item.connector.clone(),
        mode: item.mode.clone(),
        underscanning: item.underscanning,
        color_mode: item.color_mode,
    }
}

fn copy_assigned_without(list: &Vec<Assigned>, name: &str) -> (res: Vec<Assigned>)
    ensures
        assigned_views(res@) == assigned_without(assigned_views(list@), name@),
{
    let ghost all = assigned_views(list@);
    let mut out: Vec<Assigned> = Vec::new();
    let mut i: usize = 0;
    assert(assigned_views(out@) =~= Seq::<AssignedView>::empty());
    while i < list.len()
        invariant
            i <= list@.len(),
            all == assigned_views(list@),
            assigned_views(out@) == assigned_without(all.take(i as int), name@),
        decreases list@.len() - i,
    {
        assert(all.take(i + 1).drop_last() =~= all.take(i as int));
        let ghost before = assigned_views(out@);
        if !same_text(list[i].connector.as_str(), name) {
            out.push(copy_assigned(&list[i]));
            assert(assigned_views(out@) =~= before.push(all[i as int]));
        }
        i += 1;
    }
    assert(all.take(i as int) =~= all);
    out
}

fn copy_logical(item: &LogicalConfig) -> (res: LogicalConfig)
    ensures
        res@ == item@,
{
    let mut assigned: Vec<Assigned> = Vec::new();
    let mut i: usize = 0;
    while i < item.assigned.len()
        invariant
            i <= item.assigned@.len(),
            assigned@.len() == i,
            forall|j: int| 0 <= j < i ==> (#[trigger] assigned@[j])@ == item.assigned@[j]@,
        decreases item.assigned@.len() - i,
    {
        assigned.push(copy_assigned(&item.assigned[i]));
        i += 1;
    }
    assert(assigned_views(assigned@) =~= assigned_views(item.assigned@));
    LogicalConfig {
        x: item.x,
        y: item.y,
        scale: item.scale,
        transform: item.transform,
        primary: item.primary,
        assigned,
    }
}

fn copy_layout_without(list: &Vec<LogicalConfig>, name: &str) -> (res: Vec<LogicalConfig>)
    ensures
        logical_views(res@) == layout_without(logical_views(list@), name@),
{
    let ghost all = logical_views(list@);
    let mut out: Vec<LogicalConfig> = Vec::new();
    let mut i: usize = 0;
    assert(logical_views(out@) =~= Seq::<LogicalView>::empty());
    while i < list.len()
        invariant
            i <= list@.len(),
            all == logical_views(list@),
            logical_views(out@) == layout_without(all.take(i as int), name@),
        decreases list@.len() - i,
    {
        assert(all.take(i + 1).drop_last() =~= all.take(i as int));
        let ghost before = logical_views(out@);
        let assigned = copy_assigned_without(&list[i].assigned, name);
        assert(assigned_views(assigned@).len() == assigned@.len());
        if assigned.len() > 0 {
            let logical = LogicalConfig {
                x: list[i].x,
                y: list[i].y,
                scale: list[i].scale,
                transform: list[i].transform,
                primary: list[i].primary,
                assigned,
            };
            let ghost view = logical@;
            out.push(logical);
            assert(logical_views(out@) =~= before.push(view));
        }
        i += 1;
    }
    assert(all.take(i as int) =~= all);
    out
}

fn lacks_primary(list: &Vec<LogicalConfig>) -> (res: bool)
    ensures
        res == !has_primary(logical_views(list@)),
{
    let ghost all = logical_views(list@);
    let mut i: usize = 0;
    while i < list.len()
        invariant
            i <= list@.len(),
            all == logical_views(list@),
            forall|j: int| 0 <= j < i ==> !(#[trigger] all[j]).primary,
        decreases list@.len() - i,
    {
        if list[i].primary {
            assert(all[i as int].primary);
            return false;
        }
        i += 1;
    }
    true
}

/// The extra screen, as a part of the desktop that begins at `edge`.
pub open spec fn extra_screen(edge: i32, connector: Seq<char>, mode: Seq<char>) -> LogicalView {
    LogicalView {
        x: edge,
        y: 0,
        scale: UNSCALED,
        transform: 0,
        primary: false,
        assigned: seq![
            AssignedView { connector, mode, underscanning: None, color_mode: None },
        ],
    }
}

/// What an attempt to restore does, by whether the monitors are those there were.
pub open spec fn restore_step(same: bool, attempt: u32) -> RestoreStep {
    if same {
        RestoreStep::Apply
    } else if attempt < RESTORE_ATTEMPTS {
        RestoreStep::Wait
    } else {
        RestoreStep::Leave
    }
}

impl LayoutSnapshot {
    /// Reads the current arrangement. `widths` holds the width of each part of the
    /// desktop, in logical pixels, where it could be computed.
    ///
    /// Every connector keeps the mode it is on *right now*, not its preferred one:
    /// reapplying the preferred mode is the very thing that would move the user's
    /// screen to another scale. Returns `None` when nothing is shown at all — the
    /// caller then simply skips the whole layout dance.
    pub fn capture(state: &DisplayState, widths: &[Option<i32>]) -> (res: Option<Self>)
        requires
            edges_fit(state.logical@, widths@),
        ensures
            ({
                let layout = kept_layout(state.monitors@, state.logical@);
                match res {
                    Some(snapshot) => {
                        &&& layout.len() > 0
                        &&& logical_views(snapshot.logical@) == layout
                        &&& snapshot.right_edge == rightmost(
                            state.monitors@,
                            state.logical@,
                            widths@,
                        )
                        &&& snapshot.layout_mode == mode_of(*state)
                        &&& snapshot.supports_layout_mode == (state.supports_layout_mode == Some(
                            true,
                        ))
                        &&& snapshot.global_scale == shared_scale(*state)
                        &&& names(snapshot.connectors@) == connectors_of(state.monitors@)
                    },
                    None => layout.len() == 0,
                }
            }),
    {
        let mut logical: Vec<LogicalConfig> = Vec::new();
        let mut right_edge: i32 = 0;
        let mut i: usize = 0;
        assert(logical_views(logical@) =~= Seq::<LogicalView>::empty());
        while i < state.logical.len()
            invariant
                i <= state.logical@.len(),
                edges_fit(state.logical@, widths@),
                logical_views(logical@) == kept_layout(
                    state.monitors@,
                    state.logical@.take(i as int),
                ),
                right_edge == rightmost(
                    state.monitors@,
                    state.logical@.take(i as int),
                    widths@,
                ),
                right_edge >= 0,
            decreases state.logical@.len() - i,
        {
            assert(state.logical@.take(i + 1).drop_last() =~= state.logical@.take(i as int));
            assert(state.logical@.take(i + 1).last() == state.logical@[i as int]);
            let ghost before = logical_views(logical@);
            let part = &state.logical[i];
            let assigned = keep_assignments(&state.monitors, &part.connectors);
            assert(assigned_views(assigned@).len() == assigned@.len());
            if assigned.len() > 0 {
                if let Some(width) = widths[i] {
                    let edge: i32 = part.x + width;
                    if edge > right_edge {
                        right_edge = edge;
                    }
                }
                let kept = LogicalConfig {
                    x: part.x,
                    y: part.y,
                    scale: part.scale,
                    transform: part.transform,
                    primary: part.primary,
                    assigned,
                };
                let ghost view = kept@;
                logical.push(kept);
                assert(logical_views(logical@) =~= before.push(view));
            }
            i += 1;
        }
        assert(state.logical@.take(i as int) =~= state.logical@);
        assert(logical_views(logical@).len() == logical@.len());
        if logical.len() == 0 {
            return None;
        }
        let supports_layout_mode = match state.supports_layout_mode {
            Some(supports) => supports,
            None => false,
        };
        let required = match state.global_scale_required {
            Some(required) => required,
            None => false,
        };
        let global_scale: Option<u64> = if required {
            if state.logical.len() > 0 {
                Some(state.logical[0].scale)
            } else {
                Some(UNSCALED)
            }
        } else {
            None
        };
        Some(
            LayoutSnapshot {
                logical,
                right_edge,
                layout_mode: state.layout_mode(),
                supports_layout_mode,
                global_scale,
                connectors: connectors(state),
            },
        )
    }

    /// The layout mode to ask for when applying: only where it can be changed.
    pub fn properties(&self) -> (res: Option<u32>)
        ensures
            res == (if self.supports_layout_mode {
                Some(self.layout_mode)
            } else {
                None
            }),
    {
        if self.supports_layout_mode {
            Some(self.layout_mode)
        } else {
            None
        }
    }

    /// The arrangement without one connector, with a primary part. Keeps the
    /// current physical layout when the user rearranged it during capture.
    pub fn without(self, connector: &str) -> (res: Option<Self>)
        ensures
            ({
                let layout = with_primary(layout_without(logical_views(self.logical@), connector@));
                match res {
                    Some(snapshot) => {
                        &&& layout.len() > 0
                        &&& logical_views(snapshot.logical@) == layout
                        &&& names(snapshot.connectors@) == names_without(
                            names(self.connectors@),
                            connector@,
                        )
                        &&& snapshot.right_edge == self.right_edge
                        &&& snapshot.layout_mode == self.layout_mode
                        &&& snapshot.supports_layout_mode == self.supports_layout_mode
                        &&& snapshot.global_scale == self.global_scale
                    },
                    None => layout.len() == 0,
                }
            }),
    {
        let mut logical = copy_layout_without(&self.logical, connector);
        let ghost kept = logical_views(logical@);
        assert(kept.len() == logical@.len());
        if logical.len() == 0 {
            return None;
        }
        if lacks_primary(&logical) {
            let mut first = copy_logical(&logical[0]);
            first.primary = true;
            let ghost view = first@;
            assert(view == (LogicalView { primary: true, ..kept[0] }));
            logical.set(0, first);
            assert(logical_views(logical@) =~= kept.update(0, view));
        }
        let connectors = copy_names_without(&self.connectors, connector);
        Some(
            LayoutSnapshot {
                logical,
                right_edge: self.right_edge,
                layout_mode: self.layout_mode,
                supports_layout_mode: self.supports_layout_mode,
                global_scale: self.global_scale,
                connectors,
            },
        )
    }

    /// The saved arrangement, with `virtual_connector` appended to its right at
    /// the given mode.
    ///
    /// The user's monitors keep the exact mode, scale and position they had. The
    /// new screen goes in unscaled: it exists to receive a video stream, and any
    /// other scale would only make the receiver upscale.
    pub fn extend_with(&self, virtual_connector: &str, mode: &str) -> (res: Vec<LogicalConfig>)
        ensures
            logical_views(res@) == logical_views(self.logical@).push(
                extra_screen(self.right_edge, virtual_connector@, mode@),
            ),
    {
        let mut out = self.arrangement();
        let mut assigned: Vec<Assigned> = Vec::new();
        assigned.push(
            Assigned {
                connector: copied(virtual_connector),
                mode: copied(mode),
                underscanning: None,
                color_mode: None,
            },
        );
        assert(assigned_views(assigned@) =~= seq![
            AssignedView {
                connector: virtual_connector@,
                mode: mode@,
                underscanning: None,
                color_mode: None,
            },
        ]);
        let screen = LogicalConfig {
            x: self.right_edge,
            y: 0,
            scale: UNSCALED,
            transform: 0,
            primary: false,
            assigned,
        };
        let ghost before = logical_views(out@);
        let ghost view = screen@;
        out.push(screen);
        assert(logical_views(out@) =~= before.push(view));
        out
    }

    /// The saved arrangement, exactly as it was.
    pub fn arrangement(&self) -> (res: Vec<LogicalConfig>)
        ensures
            logical_views(res@) == logical_views(self.logical@),
    {
        let mut out: Vec<LogicalConfig> = Vec::new();
        let mut i: usize = 0;
        while i < self.logical.len()
            invariant
                i <= self.logical@.len(),
                out@.len() == i,
                forall|j: int| 0 <= j < i ==> (#[trigger] out@[j])@ == self.logical@[j]@,
            decreases self.logical@.len() - i,
        {
            out.push(copy_logical(&self.logical[i]));
            i += 1;
        }
        assert(logical_views(out@) =~= logical_views(self.logical@));
        out
    }

    /// Whether the monitors attached are the ones there were.
    fn is_same_set(&self, attached: &Vec<String>) -> (res: bool)
        ensures
            res == same_set(self.connectors@, attached@),
    {
        if attached.len() != self.connectors.len() {
            return false;
        }
        let mut i: usize = 0;
        while i < attached.len()
            invariant
                i <= attached@.len(),
                attached@.len() == self.connectors@.len(),
                forall|j: int| 0 <= j < i ==> lists(self.connectors@, (#[trigger] attached@[j])@),
            decreases attached@.len() - i,
        {
            if !is_listed(&self.connectors, attached[i].as_str()) {
                return false;
            }
            i += 1;
        }
        true
    }

    /// Decides an attempt to put the arrangement back as it was, on the monitors
    /// attached now. Attempts count from one.
    ///
    /// The set of monitors keeps changing while the virtual one is being torn
    /// down; what is still different at the last attempt is a change that the user
    /// made, and the compositor's layout stands.
    pub fn restore(&self, attempt: u32, attached: &Vec<String>) -> (res: RestoreStep)
        ensures
            res == restore_step(same_set(self.connectors@, attached@), attempt),
    {
        if self.is_same_set(attached) {
            RestoreStep::Apply
        } else if attempt < RESTORE_ATTEMPTS {
            RestoreStep::Wait
        } else {
            RestoreStep::Leave
        }
    }
}

/// Whether as many monitors are attached as there were, and none but those.
pub open spec fn same_set(before: Seq<String>, attached: Seq<String>) -> bool {
    &&& attached.len() == before.len()
    &&& forall|i: int| 0 <= i < attached.len() ==> lists(before, (#[trigger] attached[i])@)
}

/// What an attempt to restore a layout does.
#[derive(Clone, Copy, Debug, PartialEq, Eq, Structural)]
pub enum RestoreStep {
    /// Apply the arrangement.
    Apply,
    /// Try again after a while.
    Wait,
    /// Leave the compositor's layout as it is.
    Leave,
}

/// Decides how restoring goes on after an attempt to apply was rejected: with
/// another attempt, or as a failure after the last.
pub fn after_rejection(attempt: u32, cause: &str) -> (res: Option<NdError>)
    ensures
        if attempt < RESTORE_ATTEMPTS {
            res is None
        } else {
            res matches Some(error) && error@ == ErrorView::Capture(
                "could not restore the layout after "@ + decimal(RESTORE_ATTEMPTS as nat)
                    + " attempts: "@ + cause@,
            )
        },
{
    if attempt < RESTORE_ATTEMPTS {
        return None;
    }
    let attempts = number_text(RESTORE_ATTEMPTS as u64);
    Some(
        NdError::Capture(
            copied("could not restore the layout after ").concat(attempts.as_str()).concat(
                " attempts: ",
            ).concat(cause),
        ),
    )
}

/// The failure to arrange the extra screen.
pub fn arrange_error(cause: &str) -> (res: NdError)
    ensures
        res@ == ErrorView::Capture("could not arrange the extra screen: "@ + cause@),
{
    NdError::Capture(copied("could not arrange the extra screen: ").concat(cause))
}

/// The first connector that was not there before.
pub open spec fn newcomer(attached: Seq<String>, before: Seq<String>) -> Option<Seq<char>>
    decreases attached.len(),
{
    if attached.len() == 0 {
        None
    } else if !lists(before, attached[0]@) {
        Some(attached[0]@)
    } else {
        newcomer(attached.skip(1), before)
    }
}

/// How waiting for the virtual monitor goes on.
#[derive(Debug)]
pub enum ConnectorWait {
    /// It is attached, as this connector.
    Found(String),
    /// Look again once the monitors change.
    Wait,
    /// It never appeared.
    GiveUp,
}

/// Looks for the connector of the virtual monitor (`Meta-0`, `Meta-1`, …).
/// Nothing reports it, so it is found by elimination: the one that was not there
/// before.
///
/// The monitor is only created once PipeWire has negotiated a size for it, well
/// after the session has started; so this is asked again until it is found or the
/// time is up.
pub fn wait_for_virtual_connector(
    attached: &Vec<String>,
    before: &Vec<String>,
    time_is_up: bool,
) -> (res: ConnectorWait)
    ensures
        match newcomer(attached@, before@) {
            Some(connector) => res matches ConnectorWait::Found(found) && found@ == connector,
            None => if time_is_up {
                res is GiveUp
            } else {
                res is Wait
            },
        },
{
    let mut i: usize = 0;
    assert(attached@.skip(0) =~= attached@);
    while i < attached.len()
        invariant
            i <= attached@.len(),
            newcomer(attached@, before@) == newcomer(attached@.skip(i as int), before@),
        decreases attached@.len() - i,
    {
        assert(attached@.skip(i as int).skip(1) =~= attached@.skip(i + 1));
        if !is_listed(before, attached[i].as_str()) {
            return ConnectorWait::Found(attached[i].clone());
        }
        i += 1;
    }
    if time_is_up {
        ConnectorWait::GiveUp
    } else {
        ConnectorWait::Wait
    }
}

/// The first connector of the first primary part that has one.
pub open spec fn primary_in(logical: Seq<LogicalMonitor>) -> Option<Seq<char>>
    decreases logical.len(),
{
    if logical.len() == 0 {
        None
    } else if logical[0].primary && logical[0].connectors@.len() > 0 {
        Some(logical[0].connectors@[0]@)
    } else {
        primary_in(logical.skip(1))
    }
}

/// The connector of the monitor that is considered primary. With none flagged
/// primary, the first one is a better answer than failing outright.
pub fn primary_connector(state: &DisplayState) -> (res: Option<String>)
    ensures
        text_of(res) == (match primary_in(state.logical@) {
            Some(connector) => Some(connector),
            None => if state.monitors@.len() > 0 {
                Some(state.monitors@[0].connector@)
            } else {
                None
            },
        }),
{
    let mut i: usize = 0;
    assert(state.logical@.skip(0) =~= state.logical@);
    while i < state.logical.len()
        invariant
            i <= state.logical@.len(),
            primary_in(state.logical@) == primary_in(state.logical@.skip(i as int)),
        decreases state.logical@.len() - i,
    {
        assert(state.logical@.skip(i as int).skip(1) =~= state.logical@.skip(i + 1));
        let part = &state.logical[i];
        if part.primary && part.connectors.len() > 0 {
            return Some(part.connectors[0].clone());
        }
        i += 1;
    }
    if state.monitors.len() > 0 {
        Some(state.monitors[0].connector.clone())
    } else {
        None
    }
}

/// The mode to put a connector at: the preferred one, else the first.
pub open spec fn mode_for(monitors: Seq<Monitor>, connector: Seq<char>) -> Option<Mode> {
    match monitor_on(monitors, connector) {
        Some(monitor) => match preferred_in(monitor.modes@) {
            Some(mode) => Some(mode),
            None => if monitor.modes@.len() > 0 {
                Some(monitor.modes@[0])
            } else {
                None
            },
        },
        None => None,
    }
}

/// The preferred mode of a connector, and its size.
pub fn preferred_mode(state: &DisplayState, connector: &str) -> (res: Option<(String, i32, i32)>)
    ensures
        match res {
            Some((id, width, height)) => mode_for(state.monitors@, connector@) matches Some(mode)
                && id@ == mode.id@ && width == mode.width && height == mode.height,
            None => mode_for(state.monitors@, connector@) is None,
        },
{
    let monitor = match find_monitor(&state.monitors, connector) {
        Some(monitor) => monitor,
        None => {
            return None;
        },
    };
    let mode = match find_preferred(&monitor.modes) {
        Some(mode) => mode,
        None => {
            if monitor.modes.len() == 0 {
                return None;
            }
            &monitor.modes[0]
        },
    };
    Some((mode.id.clone(), mode.width, mode.height))
}

/// The new screen goes to the right of everything: no part of the desktop that is
/// kept, and whose width is known, reaches past the edge.
pub proof fn the_new_screen_is_right_of_everything(
    monitors: Seq<Monitor>,
    logical: Seq<LogicalMonitor>,
    widths: Seq<Option<i32>>,
    i: int,
)
    requires
        0 <= i < logical.len(),
        kept_logical(monitors, logical[i]).assigned.len() > 0,
        widths[i] is Some,
    ensures
        logical[i].x + widths[i]->0 <= rightmost(monitors, logical, widths),
        0 <= rightmost(monitors, logical, widths),
    decreases logical.len(),
{
    edge_is_not_left_of_origin(monitors, logical, widths);
    if i < logical.len() - 1 {
        let front = logical.drop_last();
        assert(front[i] == logical[i]);
        the_new_screen_is_right_of_everything(monitors, front, widths, i);
    }
}

proof fn edge_is_not_left_of_origin(
    monitors: Seq<Monitor>,
    logical: Seq<LogicalMonitor>,
    widths: Seq<Option<i32>>,
)
    ensures
        0 <= rightmost(monitors, logical, widths),
    decreases logical.len(),
{
    if logical.len() > 0 {
        edge_is_not_left_of_origin(monitors, logical.drop_last(), widths);
    }
}

/// Every connector of a snapshot keeps the mode it is on.
pub proof fn every_screen_keeps_its_current_mode(
    monitors: Seq<Monitor>,
    connectors: Seq<String>,
    i: int,
)
    requires
        0 <= i < kept_assignments(monitors, connectors).len(),
    ensures
        ({
            let kept = kept_assignments(monitors, connectors)[i];
            let mode = current_mode(monitors, kept.connector);
            mode is Some && mode->0.id@ == kept.mode
        }),
    decreases connectors.len(),
{
    let before = kept_assignments(monitors, connectors.drop_last());
    if i < before.len() {
        every_screen_keeps_its_current_mode(monitors, connectors.drop_last(), i);
    }
}

proof fn assignments_lose_one(list: Seq<AssignedView>, name: Seq<char>)
    ensures
        forall|i: int|
            0 <= i < assigned_without(list, name).len() ==> (#[trigger] assigned_without(
                list,
                name,
            )[i]).connector != name,
    decreases list.len(),
{
    if list.len() > 0 {
        assignments_lose_one(list.drop_last(), name);
    }
}

proof fn layout_loses_one(list: Seq<LogicalView>, name: Seq<char>)
    ensures
        forall|i: int|
            0 <= i < layout_without(list, name).len() ==> (#[trigger] layout_without(
                list,
                name,
            )[i]).assigned.len() > 0,
        forall|i: int, j: int|
            0 <= i < layout_without(list, name).len() && 0 <= j < layout_without(
                list,
                name,
            )[i].assigned.len() ==> (#[trigger] layout_without(list, name)[i].assigned[j]).connector
                != name,
    decreases list.len(),
{
    if list.len() > 0 {
        let before = layout_without(list.drop_last(), name);
        let after = layout_without(list, name);
        layout_loses_one(list.drop_last(), name);
        assignments_lose_one(list.last().assigned, name);
        assert forall|i: int| 0 <= i < after.len() implies (#[trigger] after[i]).assigned.len()
            > 0 by {
            if i < before.len() {
                assert(after[i] == before[i]);
            }
        }
        assert forall|i: int, j: int|
            0 <= i < after.len() && 0 <= j < after[i].assigned.len() implies (
        #[trigger] after[i].assigned[j]).connector != name by {
            if i < before.len() {
                assert(after[i] == before[i]);
            }
        }
    }
}

/// Without a connector the arrangement shows nothing on it, every part of it shows
/// somewhere, and it has a primary part unless it is empty.
pub proof fn a_removed_connector_is_gone(list: Seq<LogicalView>, name: Seq<char>, i: int)
    requires
        0 <= i < with_primary(layout_without(list, name)).len(),
    ensures
        has_primary(with_primary(layout_without(list, name))),
        with_primary(layout_without(list, name))[i].assigned.len() > 0,
        forall|j: int|
            0 <= j < with_primary(layout_without(list, name))[i].assigned.len() ==> (
            #[trigger] with_primary(layout_without(list, name))[i].assigned[j]).connector != name,
{
    layout_loses_one(list, name);
    let kept = layout_without(list, name);
    let after = with_primary(kept);
    if !has_primary(kept) {
        assert(after[0].primary);
    }
    assert(after[i].assigned == kept[i].assigned);
}

/// The mode in use is one that is marked so, and there is none only where no mode
/// is; likewise the preferred one, and the mode that a new screen is put at is the
/// preferred one, else the first.
pub proof fn modes_are_found_by_their_marks(modes: Seq<Mode>)
    ensures
        match current_in(modes) {
            Some(mode) => modes.contains(mode) && mode.is_current,
            None => forall|i: int| 0 <= i < modes.len() ==> !(#[trigger] modes[i]).is_current,
        },
        match preferred_in(modes) {
            Some(mode) => modes.contains(mode) && mode.is_preferred,
            None => forall|i: int| 0 <= i < modes.len() ==> !(#[trigger] modes[i]).is_preferred,
        },
    decreases modes.len(),
{
    if modes.len() > 0 {
        let rest = modes.skip(1);
        modes_are_found_by_their_marks(rest);
        assert(modes.contains(modes[0]));
        if let Some(mode) = current_in(rest) {
            let i = choose|i: int| 0 <= i < rest.len() && rest[i] == mode;
            assert(modes[i + 1] == mode);
        }
        if let Some(mode) = preferred_in(rest) {
            let i = choose|i: int| 0 <= i < rest.len() && rest[i] == mode;
            assert(modes[i + 1] == mode);
        }
        assert forall|i: int| 0 < i < modes.len() implies #[trigger] modes[i] == rest[i - 1] by {}
    }
}

/// A monitor is found by its connector.
pub proof fn a_monitor_is_found_by_its_connector(monitors: Seq<Monitor>, connector: Seq<char>)
    ensures
        match monitor_on(monitors, connector) {
            Some(monitor) => monitors.contains(monitor) && monitor.connector@ == connector,
            None => forall|i: int|
                0 <= i < monitors.len() ==> (#[trigger] monitors[i]).connector@ != connector,
        },
        mode_for(monitors, connector) matches Some(mode) ==> {
            let monitor = monitor_on(monitors, connector)->0;
            &&& monitor.modes@.contains(mode)
            &&& mode.is_preferred || mode == monitor.modes@[0] && forall|i: int|
                0 <= i < monitor.modes@.len() ==> !(#[trigger] monitor.modes@[i]).is_preferred
        },
    decreases monitors.len(),
{
    if let Some(monitor) = monitor_on(monitors, connector) {
        modes_are_found_by_their_marks(monitor.modes@);
        if monitor.modes@.len() > 0 {
            assert(monitor.modes@.contains(monitor.modes@[0]));
        }
    }
    if monitors.len() > 0 {
        let rest = monitors.skip(1);
        a_monitor_is_found_by_its_connector(rest, connector);
        if monitors[0].connector@ == connector {
            assert(monitors.contains(monitors[0]));
        } else if let Some(monitor) = monitor_on(rest, connector) {
            let i = choose|i: int| 0 <= i < rest.len() && rest[i] == monitor;
            assert(monitors[i + 1] == monitor);
        } else {
            assert forall|i: int| 0 <= i < monitors.len() implies (
            #[trigger] monitors[i]).connector@ != connector by {
                if i > 0 {
                    assert(rest[i - 1] == monitors[i]);
                }
            }
        }
    }
}

/// A screen is as wide as its mode, and as wide as its mode is high where it is
/// turned by a quarter; its scale counts in every layout but the physical one.
pub proof fn a_turned_screen_is_as_wide_as_it_is_high(
    monitors: Seq<Monitor>,
    logical: LogicalMonitor,
    layout_mode: u32,
    mode: Mode,
)
    requires
        logical.connectors@.len() > 0,
        current_mode(monitors, logical.connectors@[0]@) == Some(mode),
    ensures
        extent_of(monitors, logical, layout_mode) matches Some(extent) && {
            &&& logical.transform == 0 || logical.transform == 2 || logical.transform == 4
                || logical.transform == 6 ==> extent.pixels == mode.width
            &&& logical.transform == 1 || logical.transform == 3 || logical.transform == 5
                || logical.transform == 7 ==> extent.pixels == mode.height
            &&& layout_mode == 1 ==> extent.scale == logical.scale
            &&& layout_mode == 2 ==> extent.scale == 0x3FF0_0000_0000_0000
        },
{
}

/// A connector that is on a mode is kept, with that mode and with its monitor's
/// own properties.
pub proof fn a_connector_on_a_mode_is_kept(
    monitors: Seq<Monitor>,
    connectors: Seq<String>,
    i: int,
    monitor: Monitor,
    mode: Mode,
)
    requires
        0 <= i < connectors.len(),
        monitor_on(monitors, connectors[i]@) == Some(monitor),
        current_in(monitor.modes@) == Some(mode),
    ensures
        kept_assignments(monitors, connectors).contains(
            AssignedView {
                connector: connectors[i]@,
                mode: mode.id@,
                underscanning: monitor.underscanning,
                color_mode: monitor.color_mode,
            },
        ),
    decreases connectors.len(),
{
    let wanted = AssignedView {
        connector: connectors[i]@,
        mode: mode.id@,
        underscanning: monitor.underscanning,
        color_mode: monitor.color_mode,
    };
    let front = connectors.drop_last();
    let before = kept_assignments(monitors, front);
    let after = kept_assignments(monitors, connectors);
    if i == connectors.len() - 1 {
        assert(after[before.len() as int] == wanted);
    } else {
        assert(front[i] == connectors[i]);
        a_connector_on_a_mode_is_kept(monitors, front, i, monitor, mode);
        let k = choose|k: int| 0 <= k < before.len() && before[k] == wanted;
        assert(after[k] == wanted);
    }
}

/// A desktop whose parts all show is kept whole: each part keeps its place, its
/// scale, its turn, and whether it is the primary one.
pub proof fn a_desktop_that_shows_is_kept_whole(
    monitors: Seq<Monitor>,
    logical: Seq<LogicalMonitor>,
)
    requires
        forall|i: int|
            0 <= i < logical.len() ==> kept_assignments(
                monitors,
                (#[trigger] logical[i]).connectors@,
            ).len() > 0,
    ensures
        kept_layout(monitors, logical).len() == logical.len(),
        forall|i: int|
            0 <= i < logical.len() ==> {
                let kept = #[trigger] kept_layout(monitors, logical)[i];
                &&& kept.x == logical[i].x && kept.y == logical[i].y
                &&& kept.scale == logical[i].scale
                &&& kept.transform == logical[i].transform
                &&& kept.primary == logical[i].primary
            },
    decreases logical.len(),
{
    if logical.len() > 0 {
        let front = logical.drop_last();
        assert forall|i: int| 0 <= i < front.len() implies kept_assignments(
            monitors,
            (#[trigger] front[i]).connectors@,
        ).len() > 0 by {
            assert(front[i] == logical[i]);
        }
        a_desktop_that_shows_is_kept_whole(monitors, front);
        let before = kept_layout(monitors, front);
        let after = kept_layout(monitors, logical);
        assert(logical[logical.len() - 1] == logical.last());
        assert(after == before.push(kept_logical(monitors, logical.last())));
        assert forall|i: int| 0 <= i < logical.len() implies {
            let kept = #[trigger] after[i];
            &&& kept.x == logical[i].x && kept.y == logical[i].y
            &&& kept.scale == logical[i].scale
            &&& kept.transform == logical[i].transform
            &&& kept.primary == logical[i].primary
        } by {
            if i < front.len() {
                assert(after[i] == before[i]);
                assert(front[i] == logical[i]);
            }
        }
    }
}

/// The new screen touches what is there: the edge it goes to is that of some part
/// that is kept, or the origin where none reaches past it.
pub proof fn the_new_screen_leaves_no_gap(
    monitors: Seq<Monitor>,
    logical: Seq<LogicalMonitor>,
    widths: Seq<Option<i32>>,
)
    ensures
        rightmost(monitors, logical, widths) == 0 || exists|i: int|
            0 <= i < logical.len() && widths[i] is Some && rightmost(monitors, logical, widths) == (
            #[trigger] logical[i]).x + widths[i]->0 && kept_logical(
                monitors,
                logical[i],
            ).assigned.len() > 0,
    decreases logical.len(),
{
    if logical.len() > 0 {
        let front = logical.drop_last();
        let last = logical.len() - 1;
        the_new_screen_leaves_no_gap(monitors, front, widths);
        let edge = rightmost(monitors, logical, widths);
        if edge == rightmost(monitors, front, widths) {
            if edge != 0 {
                let i = choose|i: int|
                    0 <= i < front.len() && widths[i] is Some && edge == (#[trigger] front[i]).x
                        + widths[i]->0 && kept_logical(monitors, front[i]).assigned.len() > 0;
                assert(logical[i] == front[i]);
            }
        } else {
            assert(logical[last] == logical.last());
        }
    }
}

proof fn nothing_is_lost_without(list: Seq<AssignedView>, name: Seq<char>)
    requires
        forall|i: int| 0 <= i < list.len() ==> (#[trigger] list[i]).connector != name,
    ensures
        assigned_without(list, name) == list,
    decreases list.len(),
{
    if list.len() > 0 {
        let front = list.drop_last();
        assert forall|i: int| 0 <= i < front.len() implies (#[trigger] front[i]).connector
            != name by {
            assert(front[i] == list[i]);
        }
        nothing_is_lost_without(front, name);
        assert(list[list.len() - 1].connector != name);
        assert(front.push(list.last()) =~= list);
    } else {
        assert(assigned_without(list, name) =~= list);
    }
}

/// Whether an arrangement shows something in each of its parts, and nothing on a
/// connector.
pub open spec fn shows_elsewhere(list: Seq<LogicalView>, name: Seq<char>) -> bool {
    &&& forall|i: int| 0 <= i < list.len() ==> (#[trigger] list[i]).assigned.len() > 0
    &&& forall|i: int, j: int|
        0 <= i < list.len() && 0 <= j < list[i].assigned.len() ==> (
        #[trigger] list[i].assigned[j]).connector != name
}

proof fn nothing_goes_without(list: Seq<LogicalView>, name: Seq<char>)
    requires
        shows_elsewhere(list, name),
    ensures
        layout_without(list, name) == list,
    decreases list.len(),
{
    if list.len() > 0 {
        let front = list.drop_last();
        let last = list.last();
        assert(shows_elsewhere(front, name)) by {
            assert forall|i: int| 0 <= i < front.len() implies (#[trigger] front[i]).assigned.len()
                > 0 by {
                assert(front[i] == list[i]);
            }
            assert forall|i: int, j: int|
                0 <= i < front.len() && 0 <= j < front[i].assigned.len() implies (
            #[trigger] front[i].assigned[j]).connector != name by {
                assert(front[i] == list[i]);
                assert(list[i].assigned[j].connector != name);
            }
        }
        nothing_goes_without(front, name);
        assert(list[list.len() - 1] == last);
        assert forall|j: int| 0 <= j < last.assigned.len() implies (
        #[trigger] last.assigned[j]).connector != name by {
            assert(list[list.len() - 1].assigned[j].connector != name);
        }
        nothing_is_lost_without(last.assigned, name);
        assert(list[list.len() - 1].assigned.len() > 0);
        assert(front.push(last) =~= list);
    } else {
        assert(layout_without(list, name) =~= list);
    }
}

/// Taking a screen away again gives back the arrangement that it was added to, to
/// the last detail.
pub proof fn removing_a_screen_undoes_adding_it(
    list: Seq<LogicalView>,
    screen: LogicalView,
    name: Seq<char>,
)
    requires
        shows_elsewhere(list, name),
        screen.assigned.len() == 1,
        screen.assigned[0].connector == name,
    ensures
        layout_without(list.push(screen), name) == list,
        layout_without(list, name) == list,
        list.len() > 0 && has_primary(list) ==> with_primary(
            layout_without(list.push(screen), name),
        ) == list,
{
    nothing_goes_without(list, name);
    assert(list.push(screen).drop_last() =~= list);
    assert(screen.assigned.drop_last() =~= Seq::<AssignedView>::empty());
    assert(assigned_without(screen.assigned.drop_last(), name) =~= Seq::<AssignedView>::empty());
    assert(assigned_without(screen.assigned, name) =~= Seq::<AssignedView>::empty());
}

/// The virtual monitor is the one that was not there before: what is found is
/// attached and new, and nothing is found only where nothing is new.
pub proof fn the_newcomer_is_new(attached: Seq<String>, before: Seq<String>)
    ensures
        match newcomer(attached, before) {
            Some(name) => exists|i: int|
                0 <= i < attached.len() && (#[trigger] attached[i])@ == name && !lists(
                    before,
                    name,
                ) && forall|j: int| 0 <= j < i ==> lists(before, (#[trigger] attached[j])@),
            None => forall|i: int|
                0 <= i < attached.len() ==> lists(before, (#[trigger] attached[i])@),
        },
    decreases attached.len(),
{
    if attached.len() > 0 {
        let rest = attached.skip(1);
        the_newcomer_is_new(rest, before);
        if !lists(before, attached[0]@) {
            assert(attached[0]@ == newcomer(attached, before)->0);
        } else if let Some(name) = newcomer(rest, before) {
            let i = choose|i: int|
                0 <= i < rest.len() && (#[trigger] rest[i])@ == name && !lists(before, name)
                    && forall|j: int| 0 <= j < i ==> lists(before, (#[trigger] rest[j])@);
            assert(attached[i + 1] == rest[i]);
            assert forall|j: int| 0 <= j < i + 1 implies lists(
                before,
                (#[trigger] attached[j])@,
            ) by {
                if j > 0 {
                    assert(rest[j - 1] == attached[j]);
                }
            }
        } else {
            assert forall|i: int| 0 <= i < attached.len() implies lists(
                before,
                (#[trigger] attached[i])@,
            ) by {
                if i > 0 {
                    assert(rest[i - 1] == attached[i]);
                }
            }
        }
    }
}

/// The primary connector is the first one of a part that is marked primary; there
/// is none only where no such part shows on any.
pub proof fn the_primary_part_gives_its_connector(logical: Seq<LogicalMonitor>)
    ensures
        match primary_in(logical) {
            Some(name) => exists|i: int|
                0 <= i < logical.len() && (#[trigger] logical[i]).primary
                    && logical[i].connectors@.len() > 0 && logical[i].connectors@[0]@ == name,
            None => forall|i: int|
                0 <= i < logical.len() && (#[trigger] logical[i]).primary
                    ==> logical[i].connectors@.len() == 0,
        },
    decreases logical.len(),
{
    if logical.len() > 0 {
        let rest = logical.skip(1);
        the_primary_part_gives_its_connector(rest);
        if logical[0].primary && logical[0].connectors@.len() > 0 {
            assert(logical[0].connectors@[0]@ == primary_in(logical)->0);
        } else if let Some(name) = primary_in(rest) {
            let i = choose|i: int|
                0 <= i < rest.len() && (#[trigger] rest[i]).primary && rest[i].connectors@.len()
                    > 0 && rest[i].connectors@[0]@ == name;
            assert(logical[i + 1] == rest[i]);
        } else {
            assert forall|i: int| 0 <= i < logical.len() && (
            #[trigger] logical[i]).primary implies logical[i].connectors@.len() == 0 by {
                if i > 0 {
                    assert(rest[i - 1] == logical[i]);
                }
            }
        }
    }
}

/// A layout is in logical pixels unless it says otherwise, and a scale is shared
/// only where the compositor asks for it: then it is the first part's.
pub proof fn a_layout_says_how_it_is_measured(state: DisplayState)
    ensures
        state.layout_mode is None ==> mode_of(state) == 1,
        state.layout_mode matches Some(mode) ==> mode_of(state) == mode,
        shared_scale(state) is Some <==> state.global_scale_required == Some(true),
        shared_scale(state) matches Some(scale) ==> (state.logical@.len() > 0 ==> scale
            == state.logical@[0].scale),
{
}

/// The extra screen begins where the desktop ends, upright and unscaled, is never
/// the primary one, and shows on its connector alone, at the mode given.
pub proof fn the_extra_screen_stays_out_of_the_way(
    edge: i32,
    connector: Seq<char>,
    mode: Seq<char>,
    list: Seq<LogicalView>,
)
    ensures
        ({
            let screen = extra_screen(edge, connector, mode);
            &&& screen.x == edge && screen.y == 0
            &&& screen.scale == 0x3FF0_0000_0000_0000 && screen.transform == 0
            &&& !screen.primary
            &&& screen.assigned.len() == 1
            &&& screen.assigned[0].connector == connector && screen.assigned[0].mode == mode
            &&& has_primary(list.push(screen)) <==> has_primary(list)
        }),
        shows_elsewhere(list, connector) ==> layout_without(
            list.push(extra_screen(edge, connector, mode)),
            connector,
        ) == list,
{
    let screen = extra_screen(edge, connector, mode);
    let all = list.push(screen);
    if has_primary(list) {
        let i = choose|i: int| 0 <= i < list.len() && (#[trigger] list[i]).primary;
        assert(all[i].primary);
    }
    if has_primary(all) {
        let i = choose|i: int| 0 <= i < all.len() && (#[trigger] all[i]).primary;
        assert(list[i].primary);
    }
    if shows_elsewhere(list, connector) {
        removing_a_screen_undoes_adding_it(list, screen, connector);
    }
}

/// The arrangement is put back as soon as the monitors are those there were, at any
/// attempt, and left alone only at the eighth and after.
pub proof fn the_layout_is_put_back_once_it_fits(attempt: u32)
    ensures
        restore_step(true, attempt) == RestoreStep::Apply,
        restore_step(false, attempt) == RestoreStep::Leave <==> attempt >= 8,
        restore_step(false, attempt) == RestoreStep::Wait <==> attempt < 8,
{
}

/// The same monitors are attached where each that is attached was there before, and
/// as many as were: with one more or one fewer, or one that was not there, they
/// are not the same.
pub proof fn the_same_monitors_are_those_that_were_there(
    before: Seq<String>,
    attached: Seq<String>,
    i: int,
)
    ensures
        same_set(before, before),
        same_set(before, attached) ==> attached.len() == before.len(),
        0 <= i < attached.len() && !connector_is_among(before, attached[i]@) ==> !same_set(
            before,
            attached,
        ),
        attached.len() == before.len() && (forall|k: int|
            0 <= k < attached.len() ==> connector_is_among(before, (#[trigger] attached[k])@))
            ==> same_set(before, attached),
{
    assert forall|k: int| 0 <= k < before.len() implies lists(before, (#[trigger] before[k])@) by {
    }
    assert forall|name: Seq<char>|
        connector_is_among(before, name) implies #[trigger] lists(before, name) by {
        let k = choose|k: int|
            0 <= k < before.len() && names(before)[k] == name;
        assert(before[k]@ == name);
    }
    if same_set(before, attached) && 0 <= i < attached.len() {
        assert(lists(before, attached[i]@));
        let k = choose|k: int| 0 <= k < before.len() && (#[trigger] before[k])@ == attached[i]@;
        assert(names(before)[k] == attached[i]@);
    }
}

/// Whether a connector is one of some.
pub open spec fn connector_is_among(list: Seq<String>, name: Seq<char>) -> bool {
    names(list).contains(name)
}

/// Leaving a name out keeps every other, in order.
pub proof fn leaving_a_name_out_keeps_the_others(
    list: Seq<Seq<char>>,
    last: Seq<char>,
    name: Seq<char>,
)
    ensures
        !names_without(list, name).contains(name),
        last != name ==> names_without(list.push(last), name) == names_without(list, name).push(
            last,
        ),
        names_without(list.push(name), name) == names_without(list, name),
        names_without(Seq::empty(), name).len() == 0,
    decreases list.len(),
{
    assert(list.push(last).drop_last() =~= list);
    assert(list.push(name).drop_last() =~= list);
    if list.len() > 0 {
        leaving_a_name_out_keeps_the_others(list.drop_last(), last, name);
        let before = names_without(list.drop_last(), name);
        let whole = names_without(list, name);
        if whole.contains(name) {
            let i = choose|i: int| 0 <= i < whole.len() && whole[i] == name;
            assert(i < before.len());
            assert(before[i] == name);
        }
    }
}

} // verus!
