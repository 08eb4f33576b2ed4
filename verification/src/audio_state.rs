//! Read-only audio diagnostics. Capture never changes default devices.
use crate::text::{chars_of, string_of, trim};
use vstd::prelude::*;

verus! {

use crate::text::{is_space, text_of, trimmed, trimmed_already};

/// The default audio devices, where the system names them.
#[derive(Clone, Debug, Default, PartialEq, Eq)]
pub struct Defaults {
    pub sink: Option<String>,
    pub source: Option<String>,
}

/// The device that a query's output names: none where it is blank or a
/// placeholder, which begins with `@`.
pub open spec fn named_device(output: Seq<char>) -> Option<Seq<char>> {
    let name = trimmed(output);
    if name.len() == 0 || name[0] == '@' {
        None
    } else {
        Some(name)
    }
}

/// Reads what the query for a default device printed.
pub fn read_default(output: &str) -> (res: Option<String>)
    ensures
        text_of(res) == named_device(output@),
{
    let chars = chars_of(output);
    let name = trim(chars.as_slice());
    if name.len() == 0 || name[0] == '@' {
        return None;
    }
    Some(string_of(name))
}

impl Defaults {
    /// The devices that the two queries' outputs name. A query that failed has
    /// no output.
    pub fn from_outputs(sink: Option<&str>, source: Option<&str>) -> (res: Self)
        ensures
            text_of(res.sink) == (match sink {
                Some(output) => named_device(output@),
                None => None,
            }),
            text_of(res.source) == (match source {
                Some(output) => named_device(output@),
                None => None,
            }),
    {
        Defaults {
            sink: match sink {
                Some(output) => read_default(output),
                None => None,
            },
            source: match source {
                Some(output) => read_default(output),
                None => None,
            },
        }
    }

    /// Does the system name neither?
    pub fn is_empty(&self) -> (res: bool)
        ensures
            res == (self.sink is None && self.source is None),
    {
        self.sink.is_none() && self.source.is_none()
    }
}

/// A device is known by its name, whatever space stands around it; a placeholder
/// and a blank name none.
pub proof fn a_device_is_named_without_its_space(name: Seq<char>, space: char)
    requires
        name.len() > 0,
        !is_space(name[0]),
        !is_space(name.last()),
        is_space(space),
    ensures
        name[0] != '@' ==> named_device(name) == Some(name) && named_device(seq![space] + name)
            == Some(name) && named_device(name.push(space)) == Some(name),
        name[0] == '@' ==> named_device(name) is None && named_device(name.push(space)) is None,
        named_device(seq![space]) is None,
        named_device(Seq::empty()) is None,
{
    trimmed_already(name);
    let none = Seq::<char>::empty();
    assert(trimmed(none) =~= none);
    assert((seq![space] + name).skip(1) =~= name);
    assert(name.push(space).drop_last() =~= name);
    assert(seq![space].skip(1) =~= none);
}

} // verus!
