//! Serving files from disk to a receiver over HTTP.
//!
//! A Chromecast is given a **URL** and fetches the file itself, with byte ranges
//! when it seeks. The server can only ever serve **the exact paths it was
//! given**: the URL carries an *index into that list*, never a path, so
//! directory traversal is impossible by construction.
use crate::address::Address;
use crate::media::MediaKind;
use crate::text::{
    chars_of, copied, is_text, is_text_ignoring_case, next_line, next_word, number_text,
    parse_number, same, split_once, string_of, strip_prefix, to_lowered, trim, up_to,
};
use vstd::prelude::*;

verus! {

use crate::text::{
    a_text_begins_with_its_first_word, after_prefix, all_digits, before, begins_with, decimal, decimal_reads_back, first_index,
    first_index_is_first, first_index_unique, first_line, first_word, halves, has_part, is_digit,
    is_space, is_word, lines, lowered, number, part_stands_at, starts_with_part, trimmed,
    trimmed_already,
};

/// Cap on a request's header size.
pub const MAX_REQUEST_BYTES: usize = 8192;

/// How long the receiver gets to finish sending its request, in seconds.
pub const REQUEST_TIMEOUT_SECS: u64 = 10;

/// Copy buffer: large enough that a film is not sent in tiny writes, small
/// enough not to hold a megabyte per connection.
pub const CHUNK: usize = 65536;

/// A file that can be sent, with everything the receiver needs to know.
#[derive(Debug)]
pub struct MediaFile {
    pub path: String,
    pub kind: MediaKind,
    pub content_type: &'static str,
    /// Size in bytes, `0` when it could not be read.
    pub size: u64,
}

impl Clone for MediaFile {
    fn clone(&self) -> (res: Self)
        ensures
            res == *self,
    {
        MediaFile {
            path: self.path.clone(),
            kind: self.kind,
            content_type: self.content_type,
            size: self.size,
        }
    }
}

/// `s` without the slashes at its end.
pub open spec fn without_slashes(s: Seq<char>) -> Seq<char>
    decreases s.len(),
{
    if s.len() > 0 && s.last() == '/' {
        without_slashes(s.drop_last())
    } else {
        s
    }
}

/// How many characters follow the last `c` of `s`; all of them where there is
/// none.
pub open spec fn after_last(s: Seq<char>, c: char) -> nat
    decreases s.len(),
{
    if s.len() == 0 || s.last() == c {
        0
    } else {
        1 + after_last(s.drop_last(), c)
    }
}

/// What follows the last `c` is at most the whole, and holds none.
pub proof fn after_last_is_last(s: Seq<char>, c: char)
    ensures
        after_last(s, c) <= s.len(),
        after_last(s, c) < s.len() ==> s[s.len() - after_last(s, c) - 1] == c,
        forall|i: int| s.len() - after_last(s, c) <= i < s.len() ==> s[i] != c,
    decreases s.len(),
{
    if s.len() > 0 && s.last() != c {
        let front = s.drop_last();
        after_last_is_last(front, c);
        assert forall|i: int| s.len() - after_last(s, c) <= i < s.len() implies s[i] != c by {
            if i < front.len() {
                assert(front[i] != c);
            }
        }
    }
}

/// The last component of a path, where it is a name: trailing slashes and
/// single dots do not count, and two dots are no name.
pub open spec fn file_name(path: Seq<char>) -> Option<Seq<char>>
    decreases path.len(),
{
    let t = without_slashes(path);
    let n = after_last(t, '/');
    let name = t.skip(t.len() - n);
    if t.len() == 0 || n > t.len() || t.len() > path.len() || name == seq!['.', '.'] {
        None
    } else if name == seq!['.'] {
        if n == t.len() {
            None
        } else {
            file_name(t.drop_last())
        }
    } else {
        Some(name)
    }
}

/// The two sides of the last dot of a name. A name without a dot, or with none
/// but the one it begins with, has no extension.
pub open spec fn stem_and_extension(name: Seq<char>) -> (Seq<char>, Option<Seq<char>>) {
    let n = after_last(name, '.');
    if n >= name.len() || n == name.len() - 1 {
        (name, None)
    } else {
        (name.take(name.len() - n - 1), Some(name.skip(name.len() - n)))
    }
}

/// The extension of a path's last component; empty where there is none.
pub open spec fn extension_of(path: Seq<char>) -> Seq<char> {
    match file_name(path) {
        Some(name) => match stem_and_extension(name).1 {
            Some(extension) => extension,
            None => Seq::empty(),
        },
        None => Seq::empty(),
    }
}

/// The name of a path without its extension.
pub open spec fn title_of(path: Seq<char>) -> Seq<char> {
    match file_name(path) {
        Some(name) => stem_and_extension(name).0,
        None => "File"@,
    }
}

fn count_after_last(s: &[char], c: char) -> (res: usize)
    ensures
        res == after_last(s@, c),
        res <= s@.len(),
{
    let mut n: usize = 0;
    assert(s@.take(s@.len() as int) =~= s@);
    while n < s.len() && s[s.len() - n - 1] != c
        invariant
            n <= s@.len(),
            s@.len() == s.len(),
            after_last(s@, c) == n + after_last(s@.take(s@.len() - n), c),
        decreases s@.len() - n,
    {
        assert(s@.take(s@.len() - n).drop_last() =~= s@.take(s@.len() - n - 1));
        n += 1;
    }
    n
}

fn find_file_name(path: &[char]) -> (res: Option<&[char]>)
    ensures
        match res {
            Some(name) => file_name(path@) == Some(name@),
            None => file_name(path@) is None,
        },
{
    let mut len: usize = path.len();
    assert(path@.take(len as int) =~= path@);
    loop
        invariant
            len <= path@.len(),
            file_name(path@) == file_name(path@.take(len as int)),
        decreases len,
    {
        let ghost whole = path@.take(len as int);
        let mut end: usize = len;
        while end > 0 && path[end - 1] == '/'
            invariant
                end <= len <= path@.len(),
                whole == path@.take(len as int),
                without_slashes(whole) == without_slashes(path@.take(end as int)),
            decreases end,
        {
            assert(path@.take(end as int).drop_last() =~= path@.take(end - 1));
            end -= 1;
        }
        let t = vstd::slice::slice_subrange(path, 0, end);
        assert(t@ =~= path@.take(end as int));
        assert(without_slashes(whole) == t@);
        if end == 0 {
            return None;
        }
        let n: usize = count_after_last(t, '/');
        let name = vstd::slice::slice_subrange(t, end - n, end);
        assert(name@ =~= t@.skip(t@.len() - n));
        if name.len() == 2 && name[0] == '.' && name[1] == '.' {
            assert(name@ =~= seq!['.', '.']);
            return None;
        }
        assert(name@ != seq!['.', '.']) by {
            if name@ == seq!['.', '.'] {
                assert(name@.len() == 2 && name@[0] == '.' && name@[1] == '.');
            }
        }
        if name.len() == 1 && name[0] == '.' {
            assert(name@ =~= seq!['.']);
            if n == end {
                return None;
            }
            assert(t@.drop_last() =~= path@.take(end - 1));
            len = end - 1;
        } else {
            assert(name@ != seq!['.']) by {
                if name@ == seq!['.'] {
                    assert(name@.len() == 1 && name@[0] == '.');
                }
            }
            return Some(name);
        }
    }
}

/// The formats that the Default Media Receiver plays.
pub open spec fn format_of(extension: Seq<char>) -> Option<(MediaKind, Seq<char>)> {
    if extension == "jpg"@ || extension == "jpeg"@ {
        Some((MediaKind::Photo, "image/jpeg"@))
    } else if extension == "png"@ {
        Some((MediaKind::Photo, "image/png"@))
    } else if extension == "gif"@ {
        Some((MediaKind::Photo, "image/gif"@))
    } else if extension == "webp"@ {
        Some((MediaKind::Photo, "image/webp"@))
    } else if extension == "bmp"@ {
        Some((MediaKind::Photo, "image/bmp"@))
    } else if extension == "mp4"@ || extension == "m4v"@ {
        Some((MediaKind::Video, "video/mp4"@))
    } else if extension == "webm"@ {
        Some((MediaKind::Video, "video/webm"@))
    } else if extension == "mp3"@ {
        Some((MediaKind::Music, "audio/mpeg"@))
    } else if extension == "m4a"@ || extension == "aac"@ {
        Some((MediaKind::Music, "audio/mp4"@))
    } else if extension == "wav"@ {
        Some((MediaKind::Music, "audio/wav"@))
    } else if extension == "ogg"@ || extension == "opus"@ {
        Some((MediaKind::Music, "audio/ogg"@))
    } else if extension == "flac"@ {
        Some((MediaKind::Music, "audio/flac"@))
    } else {
        None
    }
}

fn find_format(extension: &[char]) -> (res: Option<(MediaKind, &'static str)>)
    ensures
        match res {
            Some((kind, content_type)) => format_of(extension@) == Some((kind, content_type@)),
            None => format_of(extension@) is None,
        },
{
    if is_text(extension, "jpg") || is_text(extension, "jpeg") {
        Some((MediaKind::Photo, "image/jpeg"))
    } else if is_text(extension, "png") {
        Some((MediaKind::Photo, "image/png"))
    } else if is_text(extension, "gif") {
        Some((MediaKind::Photo, "image/gif"))
    } else if is_text(extension, "webp") {
        Some((MediaKind::Photo, "image/webp"))
    } else if is_text(extension, "bmp") {
        Some((MediaKind::Photo, "image/bmp"))
    } else if is_text(extension, "mp4") || is_text(extension, "m4v") {
        Some((MediaKind::Video, "video/mp4"))
    } else if is_text(extension, "webm") {
        Some((MediaKind::Video, "video/webm"))
    } else if is_text(extension, "mp3") {
        Some((MediaKind::Music, "audio/mpeg"))
    } else if is_text(extension, "m4a") || is_text(extension, "aac") {
        Some((MediaKind::Music, "audio/mp4"))
    } else if is_text(extension, "wav") {
        Some((MediaKind::Music, "audio/wav"))
    } else if is_text(extension, "ogg") || is_text(extension, "opus") {
        Some((MediaKind::Music, "audio/ogg"))
    } else if is_text(extension, "flac") {
        Some((MediaKind::Music, "audio/flac"))
    } else {
        None
    }
}

/// Why a file with that extension is refused.
pub open spec fn refusal(extension: Seq<char>) -> Seq<char> {
    if extension.len() == 0 {
        "a file with no extension"@
    } else {
        "."@ + extension + " is not a format this receiver plays"@
    }
}

impl MediaFile {
    /// Describes a file of that size, or explains why this receiver cannot play
    /// it.
    ///
    /// The check is by extension, and that is the honest limit: identifying a
    /// container tells nothing about the codecs inside it. What this does catch
    /// is a file type the Default Media Receiver has never supported, and
    /// catching it here means saying so in the interface.
    pub fn inspect(path: &str, size: u64) -> (res: Result<Self, String>)
        ensures
            ({
                let extension = lowered(extension_of(path@));
                match res {
                    Ok(file) => {
                        &&& format_of(extension) == Some((file.kind, file.content_type@))
                        &&& file.path@ == path@
                        &&& file.size == size
                    },
                    Err(reason) => format_of(extension) is None && reason@ == refusal(extension),
                }
            }),
    {
        let chars = chars_of(path);
        let empty: Vec<char> = Vec::new();
        let mut extension = empty.as_slice();
        if let Some(name) = find_file_name(chars.as_slice()) {
            let n: usize = count_after_last(name, '.');
            if n < name.len() && name.len() - n > 1 {
                extension = vstd::slice::slice_subrange(name, name.len() - n, name.len());
                assert(extension@ =~= name@.skip(name@.len() - n));
            } else {
                assert(extension@ =~= Seq::<char>::empty());
            }
        } else {
            assert(extension@ =~= Seq::<char>::empty());
        }
        let extension = to_lowered(extension);
        match find_format(extension.as_slice()) {
            Some((kind, content_type)) => Ok(
                MediaFile { path: copied(path), kind, content_type, size },
            ),
            None => {
                if extension.len() == 0 {
                    return Err(copied("a file with no extension"));
                }
                let text = string_of(extension.as_slice());
                Err(copied(".").concat(text.as_str()).concat(" is not a format this receiver plays"))
            },
        }
    }

    /// The name to show on the receiver.
    pub fn title(&self) -> (res: String)
        ensures
            res@ == title_of(self.path@),
    {
        let chars = chars_of(self.path.as_str());
        match find_file_name(chars.as_slice()) {
            Some(name) => {
                let n: usize = count_after_last(name, '.');
                if n < name.len() && name.len() - n > 1 {
                    let stem = vstd::slice::slice_subrange(name, 0, name.len() - n - 1);
                    assert(stem@ =~= name@.take(name@.len() - n - 1));
                    string_of(stem)
                } else {
                    string_of(name)
                }
            },
            None => copied("File"),
        }
    }
}

/// The index that a request's target addresses: the path is a slash, the token,
/// a slash and the index, and nothing else. A query after it does not count.
pub open spec fn target_index(target: Seq<char>, token: Seq<char>) -> Option<nat> {
    match after_prefix(before(target, '?'), seq!['/']) {
        Some(rest) => match halves(rest, '/') {
            Some((given, index)) => if given == token {
                number(index, usize::MAX as nat)
            } else {
                None
            },
            None => None,
        },
        None => None,
    }
}

fn read_target(target: &[char], token: &[char]) -> (res: Option<usize>)
    ensures
        match res {
            Some(index) => target_index(target@, token@) == Some(index as nat),
            None => target_index(target@, token@) is None,
        },
{
    let path = up_to(target, '?');
    if path.len() == 0 || path[0] != '/' {
        assert(!begins_with(path@, seq!['/'])) by {
            if begins_with(path@, seq!['/']) {
                assert(path@.take(1)[0] == seq!['/'][0]);
            }
        }
        return None;
    }
    assert(path@.take(1) =~= seq!['/']);
    let rest = vstd::slice::slice_subrange(path, 1, path.len());
    assert(rest@ =~= path@.skip(1));
    match split_once(rest, '/') {
        Some((given, index)) => {
            if !same(given, token) {
                return None;
            }
            match parse_number(index, usize::MAX as u64) {
                Some(n) => Some(n as usize),
                None => None,
            }
        },
        None => None,
    }
}

/// Extracts the file's index from `/<token>/<index>`.
///
/// Returns `None` for anything else, including a correct token with junk after
/// it. There is no filename in this path by design: the index is looked up in a
/// list fixed when the session started.
pub fn parse_target(target: &str, token: &str) -> (res: Option<usize>)
    ensures
        match res {
            Some(index) => target_index(target@, token@) == Some(index as nat),
            None => target_index(target@, token@) is None,
        },
{
    let target = chars_of(target);
    let token = chars_of(token);
    read_target(target.as_slice(), token.as_slice())
}

/// Only an index can be asked for: what addresses a file is the token followed
/// by digits (a plus sign before them does not change the number).
pub proof fn only_an_index_can_be_asked_for(target: Seq<char>, token: Seq<char>)
    ensures
        target_index(target, token) is Some ==> {
            let path = before(target, '?');
            let prefix = seq!['/'] + token + seq!['/'];
            &&& begins_with(path, prefix)
            &&& forall|i: int|
                prefix.len() <= i < path.len() ==> is_digit(#[trigger] path[i]) || (i
                    == prefix.len() && path[i] == '+')
        },
{
    if target_index(target, token) is Some {
        let path = before(target, '?');
        let prefix = seq!['/'] + token + seq!['/'];
        let rest = path.skip(1);
        first_index_is_first(rest, '/');
        let cut = first_index(rest, '/');
        let index = rest.skip(cut + 1);
        assert(path.take(1)[0] == '/');
        assert(rest.take(cut) == token);
        assert(path.take(prefix.len() as int) =~= prefix) by {
            assert forall|i: int| 0 <= i < prefix.len() implies path.take(
                prefix.len() as int,
            )[i] == prefix[i] by {
                if 1 <= i <= token.len() {
                    assert(token[i - 1] == rest.take(cut)[i - 1]);
                }
            }
        }
        let digits = if index.len() > 0 && index[0] == '+' { index.skip(1) } else { index };
        assert forall|i: int| prefix.len() <= i < path.len() implies is_digit(#[trigger] path[i])
            || (i == prefix.len() && path[i] == '+') by {
            let j = i - prefix.len();
            assert(path[i] == index[j]);
            if index[0] == '+' {
                if j > 0 {
                    assert(is_digit(digits[j - 1]));
                }
            } else {
                assert(is_digit(digits[j]));
            }
        }
    }
}

/// The path under which the file at `index` is served.
pub open spec fn file_path(token: Seq<char>, index: nat) -> Seq<char> {
    seq!['/'] + token + seq!['/'] + decimal(index)
}

/// The URL handed out for a file addresses that file.
pub proof fn a_served_path_addresses_its_file(token: Seq<char>, index: nat)
    requires
        index <= usize::MAX,
        forall|i: int| 0 <= i < token.len() ==> token[i] != '/' && token[i] != '?',
    ensures
        target_index(file_path(token, index), token) == Some(index),
{
    let path = file_path(token, index);
    decimal_reads_back(index, usize::MAX as nat);
    assert forall|i: int| 0 <= i < path.len() implies path[i] != '?' by {
        if i >= token.len() + 2 {
            assert(is_digit(decimal(index)[i - token.len() - 2]));
        }
    }
    first_index_unique(path, '?', path.len() as int);
    assert(path.take(path.len() as int) =~= path);
    assert(path.take(1) =~= seq!['/']);
    let rest = path.skip(1);
    assert(rest =~= token + seq!['/'] + decimal(index));
    first_index_unique(rest, '/', token.len() as int);
    assert(rest.take(token.len() as int) =~= token);
    assert(rest.skip(token.len() as int + 1) =~= decimal(index));
}

/// The URL of the file at `index`, for the receiver to fetch. `address` is the
/// host and port that the server listens on.
pub fn url(address: &str, token: &str, index: usize) -> (res: String)
    ensures
        res@ == "http://"@ + address@ + file_path(token@, index as nat),
{
    let number = number_text(index as u64);
    let mut res = copied("http://").concat(address);
    res.push('/');
    res.append(token);
    res.push('/');
    res.append(number.as_str());
    assert(res@ =~= "http://"@ + address@ + file_path(token@, index as nat));
    res
}

/// The bytes that `bytes=start-end` asks of a file: within it, in order, and cut
/// at its end. An open end means to the end of the file.
pub open spec fn range_of(value: Seq<char>, size: u64) -> Option<(u64, u64)> {
    match after_prefix(trimmed(value), "bytes="@) {
        Some(spec) => match halves(spec, '-') {
            Some((first, last)) => {
                let start = number(trimmed(first), u64::MAX as nat);
                let end = if trimmed(last).len() == 0 {
                    Some((size - 1) as nat)
                } else {
                    number(trimmed(last), u64::MAX as nat)
                };
                if size > 0 && start is Some && end is Some && start->0 <= end->0 && start->0
                    < size {
                    Some(
                        (
                            start->0 as u64,
                            if end->0 < size - 1 {
                                end->0 as u64
                            } else {
                                (size - 1) as u64
                            },
                        ),
                    )
                } else {
                    None
                }
            },
            None => None,
        },
        None => None,
    }
}

fn read_range(value: &[char], size: u64) -> (res: Option<(u64, u64)>)
    ensures
        res == range_of(value@, size),
{
    let spec_text = match strip_prefix(trim(value), "bytes=") {
        Some(rest) => rest,
        None => {
            return None;
        },
    };
    let (first, last) = match split_once(spec_text, '-') {
        Some(halves) => halves,
        None => {
            return None;
        },
    };
    if size == 0 {
        return None;
    }
    let start: u64 = match parse_number(trim(first), u64::MAX) {
        Some(n) => n,
        None => {
            return None;
        },
    };
    let last = trim(last);
    let end: u64 = if last.len() == 0 {
        size - 1
    } else {
        match parse_number(last, u64::MAX) {
            Some(n) => n,
            None => {
                return None;
            },
        }
    };
    if start > end || start >= size {
        return None;
    }
    Some(
        (
            start,
            if end < size - 1 {
                end
            } else {
                size - 1
            },
        ),
    )
}

/// Parses `bytes=start-end`, the only form a receiver sends.
///
/// An open end (`bytes=500-`) means "to the end of the file", which is what a
/// receiver sends when it seeks.
pub fn parse_range(value: &str, size: u64) -> (res: Option<(u64, u64)>)
    ensures
        res == range_of(value@, size),
{
    let chars = chars_of(value);
    read_range(chars.as_slice(), size)
}

/// A range always lies within the file.
pub proof fn a_range_lies_within_the_file(value: Seq<char>, size: u64)
    ensures
        range_of(value, size) matches Some((start, end)) ==> start <= end < size,
{
}

/// Where a file request stands: the index addressed, the bytes asked for, and
/// whether only the headers are wanted. `NotFound` for anything that addresses no
/// file.
#[derive(Clone, Copy, Debug, PartialEq, Eq)]
pub enum FileRequest {
    NotFound,
    File { index: usize, range: Option<(u64, u64)>, head_only: bool },
}

/// The first word of a line, and the second: empty where there is none.
pub open spec fn two_words(line: Seq<char>) -> (Seq<char>, Seq<char>) {
    match first_word(line) {
        Some((first, rest)) => (
            first,
            match first_word(rest) {
                Some((second, _)) => second,
                None => Seq::empty(),
            },
        ),
        None => (Seq::empty(), Seq::empty()),
    }
}

/// The value of the first header named `Range`, in any case.
pub open spec fn range_header(headers: Seq<Seq<char>>) -> Option<Seq<char>>
    decreases headers.len(),
{
    if headers.len() == 0 {
        None
    } else {
        match halves(headers[0], ':') {
            Some((name, value)) => if lowered(name) == lowered("range"@) {
                Some(trimmed(value))
            } else {
                range_header(headers.skip(1))
            },
            None => range_header(headers.skip(1)),
        }
    }
}

/// What a request asks of some files.
pub open spec fn file_request(
    request: Seq<char>,
    files: Seq<MediaFile>,
    token: Seq<char>,
) -> FileRequest {
    let start_line = if request.len() == 0 { Seq::empty() } else { first_line(request).0 };
    let headers = if request.len() == 0 { Seq::empty() } else { lines(first_line(request).1) };
    let (method, target) = two_words(start_line);
    match target_index(target, token) {
        None => FileRequest::NotFound,
        Some(index) => if index >= files.len() {
            FileRequest::NotFound
        } else {
            FileRequest::File {
                index: index as usize,
                range: match range_header(headers) {
                    Some(value) => range_of(value, files[index as int].size),
                    None => None,
                },
                head_only: lowered(method) == lowered("HEAD"@),
            }
        },
    }
}

fn find_range(headers: &[char], size: u64) -> (res: Option<(u64, u64)>)
    ensures
        res == (match range_header(lines(headers@)) {
            Some(value) => range_of(value, size),
            None => None,
        }),
{
    let mut rest = headers;
    let ghost all = lines(headers@);
    loop
        invariant
            range_header(all) == range_header(lines(rest@)),
            all == lines(headers@),
        decreases rest@.len(),
    {
        match next_line(rest) {
            None => {
                return None;
            },
            Some((line, after)) => {
                assert(lines(rest@).skip(1) =~= lines(after@));
                if let Some((name, value)) = split_once(line, ':') {
                    if is_text_ignoring_case(name, "range") {
                        return read_range(trim(value), size);
                    }
                }
                rest = after;
            },
        }
    }
}

/// Reads what a request asks for.
///
/// A wrong token gets the same answer as a wrong index: anything else would
/// confirm that the server is here and that only the token is missing.
pub fn read_file_request(request: &str, files: &[MediaFile], token: &str) -> (res: FileRequest)
    ensures
        res == file_request(request@, files@, token@),
{
    let request = chars_of(request);
    let token = chars_of(token);
    let empty: Vec<char> = Vec::new();
    assert(empty@ =~= Seq::<char>::empty());
    let (start_line, headers) = match next_line(request.as_slice()) {
        Some(parts) => parts,
        None => (empty.as_slice(), empty.as_slice()),
    };
    let (method, target) = match next_word(start_line) {
        Some((method, rest)) => match next_word(rest) {
            Some((target, _)) => (method, target),
            None => (method, empty.as_slice()),
        },
        None => (empty.as_slice(), empty.as_slice()),
    };
    let index: usize = match read_target(target, token.as_slice()) {
        Some(index) => index,
        None => {
            return FileRequest::NotFound;
        },
    };
    if index >= files.len() {
        return FileRequest::NotFound;
    }
    let range = find_range(headers, files[index].size);
    FileRequest::File { index, range, head_only: is_text_ignoring_case(method, "HEAD") }
}

/// A wrong token and an index past the list are answered alike: whatever does not
/// address one of the files is not found, and nothing else is.
pub proof fn a_stranger_cannot_tell_what_is_missing(
    request: Seq<char>,
    files: Seq<MediaFile>,
    token: Seq<char>,
)
    ensures
        file_request(request, files, token) is NotFound <==> {
            let target = two_words(
                if request.len() == 0 {
                    Seq::empty()
                } else {
                    first_line(request).0
                },
            ).1;
            target_index(target, token) matches Some(index) ==> index >= files.len()
        },
{
}

/// What is served lies within its file.
pub proof fn a_served_range_lies_within_its_file(
    request: Seq<char>,
    files: Seq<MediaFile>,
    token: Seq<char>,
)
    ensures
        file_request(request, files, token) matches FileRequest::File { index, range, head_only }
            ==> index < files.len() && (range matches Some((start, end)) ==> start <= end
            < files[index as int].size),
{
}

/// The answer to what addresses no file.
pub fn not_found() -> (res: &'static str)
    ensures
        res@ == "HTTP/1.1 404 Not Found\r\nContent-Length: 0\r\n\r\n"@,
{
    "HTTP/1.1 404 Not Found\r\nContent-Length: 0\r\n\r\n"
}

/// What is sent of a file of `total` bytes: the first byte, the last, and how
/// many.
pub open spec fn span(range: Option<(u64, u64)>, total: u64) -> (int, int, int) {
    let (start, end) = match range {
        Some((start, end)) => (start as int, end as int),
        None => (0, if total > 0 { total - 1 } else { 0 }),
    };
    (start, end, (if end > start { end - start } else { 0 }) + 1)
}

/// The header block of a file's response.
pub open spec fn response_text(range: Option<(u64, u64)>, total: u64, content_type: Seq<char>) -> Seq<
    char,
> {
    let (start, end, length) = span(range, total);
    if range is Some {
        "HTTP/1.1 206 Partial Content\r\nContent-Type: "@ + content_type + "\r\nContent-Length: "@
            + decimal(length as nat) + "\r\nContent-Range: bytes "@ + decimal(start as nat) + "-"@
            + decimal(end as nat) + "/"@ + decimal(total as nat)
            + "\r\nAccept-Ranges: bytes\r\nConnection: close\r\n\r\n"@
    } else {
        "HTTP/1.1 200 OK\r\nContent-Type: "@ + content_type + "\r\nContent-Length: "@ + decimal(
            length as nat,
        ) + "\r\nAccept-Ranges: bytes\r\nConnection: close\r\n\r\n"@
    }
}

/// A file's response: the headers, where to start reading, and how many bytes to
/// send.
#[derive(Debug)]
pub struct FileResponse {
    pub headers: String,
    pub start: u64,
    pub length: u64,
}

/// Builds the response to a request for a file of `total` bytes.
pub fn file_response(range: Option<(u64, u64)>, total: u64, content_type: &str) -> (res:
    FileResponse)
    requires
        range matches Some((start, end)) ==> end - start < u64::MAX,
    ensures
        res.headers@ == response_text(range, total, content_type@),
        res.start == span(range, total).0,
        res.length == span(range, total).2,
{
    let (start, end): (u64, u64) = match range {
        Some(range) => range,
        None => (0, total.saturating_sub(1)),
    };
    let length: u64 = end.saturating_sub(start) + 1;
    let length_text = number_text(length);
    let headers = if range.is_some() {
        let start_text = number_text(start);
        let end_text = number_text(end);
        let total_text = number_text(total);
        copied("HTTP/1.1 206 Partial Content\r\nContent-Type: ").concat(content_type).concat(
            "\r\nContent-Length: ",
        ).concat(length_text.as_str()).concat("\r\nContent-Range: bytes ").concat(
            start_text.as_str(),
        ).concat("-").concat(end_text.as_str()).concat("/").concat(total_text.as_str()).concat(
            "\r\nAccept-Ranges: bytes\r\nConnection: close\r\n\r\n",
        )
    } else {
        copied("HTTP/1.1 200 OK\r\nContent-Type: ").concat(content_type).concat(
            "\r\nContent-Length: ",
        ).concat(length_text.as_str()).concat(
            "\r\nAccept-Ranges: bytes\r\nConnection: close\r\n\r\n",
        )
    };
    FileResponse { headers, start, length }
}

/// How many bytes to read next where so many are owed.
pub open spec fn wanted_of(remaining: int) -> int {
    if remaining < CHUNK {
        remaining
    } else {
        CHUNK as int
    }
}

/// How many bytes are owed after some were read; none where nothing was left to
/// read.
pub open spec fn left_of(remaining: int, read: int) -> int {
    if read == 0 {
        0
    } else {
        remaining - read
    }
}

/// A transfer under way: how many bytes are still owed.
#[derive(Clone, Copy, Debug, PartialEq, Eq, Structural)]
pub struct Transfer {
    pub remaining: u64,
}

impl Transfer {
    /// A transfer of that many bytes.
    pub fn new(length: u64) -> (res: Self)
        ensures
            res.remaining == length,
    {
        Transfer { remaining: length }
    }

    /// How many bytes to read next; none when the transfer is over.
    pub fn want(&self) -> (res: usize)
        ensures
            res == wanted_of(self.remaining as int),
    {
        if self.remaining < CHUNK as u64 {
            self.remaining as usize
        } else {
            CHUNK
        }
    }

    /// Accounts for what was read and sent. Nothing read is the end of the file,
    /// and of the transfer.
    pub fn sent(&mut self, read: usize)
        requires
            read <= old(self).remaining,
        ensures
            final(self).remaining == left_of(old(self).remaining as int, read as int),
    {
        if read == 0 {
            self.remaining = 0;
        } else {
            self.remaining = self.remaining - read as u64;
        }
    }
}

/// Whether a connection is let in: only the receiver the session opened.
pub fn admits(receiver: Address, peer: Address) -> (res: bool)
    ensures
        res == (receiver == peer),
{
    receiver == peer
}

/// A range is read as it is written: from the first byte named to the last one,
/// or to the file's end where that comes before or the range names none. A range
/// that begins after its end or after the file's is refused, and so is one that
/// names no first byte.
pub proof fn a_range_is_read_as_written(first: u64, last: u64, size: u64)
    ensures
        range_of("bytes="@ + decimal(first as nat) + "-"@ + decimal(last as nat), size) == (
        if first <= last && first < size {
            Some((first, if last < size {
                last
            } else {
                (size - 1) as u64
            }))
        } else {
            None
        }),
        range_of("bytes="@ + decimal(first as nat) + "-"@, size) == (if first < size {
            Some((first, (size - 1) as u64))
        } else {
            None
        }),
        range_of("bytes=-"@ + decimal(last as nat), size) is None,
{
    reveal_strlit("bytes=");
    reveal_strlit("bytes=-");
    reveal_strlit("-");
    let max = u64::MAX as nat;
    decimal_reads_back(first as nat, max);
    decimal_reads_back(last as nat, max);
    let a = decimal(first as nat);
    let b = decimal(last as nat);
    digits_are_trimmed(a);
    digits_are_trimmed(b);
    let closed_text = "bytes="@ + a + "-"@ + b;
    let open_text = "bytes="@ + a + "-"@;
    let suffix_text = "bytes=-"@ + b;
    trimmed_already(closed_text);
    trimmed_already(open_text);
    trimmed_already(suffix_text);
    let closed_spec = closed_text.skip(6);
    let open_spec = open_text.skip(6);
    let suffix_spec = suffix_text.skip(6);
    assert(closed_text.take(6) =~= "bytes="@);
    assert(open_text.take(6) =~= "bytes="@);
    assert(suffix_text.take(6) =~= "bytes="@);
    assert(closed_spec =~= a + seq!['-'] + b);
    assert(open_spec =~= a + seq!['-']);
    assert(suffix_spec =~= seq!['-'] + b);
    assert forall|i: int| 0 <= i < a.len() implies a[i] != '-' by {
        assert(is_digit(a[i]));
    }
    first_index_unique(closed_spec, '-', a.len() as int);
    first_index_unique(open_spec, '-', a.len() as int);
    first_index_unique(suffix_spec, '-', 0);
    assert(closed_spec.take(a.len() as int) =~= a);
    assert(closed_spec.skip(a.len() as int + 1) =~= b);
    assert(open_spec.take(a.len() as int) =~= a);
    let none = Seq::<char>::empty();
    assert(open_spec.skip(a.len() as int + 1) =~= none);
    assert(suffix_spec.take(0) =~= none);
    assert(trimmed(none) =~= none);
    assert(number(none, max) is None);
}

proof fn digits_are_trimmed(s: Seq<char>)
    requires
        s.len() > 0,
        all_digits(s),
    ensures
        trimmed(s) == s,
        !is_space(s[0]),
        !is_space(s.last()),
{
    assert(is_digit(s[0]));
    assert(is_digit(s[s.len() - 1]));
    trimmed_already(s);
}

/// The answer to a range sends the bytes that it announces: as many as lie from
/// the first to the last, from the first one on. Without a range the whole of a
/// file that is not empty is sent from its start.
pub proof fn a_response_sends_what_it_announces(
    range: Option<(u64, u64)>,
    total: u64,
    content_type: Seq<char>,
)
    requires
        range matches Some((start, end)) ==> start <= end < total,
        total > 0,
    ensures
        range matches Some((start, end)) ==> {
            let text = response_text(range, total, content_type);
            &&& span(range, total).0 == start
            &&& span(range, total).2 == end - start + 1
            &&& has_part(text, "HTTP/1.1 206 Partial Content\r\n"@)
            &&& has_part(
                text,
                "\r\nContent-Length: "@ + decimal((end - start + 1) as nat)
                    + "\r\nContent-Range: bytes "@ + decimal(start as nat) + "-"@ + decimal(
                    end as nat,
                ) + "/"@ + decimal(total as nat) + "\r\n"@,
            )
            &&& has_part(text, "Content-Type: "@ + content_type + "\r\n"@)
        },
        range is None ==> {
            let text = response_text(range, total, content_type);
            &&& span(range, total).0 == 0
            &&& span(range, total).2 == total
            &&& has_part(text, "HTTP/1.1 200 OK\r\n"@)
            &&& has_part(text, "\r\nContent-Length: "@ + decimal(total as nat) + "\r\n"@)
            &&& has_part(text, "Content-Type: "@ + content_type + "\r\n"@)
        },
{
    let text = response_text(range, total, content_type);
    let (start, end, length) = span(range, total);
    let kind = content_type;
    reveal_strlit("\r\n");
    reveal_strlit("Content-Type: ");
    reveal_strlit("\r\nContent-Length: ");
    reveal_strlit("\r\nAccept-Ranges: bytes\r\nConnection: close\r\n\r\n");
    reveal_strlit("HTTP/1.1 206 Partial Content\r\nContent-Type: ");
    reveal_strlit("HTTP/1.1 206 Partial Content\r\n");
    reveal_strlit("HTTP/1.1 200 OK\r\nContent-Type: ");
    reveal_strlit("HTTP/1.1 200 OK\r\n");
    let typed = "Content-Type: "@ + kind + "\r\n"@;
    if range is Some {
        starts_with_part(text, "HTTP/1.1 206 Partial Content\r\n"@);
        part_stands_at(text, typed, 30);
        let part = "\r\nContent-Length: "@ + decimal(length as nat) + "\r\nContent-Range: bytes "@
            + decimal(start as nat) + "-"@ + decimal(end as nat) + "/"@ + decimal(total as nat)
            + "\r\n"@;
        part_stands_at(text, part, 44 + kind.len() as int);
    } else {
        starts_with_part(text, "HTTP/1.1 200 OK\r\n"@);
        part_stands_at(text, typed, 17);
        let part = "\r\nContent-Length: "@ + decimal(length as nat) + "\r\n"@;
        part_stands_at(text, part, 31 + kind.len() as int);
    }
}

proof fn a_name_after_a_slash(before: Seq<char>, name: Seq<char>)
    requires
        name.len() > 0,
        forall|i: int| 0 <= i < name.len() ==> name[i] != '/',
        name != seq!['.'],
        name != seq!['.', '.'],
        before.len() > 0 ==> before.last() == '/',
    ensures
        file_name(before + name) == Some(name),
{
    let path = before + name;
    assert(path.last() == name.last());
    assert(name[name.len() - 1] != '/');
    assert(without_slashes(path) == path);
    after_last_is_last(path, '/');
    let n = after_last(path, '/');
    if n > name.len() {
        assert(path[before.len() - 1] == '/');
    } else if n < name.len() {
        assert(path[path.len() - n - 1] == name[name.len() - n - 1]);
    }
    assert(path.skip(path.len() - n) =~= name);
}

/// A file is known by its name: the extension is what follows the last dot, the
/// title what stands before it, wherever the file lies and however often a slash
/// ends its directory's name.
pub proof fn a_file_is_known_by_its_name(
    directory: Seq<char>,
    stem: Seq<char>,
    extension: Seq<char>,
)
    requires
        directory.len() > 0 ==> directory.last() == '/',
        stem.len() > 0,
        extension.len() > 0,
        forall|i: int| 0 <= i < stem.len() ==> stem[i] != '/',
        forall|i: int| 0 <= i < extension.len() ==> extension[i] != '/' && extension[i] != '.',
    ensures
        extension_of(directory + stem + "."@ + extension) == extension,
        title_of(directory + stem + "."@ + extension) == stem,
{
    reveal_strlit(".");
    let name = stem + "."@ + extension;
    assert(name[stem.len() as int] == '.');
    assert(name.len() >= 3);
    assert forall|i: int| 0 <= i < name.len() implies name[i] != '/' by {
        if i < stem.len() {
            assert(name[i] == stem[i]);
        } else if i > stem.len() {
            assert(name[i] == extension[i - stem.len() - 1]);
        }
    }
    a_name_after_a_slash(directory, name);
    assert(directory + stem + "."@ + extension =~= directory + name);
    after_last_is_last(name, '.');
    let n = after_last(name, '.');
    if n > extension.len() {
        assert(name[stem.len() as int] == '.');
    } else if n < extension.len() {
        assert(name[name.len() - n - 1] == extension[extension.len() - n - 1]);
    }
    assert(name.take(stem.len() as int) =~= stem);
    assert(name.skip(name.len() - n) =~= extension);
}

/// A name without a dot is all title, and its file has no format that is known.
pub proof fn a_name_without_a_dot_has_no_extension(directory: Seq<char>, name: Seq<char>)
    requires
        directory.len() > 0 ==> directory.last() == '/',
        name.len() > 0,
        forall|i: int| 0 <= i < name.len() ==> name[i] != '/' && name[i] != '.',
    ensures
        extension_of(directory + name).len() == 0,
        title_of(directory + name) == name,
{
    assert(name[0] != '.');
    a_name_after_a_slash(directory, name);
    after_last_is_last(name, '.');
    assert(after_last(name, '.') == name.len());
}

/// What a file is goes with how it is announced: a photo as an image, a video as
/// one, and music as audio. The formats are those that the receiver plays, and no
/// others.
pub proof fn a_format_is_announced_as_its_kind(extension: Seq<char>)
    ensures
        format_of(extension) matches Some((kind, content_type)) ==> {
            &&& kind == MediaKind::Photo <==> begins_with(content_type, "image/"@)
            &&& kind == MediaKind::Video <==> begins_with(content_type, "video/"@)
            &&& kind == MediaKind::Music <==> begins_with(content_type, "audio/"@)
            &&& content_type == "image/jpeg"@ <==> extension == "jpg"@ || extension == "jpeg"@
            &&& content_type == "video/mp4"@ <==> extension == "mp4"@ || extension == "m4v"@
            &&& content_type == "audio/mp4"@ <==> extension == "m4a"@ || extension == "aac"@
            &&& content_type == "audio/ogg"@ <==> extension == "ogg"@ || extension == "opus"@
            &&& extension == "png"@ || extension == "gif"@ || extension == "webp"@ || extension
                == "bmp"@ ==> content_type == "image/"@ + extension
            &&& extension == "webm"@ ==> content_type == "video/"@ + extension
            &&& extension == "wav"@ || extension == "flac"@ ==> content_type == "audio/"@
                + extension
            &&& extension == "mp3"@ ==> content_type == "audio/mpeg"@
        },
        format_of(extension) is Some <==> {
            ||| extension == "jpg"@ || extension == "jpeg"@ || extension == "png"@ || extension
                == "gif"@ || extension == "webp"@ || extension == "bmp"@
            ||| extension == "mp4"@ || extension == "m4v"@ || extension == "webm"@
            ||| extension == "mp3"@ || extension == "m4a"@ || extension == "aac"@ || extension
                == "wav"@ || extension == "ogg"@ || extension == "opus"@ || extension == "flac"@
        },
{
    reveal_strlit("image/");
    reveal_strlit("video/");
    reveal_strlit("audio/");
    reveal_strlit("image/jpeg");
    reveal_strlit("image/png");
    reveal_strlit("image/gif");
    reveal_strlit("image/webp");
    reveal_strlit("image/bmp");
    reveal_strlit("video/mp4");
    reveal_strlit("video/webm");
    reveal_strlit("audio/mpeg");
    reveal_strlit("audio/mp4");
    reveal_strlit("audio/wav");
    reveal_strlit("audio/ogg");
    reveal_strlit("audio/flac");
    reveal_strlit("jpg");
    reveal_strlit("jpeg");
    reveal_strlit("png");
    reveal_strlit("gif");
    reveal_strlit("webp");
    reveal_strlit("bmp");
    reveal_strlit("mp4");
    reveal_strlit("m4v");
    reveal_strlit("webm");
    reveal_strlit("mp3");
    reveal_strlit("m4a");
    reveal_strlit("aac");
    reveal_strlit("wav");
    reveal_strlit("ogg");
    reveal_strlit("opus");
    reveal_strlit("flac");
    assert("jpg"@.len() == 3 && "jpg"@[0] == 'j' && "jpg"@[1] == 'p' && "jpg"@[2] == 'g');
    assert("jpeg"@.len() == 4 && "jpeg"@[0] == 'j' && "jpeg"@[1] == 'p' && "jpeg"@[2] == 'e');
    assert("png"@.len() == 3 && "png"@[0] == 'p' && "png"@[1] == 'n' && "png"@[2] == 'g');
    assert("gif"@.len() == 3 && "gif"@[0] == 'g' && "gif"@[1] == 'i' && "gif"@[2] == 'f');
    assert("webp"@.len() == 4 && "webp"@[0] == 'w' && "webp"@[1] == 'e' && "webp"@[2] == 'b');
    assert("bmp"@.len() == 3 && "bmp"@[0] == 'b' && "bmp"@[1] == 'm' && "bmp"@[2] == 'p');
    assert("mp4"@.len() == 3 && "mp4"@[0] == 'm' && "mp4"@[1] == 'p' && "mp4"@[2] == '4');
    assert("m4v"@.len() == 3 && "m4v"@[0] == 'm' && "m4v"@[1] == '4' && "m4v"@[2] == 'v');
    assert("webm"@.len() == 4 && "webm"@[0] == 'w' && "webm"@[1] == 'e' && "webm"@[2] == 'b');
    assert("mp3"@.len() == 3 && "mp3"@[0] == 'm' && "mp3"@[1] == 'p' && "mp3"@[2] == '3');
    assert("m4a"@.len() == 3 && "m4a"@[0] == 'm' && "m4a"@[1] == '4' && "m4a"@[2] == 'a');
    assert("aac"@.len() == 3 && "aac"@[0] == 'a' && "aac"@[1] == 'a' && "aac"@[2] == 'c');
    assert("wav"@.len() == 3 && "wav"@[0] == 'w' && "wav"@[1] == 'a' && "wav"@[2] == 'v');
    assert("ogg"@.len() == 3 && "ogg"@[0] == 'o' && "ogg"@[1] == 'g' && "ogg"@[2] == 'g');
    assert("opus"@.len() == 4 && "opus"@[0] == 'o' && "opus"@[1] == 'p' && "opus"@[2] == 'u');
    assert("flac"@.len() == 4 && "flac"@[0] == 'f' && "flac"@[1] == 'l' && "flac"@[2] == 'a');
    assert("image/jpeg"@.len() == 10 && "image/jpeg"@[0] == 'i' && "image/jpeg"@[6] == 'j' && "image/jpeg"@[7] == 'p');
    assert("image/png"@.len() == 9 && "image/png"@[0] == 'i' && "image/png"@[6] == 'p' && "image/png"@[7] == 'n');
    assert("image/gif"@.len() == 9 && "image/gif"@[0] == 'i' && "image/gif"@[6] == 'g' && "image/gif"@[7] == 'i');
    assert("image/webp"@.len() == 10 && "image/webp"@[0] == 'i' && "image/webp"@[6] == 'w' && "image/webp"@[7] == 'e');
    assert("image/bmp"@.len() == 9 && "image/bmp"@[0] == 'i' && "image/bmp"@[6] == 'b' && "image/bmp"@[7] == 'm');
    assert("video/mp4"@.len() == 9 && "video/mp4"@[0] == 'v' && "video/mp4"@[6] == 'm' && "video/mp4"@[7] == 'p');
    assert("video/webm"@.len() == 10 && "video/webm"@[0] == 'v' && "video/webm"@[6] == 'w' && "video/webm"@[7] == 'e');
    assert("audio/mpeg"@.len() == 10 && "audio/mpeg"@[0] == 'a' && "audio/mpeg"@[6] == 'm' && "audio/mpeg"@[7] == 'p');
    assert("audio/mp4"@.len() == 9 && "audio/mp4"@[0] == 'a' && "audio/mp4"@[6] == 'm' && "audio/mp4"@[7] == 'p');
    assert("audio/wav"@.len() == 9 && "audio/wav"@[0] == 'a' && "audio/wav"@[6] == 'w' && "audio/wav"@[7] == 'a');
    assert("audio/ogg"@.len() == 9 && "audio/ogg"@[0] == 'a' && "audio/ogg"@[6] == 'o' && "audio/ogg"@[7] == 'g');
    assert("audio/flac"@.len() == 10 && "audio/flac"@[0] == 'a' && "audio/flac"@[6] == 'f' && "audio/flac"@[7] == 'l');
    assert("webp"@[3] != "webm"@[3]);
    if let Some((kind, content_type)) = format_of(extension) {
        let image = "image/"@;
        let video = "video/"@;
        let audio = "audio/"@;
        let first = content_type.take(6);
        assert(first[0] == content_type[0]);
        assert(image[0] == 'i' && video[0] == 'v' && audio[0] == 'a');
        match kind {
            MediaKind::Photo => assert(first =~= image),
            MediaKind::Video => assert(first =~= video),
            MediaKind::Music => assert(first =~= audio),
        }
        assert("image/png"@ =~= "image/"@ + "png"@);
        assert("image/gif"@ =~= "image/"@ + "gif"@);
        assert("image/webp"@ =~= "image/"@ + "webp"@);
        assert("image/bmp"@ =~= "image/"@ + "bmp"@);
        assert("video/webm"@ =~= "video/"@ + "webm"@);
        assert("audio/wav"@ =~= "audio/"@ + "wav"@);
        assert("audio/flac"@ =~= "audio/"@ + "flac"@);
    }
}

proof fn a_start_line_has_its_words(method: Seq<char>, target: Seq<char>, headers: Seq<char>)
    requires
        is_word(method),
        is_word(target),
    ensures
        ({
            let request = method + " "@ + target + " HTTP/1.1\r\n"@ + headers;
            &&& two_words(first_line(request).0) == (method, target)
            &&& first_line(request).1 == headers
        }),
{
    reveal_strlit(" ");
    reveal_strlit(" HTTP/1.1\r\n");
    let version = seq![' ', 'H', 'T', 'T', 'P', '/', '1', '.', '1'];
    let rest = seq![' '] + target + version;
    let line = method + rest;
    let whole = line + seq!['\r'];
    let request = method + " "@ + target + " HTTP/1.1\r\n"@ + headers;
    assert(request =~= whole + seq!['\n'] + headers);
    assert forall|i: int| 0 <= i < whole.len() implies whole[i] != '\n' by {
        if i < method.len() {
            assert(whole[i] == method[i]);
            assert(!is_space(method[i]));
        } else if method.len() < i && i <= method.len() + target.len() {
            assert(whole[i] == target[i - method.len() - 1]);
            assert(!is_space(target[i - method.len() - 1]));
        }
    }
    first_index_unique(request, '\n', whole.len() as int);
    assert(request.take(whole.len() as int) =~= whole);
    assert(whole.drop_last() =~= line);
    assert(request.skip(whole.len() as int + 1) =~= headers);
    assert(rest[0] == ' ');
    a_text_begins_with_its_first_word(' ', method, rest);
    assert(version[0] == ' ');
    a_text_begins_with_its_first_word(' ', target, version);
}

/// A request for a file is read as it is written: the path that addresses the file
/// decides which it is, the headers after the first line decide the range, and
/// only `HEAD`, in any case, asks for the headers alone.
pub proof fn a_file_request_is_read_as_written(
    method: Seq<char>,
    token: Seq<char>,
    index: usize,
    headers: Seq<char>,
    files: Seq<MediaFile>,
)
    requires
        is_word(method),
        forall|i: int|
            0 <= i < token.len() ==> token[i] != '/' && token[i] != '?' && !is_space(
                #[trigger] token[i],
            ),
        index < files.len(),
    ensures
        file_request(
            method + " "@ + file_path(token, index as nat) + " HTTP/1.1\r\n"@ + headers,
            files,
            token,
        ) == (FileRequest::File {
            index,
            range: match range_header(lines(headers)) {
                Some(value) => range_of(value, files[index as int].size),
                None => None,
            },
            head_only: lowered(method) == "head"@,
        }),
{
    reveal_strlit("HEAD");
    reveal_strlit("head");
    assert(lowered("HEAD"@) =~= "head"@);
    let target = file_path(token, index as nat);
    let digits = decimal(index as nat);
    decimal_reads_back(index as nat, usize::MAX as nat);
    assert forall|i: int| 0 <= i < target.len() implies !is_space(#[trigger] target[i]) by {
        if i > 0 && i <= token.len() {
            assert(target[i] == token[i - 1]);
        } else if i >= token.len() + 2 {
            assert(target[i] == digits[i - token.len() - 2]);
            assert(is_digit(digits[i - token.len() - 2]));
        }
    }
    assert forall|i: int| 0 <= i < token.len() implies token[i] != '/' && token[i] != '?' by {
        assert(!is_space(token[i]));
    }
    a_served_path_addresses_its_file(token, index as nat);
    a_start_line_has_its_words(method, target, headers);
}

/// The range of a request is what its first `Range` header gives, in any case and
/// whatever space stands around it: headers of other names, and lines that are no
/// header, are passed over, and those after it do not count.
pub proof fn the_first_range_header_counts(
    name: Seq<char>,
    value: Seq<char>,
    other: Seq<char>,
    rest: Seq<Seq<char>>,
)
    requires
        forall|i: int| 0 <= i < name.len() ==> name[i] != ':',
        forall|i: int| 0 <= i < other.len() ==> other[i] != ':',
    ensures
        lowered(name) == "range"@ ==> range_header(seq![name + ":"@ + value] + rest) == Some(
            trimmed(value),
        ),
        lowered(name) != "range"@ ==> range_header(seq![name + ":"@ + value] + rest)
            == range_header(rest),
        range_header(seq![other] + rest) == range_header(rest),
        range_header(Seq::empty()) is None,
{
    reveal_strlit(":");
    reveal_strlit("range");
    assert(lowered("range"@) =~= "range"@);
    let line = name + ":"@ + value;
    assert(line[name.len() as int] == ':');
    assert(forall|i: int| 0 <= i < name.len() ==> line[i] == name[i]);
    first_index_unique(line, ':', name.len() as int);
    assert(line.take(name.len() as int) =~= name);
    assert(line.skip(name.len() as int + 1) =~= value);
    let all = seq![line] + rest;
    assert(all[0] == line);
    assert(all.skip(1) =~= rest);
    first_index_unique(other, ':', other.len() as int);
    let none = seq![other] + rest;
    assert(none[0] == other);
    assert(none.skip(1) =~= rest);
}

/// How many bytes a transfer sends in all, where each read gives what it asked for.
pub open spec fn sent_in_all(remaining: nat) -> nat
    decreases remaining,
{
    let read = wanted_of(remaining as int);
    let left = left_of(remaining as int, read);
    if read <= 0 || left < 0 || left >= remaining {
        0
    } else {
        (read + sent_in_all(left as nat)) as nat
    }
}

/// A transfer sends exactly the bytes that it owes: as long as any are owed some
/// are read, never more than that nor than 64 KiB at a time, and what is read is
/// owed no longer. A file that ends early ends the transfer.
pub proof fn a_transfer_sends_what_it_owes(remaining: nat, read: nat)
    requires
        read <= remaining,
    ensures
        sent_in_all(remaining) == remaining,
        0 <= wanted_of(remaining as int) <= remaining,
        wanted_of(remaining as int) <= 65_536,
        remaining > 0 ==> wanted_of(remaining as int) > 0,
        read > 0 ==> left_of(remaining as int, read as int) + read == remaining,
        left_of(remaining as int, 0) == 0,
    decreases remaining,
{
    if remaining > 0 {
        let left = left_of(remaining as int, wanted_of(remaining as int));
        a_transfer_sends_what_it_owes(left as nat, 0);
    }
}

/// A file that is refused is told why: by its format, written as an extension, or
/// by having none.
pub proof fn a_refusal_names_the_format(extension: Seq<char>)
    ensures
        extension.len() > 0 ==> has_part(refusal(extension), "."@ + extension + " is not a format"@),
        extension.len() == 0 ==> has_part(refusal(extension), "no extension"@),
{
    if extension.len() > 0 {
        reveal_strlit(" is not a format");
        reveal_strlit(" is not a format this receiver plays");
        starts_with_part(refusal(extension), "."@ + extension + " is not a format"@);
    } else {
        reveal_strlit("no extension");
        reveal_strlit("a file with no extension");
        part_stands_at(refusal(extension), "no extension"@, 12);
    }
}

/// What has no name of its own is called a file.
pub proof fn what_has_no_name_is_called_a_file(path: Seq<char>)
    ensures
        file_name(path) is None ==> title_of(path) == "File"@,
        title_of(Seq::empty()) == "File"@,
{
    assert(title_of(Seq::empty()) == "File"@);
}

} // verus!
