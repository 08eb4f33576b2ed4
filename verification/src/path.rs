//! Appending to a path, and when two paths are the same.
//!
//! Paths are compared by their components: repeated and trailing slashes do not
//! count, nor do single dots but for one at the beginning.
use crate::text::{chars_of, copied, same, split_once};
use vstd::prelude::*;

verus! {

use crate::text::{first_index, first_index_is_first, first_index_unique, halves};

/// A path with a relative one appended to it.
pub open spec fn joined(base: Seq<char>, name: Seq<char>) -> Seq<char> {
    if base.len() == 0 {
        name
    } else if base.last() == '/' {
        base + name
    } else {
        base + "/"@ + name
    }
}

/// Appends a relative path to one.
pub fn join(base: &str, name: &str) -> (res: String)
    ensures
        res@ == joined(base@, name@),
{
    let chars = chars_of(base);
    let n: usize = chars.len();
    if n == 0 {
        copied(name)
    } else if chars[n - 1] == '/' {
        copied(base).concat(name)
    } else {
        copied(base).concat("/").concat(name)
    }
}

/// The components of a path.
pub ghost struct PathParts {
    /// It begins with a slash.
    pub rooted: bool,
    /// It begins with a single dot.
    pub dotted: bool,
    /// The names, the parent's two dots among them.
    pub names: Seq<Seq<char>>,
}

/// What stands before the first slash, and after it; all and nothing where there
/// is none.
pub open spec fn first_part(s: Seq<char>) -> (Seq<char>, Seq<char>) {
    match halves(s, '/') {
        Some((first, rest)) => (first, rest),
        None => (s, Seq::empty()),
    }
}

/// The names between the slashes of a path.
pub open spec fn names_in(s: Seq<char>) -> Seq<Seq<char>>
    decreases s.len(),
{
    if s.len() == 0 {
        Seq::empty()
    } else {
        proof {
            first_index_is_first(s, '/');
        }
        let (first, rest) = first_part(s);
        (if first.len() == 0 || first == seq!['.'] {
            Seq::empty()
        } else {
            seq![first]
        }) + names_in(rest)
    }
}

/// The components of a path.
pub open spec fn path_parts(s: Seq<char>) -> PathParts {
    PathParts {
        rooted: s.len() > 0 && s[0] == '/',
        dotted: first_part(s).0 == seq!['.'],
        names: names_in(s),
    }
}

/// What some texts hold.
pub open spec fn texts(parts: Seq<&[char]>) -> Seq<Seq<char>> {
    Seq::new(parts.len(), |i: int| parts[i]@)
}

fn is_dot(part: &[char]) -> (res: bool)
    ensures
        res == (part@ == seq!['.']),
{
    let res = part.len() == 1 && part[0] == '.';
    assert(res ==> part@ =~= seq!['.']);
    assert(part@ == seq!['.'] ==> part@.len() == 1 && part@[0] == '.');
    res
}

fn first_of(s: &[char]) -> (res: (&[char], &[char]))
    ensures
        (res.0@, res.1@) == first_part(s@),
{
    match split_once(s, '/') {
        Some((first, rest)) => (first, rest),
        None => {
            let rest = vstd::slice::slice_subrange(s, 0, 0);
            assert(rest@ =~= Seq::<char>::empty());
            (s, rest)
        },
    }
}

fn names(s: &[char]) -> (res: Vec<&[char]>)
    ensures
        texts(res@) == names_in(s@),
{
    let mut out: Vec<&[char]> = Vec::new();
    let mut rest = s;
    assert(texts(out@) =~= Seq::<Seq<char>>::empty());
    assert(names_in(s@) =~= texts(out@) + names_in(rest@));
    while rest.len() > 0
        invariant
            names_in(s@) == texts(out@) + names_in(rest@),
        decreases rest@.len(),
    {
        let (first, after) = first_of(rest);
        proof {
            first_index_is_first(rest@, '/');
        }
        let ghost before = texts(out@);
        if first.len() > 0 && !is_dot(first) {
            out.push(first);
            assert(texts(out@) =~= before + seq![first@]);
            assert(names_in(s@) =~= texts(out@) + names_in(after@));
        } else {
            assert(names_in(rest@) =~= names_in(after@));
        }
        rest = after;
    }
    assert(texts(out@) + names_in(rest@) =~= texts(out@));
    out
}

fn same_names(a: &Vec<&[char]>, b: &Vec<&[char]>) -> (res: bool)
    ensures
        res == (texts(a@) == texts(b@)),
{
    if a.len() != b.len() {
        assert(texts(a@).len() != texts(b@).len());
        return false;
    }
    let mut i: usize = 0;
    while i < a.len()
        invariant
            i <= a@.len(),
            a@.len() == b@.len(),
            forall|j: int| 0 <= j < i ==> (#[trigger] a@[j])@ == b@[j]@,
        decreases a@.len() - i,
    {
        if !same(a[i], b[i]) {
            assert(texts(a@)[i as int] != texts(b@)[i as int]);
            return false;
        }
        i += 1;
    }
    assert(texts(a@) =~= texts(b@));
    true
}

/// Do two paths have the same components?
pub fn same_path(a: &str, b: &str) -> (res: bool)
    ensures
        res == (path_parts(a@) == path_parts(b@)),
{
    let a = chars_of(a);
    let b = chars_of(b);
    let (first_a, _) = first_of(a.as_slice());
    let (first_b, _) = first_of(b.as_slice());
    let rooted_a = a.len() > 0 && a[0] == '/';
    let rooted_b = b.len() > 0 && b[0] == '/';
    let dotted_a = is_dot(first_a);
    let dotted_b = is_dot(first_b);
    let names_a = names(a.as_slice());
    let names_b = names(b.as_slice());
    rooted_a == rooted_b && dotted_a == dotted_b && same_names(&names_a, &names_b)
}

/// The names of a path are those between its slashes, in order: a slash parts the
/// names before it from those after it, and text without one is a single name, but
/// for nothing at all and a single dot, which name nothing.
pub proof fn a_slash_parts_names(a: Seq<char>, b: Seq<char>)
    ensures
        names_in(a + seq!['/'] + b) == names_in(a) + names_in(b),
        (forall|i: int| 0 <= i < b.len() ==> b[i] != '/') ==> names_in(b) == (if b.len() == 0 || b
            == seq!['.'] {
            Seq::<Seq<char>>::empty()
        } else {
            seq![b]
        }),
    decreases a.len(),
{
    let none = Seq::<char>::empty();
    assert(names_in(none) =~= Seq::<Seq<char>>::empty());
    if forall|i: int| 0 <= i < b.len() ==> b[i] != '/' {
        first_index_unique(b, '/', b.len() as int);
        assert(names_in(b) =~= (if b.len() == 0 || b == seq!['.'] {
            Seq::<Seq<char>>::empty()
        } else {
            seq![b]
        }));
    }
    let whole = a + seq!['/'] + b;
    first_index_is_first(a, '/');
    let at = first_index(a, '/');
    assert(forall|i: int| 0 <= i < a.len() ==> whole[i] == a[i]);
    assert(whole[a.len() as int] == '/');
    if at < a.len() {
        first_index_unique(whole, '/', at);
        assert(whole.take(at) =~= a.take(at));
        let rest = a.skip(at + 1);
        assert(whole.skip(at + 1) =~= rest + seq!['/'] + b);
        a_slash_parts_names(rest, b);
        assert(names_in(whole) =~= names_in(a) + names_in(b));
    } else {
        first_index_unique(whole, '/', a.len() as int);
        assert(whole.take(a.len() as int) =~= a);
        assert(whole.skip(a.len() as int + 1) =~= b);
        if a.len() > 0 {
            assert(names_in(a) =~= (if a == seq!['.'] {
                Seq::<Seq<char>>::empty()
            } else {
                seq![a]
            }));
        }
        assert(names_in(whole) =~= names_in(a) + names_in(b));
    }
}

/// What a path was joined from stands in it in order: the base's names, then the
/// appended one's, under the base's root.
pub proof fn joining_appends_names(base: Seq<char>, name: Seq<char>)
    ensures
        path_parts(joined(base, name)).names == path_parts(base).names + path_parts(name).names,
        base.len() > 0 ==> path_parts(joined(base, name)).rooted == path_parts(base).rooted,
        base.len() == 0 ==> joined(base, name) == name,
{
    reveal_strlit("/");
    assert("/"@ =~= seq!['/']);
    let none = Seq::<char>::empty();
    assert(names_in(none) =~= Seq::<Seq<char>>::empty());
    if base.len() == 0 {
        assert(names_in(base) + names_in(name) =~= names_in(name));
    } else if base.last() == '/' {
        let front = base.drop_last();
        a_slash_parts_names(front, name);
        a_slash_parts_names(front, none);
        assert(front + seq!['/'] + none =~= base);
        assert(front + seq!['/'] + name =~= base + name);
        assert(names_in(front) + names_in(none) =~= names_in(front));
    } else {
        a_slash_parts_names(base, name);
    }
}

/// A path is rooted where it begins with a slash, and only there.
pub proof fn a_slash_at_the_start_is_the_root(s: Seq<char>)
    ensures
        path_parts(seq!['/'] + s).rooted,
        s.len() > 0 && s[0] != '/' ==> !path_parts(s).rooted,
        s.len() == 0 ==> !path_parts(s).rooted,
        path_parts(seq!['.', '/'] + s).dotted,
        !path_parts(seq!['/'] + s).dotted,
{
    let dotted = seq!['.', '/'] + s;
    assert(dotted[0] == '.' && dotted[1] == '/');
    first_index_unique(dotted, '/', 1);
    assert(dotted.take(1) =~= seq!['.']);
    let rooted = seq!['/'] + s;
    assert(rooted[0] == '/');
    first_index_unique(rooted, '/', 0);
    assert(rooted.take(0).len() == 0);
}

} // verus!
