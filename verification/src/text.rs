//! Text as sequences of characters: trimming, splitting, and decimal and
//! hexadecimal numbers.
use vstd::prelude::*;

verus! {

broadcast use vstd::slice::group_slice_axioms;

/// `String::push` appends one character.
pub assume_specification[ String::push ](s: &mut String, c: char)
    ensures
        final(s)@ == old(s)@.push(c),
;

/// The characters of a string.
pub fn chars_of(s: &str) -> (res: Vec<char>)
    ensures
        res@ == s@,
{
    let mut res: Vec<char> = Vec::new();
    for c in it: s.chars()
        invariant
            it.seq() == s@,
            res@ == s@.take(it.index() as int),
    {
        assert(s@.take(it.index() + 1) =~= s@.take(it.index() as int).push(c));
        res.push(c);
    }
    assert(s@.take(s@.len() as int) =~= s@);
    res
}

/// The string made of some characters.
pub fn string_of(chars: &[char]) -> (res: String)
    ensures
        res@ == chars@,
{
    let mut res: String = String::new();
    let mut i: usize = 0;
    while i < chars.len()
        invariant
            i <= chars@.len(),
            res@ == chars@.take(i as int),
        decreases chars@.len() - i,
    {
        res.push(chars[i]);
        assert(chars@.take(i + 1) =~= chars@.take(i as int).push(chars@[i as int]));
        i += 1;
    }
    assert(chars@.take(i as int) =~= chars@);
    res
}

/// The text of a string that may be missing.
pub open spec fn text_of(s: Option<String>) -> Option<Seq<char>> {
    match s {
        Some(text) => Some(text@),
        None => None,
    }
}

/// A text, where there is one.
pub open spec fn content(text: Option<&str>) -> Option<Seq<char>> {
    match text {
        Some(text) => Some(text@),
        None => None,
    }
}

/// A copy of a string that may be missing.
pub fn copied_option(s: &Option<String>) -> (res: Option<String>)
    ensures
        text_of(res) == text_of(*s),
{
    match s {
        Some(text) => Some(text.clone()),
        None => None,
    }
}

/// A copy of a string slice.
pub fn copied(s: &str) -> (res: String)
    ensures
        res@ == s@,
{
    s.to_owned()
}

/// Whether two runs of characters are the same.
pub fn same(a: &[char], b: &[char]) -> (res: bool)
    ensures
        res == (a@ == b@),
{
    if a.len() != b.len() {
        return false;
    }
    let mut i: usize = 0;
    while i < a.len()
        invariant
            i <= a@.len(),
            a@.len() == b@.len(),
            forall|j: int| 0 <= j < i ==> a@[j] == b@[j],
        decreases a@.len() - i,
    {
        if a[i] != b[i] {
            return false;
        }
        i += 1;
    }
    assert(a@ =~= b@);
    true
}

/// Whether a run of characters is exactly `text`.
pub fn is_text(chars: &[char], text: &str) -> (res: bool)
    ensures
        res == (chars@ == text@),
{
    let other = chars_of(text);
    same(chars, other.as_slice())
}

/// Whether two strings are the same.
pub fn same_text(a: &str, b: &str) -> (res: bool)
    ensures
        res == (a@ == b@),
{
    let left = chars_of(a);
    is_text(left.as_slice(), b)
}

/// The characters with the Unicode `White_Space` property.
pub open spec fn is_space(c: char) -> bool {
    let n = c as u32;
    ||| 0x09 <= n <= 0x0D
    ||| n == 0x20
    ||| n == 0x85
    ||| n == 0xA0
    ||| n == 0x1680
    ||| 0x2000 <= n <= 0x200A
    ||| n == 0x2028
    ||| n == 0x2029
    ||| n == 0x202F
    ||| n == 0x205F
    ||| n == 0x3000
}

/// Whether `c` has the Unicode `White_Space` property.
pub fn is_whitespace(c: char) -> (res: bool)
    ensures
        res == is_space(c),
{
    let n: u32 = c as u32;
    (0x09 <= n && n <= 0x0D) || n == 0x20 || n == 0x85 || n == 0xA0 || n == 0x1680 || (0x2000 <= n
        && n <= 0x200A) || n == 0x2028 || n == 0x2029 || n == 0x202F || n == 0x205F || n == 0x3000
}

/// The control characters: Unicode general category `Cc`.
pub open spec fn is_control_char(c: char) -> bool {
    let n = c as u32;
    n <= 0x1F || 0x7F <= n <= 0x9F
}

/// Whether `c` is a control character.
pub fn is_control(c: char) -> (res: bool)
    ensures
        res == is_control_char(c),
{
    let n: u32 = c as u32;
    n <= 0x1F || (0x7F <= n && n <= 0x9F)
}

/// `s` without the whitespace at its start.
pub open spec fn trim_start(s: Seq<char>) -> Seq<char>
    decreases s.len(),
{
    if s.len() > 0 && is_space(s[0]) {
        trim_start(s.skip(1))
    } else {
        s
    }
}

/// `s` without the whitespace at its end.
pub open spec fn trim_end(s: Seq<char>) -> Seq<char>
    decreases s.len(),
{
    if s.len() > 0 && is_space(s.last()) {
        trim_end(s.drop_last())
    } else {
        s
    }
}

/// `s` without the whitespace around it.
pub open spec fn trimmed(s: Seq<char>) -> Seq<char> {
    trim_end(trim_start(s))
}

/// Drops the whitespace at the start.
pub fn without_leading_space(s: &[char]) -> (res: &[char])
    ensures
        res@ == trim_start(s@),
{
    let mut i: usize = 0;
    assert(s@.skip(0) =~= s@);
    while i < s.len() && is_whitespace(s[i])
        invariant
            i <= s@.len(),
            trim_start(s@) == trim_start(s@.skip(i as int)),
        decreases s@.len() - i,
    {
        assert(s@.skip(i as int).skip(1) =~= s@.skip(i + 1));
        i += 1;
    }
    assert(s@.skip(i as int) =~= s@.subrange(i as int, s@.len() as int));
    vstd::slice::slice_subrange(s, i, s.len())
}

/// Drops the whitespace at the end.
pub fn without_trailing_space(s: &[char]) -> (res: &[char])
    ensures
        res@ == trim_end(s@),
{
    let mut n: usize = s.len();
    assert(s@.take(n as int) =~= s@);
    while n > 0 && is_whitespace(s[n - 1])
        invariant
            n <= s@.len(),
            trim_end(s@) == trim_end(s@.take(n as int)),
        decreases n,
    {
        assert(s@.take(n as int).drop_last() =~= s@.take(n - 1));
        n -= 1;
    }
    assert(s@.take(n as int) =~= s@.subrange(0, n as int));
    vstd::slice::slice_subrange(s, 0, n)
}

/// Drops the whitespace around.
pub fn trim(s: &[char]) -> (res: &[char])
    ensures
        res@ == trimmed(s@),
{
    without_trailing_space(without_leading_space(s))
}

/// Trimming the end of a concatenation: the second part's, and the first part's
/// only where nothing of the second is left.
pub proof fn trim_end_of_concatenation(a: Seq<char>, b: Seq<char>)
    ensures
        trim_end(a + b) == (if trim_end(b).len() > 0 { a + trim_end(b) } else { trim_end(a) }),
    decreases b.len(),
{
    if b.len() == 0 {
        assert(a + b =~= a);
    } else {
        assert((a + b).last() == b.last());
        if is_space(b.last()) {
            assert((a + b).drop_last() =~= a + b.drop_last());
            trim_end_of_concatenation(a, b.drop_last());
        }
    }
}

/// The two ends of a text can be trimmed in either order.
pub proof fn trimming_commutes(s: Seq<char>)
    ensures
        trim_start(trim_end(s)) == trim_end(trim_start(s)),
    decreases s.len(),
{
    if s.len() > 0 {
        let first = seq![s[0]];
        let rest = s.skip(1);
        assert(s =~= first + rest);
        trim_end_of_concatenation(first, rest);
        trimming_commutes(rest);
        if is_space(s[0]) {
            assert(first.drop_last() =~= Seq::empty());
            if trim_end(rest).len() > 0 {
                assert((first + trim_end(rest)).skip(1) =~= trim_end(rest));
            } else {
                assert(trim_end(Seq::<char>::empty()) =~= Seq::empty());
                assert(trim_start(trim_end(rest)).len() == 0);
                assert(trim_start(trim_end(rest)) =~= trim_start(trim_end(s)));
            }
        } else {
            assert(trim_end(first) =~= first);
            assert(trim_end(s)[0] == s[0]);
        }
    }
}

/// Trimming the end a second time changes nothing.
pub proof fn trim_end_is_idempotent(s: Seq<char>)
    ensures
        trim_end(trim_end(s)) == trim_end(s),
        trim_end(s).len() > 0 ==> !is_space(trim_end(s).last()),
    decreases s.len(),
{
    if s.len() > 0 && is_space(s.last()) {
        trim_end_is_idempotent(s.drop_last());
    }
}

/// A trimmed text stays as it is when it is trimmed again.
pub proof fn trimming_is_idempotent(s: Seq<char>)
    ensures
        trimmed(trimmed(s)) == trimmed(s),
{
    let t = trim_start(s);
    trim_start_is_idempotent(s);
    trimming_commutes(t);
    trim_end_is_idempotent(t);
}

proof fn trim_start_is_idempotent(s: Seq<char>)
    ensures
        trim_start(trim_start(s)) == trim_start(s),
    decreases s.len(),
{
    if s.len() > 0 && is_space(s[0]) {
        trim_start_is_idempotent(s.skip(1));
    }
}

/// A text that neither begins nor ends with whitespace is trimmed.
pub proof fn trimmed_already(s: Seq<char>)
    requires
        s.len() > 0,
        !is_space(s[0]),
        !is_space(s.last()),
    ensures
        trimmed(s) == s,
{
}

/// Trimming a text that begins with one more whitespace, its end trimmed first,
/// gives the text trimmed.
pub proof fn trimmed_after_space(space: char, s: Seq<char>)
    requires
        is_space(space),
    ensures
        trimmed(seq![space] + trim_end(s)) == trimmed(s),
{
    let t = seq![space] + trim_end(s);
    assert(t.skip(1) =~= trim_end(s));
    trimming_commutes(s);
    trim_end_is_idempotent(trim_start(s));
}

/// Where `c` first stands in `s`; the length of `s` where it does not.
pub open spec fn first_index(s: Seq<char>, c: char) -> int
    decreases s.len(),
{
    if s.len() == 0 || s[0] == c {
        0
    } else {
        1 + first_index(s.skip(1), c)
    }
}

/// What a first index is: the character stands there, and nowhere before.
pub proof fn first_index_is_first(s: Seq<char>, c: char)
    ensures
        0 <= first_index(s, c) <= s.len(),
        first_index(s, c) < s.len() ==> s[first_index(s, c)] == c,
        forall|i: int| 0 <= i < first_index(s, c) ==> s[i] != c,
    decreases s.len(),
{
    if s.len() > 0 && s[0] != c {
        first_index_is_first(s.skip(1), c);
        assert forall|i: int| 0 <= i < first_index(s, c) implies s[i] != c by {
            if i > 0 {
                assert(s[i] == s.skip(1)[i - 1]);
            }
        }
    }
}

/// An index before which the character does not stand, and where it stands or
/// the text ends, is its first index.
pub proof fn first_index_unique(s: Seq<char>, c: char, at: int)
    requires
        0 <= at <= s.len(),
        at < s.len() ==> s[at] == c,
        forall|i: int| 0 <= i < at ==> s[i] != c,
    ensures
        first_index(s, c) == at,
{
    first_index_is_first(s, c);
}

/// Finds where `c` first stands.
pub fn find(s: &[char], c: char) -> (res: usize)
    ensures
        res == first_index(s@, c),
        res <= s@.len(),
{
    let mut i: usize = 0;
    while i < s.len() && s[i] != c
        invariant
            i <= s@.len(),
            forall|j: int| 0 <= j < i ==> s@[j] != c,
        decreases s@.len() - i,
    {
        i += 1;
    }
    proof {
        first_index_unique(s@, c, i as int);
    }
    i
}

/// The two sides of the first `c` in `s`.
pub open spec fn halves(s: Seq<char>, c: char) -> Option<(Seq<char>, Seq<char>)> {
    let i = first_index(s, c);
    if i < s.len() {
        Some((s.take(i), s.skip(i + 1)))
    } else {
        None
    }
}

/// Splits at the first `c`.
pub fn split_once(s: &[char], c: char) -> (res: Option<(&[char], &[char])>)
    ensures
        match res {
            Some((before, after)) => halves(s@, c) == Some((before@, after@)),
            None => halves(s@, c) is None,
        },
{
    let i: usize = find(s, c);
    if i == s.len() {
        return None;
    }
    assert(s@.subrange(0, i as int) =~= s@.take(i as int));
    assert(s@.subrange(i + 1, s@.len() as int) =~= s@.skip(i + 1));
    Some(
        (vstd::slice::slice_subrange(s, 0, i), vstd::slice::slice_subrange(s, i + 1, s.len())),
    )
}

/// What stands before the first `c`, all of it where there is none.
pub open spec fn before(s: Seq<char>, c: char) -> Seq<char> {
    s.take(first_index(s, c))
}

/// Cuts at the first `c`.
pub fn up_to(s: &[char], c: char) -> (res: &[char])
    ensures
        res@ == before(s@, c),
{
    let i: usize = find(s, c);
    assert(s@.subrange(0, i as int) =~= s@.take(i as int));
    vstd::slice::slice_subrange(s, 0, i)
}

/// Whether `s` begins with `prefix`.
pub open spec fn begins_with(s: Seq<char>, prefix: Seq<char>) -> bool {
    prefix.len() <= s.len() && s.take(prefix.len() as int) == prefix
}

/// What follows `prefix` at the start of `s`.
pub open spec fn after_prefix(s: Seq<char>, prefix: Seq<char>) -> Option<Seq<char>> {
    if begins_with(s, prefix) {
        Some(s.skip(prefix.len() as int))
    } else {
        None
    }
}

/// Removes `prefix` from the start.
pub fn strip_prefix<'a>(s: &'a [char], prefix: &str) -> (res: Option<&'a [char]>)
    ensures
        match res {
            Some(rest) => after_prefix(s@, prefix@) == Some(rest@),
            None => after_prefix(s@, prefix@) is None,
        },
{
    let wanted = chars_of(prefix);
    let n: usize = wanted.len();
    if n > s.len() {
        return None;
    }
    assert(s@.subrange(0, n as int) =~= s@.take(n as int));
    if !same(vstd::slice::slice_subrange(s, 0, n), wanted.as_slice()) {
        return None;
    }
    assert(s@.subrange(n as int, s@.len() as int) =~= s@.skip(n as int));
    Some(vstd::slice::slice_subrange(s, n, s.len()))
}

/// A line without the carriage return that a line break may begin with.
pub open spec fn without_cr(line: Seq<char>) -> Seq<char> {
    if line.len() > 0 && line.last() == '\r' {
        line.drop_last()
    } else {
        line
    }
}

/// The first line of a text that is not empty, and what follows it.
pub open spec fn first_line(s: Seq<char>) -> (Seq<char>, Seq<char>) {
    let i = first_index(s, '\n');
    if i < s.len() {
        (without_cr(s.take(i)), s.skip(i + 1))
    } else {
        (s, Seq::empty())
    }
}

/// The lines of a text. A line ends at a line feed, with or without a carriage
/// return before it; the last one needs no ending.
pub open spec fn lines(s: Seq<char>) -> Seq<Seq<char>>
    decreases s.len(),
{
    if s.len() == 0 {
        Seq::empty()
    } else {
        proof {
            first_line_shrinks(s);
        }
        seq![first_line(s).0] + lines(first_line(s).1)
    }
}

/// What follows the first line of a text is shorter than the text.
pub proof fn first_line_shrinks(s: Seq<char>)
    ensures
        s.len() > 0 ==> first_line(s).1.len() < s.len(),
{
    first_index_is_first(s, '\n');
}

/// Takes the first line off a text, `None` where nothing is left.
pub fn next_line(s: &[char]) -> (res: Option<(&[char], &[char])>)
    ensures
        match res {
            Some((line, rest)) => s@.len() > 0 && first_line(s@) == (line@, rest@) && rest@.len()
                < s@.len() && lines(s@) == seq![line@] + lines(rest@),
            None => s@.len() == 0 && lines(s@) == Seq::<Seq<char>>::empty(),
        },
{
    if s.len() == 0 {
        return None;
    }
    proof {
        first_line_shrinks(s@);
    }
    let i: usize = find(s, '\n');
    if i == s.len() {
        let rest = vstd::slice::slice_subrange(s, i, i);
        assert(rest@ =~= Seq::<char>::empty());
        return Some((s, rest));
    }
    let mut end: usize = i;
    if i > 0 && s[i - 1] == '\r' {
        end = i - 1;
    }
    let line = vstd::slice::slice_subrange(s, 0, end);
    let rest = vstd::slice::slice_subrange(s, i + 1, s.len());
    assert(line@ =~= without_cr(s@.take(i as int)));
    assert(rest@ =~= s@.skip(i + 1));
    Some((line, rest))
}

/// The first line of `line`, a line feed and `rest` is `line`, less a carriage
/// return at its end.
pub proof fn lines_of_line(line: Seq<char>, rest: Seq<char>)
    requires
        forall|i: int| 0 <= i < line.len() ==> line[i] != '\n',
    ensures
        lines(line + seq!['\n'] + rest) == seq![without_cr(line)] + lines(rest),
{
    let s = line + seq!['\n'] + rest;
    first_index_unique(s, '\n', line.len() as int);
    assert(s.take(line.len() as int) =~= line);
    assert(s.skip(line.len() as int + 1) =~= rest);
}

/// The lines of whole lines and more are the lines of both.
pub proof fn lines_of_concatenation(a: Seq<char>, b: Seq<char>)
    requires
        a.len() > 0 ==> a.last() == '\n',
    ensures
        lines(a + b) == lines(a) + lines(b),
    decreases a.len(),
{
    if a.len() == 0 {
        assert(a + b =~= b);
        assert(lines(a) + lines(b) =~= lines(b));
    } else {
        let i = first_index(a, '\n');
        first_index_is_first(a, '\n');
        assert(a[a.len() - 1] == '\n');
        first_index_unique(a + b, '\n', i);
        let rest = a.skip(i + 1);
        assert((a + b).take(i) =~= a.take(i));
        assert((a + b).skip(i + 1) =~= rest + b);
        lines_of_concatenation(rest, b);
        assert(lines(a + b) =~= lines(a) + lines(b));
    }
}

/// How many characters of `s` stand before its first whitespace.
pub open spec fn word_len(s: Seq<char>) -> nat
    decreases s.len(),
{
    if s.len() == 0 || is_space(s[0]) {
        0
    } else {
        1 + word_len(s.skip(1))
    }
}

/// The first word of `s` and what follows it, `None` where there is no word.
pub open spec fn first_word(s: Seq<char>) -> Option<(Seq<char>, Seq<char>)> {
    let t = trim_start(s);
    if t.len() == 0 {
        None
    } else {
        Some((t.take(word_len(t) as int), t.skip(word_len(t) as int)))
    }
}

/// Takes the first word off a text. Words are what whitespace separates.
pub fn next_word(s: &[char]) -> (res: Option<(&[char], &[char])>)
    ensures
        match res {
            Some((word, rest)) => first_word(s@) == Some((word@, rest@)),
            None => first_word(s@) is None,
        },
{
    let t = without_leading_space(s);
    if t.len() == 0 {
        return None;
    }
    let mut n: usize = 0;
    assert(t@.skip(0) =~= t@);
    while n < t.len() && !is_whitespace(t[n])
        invariant
            n <= t@.len(),
            word_len(t@) == n + word_len(t@.skip(n as int)),
        decreases t@.len() - n,
    {
        assert(t@.skip(n as int).skip(1) =~= t@.skip(n + 1));
        n += 1;
    }
    assert(t@.subrange(0, n as int) =~= t@.take(n as int));
    assert(t@.subrange(n as int, t@.len() as int) =~= t@.skip(n as int));
    Some((vstd::slice::slice_subrange(t, 0, n), vstd::slice::slice_subrange(t, n, t.len())))
}

/// `c` in lower case where it is an ASCII letter.
pub open spec fn lower(c: char) -> char {
    if 'A' <= c <= 'Z' {
        (c as u32 + 32) as char
    } else {
        c
    }
}

/// Every ASCII letter in lower case.
pub open spec fn lowered(s: Seq<char>) -> Seq<char> {
    Seq::new(s.len(), |i: int| lower(s[i]))
}

/// Puts an ASCII letter in lower case.
pub fn to_lower(c: char) -> (res: char)
    ensures
        res == lower(c),
{
    if 'A' <= c && c <= 'Z' {
        ((c as u8) + 32) as char
    } else {
        c
    }
}

/// Puts every ASCII letter in lower case.
pub fn to_lowered(s: &[char]) -> (res: Vec<char>)
    ensures
        res@ == lowered(s@),
{
    let mut res: Vec<char> = Vec::new();
    let mut i: usize = 0;
    while i < s.len()
        invariant
            i <= s@.len(),
            res@.len() == i,
            forall|j: int| 0 <= j < i ==> #[trigger] res@[j] == lower(s@[j]),
        decreases s@.len() - i,
    {
        res.push(to_lower(s[i]));
        i += 1;
    }
    assert(res@ =~= lowered(s@));
    res
}

/// Whether `s` is `text` but for the case of ASCII letters.
pub fn is_text_ignoring_case(s: &[char], text: &str) -> (res: bool)
    ensures
        res == (lowered(s@) == lowered(text@)),
{
    let a = to_lowered(s);
    let other = chars_of(text);
    let b = to_lowered(other.as_slice());
    same(a.as_slice(), b.as_slice())
}

/// Whether `c` is one of the ten ASCII digits.
pub open spec fn is_digit(c: char) -> bool {
    '0' <= c <= '9'
}

/// Whether every character is a digit.
pub open spec fn all_digits(s: Seq<char>) -> bool {
    forall|i: int| 0 <= i < s.len() ==> is_digit(#[trigger] s[i])
}

/// The number that a run of digits writes.
pub open spec fn value_of(s: Seq<char>) -> nat
    decreases s.len(),
{
    if s.len() == 0 {
        0
    } else {
        (value_of(s.drop_last()) * 10 + (s.last() as u32 - 48)) as nat
    }
}

/// The number that `s` writes in decimal, where it is at most `max`: digits, at
/// least one, with or without a plus sign before them.
pub open spec fn number(s: Seq<char>, max: nat) -> Option<nat> {
    let digits = if s.len() > 0 && s[0] == '+' { s.skip(1) } else { s };
    if digits.len() > 0 && all_digits(digits) && value_of(digits) <= max {
        Some(value_of(digits))
    } else {
        None
    }
}

proof fn value_grows(s: Seq<char>, n: int)
    requires
        0 <= n <= s.len(),
        all_digits(s),
    ensures
        value_of(s.take(n)) <= value_of(s),
    decreases s.len() - n,
{
    if n < s.len() {
        value_grows(s, n + 1);
        assert(s.take(n + 1).drop_last() =~= s.take(n));
        assert(is_digit(s[n]));
    } else {
        assert(s.take(n) =~= s);
    }
}

/// Reads a number of at most `max`.
pub fn parse_number(s: &[char], max: u64) -> (res: Option<u64>)
    ensures
        match res {
            Some(n) => number(s@, max as nat) == Some(n as nat) && n <= max,
            None => number(s@, max as nat) is None,
        },
{
    let mut start: usize = 0;
    if s.len() > 0 && s[0] == '+' {
        start = 1;
    }
    let ghost digits = if s@.len() > 0 && s@[0] == '+' { s@.skip(1) } else { s@ };
    assert(digits =~= s@.skip(start as int));
    if start == s.len() {
        return None;
    }
    let mut value: u64 = 0;
    let mut i: usize = start;
    assert(digits.take(0) =~= Seq::empty());
    while i < s.len()
        invariant
            start <= i <= s@.len(),
            digits == s@.skip(start as int),
            digits.len() == s@.len() - start,
            forall|j: int| 0 <= j < i - start ==> is_digit(#[trigger] digits[j]),
            value == value_of(digits.take(i - start)),
            value <= max,
            number(s@, max as nat) == (if all_digits(digits) && value_of(digits) <= max {
                Some(value_of(digits))
            } else {
                None
            }),
        decreases s@.len() - i,
    {
        let c = s[i];
        assert(digits[i - start] == c);
        if !('0' <= c && c <= '9') {
            assert(!is_digit(digits[i - start]));
            return None;
        }
        let d: u64 = (c as u32 - 48) as u64;
        assert(digits.take(i + 1 - start).drop_last() =~= digits.take(i - start));
        assert(value_of(digits.take(i + 1 - start)) == value * 10 + d);
        if value > (u64::MAX - d) / 10 || value * 10 + d > max {
            proof {
                if all_digits(digits) {
                    value_grows(digits, i + 1 - start);
                }
            }
            return None;
        }
        value = value * 10 + d;
        i += 1;
    }
    assert(digits.take(i - start) =~= digits);
    Some(value)
}

/// The character of a decimal digit.
pub open spec fn digit_char(d: int) -> char {
    (d + 48) as char
}

/// A number in decimal.
pub open spec fn decimal(n: nat) -> Seq<char>
    decreases n,
{
    if n < 10 {
        seq![digit_char(n as int)]
    } else {
        decimal(n / 10).push(digit_char(n as int % 10))
    }
}

/// Appends a number in decimal.
pub fn push_decimal(out: &mut String, n: u64)
    ensures
        final(out)@ == old(out)@ + decimal(n as nat),
    decreases n,
{
    if n >= 10 {
        push_decimal(out, n / 10);
    }
    let d: u8 = (n % 10) as u8;
    out.push((d + 48) as char);
    assert(out@ =~= old(out)@ + decimal(n as nat));
}

/// A number in decimal.
pub fn number_text(n: u64) -> (res: String)
    ensures
        res@ == decimal(n as nat),
{
    let mut text = String::new();
    push_decimal(&mut text, n);
    assert(text@ =~= decimal(n as nat));
    text
}

/// A number in decimal, with a minus sign where it is below zero.
pub open spec fn signed_decimal(n: int) -> Seq<char> {
    if n < 0 {
        seq!['-'] + decimal((-n) as nat)
    } else {
        decimal(n as nat)
    }
}

/// A number in decimal, with a minus sign where it is below zero.
pub fn signed_text(n: i64) -> (res: String)
    ensures
        res@ == signed_decimal(n as int),
{
    if n < 0 {
        let mut text = String::new();
        text.push('-');
        let size: u64 = ((-(n + 1)) as u64) + 1;
        push_decimal(&mut text, size);
        assert(text@ =~= seq!['-'] + decimal((-n) as nat));
        text
    } else {
        number_text(n as u64)
    }
}

/// What is written in decimal is digits, begins with no plus sign, and reads
/// back as the number.
pub proof fn decimal_reads_back(n: nat, max: nat)
    requires
        n <= max,
    ensures
        decimal(n).len() > 0,
        all_digits(decimal(n)),
        value_of(decimal(n)) == n,
        number(decimal(n), max) == Some(n),
    decreases n,
{
    if n < 10 {
        assert(decimal(n).drop_last() =~= Seq::empty());
        assert(value_of(decimal(n).drop_last()) == 0);
    } else {
        decimal_reads_back(n / 10, max);
        assert(decimal(n).drop_last() =~= decimal(n / 10));
    }
    assert(is_digit(decimal(n)[0]));
}

/// The character of a hexadecimal digit, in upper or lower case.
pub open spec fn hex_char(d: int, upper: bool) -> char {
    if d < 10 {
        (d + 48) as char
    } else if upper {
        (d + 55) as char
    } else {
        (d + 87) as char
    }
}

/// Two hexadecimal digits for each byte.
pub open spec fn hex_text(bytes: Seq<u8>, upper: bool) -> Seq<char> {
    Seq::new(
        2 * bytes.len(),
        |i: int|
            hex_char(
                if i % 2 == 0 {
                    bytes[i / 2] as int / 16
                } else {
                    bytes[i / 2] as int % 16
                },
                upper,
            ),
    )
}

fn hex_digit(d: u8, upper: bool) -> (res: char)
    requires
        d < 16,
    ensures
        res == hex_char(d as int, upper),
{
    if d < 10 {
        (d + 48) as char
    } else if upper {
        (d + 55) as char
    } else {
        (d + 87) as char
    }
}

/// Writes bytes in hexadecimal, two digits each.
pub fn to_hex(bytes: &[u8], upper: bool) -> (res: String)
    ensures
        res@ == hex_text(bytes@, upper),
{
    let mut res = String::new();
    let mut i: usize = 0;
    while i < bytes.len()
        invariant
            i <= bytes@.len(),
            res@ == hex_text(bytes@.take(i as int), upper),
        decreases bytes@.len() - i,
    {
        let b: u8 = bytes[i];
        res.push(hex_digit(b / 16, upper));
        res.push(hex_digit(b % 16, upper));
        assert(res@ =~= hex_text(bytes@.take(i + 1), upper));
        i += 1;
    }
    assert(bytes@.take(i as int) =~= bytes@);
    res
}

/// Whether `c` is a hexadecimal digit.
pub open spec fn is_hex_digit(c: char) -> bool {
    is_digit(c) || 'a' <= c <= 'f' || 'A' <= c <= 'F'
}

/// Every character is a hexadecimal digit, two for each byte.
pub proof fn hex_is_hex(bytes: Seq<u8>, upper: bool)
    ensures
        hex_text(bytes, upper).len() == 2 * bytes.len(),
        forall|i: int|
            0 <= i < hex_text(bytes, upper).len() ==> is_hex_digit(
                #[trigger] hex_text(bytes, upper)[i],
            ),
{
}

proof fn hex_of_byte(bytes: Seq<u8>, upper: bool, i: int)
    requires
        0 <= i < bytes.len(),
    ensures
        hex_text(bytes, upper)[2 * i] == hex_char(bytes[i] as int / 16, upper),
        hex_text(bytes, upper)[2 * i + 1] == hex_char(bytes[i] as int % 16, upper),
{
    let even = 2 * i;
    let odd = 2 * i + 1;
    assert(even % 2 == 0 && even / 2 == i && odd % 2 == 1 && odd / 2 == i);
}

/// Different bytes are written differently.
pub proof fn hex_is_injective(a: Seq<u8>, b: Seq<u8>, upper: bool)
    requires
        hex_text(a, upper) == hex_text(b, upper),
    ensures
        a == b,
{
    hex_is_hex(a, upper);
    hex_is_hex(b, upper);
    assert forall|i: int| 0 <= i < a.len() implies a[i] == b[i] by {
        hex_of_byte(a, upper, i);
        hex_of_byte(b, upper, i);
        assert(hex_char(a[i] as int / 16, upper) == hex_char(b[i] as int / 16, upper));
        assert(hex_char(a[i] as int % 16, upper) == hex_char(b[i] as int % 16, upper));
    }
    assert(a =~= b);
}

/// Whether `part` stands in `s` at a position.
pub open spec fn part_at(s: Seq<char>, part: Seq<char>, at: int) -> bool {
    0 <= at && at + part.len() <= s.len() && s.subrange(at, at + part.len()) == part
}

/// Whether `s` holds `part`, all of it in one piece.
pub open spec fn has_part(s: Seq<char>, part: Seq<char>) -> bool {
    exists|at: int| part_at(s, part, at)
}

/// A text is a part of itself.
pub broadcast proof fn part_of_itself(s: Seq<char>)
    ensures
        #[trigger] has_part(s, s),
{
    assert(s.subrange(0, s.len() as int) =~= s);
    assert(part_at(s, s, 0));
}

/// What the first of two texts holds, both together hold.
pub broadcast proof fn part_of_first(a: Seq<char>, b: Seq<char>, part: Seq<char>)
    requires
        has_part(a, part),
    ensures
        #[trigger] has_part(a + b, part),
{
    let at = choose|at: int| part_at(a, part, at);
    assert((a + b).subrange(at, at + part.len()) =~= a.subrange(at, at + part.len()));
    assert(part_at(a + b, part, at));
}

/// What the second of two texts holds, both together hold.
pub broadcast proof fn part_of_second(a: Seq<char>, b: Seq<char>, part: Seq<char>)
    requires
        has_part(b, part),
    ensures
        #[trigger] has_part(a + b, part),
{
    let at = choose|at: int| part_at(b, part, at);
    let after = a.len() + at;
    assert((a + b).subrange(after, after + part.len()) =~= b.subrange(at, at + part.len()));
    assert(part_at(a + b, part, after));
}

/// What stands at the start of a text is a part of it.
pub proof fn starts_with_part(text: Seq<char>, part: Seq<char>)
    requires
        part.len() <= text.len(),
        forall|i: int| 0 <= i < part.len() ==> #[trigger] text[i] == part[i],
    ensures
        has_part(text, part),
{
    assert(text.subrange(0, part.len() as int) =~= part);
    assert(part_at(text, part, 0));
}

/// What stands at a position of a text is a part of it.
pub proof fn part_stands_at(text: Seq<char>, part: Seq<char>, at: int)
    requires
        0 <= at,
        at + part.len() <= text.len(),
        text.subrange(at, at + part.len()) =~= part,
    ensures
        has_part(text, part),
{
    assert(part_at(text, part, at));
}

/// Whether a text is one word: not empty, and without whitespace.
pub open spec fn is_word(s: Seq<char>) -> bool {
    s.len() > 0 && forall|i: int| 0 <= i < s.len() ==> !is_space(#[trigger] s[i])
}

proof fn word_len_of(word: Seq<char>, rest: Seq<char>)
    requires
        forall|i: int| 0 <= i < word.len() ==> !is_space(#[trigger] word[i]),
        rest.len() > 0 ==> is_space(rest[0]),
    ensures
        word_len(word + rest) == word.len(),
    decreases word.len(),
{
    if word.len() == 0 {
        assert(word + rest =~= rest);
    } else {
        let tail = word.skip(1);
        assert((word + rest)[0] == word[0]);
        assert((word + rest).skip(1) =~= tail + rest);
        word_len_of(tail, rest);
    }
}

/// The first word of a text is the one it begins with, up to the first
/// whitespace; whitespace before it does not count.
pub proof fn a_text_begins_with_its_first_word(space: char, word: Seq<char>, rest: Seq<char>)
    requires
        is_space(space),
        is_word(word),
        rest.len() > 0 ==> is_space(rest[0]),
    ensures
        first_word(word + rest) == Some((word, rest)),
        first_word(seq![space] + word + rest) == Some((word, rest)),
{
    let s = word + rest;
    assert(!is_space(word[0]));
    assert(s[0] == word[0]);
    word_len_of(word, rest);
    assert(s.take(word.len() as int) =~= word);
    assert(s.skip(word.len() as int) =~= rest);
    let t = seq![space] + word + rest;
    assert(t[0] == space);
    assert(t.skip(1) =~= s);
    assert(trim_start(s) == s);
    assert(trim_start(t) == trim_start(s));
}

/// Letters lose their case and nothing else does: a text keeps its length, and is
/// the same as another but for case exactly where both give the same.
pub proof fn lowering_keeps_all_but_case(s: Seq<char>, i: int)
    requires
        0 <= i < s.len(),
    ensures
        lowered(s).len() == s.len(),
        !('A' <= s[i] <= 'Z') ==> lowered(s)[i] == s[i],
        'A' <= s[i] <= 'Z' ==> lowered(s)[i] as u32 == s[i] as u32 + 32 && 'a' <= lowered(s)[i]
            <= 'z',
        lowered(lowered(s)) == lowered(s),
{
    assert forall|k: int| 0 <= k < s.len() implies #[trigger] lowered(lowered(s))[k]
        == lowered(s)[k] by {
        let c = s[k];
        if 'A' <= c <= 'Z' {
            assert((c as u32 + 32) as char as u32 == c as u32 + 32);
        }
    }
    assert(lowered(lowered(s)) =~= lowered(s));
}

/// A text is parted at the first mark in it: what stands before, which has none,
/// and all that stands behind. A text without one is not parted.
pub proof fn a_text_is_parted_at_its_first_mark(a: Seq<char>, mark: char, b: Seq<char>)
    requires
        forall|i: int| 0 <= i < a.len() ==> a[i] != mark,
    ensures
        halves(a + seq![mark] + b, mark) == Some((a, b)),
        halves(a, mark) is None,
{
    let whole = a + seq![mark] + b;
    assert(whole[a.len() as int] == mark);
    assert(forall|i: int| 0 <= i < a.len() ==> whole[i] == a[i]);
    first_index_unique(whole, mark, a.len() as int);
    first_index_unique(a, mark, a.len() as int);
    assert(whole.take(a.len() as int) =~= a);
    assert(whole.skip(a.len() as int + 1) =~= b);
}

/// What stands behind a prefix is left when it is removed, and only from a text
/// that starts with it can it be removed.
pub proof fn a_prefix_leaves_the_rest(s: Seq<char>, prefix: Seq<char>, rest: Seq<char>)
    ensures
        after_prefix(prefix + rest, prefix) == Some(rest),
        after_prefix(s, prefix) matches Some(left) ==> s == prefix + left,
        after_prefix(s, prefix) is None ==> s != prefix + rest,
{
    assert((prefix + rest).take(prefix.len() as int) =~= prefix);
    assert((prefix + rest).skip(prefix.len() as int) =~= rest);
    if let Some(left) = after_prefix(s, prefix) {
        assert(s =~= prefix + left);
    }
}

/// Spaces, tabs and the ends of lines are whitespace, and nothing that prints in
/// ASCII is.
pub proof fn what_prints_is_no_whitespace(c: char)
    ensures
        is_space(' '),
        is_space('\t'),
        is_space('\r'),
        is_space('\n'),
        '!' <= c <= '~' ==> !is_space(c),
        c < '\t' ==> !is_space(c),
        is_space(c) && c <= '~' ==> c == ' ' || '\t' <= c <= '\r',
{
}

/// The control characters are those before the space, the one that deletes, and
/// the thirty-two after it; none that prints in ASCII is one.
pub proof fn what_prints_is_no_control(c: char)
    ensures
        c < ' ' ==> is_control_char(c),
        ' ' <= c <= '~' ==> !is_control_char(c),
        '~' < c && (c as u32) < 0xA0 ==> is_control_char(c),
        c as u32 >= 0xA0 ==> !is_control_char(c),
{
}

/// A number below zero is written as its opposite behind a minus sign, and any
/// other as it is.
pub proof fn only_a_negative_number_has_a_sign(n: nat)
    ensures
        signed_decimal(n as int) == decimal(n),
        n > 0 ==> signed_decimal(-(n as int)) == seq!['-'] + decimal(n),
        signed_decimal(0) == decimal(0),
{
}

} // verus!
