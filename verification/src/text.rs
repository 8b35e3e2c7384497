//! Verified string primitives: equality, prefixes, searching and trimming,
//! each stated over the `Seq<char>` view of a string.
use vstd::prelude::*;
use vstd::string::StringSliceAdditionalSpecFns;
use vstd::utf8::{
    encode_utf8_valid_utf8, is_char_boundary, is_char_boundary_iff_not_is_continuation_byte,
    is_char_boundary_start_end_of_seq, valid_utf8_split,
};

verus! {

/// The characters with the Unicode `White_Space` property, which is what
/// `str::trim` removes.
pub open spec fn is_unicode_whitespace(c: char) -> bool {
    ||| ('\u{9}' <= c && c <= '\u{d}')
    ||| c == ' '
    ||| c == '\u{85}'
    ||| c == '\u{a0}'
    ||| c == '\u{1680}'
    ||| ('\u{2000}' <= c && c <= '\u{200a}')
    ||| c == '\u{2028}'
    ||| c == '\u{2029}'
    ||| c == '\u{202f}'
    ||| c == '\u{205f}'
    ||| c == '\u{3000}'
}

/// A class of characters that can be trimmed from the ends of a string.
#[derive(Clone, Copy, Debug, PartialEq, Eq)]
pub enum CharClass {
    /// Unicode white space.
    Whitespace,
    /// A double or a single quote.
    Quote,
    /// A forward slash.
    Slash,
}

impl CharClass {
    pub open spec fn has(self, c: char) -> bool {
        match self {
            CharClass::Whitespace => is_unicode_whitespace(c),
            CharClass::Quote => c == '"' || c == '\'',
            CharClass::Slash => c == '/',
        }
    }

    pub fn contains(&self, c: char) -> (r: bool)
        ensures
            r == self.has(c),
    {
        match self {
            CharClass::Whitespace => {
                ('\u{9}' <= c && c <= '\u{d}') || c == ' ' || c == '\u{85}' || c == '\u{a0}'
                    || c == '\u{1680}' || ('\u{2000}' <= c && c <= '\u{200a}') || c == '\u{2028}'
                    || c == '\u{2029}' || c == '\u{202f}' || c == '\u{205f}' || c == '\u{3000}'
            },
            CharClass::Quote => c == '"' || c == '\'',
            CharClass::Slash => c == '/',
        }
    }
}

/// `s` with every leading character of class `cls` removed.
pub open spec fn trim_start_seq(s: Seq<char>, cls: CharClass) -> Seq<char>
    decreases s.len(),
{
    if s.len() > 0 && cls.has(s[0]) {
        trim_start_seq(s.drop_first(), cls)
    } else {
        s
    }
}

/// `s` with every trailing character of class `cls` removed.
pub open spec fn trim_end_seq(s: Seq<char>, cls: CharClass) -> Seq<char>
    decreases s.len(),
{
    if s.len() > 0 && cls.has(s.last()) {
        trim_end_seq(s.drop_last(), cls)
    } else {
        s
    }
}

/// `s` with every leading and trailing character of class `cls` removed.
pub open spec fn trim_seq(s: Seq<char>, cls: CharClass) -> Seq<char> {
    trim_end_seq(trim_start_seq(s, cls), cls)
}

/// `s` begins with `prefix`.
pub open spec fn starts_with_seq(s: Seq<char>, prefix: Seq<char>) -> bool {
    prefix.len() <= s.len() && s.subrange(0, prefix.len() as int) == prefix
}

/// `needle` occurs in `s` starting at position `i`.
pub open spec fn occurs_at(s: Seq<char>, needle: Seq<char>, i: int) -> bool {
    0 <= i && i + needle.len() <= s.len() && s.subrange(i, i + needle.len()) == needle
}

/// `needle` occurs somewhere in `s` as a contiguous run.
pub open spec fn contains_seq(s: Seq<char>, needle: Seq<char>) -> bool {
    exists|i: int| #[trigger] occurs_at(s, needle, i)
}

/// ASCII lower-casing of one character; other characters stay as they are.
pub open spec fn ascii_lower(c: char) -> char {
    if 'A' <= c && c <= 'Z' {
        ((c as u32) + 32) as char
    } else {
        c
    }
}

/// `a` and `b` are equal when ASCII letters are compared without case.
pub open spec fn eq_ignore_ascii_case_seq(a: Seq<char>, b: Seq<char>) -> bool {
    a.len() == b.len() && forall|i: int| 0 <= i < a.len() ==> ascii_lower(#[trigger] a[i]) == ascii_lower(b[i])
}

/// Whether two strings hold the same characters.
pub fn str_eq(a: &str, b: &str) -> (r: bool)
    ensures
        r == (a@ == b@),
{
    let n = a.unicode_len();
    if n != b.unicode_len() {
        return false;
    }
    let mut i: usize = 0;
    while i < n
        invariant
            n == a@.len(),
            n == b@.len(),
            i <= n,
            forall|j: int| 0 <= j < i ==> a@[j] == b@[j],
        decreases n - i,
    {
        if a.get_char(i) != b.get_char(i) {
            return false;
        }
        i = i + 1;
    }
    assert(a@ =~= b@);
    true
}

/// Whether `s` begins with `prefix`.
pub fn starts_with(s: &str, prefix: &str) -> (r: bool)
    ensures
        r == starts_with_seq(s@, prefix@),
{
    let n = s.unicode_len();
    let m = prefix.unicode_len();
    if m > n {
        return false;
    }
    let mut i: usize = 0;
    while i < m
        invariant
            n == s@.len(),
            m == prefix@.len(),
            m <= n,
            i <= m,
            forall|j: int| 0 <= j < i ==> s@[j] == prefix@[j],
        decreases m - i,
    {
        if s.get_char(i) != prefix.get_char(i) {
            assert(s@.subrange(0, m as int)[i as int] != prefix@[i as int]);
            return false;
        }
        i = i + 1;
    }
    assert(s@.subrange(0, m as int) =~= prefix@);
    true
}

/// What follows `prefix` in `s`, when `s` begins with it.
pub fn strip_prefix<'a>(s: &'a str, prefix: &str) -> (r: Option<&'a str>)
    ensures
        r is Some <==> starts_with_seq(s@, prefix@),
        r matches Some(rest) ==> rest@ == s@.subrange(prefix@.len() as int, s@.len() as int),
{
    if starts_with(s, prefix) {
        let n = s.unicode_len();
        let m = prefix.unicode_len();
        Some(s.substring_char(m, n))
    } else {
        None
    }
}

/// Whether the character `c` occurs in `s`.
pub fn contains_char(s: &str, c: char) -> (r: bool)
    ensures
        r == s@.contains(c),
{
    let n = s.unicode_len();
    let mut i: usize = 0;
    while i < n
        invariant
            n == s@.len(),
            i <= n,
            forall|j: int| 0 <= j < i ==> s@[j] != c,
        decreases n - i,
    {
        if s.get_char(i) == c {
            assert(s@[i as int] == c);
            return true;
        }
        i = i + 1;
    }
    false
}

/// Whether `needle` occurs in `s` as a contiguous run of characters.
pub fn contains_str(s: &str, needle: &str) -> (r: bool)
    ensures
        r == contains_seq(s@, needle@),
{
    let n = s.unicode_len();
    let m = needle.unicode_len();
    if m > n {
        assert(!contains_seq(s@, needle@));
        return false;
    }
    let mut i: usize = 0;
    while i <= n - m
        invariant
            n == s@.len(),
            m == needle@.len(),
            m <= n,
            i <= n - m + 1,
            forall|k: int| 0 <= k < i ==> !#[trigger] occurs_at(s@, needle@, k),
        decreases n - m + 1 - i,
    {
        let mut j: usize = 0;
        let mut same = true;
        while j < m
            invariant
                n == s@.len(),
                m == needle@.len(),
                i + m <= n,
                j <= m,
                same == (forall|t: int| 0 <= t < j ==> s@[i + t] == needle@[t]),
            decreases m - j,
        {
            if s.get_char(i + j) != needle.get_char(j) {
                same = false;
            }
            j = j + 1;
        }
        if same {
            assert(s@.subrange(i as int, i + m) =~= needle@);
            assert(occurs_at(s@, needle@, i as int));
            return true;
        }
        assert(s@.subrange(i as int, i + m) != needle@) by {
            let t = choose|t: int| 0 <= t < m && s@[i + t] != needle@[t];
            assert(s@.subrange(i as int, i + m)[t] != needle@[t]);
        }
        i = i + 1;
    }
    false
}

/// Whether `a` and `b` are equal when ASCII letters are compared without case.
pub fn eq_ignore_ascii_case(a: &str, b: &str) -> (r: bool)
    ensures
        r == eq_ignore_ascii_case_seq(a@, b@),
{
    let n = a.unicode_len();
    if n != b.unicode_len() {
        return false;
    }
    let mut i: usize = 0;
    while i < n
        invariant
            n == a@.len(),
            n == b@.len(),
            i <= n,
            forall|j: int| 0 <= j < i ==> ascii_lower(#[trigger] a@[j]) == ascii_lower(b@[j]),
        decreases n - i,
    {
        if lower_ascii(a.get_char(i)) != lower_ascii(b.get_char(i)) {
            return false;
        }
        i = i + 1;
    }
    true
}

fn lower_ascii(c: char) -> (r: char)
    ensures
        r == ascii_lower(c),
{
    if 'A' <= c && c <= 'Z' {
        char_from_ascii((c as u8) + 32)
    } else {
        c
    }
}

fn char_from_ascii(b: u8) -> (r: char)
    requires
        b < 128,
    ensures
        r == b as char,
{
    b as char
}

/// The index of the first character of `s` at or after `from` that is not of
/// class `cls`, or the length of `s` when there is none.
fn skip_class_forward(s: &str, n: usize, cls: &CharClass) -> (r: usize)
    requires
        n == s@.len(),
    ensures
        r <= n,
        trim_start_seq(s@, *cls) == s@.subrange(r as int, n as int),
{
    let mut i: usize = 0;
    assert(s@.subrange(0, n as int) =~= s@);
    while i < n && cls.contains(s.get_char(i))
        invariant
            n == s@.len(),
            i <= n,
            trim_start_seq(s@, *cls) == trim_start_seq(s@.subrange(i as int, n as int), *cls),
        decreases n - i,
    {
        assert(s@.subrange(i as int, n as int).drop_first() =~= s@.subrange(i + 1, n as int));
        i = i + 1;
    }
    i
}

/// `s` with every leading character of class `cls` removed.
pub fn trim_start<'a>(s: &'a str, cls: &CharClass) -> (r: &'a str)
    ensures
        r@ == trim_start_seq(s@, *cls),
{
    let n = s.unicode_len();
    let i = skip_class_forward(s, n, cls);
    s.substring_char(i, n)
}

/// `s` with every trailing character of class `cls` removed.
pub fn trim_end<'a>(s: &'a str, cls: &CharClass) -> (r: &'a str)
    ensures
        r@ == trim_end_seq(s@, *cls),
{
    let n = s.unicode_len();
    let mut e: usize = n;
    assert(s@.subrange(0, n as int) =~= s@);
    while e > 0 && cls.contains(s.get_char(e - 1))
        invariant
            n == s@.len(),
            e <= n,
            trim_end_seq(s@, *cls) == trim_end_seq(s@.subrange(0, e as int), *cls),
        decreases e,
    {
        assert(s@.subrange(0, e as int).drop_last() =~= s@.subrange(0, e - 1));
        e = e - 1;
    }
    s.substring_char(0, e)
}

/// `s` with every leading and trailing character of class `cls` removed.
pub fn trim_class<'a>(s: &'a str, cls: &CharClass) -> (r: &'a str)
    ensures
        r@ == trim_seq(s@, *cls),
{
    trim_end(trim_start(s, cls), cls)
}


/// Trimming the start leaves a string that is empty or begins with a
/// character outside the class.
pub proof fn lemma_trim_start_shape(s: Seq<char>, cls: CharClass)
    ensures
        trim_start_seq(s, cls).len() == 0 || !cls.has(trim_start_seq(s, cls)[0]),
        trim_start_seq(trim_start_seq(s, cls), cls) == trim_start_seq(s, cls),
    decreases s.len(),
{
    if s.len() > 0 && cls.has(s[0]) {
        lemma_trim_start_shape(s.drop_first(), cls);
    }
}

/// Trimming the end leaves a prefix of the string that is empty or ends
/// with a character outside the class.
pub proof fn lemma_trim_end_shape(s: Seq<char>, cls: CharClass)
    ensures
        trim_end_seq(s, cls).len() <= s.len(),
        trim_end_seq(s, cls) == s.subrange(0, trim_end_seq(s, cls).len() as int),
        trim_end_seq(s, cls).len() == 0 || !cls.has(trim_end_seq(s, cls).last()),
        trim_end_seq(trim_end_seq(s, cls), cls) == trim_end_seq(s, cls),
    decreases s.len(),
{
    if s.len() > 0 && cls.has(s.last()) {
        lemma_trim_end_shape(s.drop_last(), cls);
        let t = trim_end_seq(s.drop_last(), cls);
        assert(s.drop_last().subrange(0, t.len() as int) =~= s.subrange(0, t.len() as int));
    } else {
        assert(s.subrange(0, s.len() as int) =~= s);
    }
}

/// Trimming both ends twice is trimming them once.
pub proof fn lemma_trim_idempotent(s: Seq<char>, cls: CharClass)
    ensures
        trim_seq(trim_seq(s, cls), cls) == trim_seq(s, cls),
{
    let t = trim_start_seq(s, cls);
    let u = trim_end_seq(t, cls);
    lemma_trim_start_shape(s, cls);
    lemma_trim_end_shape(t, cls);
    if u.len() > 0 {
        assert(u[0] == t[0]);
    }
    assert(trim_start_seq(u, cls) == u);
}

/// `text` is the run of the bytes of `source` that begins at byte `start`.
pub open spec fn piece_at(source: Seq<u8>, start: int, text: Seq<u8>) -> bool {
    &&& 0 <= start
    &&& start + text.len() <= source.len()
    &&& source.subrange(start, start + text.len()) == text
}

/// A character boundary of a valid UTF-8 text before `end`, itself a
/// boundary, is a boundary of the text's first `end` bytes too.
proof fn lemma_boundary_in_prefix(bytes: Seq<u8>, end: int, start: int)
    requires
        vstd::utf8::valid_utf8(bytes),
        0 <= start <= end,
        is_char_boundary(bytes, end),
        is_char_boundary(bytes, start),
    ensures
        vstd::utf8::valid_utf8(bytes.subrange(0, end)),
        is_char_boundary(bytes.subrange(0, end), start),
{
    let prefix = bytes.subrange(0, end);
    valid_utf8_split(bytes, end);
    is_char_boundary_start_end_of_seq(prefix);
    if 0 < start < end {
        is_char_boundary_iff_not_is_continuation_byte(bytes, start);
        is_char_boundary_iff_not_is_continuation_byte(prefix, start);
        assert(prefix[start] == bytes[start]);
    }
}

/// The text between the byte offsets `start` and `end` of `source`, when
/// `start <= end` and both fall on character boundaries, which is when those
/// bytes form a text of their own.
pub fn text_between<'s>(source: &'s str, start: usize, end: usize) -> (r: Option<&'s str>)
    ensures
        r is Some <==> (start <= end && is_char_boundary(source.spec_bytes(), start as int)
            && is_char_boundary(source.spec_bytes(), end as int)),
        r is Some ==> end <= source.spec_bytes().len(),
        r matches Some(t) ==> t.spec_bytes() == source.spec_bytes().subrange(start as int, end as int),
{
    proof {
        encode_utf8_valid_utf8(source@);
    }
    if start <= end && source.is_char_boundary(start) && source.is_char_boundary(end) {
        proof {
            lemma_boundary_in_prefix(source.spec_bytes(), end as int, start as int);
        }
        let (head, _) = source.split_at(end);
        assert(head.spec_bytes() == source.spec_bytes().subrange(0, end as int));
        let (_, piece) = head.split_at(start);
        assert(piece.spec_bytes() =~= source.spec_bytes().subrange(start as int, end as int));
        Some(piece)
    } else {
        None
    }
}

} // verus!
