//! Text as sequences of characters: the character classes, trimming,
//! searching and splitting that the rest of the crate is built from.
//!
//! Executable functions work on `&[char]` and hand back sub-slices, so a
//! caller converts a `&str` once with [`chars_of`] and builds a `String`
//! with [`string_of`] at the very end.

use vstd::prelude::*;

verus! {

/// `String::push` appends one character to the end of the string.
pub assume_specification[ String::push ](s: &mut String, c: char)
    ensures
        final(s)@ == old(s)@.push(c),
;

/// The characters with the Unicode `White_Space` property.
pub open spec fn spec_is_whitespace(c: char) -> bool {
    let n = c as u32;
    ||| 0x09 <= n <= 0x0d
    ||| n == 0x20
    ||| n == 0x85
    ||| n == 0xa0
    ||| n == 0x1680
    ||| 0x2000 <= n <= 0x200a
    ||| n == 0x2028
    ||| n == 0x2029
    ||| n == 0x202f
    ||| n == 0x205f
    ||| n == 0x3000
}

/// Whether a character has the Unicode `White_Space` property.
#[verifier::when_used_as_spec(spec_is_whitespace)]
pub fn is_whitespace(c: char) -> (r: bool)
    ensures
        r == spec_is_whitespace(c),
{
    let n: u32 = c as u32;
    (0x09 <= n && n <= 0x0d) || n == 0x20 || n == 0x85 || n == 0xa0 || n == 0x1680 || (0x2000 <= n
        && n <= 0x200a) || n == 0x2028 || n == 0x2029 || n == 0x202f || n == 0x205f || n == 0x3000
}

/// The decimal digits.
pub open spec fn spec_is_ascii_digit(c: char) -> bool {
    '0' <= c <= '9'
}

/// Whether a character is a decimal digit.
#[verifier::when_used_as_spec(spec_is_ascii_digit)]
pub fn is_ascii_digit(c: char) -> (r: bool)
    ensures
        r == spec_is_ascii_digit(c),
{
    '0' <= c && c <= '9'
}

/// The ASCII letters and digits.
pub open spec fn spec_is_ascii_alphanumeric(c: char) -> bool {
    ('0' <= c <= '9') || ('a' <= c <= 'z') || ('A' <= c <= 'Z')
}

/// Whether a character is an ASCII letter or digit.
#[verifier::when_used_as_spec(spec_is_ascii_alphanumeric)]
pub fn is_ascii_alphanumeric(c: char) -> (r: bool)
    ensures
        r == spec_is_ascii_alphanumeric(c),
{
    ('0' <= c && c <= '9') || ('a' <= c && c <= 'z') || ('A' <= c && c <= 'Z')
}

/// `c` with an ASCII upper-case letter replaced by its lower-case form.
pub open spec fn spec_to_ascii_lowercase(c: char) -> char {
    if 'A' <= c <= 'Z' {
        ((c as u8) + 32) as char
    } else {
        c
    }
}

/// The character with an ASCII upper-case letter in lower case.
#[verifier::when_used_as_spec(spec_to_ascii_lowercase)]
pub fn to_ascii_lowercase(c: char) -> (r: char)
    ensures
        r == spec_to_ascii_lowercase(c),
{
    if 'A' <= c && c <= 'Z' {
        ((c as u8) + 32) as char
    } else {
        c
    }
}

/// The texts that a list of strings holds, in order.
pub open spec fn texts(v: Seq<String>) -> Seq<Seq<char>> {
    Seq::new(v.len(), |i: int| v[i]@)
}

/// The texts that a list of character vectors holds, in order.
pub open spec fn char_texts(v: Seq<Vec<char>>) -> Seq<Seq<char>> {
    Seq::new(v.len(), |i: int| v[i]@)
}

/// The text of an optional string.
pub open spec fn opt_text(v: Option<String>) -> Option<Seq<char>> {
    match v {
        Some(s) => Some(s@),
        None => None,
    }
}

/// The text behind an optional string slice.
pub open spec fn opt_str_text(v: Option<&str>) -> Option<Seq<char>> {
    match v {
        Some(s) => Some(s@),
        None => None,
    }
}

/// The characters of a string.
pub fn chars_of(s: &str) -> (v: Vec<char>)
    ensures
        v@ == s@,
{
    let mut v: Vec<char> = Vec::new();
    for c in it: s.chars()
        invariant
            v@ == it.seq().take(it.index()),
            it.seq() == s@,
    {
        v.push(c);
    }
    v
}

/// The string that holds the given characters.
pub fn string_of(cs: &[char]) -> (s: String)
    ensures
        s@ == cs@,
{
    let mut s = String::new();
    let mut i: usize = 0;
    while i < cs.len()
        invariant
            i <= cs.len(),
            s@ == cs@.take(i as int),
        decreases cs.len() - i,
    {
        s.push(cs[i]);
        i += 1;
    }
    s
}

/// `s[from..to]` as a slice of its own.
pub fn slice<'a>(s: &'a [char], from: usize, to: usize) -> (r: &'a [char])
    requires
        from <= to <= s.len(),
    ensures
        r@ == s@.subrange(from as int, to as int),
{
    &s[from..to]
}

/// Whether two texts hold the same characters.
pub fn text_eq(a: &[char], b: &[char]) -> (r: bool)
    ensures
        r == (a@ == b@),
{
    if a.len() != b.len() {
        return false;
    }
    let mut i: usize = 0;
    while i < a.len()
        invariant
            i <= a.len(),
            a.len() == b.len(),
            a@.take(i as int) == b@.take(i as int),
        decreases a.len() - i,
    {
        if a[i] != b[i] {
            return false;
        }
        assert(a@.take(i + 1) =~= a@.take(i as int).push(a@[i as int]));
        assert(b@.take(i + 1) =~= b@.take(i as int).push(b@[i as int]));
        i += 1;
    }
    assert(a@.take(a.len() as int) =~= a@);
    assert(b@.take(b.len() as int) =~= b@);
    true
}

/// Whether two strings hold the same characters.
pub fn str_eq(a: &str, b: &str) -> (r: bool)
    ensures
        r == (a@ == b@),
{
    let x = chars_of(a);
    let y = chars_of(b);
    text_eq(x.as_slice(), y.as_slice())
}

/// Whether `s` starts with `prefix`.
pub fn starts_with(s: &[char], prefix: &[char]) -> (r: bool)
    ensures
        r == prefix@.is_prefix_of(s@),
{
    if prefix.len() > s.len() {
        return false;
    }
    text_eq(slice(s, 0, prefix.len()), prefix)
}

/// Whether `s` ends with `suffix`.
pub fn ends_with(s: &[char], suffix: &[char]) -> (r: bool)
    ensures
        r == suffix@.is_suffix_of(s@),
{
    if suffix.len() > s.len() {
        return false;
    }
    text_eq(slice(s, s.len() - suffix.len(), s.len()), suffix)
}

/// `s` without its leading white space.
pub open spec fn spec_trim_start(s: Seq<char>) -> Seq<char>
    decreases s.len(),
{
    if s.len() > 0 && is_whitespace(s[0]) {
        spec_trim_start(s.drop_first())
    } else {
        s
    }
}

/// `s` without its trailing white space.
pub open spec fn spec_trim_end(s: Seq<char>) -> Seq<char>
    decreases s.len(),
{
    if s.len() > 0 && is_whitespace(s.last()) {
        spec_trim_end(s.drop_last())
    } else {
        s
    }
}

/// `s` without white space at either end.
pub open spec fn spec_trim(s: Seq<char>) -> Seq<char> {
    spec_trim_end(spec_trim_start(s))
}

/// `s` without its leading white space.
pub fn trim_start<'a>(s: &'a [char]) -> (r: &'a [char])
    ensures
        r@ == spec_trim_start(s@),
{
    let mut i: usize = 0;
    assert(s@.skip(0) =~= s@);
    while i < s.len() && is_whitespace(s[i])
        invariant
            i <= s.len(),
            spec_trim_start(s@) == spec_trim_start(s@.skip(i as int)),
        decreases s.len() - i,
    {
        assert(s@.skip(i as int).drop_first() =~= s@.skip(i + 1));
        i += 1;
    }
    slice(s, i, s.len())
}

/// `s` without its trailing white space.
pub fn trim_end<'a>(s: &'a [char]) -> (r: &'a [char])
    ensures
        r@ == spec_trim_end(s@),
{
    let mut j: usize = s.len();
    assert(s@.take(s.len() as int) =~= s@);
    while j > 0 && is_whitespace(s[j - 1])
        invariant
            j <= s.len(),
            spec_trim_end(s@) == spec_trim_end(s@.take(j as int)),
        decreases j,
    {
        assert(s@.take(j as int).drop_last() =~= s@.take(j - 1));
        j -= 1;
    }
    slice(s, 0, j)
}

/// `s` without white space at either end.
pub fn trim<'a>(s: &'a [char]) -> (r: &'a [char])
    ensures
        r@ == spec_trim(s@),
{
    trim_end(trim_start(s))
}

/// What `spec_trim_start` leaves is the end of `s` from its first
/// character that is not white space.
pub proof fn lemma_trim_start(s: Seq<char>)
    ensures
        spec_trim_start(s).len() <= s.len(),
        spec_trim_start(s) == s.skip(s.len() - spec_trim_start(s).len()),
        spec_trim_start(s).len() > 0 ==> !is_whitespace(spec_trim_start(s)[0]),
        forall|j: int| 0 <= j < s.len() - spec_trim_start(s).len() ==> is_whitespace(s[j]),
    decreases s.len(),
{
    if s.len() > 0 && is_whitespace(s[0]) {
        let rest = s.drop_first();
        lemma_trim_start(rest);
        let t = spec_trim_start(rest);
        assert(rest.skip(rest.len() - t.len()) =~= s.skip(s.len() - t.len()));
        assert forall|j: int| 0 <= j < s.len() - t.len() implies is_whitespace(s[j]) by {
            if j > 0 {
                assert(s[j] == rest[j - 1]);
            }
        }
    } else {
        assert(s.skip(0) =~= s);
    }
}

/// What `spec_trim_end` leaves is the start of `s` up to its last
/// character that is not white space.
pub proof fn lemma_trim_end(s: Seq<char>)
    ensures
        spec_trim_end(s).len() <= s.len(),
        spec_trim_end(s) == s.take(spec_trim_end(s).len() as int),
        spec_trim_end(s).len() > 0 ==> !is_whitespace(spec_trim_end(s).last()),
        forall|j: int| spec_trim_end(s).len() <= j < s.len() ==> is_whitespace(s[j]),
    decreases s.len(),
{
    if s.len() > 0 && is_whitespace(s.last()) {
        let rest = s.drop_last();
        lemma_trim_end(rest);
        let t = spec_trim_end(rest);
        assert(rest.take(t.len() as int) =~= s.take(t.len() as int));
        assert forall|j: int| t.len() <= j < s.len() implies is_whitespace(s[j]) by {
            if j < s.len() - 1 {
                assert(s[j] == rest[j]);
            }
        }
    } else {
        assert(s.take(s.len() as int) =~= s);
    }
}

/// Where the trimmed text starts in `s`.
pub open spec fn spec_trim_from(s: Seq<char>) -> int {
    s.len() - spec_trim_start(s).len()
}

/// Where the trimmed text ends in `s`.
pub open spec fn spec_trim_to(s: Seq<char>) -> int {
    spec_trim_from(s) + spec_trim(s).len()
}

/// The trimmed text is a piece of `s` that neither starts nor ends with
/// white space.
pub proof fn lemma_trim(s: Seq<char>)
    ensures
        0 <= spec_trim_from(s) <= spec_trim_to(s) <= s.len(),
        spec_trim(s) == s.subrange(spec_trim_from(s), spec_trim_to(s)),
        spec_trim(s).len() <= s.len(),
        spec_trim(s).len() > 0 ==> !is_whitespace(spec_trim(s)[0]) && !is_whitespace(
            spec_trim(s).last(),
        ),
{
    lemma_trim_start(s);
    let u = spec_trim_start(s);
    lemma_trim_end(u);
    let t = spec_trim_end(u);
    assert(u.take(t.len() as int) =~= s.subrange(spec_trim_from(s), spec_trim_to(s)));
    if t.len() > 0 {
        assert(t[0] == u[0]);
    }
}

/// A text without white space at either end is its own trimmed form.
pub proof fn lemma_trim_fixed(s: Seq<char>)
    requires
        s.len() > 0 ==> !is_whitespace(s[0]) && !is_whitespace(s.last()),
    ensures
        spec_trim(s) == s,
{
}

/// Trimming twice is trimming once.
pub proof fn lemma_trim_idempotent(s: Seq<char>)
    ensures
        spec_trim(spec_trim(s)) == spec_trim(s),
{
    lemma_trim(s);
    lemma_trim_fixed(spec_trim(s));
}

/// The position of the first `c` in `s`, or `s.len()` where there is none.
pub open spec fn spec_find_char(s: Seq<char>, c: char) -> int
    decreases s.len(),
{
    if s.len() == 0 || s[0] == c {
        0
    } else {
        1 + spec_find_char(s.drop_first(), c)
    }
}

/// The position of the first `c` in `s`, or `s.len()` where there is none.
pub fn find_char(s: &[char], c: char) -> (r: usize)
    ensures
        r == spec_find_char(s@, c),
        r <= s.len(),
{
    let mut i: usize = 0;
    assert(s@.skip(0) =~= s@);
    while i < s.len() && s[i] != c
        invariant
            i <= s.len(),
            spec_find_char(s@, c) == i + spec_find_char(s@.skip(i as int), c),
        decreases s.len() - i,
    {
        assert(s@.skip(i as int).drop_first() =~= s@.skip(i + 1));
        i += 1;
    }
    i
}

/// The position at which `pattern` first occurs in `s`; a value above
/// `s.len()` where it does not occur.
pub open spec fn spec_find(s: Seq<char>, pattern: Seq<char>) -> int
    decreases s.len(),
{
    if pattern.is_prefix_of(s) {
        0
    } else if s.len() == 0 {
        1
    } else {
        1 + spec_find(s.drop_first(), pattern)
    }
}

/// The position at which `pattern` first occurs in `s`, if it occurs.
pub fn find(s: &[char], pattern: &[char]) -> (r: Option<usize>)
    ensures
        match r {
            Some(i) => i == spec_find(s@, pattern@) && i + pattern.len() <= s.len(),
            None => spec_find(s@, pattern@) > s.len(),
        },
{
    let mut i: usize = 0;
    assert(s@.skip(0) =~= s@);
    while i < s.len()
        invariant
            i <= s.len(),
            spec_find(s@, pattern@) == i + spec_find(s@.skip(i as int), pattern@),
        decreases s.len() - i,
    {
        if starts_with(slice(s, i, s.len()), pattern) {
            return Some(i);
        }
        assert(s@.skip(i as int).drop_first() =~= s@.skip(i + 1));
        i += 1;
    }
    if pattern.len() == 0 {
        assert(pattern@.is_prefix_of(s@.skip(i as int)));
        Some(i)
    } else {
        None
    }
}

/// What stands before and after the first `c` in `s`.
pub open spec fn spec_split_once(s: Seq<char>, c: char) -> Option<(Seq<char>, Seq<char>)> {
    let i = spec_find_char(s, c);
    if i < s.len() {
        Some((s.take(i), s.skip(i + 1)))
    } else {
        None
    }
}

/// What stands before and after the first `c` in `s`, if there is one.
pub fn split_once<'a>(s: &'a [char], c: char) -> (r: Option<(&'a [char], &'a [char])>)
    ensures
        match r {
            Some((head, tail)) => spec_split_once(s@, c) == Some((head@, tail@)),
            None => spec_split_once(s@, c) is None,
        },
{
    let i = find_char(s, c);
    if i < s.len() {
        Some((slice(s, 0, i), slice(s, i + 1, s.len())))
    } else {
        None
    }
}

/// The first `c` stands where no `c` stands before it.
pub proof fn lemma_find_char(s: Seq<char>, c: char)
    ensures
        0 <= spec_find_char(s, c) <= s.len(),
        forall|j: int| 0 <= j < spec_find_char(s, c) ==> s[j] != c,
        spec_find_char(s, c) < s.len() ==> s[spec_find_char(s, c)] == c,
    decreases s.len(),
{
    if s.len() == 0 || s[0] == c {
    } else {
        let rest = s.drop_first();
        lemma_find_char(rest, c);
        assert forall|j: int| 0 <= j < spec_find_char(s, c) implies s[j] != c by {
            if j > 0 {
                assert(s[j] == rest[j - 1]);
            }
        }
    }
}

/// Nothing before the first `c` is `c`.
pub proof fn lemma_before_first_has_none(s: Seq<char>, c: char)
    ensures
        !s.take(spec_find_char(s, c)).contains(c),
{
    lemma_find_char(s, c);
}

/// Trimming a text without `c` leaves a text without `c`.
pub proof fn lemma_trim_keeps_absence(s: Seq<char>, c: char)
    requires
        !s.contains(c),
    ensures
        !spec_trim(s).contains(c),
{
    lemma_trim(s);
    let t = spec_trim(s);
    if t.contains(c) {
        let k = choose|k: int| 0 <= k < t.len() && t[k] == c;
        assert(s[spec_trim_from(s) + k] == c);
    }
}

/// Splitting `head + c + tail` at the first `c` gives `head` and `tail`
/// back, where `head` holds no `c`.
pub proof fn lemma_split_once_joined(head: Seq<char>, c: char, tail: Seq<char>)
    requires
        !head.contains(c),
    ensures
        spec_split_once(head + seq![c] + tail, c) == Some((head, tail)),
{
    let s = head + seq![c] + tail;
    assert forall|j: int| 0 <= j < head.len() implies s[j] != c by {
        assert(s[j] == head[j]);
        assert(head.contains(head[j]));
    }
    assert(s[head.len() as int] == c);
    lemma_find_char_at(s, c, head.len() as int);
    assert(s.take(head.len() as int) =~= head);
    assert(s.skip(head.len() as int + 1) =~= tail);
}

/// A position with no `c` before it, and `c` or the end at it, is where
/// the first `c` is found.
pub proof fn lemma_find_char_at(s: Seq<char>, c: char, i: int)
    requires
        0 <= i <= s.len(),
        forall|j: int| 0 <= j < i ==> s[j] != c,
        i < s.len() ==> s[i] == c,
    ensures
        spec_find_char(s, c) == i,
{
    lemma_find_char(s, c);
}

/// `s` with every trailing `c` removed.
pub open spec fn spec_trim_end_char(s: Seq<char>, c: char) -> Seq<char>
    decreases s.len(),
{
    if s.len() > 0 && s.last() == c {
        spec_trim_end_char(s.drop_last(), c)
    } else {
        s
    }
}

/// `s` with every trailing `c` removed.
pub fn trim_end_char<'a>(s: &'a [char], c: char) -> (r: &'a [char])
    ensures
        r@ == spec_trim_end_char(s@, c),
{
    let mut j: usize = s.len();
    assert(s@.take(s.len() as int) =~= s@);
    while j > 0 && s[j - 1] == c
        invariant
            j <= s.len(),
            spec_trim_end_char(s@, c) == spec_trim_end_char(s@.take(j as int), c),
        decreases j,
    {
        assert(s@.take(j as int).drop_last() =~= s@.take(j - 1));
        j -= 1;
    }
    slice(s, 0, j)
}

/// `s` with `suffix` removed from its end as often as it stands there.
pub open spec fn spec_trim_end_text(s: Seq<char>, suffix: Seq<char>) -> Seq<char>
    decreases s.len(),
{
    if suffix.len() > 0 && suffix.is_suffix_of(s) {
        spec_trim_end_text(s.take(s.len() - suffix.len()), suffix)
    } else {
        s
    }
}

/// `s` with `suffix` removed from its end as often as it stands there.
pub fn trim_end_text<'a>(s: &'a [char], suffix: &[char]) -> (r: &'a [char])
    ensures
        r@ == spec_trim_end_text(s@, suffix@),
{
    let mut j: usize = s.len();
    if suffix.len() == 0 {
        assert(s@.take(s.len() as int) =~= s@);
        return slice(s, 0, j);
    }
    assert(s@.take(s.len() as int) =~= s@);
    while ends_with(slice(s, 0, j), suffix)
        invariant
            j <= s.len(),
            suffix.len() > 0,
            spec_trim_end_text(s@, suffix@) == spec_trim_end_text(s@.take(j as int), suffix@),
        decreases j,
    {
        assert(s@.take(j as int).take(j - suffix.len()) =~= s@.take(j - suffix.len()));
        j -= suffix.len();
    }
    slice(s, 0, j)
}

/// The trimmed text, where anything is left of it.
pub open spec fn spec_trimmed_nonempty(s: Seq<char>) -> Option<Seq<char>> {
    let t = spec_trim(s);
    if t.len() == 0 {
        None
    } else {
        Some(t)
    }
}

/// The input without surrounding white space, or `None` where it holds
/// nothing else.
pub fn trimmed_nonempty(input: &str) -> (r: Option<String>)
    ensures
        opt_text(r) == spec_trimmed_nonempty(input@),
{
    let cs = chars_of(input);
    let t = trim(cs.as_slice());
    if t.len() == 0 {
        None
    } else {
        Some(string_of(t))
    }
}

/// Every string of a list as a vector of characters.
pub fn char_lists_of(list: &[String]) -> (r: Vec<Vec<char>>)
    ensures
        char_texts(r@) == texts(list@),
{
    let mut r: Vec<Vec<char>> = Vec::new();
    let mut i: usize = 0;
    while i < list.len()
        invariant
            i <= list.len(),
            r.len() == i,
            forall|j: int| 0 <= j < i ==> r[j]@ == list[j]@,
        decreases list.len() - i,
    {
        r.push(chars_of(list[i].as_str()));
        i += 1;
    }
    assert(char_texts(r@) =~= texts(list@));
    r
}

/// `list` with `value` at its end, unless `list` holds it already.
pub open spec fn spec_push_unique(list: Seq<Seq<char>>, value: Seq<char>) -> Seq<Seq<char>> {
    if list.contains(value) {
        list
    } else {
        list.push(value)
    }
}

/// Whether the list holds a string with the text of `value`.
pub fn contains_text(list: &[String], value: &str) -> (r: bool)
    ensures
        r == texts(list@).contains(value@),
{
    let wanted = chars_of(value);
    let mut i: usize = 0;
    while i < list.len()
        invariant
            i <= list.len(),
            wanted@ == value@,
            forall|j: int| 0 <= j < i ==> list[j]@ != value@,
        decreases list.len() - i,
    {
        let here = chars_of(list[i].as_str());
        if text_eq(here.as_slice(), wanted.as_slice()) {
            assert(texts(list@)[i as int] == value@);
            return true;
        }
        i += 1;
    }
    assert(!texts(list@).contains(value@)) by {
        if texts(list@).contains(value@) {
            let j = choose|j: int| 0 <= j < texts(list@).len() && texts(list@)[j] == value@;
            assert(list[j]@ == value@);
        }
    }
    false
}

/// Appends `value` unless the list already holds an equal string.
pub fn push_unique(values: &mut Vec<String>, value: String)
    ensures
        texts(final(values)@) == spec_push_unique(texts(old(values)@), value@),
        texts(old(values)@).contains(value@) ==> *final(values) == *old(values),
        !texts(old(values)@).contains(value@) ==> final(values)@ == old(values)@.push(value),
{
    if !contains_text(values.as_slice(), value.as_str()) {
        values.push(value);
        assert(texts(values@) =~= texts(old(values)@).push(value@));
    }
}

/// The texts of a list, joined with `separator` between them.
pub open spec fn spec_join(list: Seq<Seq<char>>, separator: Seq<char>) -> Seq<char>
    decreases list.len(),
{
    if list.len() == 0 {
        Seq::empty()
    } else if list.len() == 1 {
        list[0]
    } else {
        spec_join(list.drop_last(), separator) + separator + list.last()
    }
}

/// The strings of a list, joined with `separator` between them.
pub fn join(list: &[String], separator: &str) -> (r: String)
    ensures
        r@ == spec_join(texts(list@), separator@),
{
    let mut out = String::new();
    let mut i: usize = 0;
    assert(texts(list@).take(0) =~= Seq::<Seq<char>>::empty());
    while i < list.len()
        invariant
            i <= list.len(),
            out@ == spec_join(texts(list@).take(i as int), separator@),
        decreases list.len() - i,
    {
        let ghost upto = texts(list@).take(i + 1);
        assert(upto.drop_last() =~= texts(list@).take(i as int));
        assert(upto.last() == list[i as int]@);
        if i > 0 {
            out.append(separator);
        } else {
            assert(out@ + list[i as int]@ =~= list[i as int]@);
        }
        out.append(list[i].as_str());
        i += 1;
    }
    assert(texts(list@).take(list.len() as int) =~= texts(list@));
    out
}

/// A copy of the list.
pub fn clone_list(list: &[String]) -> (r: Vec<String>)
    ensures
        texts(r@) == texts(list@),
{
    let mut out: Vec<String> = Vec::new();
    let mut i: usize = 0;
    while i < list.len()
        invariant
            i <= list.len(),
            out.len() == i,
            forall|j: int| 0 <= j < i ==> out[j]@ == list[j]@,
        decreases list.len() - i,
    {
        out.push(list[i].clone());
        i += 1;
    }
    assert(texts(out@) =~= texts(list@));
    out
}

/// The list with only the first occurrence of each text kept.
pub open spec fn spec_dedup(list: Seq<Seq<char>>) -> Seq<Seq<char>>
    decreases list.len(),
{
    if list.len() == 0 {
        Seq::empty()
    } else {
        spec_push_unique(spec_dedup(list.drop_last()), list.last())
    }
}

/// Removing repeats from a list with one more text at its end.
pub proof fn lemma_dedup_push(list: Seq<Seq<char>>, value: Seq<char>)
    ensures
        spec_dedup(list.push(value)) == spec_push_unique(spec_dedup(list), value),
{
    assert(list.push(value).drop_last() =~= list);
}

/// Removing repeats neither adds a text nor loses one.
pub proof fn lemma_dedup_contains(list: Seq<Seq<char>>, x: Seq<char>)
    ensures
        spec_dedup(list).contains(x) <==> list.contains(x),
    decreases list.len(),
{
    if list.len() > 0 {
        let before = list.drop_last();
        let last = list.last();
        let kept = spec_dedup(before);
        lemma_dedup_contains(before, x);
        lemma_dedup_contains(before, last);
        let out = spec_dedup(list);
        if out.contains(x) {
            let i = choose|i: int| 0 <= i < out.len() && out[i] == x;
            if i < kept.len() {
                assert(kept[i] == x);
                assert(kept.contains(x));
                let j = choose|j: int| 0 <= j < before.len() && before[j] == x;
                assert(list[j] == x);
            } else {
                assert(x == last);
                assert(list[list.len() - 1] == x);
            }
        }
        if list.contains(x) {
            let j = choose|j: int| 0 <= j < list.len() && list[j] == x;
            if j < before.len() {
                assert(before[j] == x);
                assert(before.contains(x));
                let i = choose|i: int| 0 <= i < kept.len() && kept[i] == x;
                assert(out[i] == x);
            } else if kept.contains(last) {
            } else {
                assert(out[out.len() - 1] == x);
            }
        }
    }
}

/// Removing repeats keeps every text, keeps none twice, and keeps the
/// first text first.
pub proof fn lemma_dedup(list: Seq<Seq<char>>)
    ensures
        spec_dedup(list).no_duplicates(),
        forall|x: Seq<char>| spec_dedup(list).contains(x) <==> list.contains(x),
        list.len() > 0 ==> spec_dedup(list).len() > 0 && spec_dedup(list)[0] == list[0],
    decreases list.len(),
{
    assert forall|x: Seq<char>| spec_dedup(list).contains(x) <==> list.contains(x) by {
        lemma_dedup_contains(list, x);
    }
    if list.len() > 0 {
        let before = list.drop_last();
        lemma_dedup(before);
        if before.len() > 0 {
            assert(before[0] == list[0]);
        }
    }
}

/// The trimmed text of an optional value; none where the value is
/// absent or blank.
pub open spec fn spec_trimmed_opt(value: Option<Seq<char>>) -> Option<Seq<char>> {
    match value {
        Some(text) => spec_trimmed_nonempty(text),
        None => None,
    }
}

/// The trimmed text of an optional value; none where it is absent or blank.
pub fn trimmed_opt(value: Option<&str>) -> (r: Option<String>)
    ensures
        opt_text(r) == spec_trimmed_opt(opt_str_text(value)),
{
    match value {
        Some(text) => trimmed_nonempty(text),
        None => None,
    }
}

/// An optional value as it stands, unless it is absent or blank.
pub open spec fn spec_nonblank(value: Option<Seq<char>>) -> Option<Seq<char>> {
    match value {
        Some(text) => if spec_trim(text).len() == 0 {
            None
        } else {
            Some(text)
        },
        None => None,
    }
}

/// An optional value as it stands, unless it is absent or blank.
pub fn nonblank(value: Option<&str>) -> (r: Option<String>)
    ensures
        opt_text(r) == spec_nonblank(opt_str_text(value)),
{
    match value {
        Some(text) => {
            let cs = chars_of(text);
            if trim(cs.as_slice()).len() == 0 {
                None
            } else {
                Some(String::from_str(text))
            }
        },
        None => None,
    }
}

/// The decimal digit for a number below ten.
pub open spec fn spec_digit(d: nat) -> char {
    ((d + 48) as u8) as char
}

/// A number in decimal notation.
pub open spec fn spec_decimal(n: nat) -> Seq<char>
    decreases n,
{
    if n < 10 {
        seq![spec_digit(n)]
    } else {
        spec_decimal(n / 10).push(spec_digit(n % 10))
    }
}

/// Appends a number in decimal notation.
pub fn push_decimal(out: &mut String, n: u64)
    ensures
        final(out)@ == old(out)@ + spec_decimal(n as nat),
    decreases n,
{
    if n >= 10 {
        push_decimal(out, n / 10);
    }
    let d: u8 = (n % 10) as u8;
    out.push((d + 48) as char);
    proof {
        if n < 10 {
            assert(out@ =~= old(out)@ + seq![spec_digit(n as nat)]);
        } else {
            assert(out@ =~= old(out)@ + spec_decimal(n as nat / 10).push(
                spec_digit(n as nat % 10),
            ));
        }
    }
}

/// A number in decimal notation.
pub fn decimal(n: u64) -> (r: String)
    ensures
        r@ == spec_decimal(n as nat),
{
    let mut out = String::new();
    push_decimal(&mut out, n);
    assert(Seq::<char>::empty() + spec_decimal(n as nat) =~= spec_decimal(n as nat));
    out
}

/// A number with its sign in decimal notation.
pub open spec fn spec_signed_decimal(n: int) -> Seq<char> {
    if n < 0 {
        seq!['-'] + spec_decimal((-n) as nat)
    } else {
        spec_decimal(n as nat)
    }
}

/// Appends a number with its sign in decimal notation.
pub fn push_signed_decimal(out: &mut String, n: i32)
    ensures
        final(out)@ == old(out)@ + spec_signed_decimal(n as int),
{
    if n < 0 {
        out.push('-');
        let wide: i64 = n as i64;
        push_decimal(out, (0 - wide) as u64);
        assert(out@ =~= old(out)@ + (seq!['-'] + spec_decimal((-n) as nat)));
    } else {
        push_decimal(out, n as u64);
    }
}

/// Whether every character of the text is a decimal digit.
pub open spec fn spec_all_digits(s: Seq<char>) -> bool {
    forall|i: int| 0 <= i < s.len() ==> is_ascii_digit(#[trigger] s[i])
}

/// The number that a text of decimal digits denotes.
pub open spec fn spec_digits_value(s: Seq<char>) -> nat
    decreases s.len(),
{
    if s.len() == 0 {
        0
    } else {
        spec_digits_value(s.drop_last()) * 10 + (s.last() as nat - '0' as nat) as nat
    }
}

/// The number that a text denotes: an optional `+`, then one decimal
/// digit or more, with a value that a `u32` can hold.
pub open spec fn spec_parse_u32(s: Seq<char>) -> Option<u32> {
    let digits = if s.len() > 0 && s[0] == '+' {
        s.skip(1)
    } else {
        s
    };
    if digits.len() == 0 || !spec_all_digits(digits) || spec_digits_value(digits) > u32::MAX {
        None
    } else {
        Some(spec_digits_value(digits) as u32)
    }
}

/// A number does not get smaller as digits are added to it.
pub proof fn lemma_digits_value_grows(s: Seq<char>, i: int)
    requires
        0 <= i <= s.len(),
        spec_all_digits(s),
    ensures
        spec_digits_value(s.take(i)) <= spec_digits_value(s),
    decreases s.len() - i,
{
    if i < s.len() {
        lemma_digits_value_grows(s, i + 1);
        assert(s.take(i + 1).drop_last() =~= s.take(i));
        assert(is_ascii_digit(s[i]));
    } else {
        assert(s.take(i) =~= s);
    }
}

/// Reads a number as `str::parse::<u32>` does.
pub fn parse_u32(text: &[char]) -> (r: Option<u32>)
    ensures
        r == spec_parse_u32(text@),
{
    let digits = if text.len() > 0 && text[0] == '+' {
        slice(text, 1, text.len())
    } else {
        text
    };
    if digits.len() == 0 {
        return None;
    }
    let mut value: u64 = 0;
    let mut i: usize = 0;
    assert(digits@.take(0) =~= Seq::<char>::empty());
    while i < digits.len()
        invariant
            i <= digits.len(),
            digits.len() > 0,
            digits@ == (if text@.len() > 0 && text@[0] == '+' {
                text@.skip(1)
            } else {
                text@
            }),
            value == spec_digits_value(digits@.take(i as int)),
            value <= u32::MAX,
            forall|j: int| 0 <= j < i ==> is_ascii_digit(#[trigger] digits[j]),
        decreases digits.len() - i,
    {
        let c = digits[i];
        if !is_ascii_digit(c) {
            assert(!is_ascii_digit(digits@[i as int]));
            return None;
        }
        assert(digits@.take(i + 1).drop_last() =~= digits@.take(i as int));
        assert(digits@.take(i + 1).last() == c);
        let d: u64 = (c as u32 - '0' as u32) as u64;
        value = value * 10 + d;
        if value > u32::MAX as u64 {
            proof {
                if spec_all_digits(digits@) {
                    lemma_digits_value_grows(digits@, i + 1);
                }
            }
            return None;
        }
        i += 1;
    }
    assert(digits@.take(digits.len() as int) =~= digits@);
    assert(spec_all_digits(digits@));
    Some(value as u32)
}

} // verus!
