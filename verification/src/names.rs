//! Workspace names: the known prefixes, the chain of names that comes
//! from stripping them, and the canonical name under which a workspace
//! is created.

use vstd::prelude::*;
use crate::text::{
    char_lists_of, char_texts, chars_of, is_whitespace, lemma_trim, opt_str_text, push_decimal,
    push_unique, slice, spec_decimal, spec_push_unique, spec_trim, spec_trimmed_nonempty,
    spec_trimmed_opt, starts_with, string_of, texts, trim, trimmed_opt,
};

verus! {

/// The known prefixes: the two configured ones, each trimmed and left
/// out where unset or blank, then `agent-ws` and `codex-ws`; each text
/// once, at its first place.
pub open spec fn spec_workspace_prefixes(first: Option<Seq<char>>, second: Option<Seq<char>>)
    -> Seq<Seq<char>> {
    let one = match spec_trimmed_opt(first) {
        Some(prefix) => seq![prefix],
        None => Seq::empty(),
    };
    let two = match spec_trimmed_opt(second) {
        Some(prefix) => spec_push_unique(one, prefix),
        None => one,
    };
    spec_push_unique(spec_push_unique(two, "agent-ws"@), "codex-ws"@)
}

/// The known prefixes, from the values of the two variables that can
/// configure one. Configured prefixes come before the fixed ones.
pub fn workspace_prefixes(first: Option<&str>, second: Option<&str>) -> (r: Vec<String>)
    ensures
        texts(r@) == spec_workspace_prefixes(opt_str_text(first), opt_str_text(second)),
{
    let mut prefixes: Vec<String> = Vec::new();
    assert(texts(prefixes@) =~= Seq::<Seq<char>>::empty());
    match trimmed_opt(first) {
        Some(prefix) => {
            push_unique(&mut prefixes, prefix);
            assert(texts(prefixes@) =~= seq![prefix@]);
        },
        None => {},
    }
    match trimmed_opt(second) {
        Some(prefix) => {
            push_unique(&mut prefixes, prefix);
        },
        None => {},
    }
    push_unique(&mut prefixes, String::from_str("agent-ws"));
    push_unique(&mut prefixes, String::from_str("codex-ws"));
    prefixes
}

/// No prefix is listed twice, the fixed ones are always listed, and a
/// configured one comes first.
pub proof fn lemma_workspace_prefixes(first: Option<Seq<char>>, second: Option<Seq<char>>)
    ensures
        spec_workspace_prefixes(first, second).no_duplicates(),
        spec_workspace_prefixes(first, second).contains("agent-ws"@),
        spec_workspace_prefixes(first, second).contains("codex-ws"@),
        spec_trimmed_opt(first) matches Some(prefix) ==> spec_workspace_prefixes(first, second)[0]
            == prefix,
        spec_trimmed_opt(first) is None ==> (spec_trimmed_opt(second) matches Some(prefix)
            ==> spec_workspace_prefixes(first, second)[0] == prefix),
{
    let one = match spec_trimmed_opt(first) {
        Some(prefix) => seq![prefix],
        None => Seq::empty(),
    };
    let two = match spec_trimmed_opt(second) {
        Some(prefix) => spec_push_unique(one, prefix),
        None => one,
    };
    let three = spec_push_unique(two, "agent-ws"@);
    let four = spec_push_unique(three, "codex-ws"@);
    assert(one.no_duplicates());
    lemma_push_unique(one, spec_trimmed_opt(second).unwrap_or(Seq::empty()));
    lemma_push_unique(two, "agent-ws"@);
    lemma_push_unique(three, "codex-ws"@);
    let i = choose|i: int| 0 <= i < three.len() && three[i] == "agent-ws"@;
    assert(four[i] == "agent-ws"@);
}

/// Adding a text that may be there already keeps a list free of
/// repeats, keeps its texts at their places, and makes the text one of
/// them.
pub proof fn lemma_push_unique(list: Seq<Seq<char>>, value: Seq<char>)
    requires
        list.no_duplicates(),
    ensures
        spec_push_unique(list, value).no_duplicates(),
        spec_push_unique(list, value).contains(value),
        spec_push_unique(list, value).len() >= list.len(),
        forall|i: int| 0 <= i < list.len() ==> spec_push_unique(list, value)[i] == list[i],
{
    let out = spec_push_unique(list, value);
    if !list.contains(value) {
        assert(out[out.len() - 1] == value);
    }
}

/// The name without a leading `prefix-`, trimmed, where the name has
/// that lead and something is left behind it.
pub open spec fn spec_strip_prefix(name: Seq<char>, prefix: Seq<char>) -> Option<Seq<char>> {
    let lead = prefix.push('-');
    if lead.is_prefix_of(name) {
        spec_trimmed_nonempty(name.skip(lead.len() as int))
    } else {
        None
    }
}

/// The name stripped of the first prefix of the list that can be
/// stripped from it.
pub open spec fn spec_strip_known(name: Seq<char>, prefixes: Seq<Seq<char>>) -> Option<
    Seq<char>,
>
    decreases prefixes.len(),
{
    if prefixes.len() == 0 {
        None
    } else {
        match spec_strip_prefix(name, prefixes[0]) {
            Some(rest) => Some(rest),
            None => spec_strip_known(name, prefixes.drop_first()),
        }
    }
}

/// One stripping step: a known prefix first, the literal `ws-` where no
/// known prefix can be stripped.
pub open spec fn spec_strip_step(name: Seq<char>, prefixes: Seq<Seq<char>>) -> Option<
    Seq<char>,
> {
    match spec_strip_known(name, prefixes) {
        Some(rest) => Some(rest),
        None => spec_strip_prefix(name, "ws"@),
    }
}

/// Stripping a prefix leaves a shorter, non-empty, trimmed name.
pub proof fn lemma_strip_prefix_shortens(name: Seq<char>, prefix: Seq<char>)
    ensures
        spec_strip_prefix(name, prefix) matches Some(rest) ==> 0 < rest.len() < name.len()
            && spec_trim(rest) == rest,
{
    let lead = prefix.push('-');
    if lead.is_prefix_of(name) {
        let tail = name.skip(lead.len() as int);
        lemma_trim(tail);
        crate::text::lemma_trim_idempotent(tail);
    }
}

/// A stripping step leaves a shorter, non-empty, trimmed name.
pub proof fn lemma_strip_step_shortens(name: Seq<char>, prefixes: Seq<Seq<char>>)
    ensures
        spec_strip_step(name, prefixes) matches Some(rest) ==> 0 < rest.len() < name.len()
            && spec_trim(rest) == rest,
    decreases prefixes.len(),
{
    lemma_strip_prefix_shortens(name, "ws"@);
    if prefixes.len() > 0 {
        lemma_strip_prefix_shortens(name, prefixes[0]);
        lemma_strip_step_shortens(name, prefixes.drop_first());
    }
}

/// The chain of names from `name` on: each is the one before it after
/// one stripping step, and the chain ends where no step applies.
pub open spec fn spec_variants_from(name: Seq<char>, prefixes: Seq<Seq<char>>) -> Seq<Seq<char>>
    decreases name.len(),
{
    match spec_strip_step(name, prefixes) {
        Some(rest) => {
            proof {
                lemma_strip_step_shortens(name, prefixes);
            }
            seq![name] + spec_variants_from(rest, prefixes)
        },
        None => seq![name],
    }
}

/// The variants of a name: the trimmed name, then every name that
/// stripping it step by step gives. A blank name has none.
pub open spec fn spec_workspace_name_variants(input: Seq<char>, prefixes: Seq<Seq<char>>) -> Seq<
    Seq<char>,
> {
    match spec_trimmed_nonempty(input) {
        Some(name) => spec_variants_from(name, prefixes),
        None => Seq::empty(),
    }
}

/// Whether the name starts with the prefix and a dash.
pub fn has_lead(name: &[char], prefix: &[char]) -> (r: bool)
    ensures
        r == prefix@.push('-').is_prefix_of(name@),
        r ==> prefix.len() < name.len(),
{
    let n = prefix.len();
    if n < name.len() && starts_with(name, prefix) && name[n] == '-' {
        assert(name@.subrange(0, n + 1) =~= prefix@.push('-'));
        true
    } else {
        assert(!prefix@.push('-').is_prefix_of(name@)) by {
            let lead = prefix@.push('-');
            if lead.is_prefix_of(name@) {
                assert(name@.subrange(0, lead.len() as int)[n as int] == '-');
                assert(name@.subrange(0, n as int) =~= name@.subrange(0, lead.len() as int).take(
                    n as int,
                ));
                assert(lead.take(n as int) =~= prefix@);
            }
        }
        false
    }
}

fn strip_prefix<'a>(name: &'a [char], prefix: &[char]) -> (r: Option<&'a [char]>)
    ensures
        match r {
            Some(rest) => spec_strip_prefix(name@, prefix@) == Some(rest@),
            None => spec_strip_prefix(name@, prefix@) is None,
        },
{
    if has_lead(name, prefix) {
        let rest = trim(slice(name, prefix.len() + 1, name.len()));
        if rest.len() == 0 {
            None
        } else {
            Some(rest)
        }
    } else {
        None
    }
}

fn strip_step<'a>(name: &'a [char], prefixes: &Vec<Vec<char>>) -> (r: Option<&'a [char]>)
    ensures
        match r {
            Some(rest) => spec_strip_step(name@, char_texts(prefixes@)) == Some(rest@),
            None => spec_strip_step(name@, char_texts(prefixes@)) is None,
        },
{
    let ghost all = char_texts(prefixes@);
    let mut i: usize = 0;
    assert(all.skip(0) =~= all);
    while i < prefixes.len()
        invariant
            i <= prefixes.len(),
            all == char_texts(prefixes@),
            spec_strip_known(name@, all) == spec_strip_known(name@, all.skip(i as int)),
        decreases prefixes.len() - i,
    {
        assert(all.skip(i as int)[0] == prefixes[i as int]@);
        match strip_prefix(name, prefixes[i].as_slice()) {
            Some(rest) => {
                return Some(rest);
            },
            None => {},
        }
        assert(all.skip(i as int).drop_first() =~= all.skip(i + 1));
        i += 1;
    }
    let fallback = chars_of("ws");
    strip_prefix(name, fallback.as_slice())
}

/// The variants of a workspace name: the trimmed name first, then what
/// is left after each stripping step. A step strips the first known
/// prefix (with its dash) behind which something is left, or the literal
/// `ws-` where no known prefix applies. Every step shortens the name, so
/// no variant occurs twice.
pub fn workspace_name_variants(input: &str, prefixes: &[String]) -> (r: Vec<String>)
    ensures
        texts(r@) == spec_workspace_name_variants(input@, texts(prefixes@)),
{
    let input_chars = chars_of(input);
    let known = char_lists_of(prefixes);
    let mut variants: Vec<String> = Vec::new();
    let mut current: &[char] = trim(input_chars.as_slice());
    if current.len() == 0 {
        assert(texts(variants@) =~= Seq::<Seq<char>>::empty());
        return variants;
    }
    let ghost all = texts(prefixes@);
    let ghost full = spec_workspace_name_variants(input@, all);
    assert(texts(variants@) + spec_variants_from(current@, all) =~= full);
    loop
        invariant_except_break
            texts(variants@) + spec_variants_from(current@, all) == full,
        invariant
            all == char_texts(known@),
        ensures
            texts(variants@) == full,
        decreases current.len(),
    {
        variants.push(string_of(current));
        let ghost before = current@;
        assert(texts(variants@) =~= texts(variants@).drop_last().push(before));
        match strip_step(current, &known) {
            Some(rest) => {
                proof {
                    lemma_strip_step_shortens(before, all);
                    assert(texts(variants@) + spec_variants_from(rest@, all) =~= full);
                }
                current = rest;
            },
            None => {
                assert(texts(variants@) =~= full);
                break ;
            },
        }
    }
    variants
}

/// The last variant: the name with every prefix stripped. Empty for a
/// blank name.
pub open spec fn spec_stripped_name(input: Seq<char>, prefixes: Seq<Seq<char>>) -> Seq<char> {
    let variants = spec_workspace_name_variants(input, prefixes);
    if variants.len() > 0 {
        variants.last()
    } else {
        Seq::empty()
    }
}

/// The characters that a slug keeps: ASCII letters and digits, `-`, `_`.
pub open spec fn spec_is_name_char(c: char) -> bool {
    crate::text::spec_is_ascii_alphanumeric(c) || c == '-' || c == '_'
}

/// The characters that a slug turns into a dash: white space, `/`, `.`
/// and `:`.
pub open spec fn spec_is_separator(c: char) -> bool {
    is_whitespace(c) || c == '/' || c == '.' || c == ':'
}

/// The slug of a text. A name character is kept, in lower case. A run
/// of separators gives one dash. Every other character is dropped.
pub open spec fn spec_slug(s: Seq<char>) -> Seq<char>
    decreases s.len(),
{
    if s.len() == 0 {
        Seq::empty()
    } else {
        let before = s.drop_last();
        let c = s.last();
        if spec_is_name_char(c) {
            spec_slug(before).push(crate::text::spec_to_ascii_lowercase(c))
        } else if spec_is_separator(c) && !(before.len() > 0 && spec_is_separator(before.last())) {
            spec_slug(before).push('-')
        } else {
            spec_slug(before)
        }
    }
}

/// The name given to a workspace whose requested name has an empty slug:
/// `ws-` and the time of creation in seconds.
pub open spec fn spec_fallback_name(unix_seconds: nat) -> Seq<char> {
    "ws-"@ + spec_decimal(unix_seconds)
}

/// The canonical name for a new workspace: the slug of the fully
/// stripped name, or the fallback name where that slug is empty.
pub open spec fn spec_normalize_workspace_name_for_create(
    name: Seq<char>,
    prefixes: Seq<Seq<char>>,
    unix_seconds: nat,
) -> Seq<char> {
    let slug = spec_slug(spec_stripped_name(name, prefixes));
    if slug.len() == 0 {
        spec_fallback_name(unix_seconds)
    } else {
        slug
    }
}

/// The slug of a text.
pub fn slugify(s: &[char]) -> (r: Vec<char>)
    ensures
        r@ == spec_slug(s@),
{
    let mut out: Vec<char> = Vec::new();
    let mut i: usize = 0;
    assert(s@.take(0) =~= Seq::<char>::empty());
    while i < s.len()
        invariant
            i <= s.len(),
            out@ == spec_slug(s@.take(i as int)),
        decreases s.len() - i,
    {
        let c = s[i];
        let ghost upto = s@.take(i + 1);
        assert(upto.drop_last() =~= s@.take(i as int));
        assert(upto.last() == c);
        if crate::text::is_ascii_alphanumeric(c) || c == '-' || c == '_' {
            out.push(crate::text::to_ascii_lowercase(c));
        } else if is_separator(c) && !(i > 0 && is_separator(s[i - 1])) {
            out.push('-');
        }
        i += 1;
    }
    assert(s@.take(s.len() as int) =~= s@);
    out
}

#[verifier::when_used_as_spec(spec_is_separator)]
pub fn is_separator(c: char) -> (r: bool)
    ensures
        r == spec_is_separator(c),
{
    is_whitespace(c) || c == '/' || c == '.' || c == ':'
}

/// The name given to a workspace whose requested name has an empty slug.
pub fn fallback_name(unix_seconds: u64) -> (r: String)
    ensures
        r@ == spec_fallback_name(unix_seconds as nat),
{
    let mut out = String::from_str("ws-");
    push_decimal(&mut out, unix_seconds);
    out
}

/// The canonical name under which a workspace is created: every known
/// prefix and the literal `ws-` are stripped for as long as one applies,
/// and what is left is turned into a slug. Where nothing is left, the
/// name is `ws-` and `unix_seconds` in decimal.
pub fn normalize_workspace_name_for_create(
    name: &str,
    prefixes: &[String],
    unix_seconds: u64,
) -> (r: String)
    ensures
        r@ == spec_normalize_workspace_name_for_create(
            name@,
            texts(prefixes@),
            unix_seconds as nat,
        ),
{
    let variants = workspace_name_variants(name, prefixes);
    let stripped: Vec<char> = if variants.len() > 0 {
        assert(texts(variants@).last() == variants[variants.len() - 1]@);
        chars_of(variants[variants.len() - 1].as_str())
    } else {
        Vec::new()
    };
    let slug = slugify(stripped.as_slice());
    if slug.len() == 0 {
        fallback_name(unix_seconds)
    } else {
        string_of(slug.as_slice())
    }
}

/// The chain from a name starts with it, gets shorter with every step,
/// and ends in a name from which nothing can be stripped. Every name
/// behind the first is non-empty and trimmed.
pub proof fn lemma_variants_from(name: Seq<char>, prefixes: Seq<Seq<char>>)
    ensures
        spec_variants_from(name, prefixes).len() >= 1,
        spec_variants_from(name, prefixes)[0] == name,
        forall|i: int, j: int|
            0 <= i < j < spec_variants_from(name, prefixes).len() ==> spec_variants_from(
                name,
                prefixes,
            )[j].len() < spec_variants_from(name, prefixes)[i].len(),
        spec_strip_step(spec_variants_from(name, prefixes).last(), prefixes) is None,
        forall|i: int|
            1 <= i < spec_variants_from(name, prefixes).len() ==> {
                &&& (#[trigger] spec_variants_from(name, prefixes)[i]).len() > 0
                &&& spec_trim(spec_variants_from(name, prefixes)[i]) == spec_variants_from(
                    name,
                    prefixes,
                )[i]
            },
    decreases name.len(),
{
    match spec_strip_step(name, prefixes) {
        Some(rest) => {
            lemma_strip_step_shortens(name, prefixes);
            lemma_variants_from(rest, prefixes);
            let tail = spec_variants_from(rest, prefixes);
            let v = seq![name] + tail;
            assert(v == spec_variants_from(name, prefixes));
            assert forall|i: int, j: int| 0 <= i < j < v.len() implies v[j].len() < v[i].len() by {
                assert(v[j] == tail[j - 1]);
                if i == 0 {
                    if j > 1 {
                        assert(tail[j - 1].len() < tail[0].len());
                    }
                } else {
                    assert(v[i] == tail[i - 1]);
                }
            }
            assert(v.last() == tail.last());
            assert forall|i: int| 1 <= i < v.len() implies (#[trigger] v[i]).len() > 0 && spec_trim(
                v[i],
            ) == v[i] by {
                assert(v[i] == tail[i - 1]);
            }
        },
        None => {},
    }
}

/// No variant of a name occurs twice: stripping never runs in a circle.
pub proof fn lemma_variants_distinct(input: Seq<char>, prefixes: Seq<Seq<char>>)
    ensures
        spec_workspace_name_variants(input, prefixes).no_duplicates(),
{
    if let Some(name) = spec_trimmed_nonempty(input) {
        lemma_variants_from(name, prefixes);
        let v = spec_variants_from(name, prefixes);
        assert forall|i: int, j: int| 0 <= i < v.len() && 0 <= j < v.len() && i != j implies v[i]
            != v[j] by {
            if i < j {
                assert(v[j].len() < v[i].len());
            } else {
                assert(v[i].len() < v[j].len());
            }
        }
    }
}

/// Nothing can be stripped from a fully stripped name: stripping it
/// again gives it back.
pub proof fn lemma_stripped_name_is_fixed(input: Seq<char>, prefixes: Seq<Seq<char>>)
    ensures
        spec_stripped_name(spec_stripped_name(input, prefixes), prefixes) == spec_stripped_name(
            input,
            prefixes,
        ),
{
    match spec_trimmed_nonempty(input) {
        Some(name) => {
            lemma_trim(input);
            crate::text::lemma_trim_idempotent(input);
            lemma_variants_from(name, prefixes);
            let v = spec_variants_from(name, prefixes);
            let last = v.last();
            assert(last.len() > 0 && spec_trim(last) == last) by {
                if v.len() == 1 {
                    assert(last == name);
                } else {
                    assert(last == v[v.len() - 1]);
                }
            }
            assert(spec_variants_from(last, prefixes) == seq![last]);
        },
        None => {
            assert(spec_trim(Seq::<char>::empty()) == Seq::<char>::empty());
        },
    }
}

/// The characters that a slug is made of.
pub open spec fn spec_is_slug_char(c: char) -> bool {
    ('a' <= c <= 'z') || ('0' <= c <= '9') || c == '-' || c == '_'
}

/// A slug holds lower-case letters, digits, dashes and underscores only.
pub proof fn lemma_slug_chars(s: Seq<char>)
    ensures
        forall|i: int| 0 <= i < spec_slug(s).len() ==> spec_is_slug_char(#[trigger] spec_slug(s)[i]),
    decreases s.len(),
{
    if s.len() > 0 {
        let before = s.drop_last();
        let c = s.last();
        lemma_slug_chars(before);
        if spec_is_name_char(c) {
            lemma_lowercase_name_char(c);
        }
        assert forall|i: int| 0 <= i < spec_slug(s).len() implies spec_is_slug_char(
            #[trigger] spec_slug(s)[i],
        ) by {
            if i < spec_slug(before).len() {
                assert(spec_slug(s)[i] == spec_slug(before)[i]);
            }
        }
    }
}

/// A name character in lower case is a slug character.
pub proof fn lemma_lowercase_name_char(c: char)
    requires
        spec_is_name_char(c),
    ensures
        spec_is_slug_char(crate::text::spec_to_ascii_lowercase(c)),
{
    if 'A' <= c <= 'Z' {
        let n = c as u8;
        assert(65 <= n <= 90);
        let m = (n + 32) as char;
        assert(97 <= m as int <= 122);
    }
}

/// A text made of slug characters is its own slug.
pub proof fn lemma_slug_fixed(s: Seq<char>)
    requires
        forall|i: int| 0 <= i < s.len() ==> spec_is_slug_char(#[trigger] s[i]),
    ensures
        spec_slug(s) == s,
    decreases s.len(),
{
    if s.len() > 0 {
        let before = s.drop_last();
        assert forall|i: int| 0 <= i < before.len() implies spec_is_slug_char(
            #[trigger] before[i],
        ) by {
            assert(before[i] == s[i]);
        }
        lemma_slug_fixed(before);
        assert(spec_is_slug_char(s[s.len() - 1]));
        assert(before.push(s.last()) =~= s);
    } else {
        assert(s =~= Seq::<char>::empty());
    }
}

/// The slug of a slug is that slug.
pub proof fn lemma_slug_idempotent(s: Seq<char>)
    ensures
        spec_slug(spec_slug(s)) == spec_slug(s),
{
    lemma_slug_chars(s);
    lemma_slug_fixed(spec_slug(s));
}

/// Normalising a normalised name changes nothing, where the slug of the
/// stripped name is not empty and does not itself start with a prefix
/// that can be stripped. (Turning a name into a slug can bring a prefix
/// about that the name did not have, and the fallback name starts with
/// `ws-`: on such names the second pass strips once more.)
pub proof fn lemma_normalize_is_idempotent(
    name: Seq<char>,
    prefixes: Seq<Seq<char>>,
    unix_seconds: nat,
)
    requires
        spec_slug(spec_stripped_name(name, prefixes)).len() > 0,
        spec_strip_step(spec_slug(spec_stripped_name(name, prefixes)), prefixes) is None,
    ensures
        spec_normalize_workspace_name_for_create(
            spec_normalize_workspace_name_for_create(name, prefixes, unix_seconds),
            prefixes,
            unix_seconds,
        ) == spec_normalize_workspace_name_for_create(name, prefixes, unix_seconds),
{
    let slug = spec_slug(spec_stripped_name(name, prefixes));
    lemma_slug_chars(spec_stripped_name(name, prefixes));
    lemma_slug_fixed(slug);
    assert(spec_is_slug_char(slug[0]));
    assert(spec_is_slug_char(slug[slug.len() - 1]));
    crate::text::lemma_trim_fixed(slug);
    assert(spec_variants_from(slug, prefixes) == seq![slug]);
    assert(spec_stripped_name(slug, prefixes) == slug);
}

/// Whether a text is made of slug characters only.
pub open spec fn spec_is_slug(s: Seq<char>) -> bool {
    forall|i: int| 0 <= i < s.len() ==> spec_is_slug_char(#[trigger] s[i])
}

/// What a stripping step leaves of a slug is a slug.
proof fn lemma_strip_step_keeps_slug(name: Seq<char>, prefixes: Seq<Seq<char>>)
    requires
        spec_is_slug(name),
    ensures
        spec_strip_step(name, prefixes) matches Some(rest) ==> spec_is_slug(rest),
    decreases prefixes.len(),
{
    lemma_strip_prefix_keeps_slug(name, "ws"@);
    if prefixes.len() > 0 {
        lemma_strip_prefix_keeps_slug(name, prefixes[0]);
        lemma_strip_step_keeps_slug(name, prefixes.drop_first());
    }
}

proof fn lemma_strip_prefix_keeps_slug(name: Seq<char>, prefix: Seq<char>)
    requires
        spec_is_slug(name),
    ensures
        spec_strip_prefix(name, prefix) matches Some(rest) ==> spec_is_slug(rest),
{
    let lead = prefix.push('-');
    if lead.is_prefix_of(name) {
        let tail = name.skip(lead.len() as int);
        lemma_trim(tail);
        let rest = spec_trim(tail);
        let from = crate::text::spec_trim_from(tail);
        assert forall|i: int| 0 <= i < rest.len() implies spec_is_slug_char(#[trigger] rest[i]) by {
            assert(rest[i] == name[lead.len() + from + i]);
        }
    }
}

/// The fully stripped form of a slug is a slug.
proof fn lemma_variants_keep_slug(name: Seq<char>, prefixes: Seq<Seq<char>>)
    requires
        spec_is_slug(name),
    ensures
        spec_is_slug(spec_variants_from(name, prefixes).last()),
    decreases name.len(),
{
    match spec_strip_step(name, prefixes) {
        Some(rest) => {
            lemma_strip_step_shortens(name, prefixes);
            lemma_strip_step_keeps_slug(name, prefixes);
            lemma_variants_keep_slug(rest, prefixes);
            let tail = spec_variants_from(rest, prefixes);
            lemma_variants_from(rest, prefixes);
            assert((seq![name] + tail).last() == tail.last());
        },
        None => {},
    }
}

/// Normalising a non-empty slug from which a prefix can be stripped
/// gives a shorter name.
proof fn lemma_normalize_shortens(name: Seq<char>, prefixes: Seq<Seq<char>>, unix_seconds: nat)
    requires
        name.len() > 0,
        spec_is_slug(name),
        spec_strip_step(name, prefixes) is Some,
    ensures
        spec_normalize_workspace_name_for_create(name, prefixes, unix_seconds).len() < name.len(),
{
    assert(spec_is_slug_char(name[0]));
    assert(spec_is_slug_char(name[name.len() - 1]));
    crate::text::lemma_trim_fixed(name);
    lemma_variants_from(name, prefixes);
    lemma_variants_keep_slug(name, prefixes);
    lemma_strip_step_shortens(name, prefixes);
    let variants = spec_variants_from(name, prefixes);
    let rest = spec_strip_step(name, prefixes).unwrap();
    lemma_variants_from(rest, prefixes);
    assert(variants.len() >= 2);
    let stripped = variants.last();
    assert(stripped == variants[variants.len() - 1]);
    assert(stripped.len() < variants[0].len());
    lemma_slug_fixed(stripped);
}

/// The decimal notation of a number is a non-empty text of digits.
pub proof fn lemma_decimal_is_slug(n: nat)
    ensures
        spec_decimal(n).len() > 0,
        spec_is_slug(spec_decimal(n)),
    decreases n,
{
    if n >= 10 {
        lemma_decimal_is_slug(n / 10);
        let d = crate::text::spec_digit(n % 10);
        assert('0' <= d <= '9');
        let before = spec_decimal(n / 10);
        assert forall|i: int| 0 <= i < spec_decimal(n).len() implies spec_is_slug_char(
            #[trigger] spec_decimal(n)[i],
        ) by {
            if i < before.len() {
                assert(spec_decimal(n)[i] == before[i]);
            }
        }
    } else {
        let d = crate::text::spec_digit(n);
        assert('0' <= d <= '9');
    }
}

/// Normalising is idempotent on exactly the names that the law above
/// admits: on every other name, normalising the normalised name gives
/// a shorter one.
pub proof fn lemma_normalize_not_idempotent_elsewhere(
    name: Seq<char>,
    prefixes: Seq<Seq<char>>,
    unix_seconds: nat,
)
    requires
        spec_slug(spec_stripped_name(name, prefixes)).len() == 0 || spec_strip_step(
            spec_slug(spec_stripped_name(name, prefixes)),
            prefixes,
        ) is Some,
    ensures
        spec_normalize_workspace_name_for_create(
            spec_normalize_workspace_name_for_create(name, prefixes, unix_seconds),
            prefixes,
            unix_seconds,
        ).len() < spec_normalize_workspace_name_for_create(name, prefixes, unix_seconds).len(),
{
    let slug = spec_slug(spec_stripped_name(name, prefixes));
    let once = spec_normalize_workspace_name_for_create(name, prefixes, unix_seconds);
    if slug.len() == 0 {
        reveal_strlit("ws-");
        reveal_strlit("ws");
        lemma_decimal_is_slug(unix_seconds);
        let digits = spec_decimal(unix_seconds);
        assert(once == "ws-"@ + digits);
        assert forall|i: int| 0 <= i < once.len() implies spec_is_slug_char(#[trigger] once[i]) by {
            if i >= 3 {
                assert(once[i] == digits[i - 3]);
            }
        }
        // A known prefix or the literal one can be stripped from the fallback name.
        assert("ws"@.push('-') =~= "ws-"@);
        assert(once.subrange(0, 3) =~= "ws-"@);
        assert(once.skip(3) =~= digits);
        assert(spec_is_slug_char(digits[0]));
        assert(spec_is_slug_char(digits[digits.len() - 1]));
        crate::text::lemma_trim_fixed(digits);
        assert(spec_strip_prefix(once, "ws"@) == Some(digits));
        lemma_normalize_shortens(once, prefixes, unix_seconds);
    } else {
        lemma_slug_chars(spec_stripped_name(name, prefixes));
        lemma_normalize_shortens(slug, prefixes, unix_seconds);
    }
}

} // verus!
