//! Finding the repositories under a root directory, and summing up what
//! resetting them gave.
//!
//! The directory walk is the caller's. From the `.git` entries that it
//! found, this module makes the list of repository directories: each
//! directory once, in ascending order.

use vstd::prelude::*;
use crate::reset::{reset_error_message, spec_reset_error_message, ResetError, ResetReport};
use crate::text::{
    chars_of, decimal, ends_with, find_char, lemma_find_char, opt_text, slice, spec_decimal,
    spec_find_char, spec_trim, string_of, text_eq, texts, trim,
};

verus! {

/// The depth of a search is not a positive number.
#[derive(Clone, Copy, Debug, PartialEq, Eq, Structural)]
pub struct InvalidDepth;

impl InvalidDepth {
    /// The message shown for the error.
    pub fn message(&self) -> (r: String)
        ensures
            r@ == "--depth must be a positive integer"@,
    {
        String::from_str("--depth must be a positive integer")
    }
}

/// The levels below the root at which `.git` entries are looked for.
#[derive(Clone, Copy, Debug, PartialEq, Eq, Structural)]
pub struct DepthRange {
    pub min_depth: u64,
    pub max_depth: u64,
}

/// The levels for a search of repositories down to `depth` levels below
/// the root: a repository at level `n` has its `.git` entry at level
/// `n + 1`, and the root itself is no repository. A depth of zero is
/// an error, and is found before anything is walked.
pub fn discovery_depths(depth: u32) -> (r: Result<DepthRange, InvalidDepth>)
    ensures
        depth == 0 ==> r is Err,
        depth > 0 ==> r == Ok::<DepthRange, InvalidDepth>(
            DepthRange { min_depth: 2, max_depth: (depth + 1) as u64 },
        ),
{
    if depth == 0 {
        Err(InvalidDepth)
    } else {
        let max_depth: u64 = depth as u64 + 1;
        Ok(DepthRange { min_depth: 2, max_depth })
    }
}

/// The trimmed, non-empty lines of a text, in order.
pub open spec fn spec_trimmed_lines(text: Seq<char>) -> Seq<Seq<char>>
    decreases text.len(),
{
    let end = spec_find_char(text, '\n');
    let line = spec_trim(text.take(end));
    let here = if line.len() == 0 {
        Seq::empty()
    } else {
        seq![line]
    };
    if end < text.len() {
        proof {
            lemma_find_char(text, '\n');
        }
        here + spec_trimmed_lines(text.skip(end + 1))
    } else {
        here
    }
}

/// The lines of what a listing command printed, each trimmed, blank
/// ones left out.
pub fn trimmed_lines(text: &str) -> (r: Vec<String>)
    ensures
        texts(r@) == spec_trimmed_lines(text@),
{
    let all = chars_of(text);
    let mut lines: Vec<String> = Vec::new();
    let mut rest: &[char] = all.as_slice();
    assert(texts(lines@) + spec_trimmed_lines(rest@) =~= spec_trimmed_lines(text@));
    loop
        invariant_except_break
            texts(lines@) + spec_trimmed_lines(rest@) == spec_trimmed_lines(text@),
        ensures
            texts(lines@) == spec_trimmed_lines(text@),
        decreases rest.len(),
    {
        let ghost earlier = texts(lines@);
        let ghost whole = rest@;
        let end = find_char(rest, '\n');
        let line = trim(slice(rest, 0, end));
        if line.len() > 0 {
            lines.push(string_of(line));
            assert(texts(lines@) =~= earlier + seq![line@]);
        } else {
            assert(texts(lines@) =~= earlier + Seq::<Seq<char>>::empty());
        }
        if end < rest.len() {
            rest = slice(rest, end + 1, rest.len());
            assert(texts(lines@) + spec_trimmed_lines(rest@) =~= earlier + spec_trimmed_lines(
                whole,
            ));
        } else {
            assert(texts(lines@) =~= earlier + spec_trimmed_lines(whole));
            break ;
        }
    }
    lines
}

/// `a` comes before `b`: at the first place where they differ `a` has
/// the lower character, or `a` ends there and `b` goes on.
pub open spec fn spec_text_lt(a: Seq<char>, b: Seq<char>) -> bool
    decreases a.len(),
{
    if b.len() == 0 {
        false
    } else if a.len() == 0 {
        true
    } else if a[0] != b[0] {
        a[0] < b[0]
    } else {
        spec_text_lt(a.drop_first(), b.drop_first())
    }
}

/// Whether `a` comes before `b` in the order of their characters.
pub fn text_lt(a: &[char], b: &[char]) -> (r: bool)
    ensures
        r == spec_text_lt(a@, b@),
{
    let mut i: usize = 0;
    assert(a@.skip(0) =~= a@);
    assert(b@.skip(0) =~= b@);
    while i < a.len() && i < b.len()
        invariant
            i <= a.len(),
            i <= b.len(),
            spec_text_lt(a@, b@) == spec_text_lt(a@.skip(i as int), b@.skip(i as int)),
        decreases a.len() - i,
    {
        if a[i] != b[i] {
            return a[i] < b[i];
        }
        assert(a@.skip(i as int).drop_first() =~= a@.skip(i + 1));
        assert(b@.skip(i as int).drop_first() =~= b@.skip(i + 1));
        i += 1;
    }
    i < b.len()
}

/// No text comes before itself.
pub proof fn lemma_text_lt_irreflexive(a: Seq<char>)
    ensures
        !spec_text_lt(a, a),
    decreases a.len(),
{
    if a.len() > 0 {
        lemma_text_lt_irreflexive(a.drop_first());
    }
}

/// Of two different texts one comes before the other.
pub proof fn lemma_text_lt_total(a: Seq<char>, b: Seq<char>)
    ensures
        spec_text_lt(a, b) || spec_text_lt(b, a) || a == b,
        !(spec_text_lt(a, b) && spec_text_lt(b, a)),
    decreases a.len(),
{
    if a.len() > 0 && b.len() > 0 && a[0] == b[0] {
        lemma_text_lt_total(a.drop_first(), b.drop_first());
        if a.drop_first() == b.drop_first() {
            assert(a =~= seq![a[0]] + a.drop_first());
            assert(b =~= seq![b[0]] + b.drop_first());
        }
    } else if a.len() == 0 && b.len() == 0 {
        assert(a =~= b);
    }
}

/// What comes before a text comes before all that the text comes
/// before.
pub proof fn lemma_text_lt_transitive(a: Seq<char>, b: Seq<char>, c: Seq<char>)
    requires
        spec_text_lt(a, b),
        spec_text_lt(b, c),
    ensures
        spec_text_lt(a, c),
    decreases a.len(),
{
    if a.len() > 0 && b.len() > 0 && c.len() > 0 && a[0] == b[0] && b[0] == c[0] {
        lemma_text_lt_transitive(a.drop_first(), b.drop_first(), c.drop_first());
    }
}

/// Every text of the list comes before those behind it.
pub open spec fn spec_ascending(list: Seq<Seq<char>>) -> bool {
    forall|i: int, j: int| 0 <= i < j < list.len() ==> spec_text_lt(list[i], list[j])
}

/// The directory of a `.git` entry: the path without a trailing `/.git`.
pub open spec fn spec_repo_dir(entry: Seq<char>) -> Seq<char> {
    if "/.git"@.is_suffix_of(entry) {
        entry.take(entry.len() - "/.git"@.len())
    } else {
        entry
    }
}

/// The directories of a list of entries.
pub open spec fn spec_repo_dirs(entries: Seq<Seq<char>>) -> Seq<Seq<char>> {
    Seq::new(entries.len(), |i: int| spec_repo_dir(entries[i]))
}

fn insert_ascending(list: &mut Vec<Vec<char>>, value: Vec<char>)
    requires
        spec_ascending(crate::text::char_texts(old(list)@)),
    ensures
        spec_ascending(crate::text::char_texts(final(list)@)),
        crate::text::char_texts(final(list)@).to_set() == crate::text::char_texts(
            old(list)@,
        ).to_set().insert(value@),
{
    let ghost before = crate::text::char_texts(list@);
    let mut i: usize = 0;
    while i < list.len() && text_lt(list[i].as_slice(), value.as_slice())
        invariant
            i <= list.len(),
            *list == *old(list),
            before == crate::text::char_texts(list@),
            forall|j: int| 0 <= j < i ==> spec_text_lt(before[j], value@),
        decreases list.len() - i,
    {
        assert(before[i as int] == list[i as int]@);
        i += 1;
    }
    if i < list.len() && text_eq(list[i].as_slice(), value.as_slice()) {
        assert(before[i as int] == value@);
        assert(before.to_set().insert(value@) =~= before.to_set());
        return ;
    }
    let ghost wanted = value@;
    list.insert(i, value);
    proof {
        let after = crate::text::char_texts(list@);
        assert(after =~= before.insert(i as int, wanted));
        if i < before.len() {
            assert(before[i as int] == old(list)[i as int]@);
            lemma_text_lt_total(before[i as int], wanted);
        }
        assert forall|j: int, k: int| 0 <= j < k < after.len() implies spec_text_lt(
            after[j],
            after[k],
        ) by {
            if k < i {
                assert(after[j] == before[j] && after[k] == before[k]);
            } else if k == i {
                assert(after[j] == before[j]);
            } else if j < i {
                assert(after[j] == before[j] && after[k] == before[k - 1]);
                if k - 1 > i {
                    assert(spec_text_lt(before[i as int], before[k - 1]));
                }
                lemma_text_lt_transitive(before[j], wanted, before[i as int]);
                if k - 1 > i {
                    lemma_text_lt_transitive(before[j], before[i as int], before[k - 1]);
                }
            } else if j == i {
                assert(after[k] == before[k - 1]);
                if k - 1 > i {
                    lemma_text_lt_transitive(wanted, before[i as int], before[k - 1]);
                }
            } else {
                assert(after[j] == before[j - 1] && after[k] == before[k - 1]);
            }
        }
        assert(after.to_set() =~= before.to_set().insert(wanted)) by {
            assert forall|x: Seq<char>| after.to_set().contains(x) <==> before.to_set().insert(
                wanted,
            ).contains(x) by {
                if after.contains(x) {
                    let k = choose|k: int| 0 <= k < after.len() && after[k] == x;
                    if k < i {
                        assert(before[k] == x);
                    } else if k > i {
                        assert(before[k - 1] == x);
                    }
                }
                if before.contains(x) {
                    let k = choose|k: int| 0 <= k < before.len() && before[k] == x;
                    if k < i {
                        assert(after[k] == x);
                    } else {
                        assert(after[k + 1] == x);
                    }
                }
                if x == wanted {
                    assert(after[i as int] == x);
                }
            }
        }
    }
}

/// The repository directories for the `.git` entries that a walk found:
/// each entry without its trailing `/.git`, every directory once, in
/// ascending order of their characters.
pub fn repo_dirs(entries: &[String]) -> (r: Vec<String>)
    ensures
        spec_ascending(texts(r@)),
        texts(r@).to_set() == spec_repo_dirs(texts(entries@)).to_set(),
{
    let suffix = chars_of("/.git");
    let ghost all = spec_repo_dirs(texts(entries@));
    let mut sorted: Vec<Vec<char>> = Vec::new();
    let mut i: usize = 0;
    assert(crate::text::char_texts(sorted@).to_set() =~= all.take(0).to_set());
    while i < entries.len()
        invariant
            i <= entries.len(),
            suffix@ == "/.git"@,
            all == spec_repo_dirs(texts(entries@)),
            spec_ascending(crate::text::char_texts(sorted@)),
            crate::text::char_texts(sorted@).to_set() == all.take(i as int).to_set(),
        decreases entries.len() - i,
    {
        let entry = chars_of(entries[i].as_str());
        let dir = if ends_with(entry.as_slice(), suffix.as_slice()) {
            slice(entry.as_slice(), 0, entry.len() - suffix.len())
        } else {
            entry.as_slice()
        };
        let mut owned: Vec<char> = Vec::new();
        let mut k: usize = 0;
        while k < dir.len()
            invariant
                k <= dir.len(),
                owned@ == dir@.take(k as int),
            decreases dir.len() - k,
        {
            owned.push(dir[k]);
            assert(dir@.take(k + 1) =~= dir@.take(k as int).push(dir@[k as int]));
            k += 1;
        }
        proof {
            assert(dir@.take(dir.len() as int) =~= dir@);
            assert(all[i as int] == dir@);
            assert(all.take(i + 1) =~= all.take(i as int).push(dir@));
            assert(all.take(i + 1).to_set() =~= all.take(i as int).to_set().insert(dir@)) by {
                let shorter = all.take(i as int);
                let longer = all.take(i + 1);
                assert forall|x: Seq<char>| longer.to_set().contains(x)
                    <==> shorter.to_set().insert(dir@).contains(x) by {
                    if longer.contains(x) {
                        let k = choose|k: int| 0 <= k < longer.len() && longer[k] == x;
                        if k < i {
                            assert(shorter[k] == x);
                        }
                    }
                    if shorter.contains(x) {
                        let k = choose|k: int| 0 <= k < shorter.len() && shorter[k] == x;
                        assert(longer[k] == x);
                    }
                    if x == dir@ {
                        assert(longer[i as int] == x);
                    }
                }
            }
        }
        insert_ascending(&mut sorted, owned);
        i += 1;
    }
    assert(all.take(entries.len() as int) =~= all);
    let mut out: Vec<String> = Vec::new();
    let mut j: usize = 0;
    while j < sorted.len()
        invariant
            j <= sorted.len(),
            out.len() == j,
            forall|k: int| 0 <= k < j ==> out[k]@ == sorted[k]@,
        decreases sorted.len() - j,
    {
        out.push(string_of(sorted[j].as_slice()));
        j += 1;
    }
    assert(texts(out@) =~= crate::text::char_texts(sorted@));
    out
}

/// An ascending list is fixed by the texts that it holds: two ascending
/// lists of the same texts are the same list.
pub proof fn lemma_ascending_is_unique(a: Seq<Seq<char>>, b: Seq<Seq<char>>)
    requires
        spec_ascending(a),
        spec_ascending(b),
        a.to_set() == b.to_set(),
    ensures
        a == b,
    decreases a.len(),
{
    if a.len() == 0 {
        if b.len() > 0 {
            assert(b.to_set().contains(b[0]));
            assert(a.contains(b[0]));
        }
        assert(a =~= b);
    } else if b.len() == 0 {
        assert(a.to_set().contains(a[0]));
        assert(b.contains(a[0]));
    } else {
        // The lowest text of both lists is their first.
        assert(a.to_set().contains(a[0]));
        assert(b.contains(a[0]));
        let kb = choose|k: int| 0 <= k < b.len() && b[k] == a[0];
        assert(b.to_set().contains(b[0]));
        assert(a.contains(b[0]));
        let ka = choose|k: int| 0 <= k < a.len() && a[k] == b[0];
        lemma_text_lt_total(a[0], b[0]);
        lemma_text_lt_irreflexive(a[0]);
        if kb > 0 {
            assert(spec_text_lt(b[0], b[kb]));
        }
        if ka > 0 {
            assert(spec_text_lt(a[0], a[ka]));
        }
        assert(a[0] == b[0]);
        let ra = a.drop_first();
        let rb = b.drop_first();
        assert forall|i: int, j: int| 0 <= i < j < ra.len() implies spec_text_lt(ra[i], ra[j]) by {
            assert(ra[i] == a[i + 1] && ra[j] == a[j + 1]);
        }
        assert forall|i: int, j: int| 0 <= i < j < rb.len() implies spec_text_lt(rb[i], rb[j]) by {
            assert(rb[i] == b[i + 1] && rb[j] == b[j + 1]);
        }
        assert(ra.to_set() =~= rb.to_set()) by {
            assert forall|x: Seq<char>| ra.to_set().contains(x) <==> rb.to_set().contains(x) by {
                if ra.contains(x) {
                    let k = choose|k: int| 0 <= k < ra.len() && ra[k] == x;
                    assert(a[k + 1] == x);
                    assert(spec_text_lt(a[0], a[k + 1]));
                    assert(a.to_set().contains(x));
                    assert(b.contains(x));
                    let m = choose|m: int| 0 <= m < b.len() && b[m] == x;
                    lemma_text_lt_irreflexive(x);
                    assert(m > 0);
                    assert(rb[m - 1] == x);
                }
                if rb.contains(x) {
                    let k = choose|k: int| 0 <= k < rb.len() && rb[k] == x;
                    assert(b[k + 1] == x);
                    assert(spec_text_lt(b[0], b[k + 1]));
                    assert(b.to_set().contains(x));
                    assert(a.contains(x));
                    let m = choose|m: int| 0 <= m < a.len() && a[m] == x;
                    lemma_text_lt_irreflexive(x);
                    assert(m > 0);
                    assert(ra[m - 1] == x);
                }
            }
        }
        lemma_ascending_is_unique(ra, rb);
        assert(a =~= seq![a[0]] + ra);
        assert(b =~= seq![b[0]] + rb);
    }
}

/// What resetting one repository gave.
pub struct ResetOutcome {
    pub path: String,
    pub success: bool,
    pub error_detail: Option<String>,
}

/// The outcome of one reset: a success, or a failure with the message
/// of its error.
pub fn outcome_of(
    repo_dir: &str,
    refspec: &str,
    result: &Result<ResetReport, ResetError>,
) -> (r: ResetOutcome)
    ensures
        r.path@ == repo_dir@,
        r.success == (result is Ok),
        opt_text(r.error_detail) == (match result {
            Ok(_) => None,
            Err(e) => Some(spec_reset_error_message(*e, repo_dir@, refspec@)),
        }),
{
    match result {
        Ok(_) => ResetOutcome {
            path: String::from_str(repo_dir),
            success: true,
            error_detail: None,
        },
        Err(e) => ResetOutcome {
            path: String::from_str(repo_dir),
            success: false,
            error_detail: Some(reset_error_message(*e, repo_dir, refspec)),
        },
    }
}

/// How many of the outcomes are failures.
pub open spec fn spec_count_failures(outcomes: Seq<ResetOutcome>) -> nat
    decreases outcomes.len(),
{
    if outcomes.len() == 0 {
        0
    } else {
        spec_count_failures(outcomes.drop_last()) + (if outcomes.last().success {
            0nat
        } else {
            1nat
        })
    }
}

/// There are no more failures than outcomes.
pub proof fn lemma_failures_bounded(outcomes: Seq<ResetOutcome>)
    ensures
        spec_count_failures(outcomes) <= outcomes.len(),
    decreases outcomes.len(),
{
    if outcomes.len() > 0 {
        lemma_failures_bounded(outcomes.drop_last());
    }
}

/// How many of the outcomes are failures.
pub fn count_failures(outcomes: &[ResetOutcome]) -> (r: usize)
    ensures
        r == spec_count_failures(outcomes@),
{
    let mut failed: usize = 0;
    let mut i: usize = 0;
    assert(outcomes@.take(0) =~= Seq::<ResetOutcome>::empty());
    while i < outcomes.len()
        invariant
            i <= outcomes.len(),
            failed == spec_count_failures(outcomes@.take(i as int)),
            failed <= i,
        decreases outcomes.len() - i,
    {
        assert(outcomes@.take(i + 1).drop_last() =~= outcomes@.take(i as int));
        if !outcomes[i].success {
            failed += 1;
        }
        i += 1;
    }
    assert(outcomes@.take(outcomes.len() as int) =~= outcomes@);
    failed
}

/// Some of several repositories could not be reset.
#[derive(Clone, Copy, Debug, PartialEq, Eq, Structural)]
pub struct PartialFailure {
    pub failed: usize,
}

impl PartialFailure {
    /// The message shown for the error.
    pub fn message(&self) -> (r: String)
        ensures
            r@ == "failed to reset "@ + spec_decimal(self.failed as nat) + " repo(s)"@,
    {
        let mut out = String::from_str("failed to reset ");
        let count = decimal(self.failed as u64);
        out.append(count.as_str());
        out.append(" repo(s)");
        out
    }
}

/// Sums up the resets of several repositories. One that failed does not
/// keep the others from being reset; it is counted, and the count is
/// the error.
pub fn summarize_resets(outcomes: &[ResetOutcome]) -> (r: Result<(), PartialFailure>)
    ensures
        spec_count_failures(outcomes@) == 0 ==> r is Ok,
        spec_count_failures(outcomes@) > 0 ==> r == Err::<(), PartialFailure>(
            PartialFailure { failed: spec_count_failures(outcomes@) as usize },
        ),
{
    let failed = count_failures(outcomes);
    if failed > 0 {
        Err(PartialFailure { failed })
    } else {
        Ok(())
    }
}

impl ResetOutcome {
    /// The exit code for the reset of one repository: zero for a
    /// success, the failure code else.
    pub fn exit_code(&self) -> (r: i32)
        ensures
            r == (if self.success {
                0
            } else {
                crate::dispatch::EXIT_RUNTIME
            }),
    {
        if self.success {
            0
        } else {
            crate::dispatch::EXIT_RUNTIME
        }
    }
}

/// The exit code for the resets of several repositories: zero where
/// none failed, the failure code where any did.
pub fn resets_exit_code(outcomes: &[ResetOutcome]) -> (r: i32)
    ensures
        r == (if spec_count_failures(outcomes@) == 0 {
            0
        } else {
            crate::dispatch::EXIT_RUNTIME
        }),
{
    if count_failures(outcomes) == 0 {
        0
    } else {
        crate::dispatch::EXIT_RUNTIME
    }
}

/// The text for a repository that could not be reset in a workspace.
pub fn reset_failed_message(repo_dir: &str, container: &str) -> (r: String)
    ensures
        r@ == "failed to reset repo "@ + repo_dir@ + " in "@ + container@,
{
    let mut out = String::from_str("failed to reset repo ");
    out.append(repo_dir);
    out.append(" in ");
    out.append(container);
    out
}

} // verus!
