//! Finding an existing workspace: the candidate names under which a
//! requested name may be stored, and the first of them that a store
//! reports to exist.
//!
//! Creation strips a name down to its bare form; lookup tries the bare
//! and every prefixed form. One algorithm thus serves a store that keeps
//! bare names and one that keeps prefixed container names.

use vstd::prelude::*;
use crate::names::{
    has_lead, spec_stripped_name, spec_workspace_name_variants, workspace_name_variants,
};
use crate::text::{
    chars_of, clone_list, join, lemma_dedup, lemma_dedup_contains, lemma_dedup_push, opt_str_text,
    push_unique, spec_dedup, spec_join, spec_trimmed_nonempty, spec_trimmed_opt, texts, trimmed_opt,
};

verus! {

/// A workspace that was found: its canonical name and the name under
/// which the store holds it (a container name or a directory).
pub struct WorkspaceIdentity {
    pub canonical_name: String,
    pub location: String,
}

pub ghost struct WorkspaceIdentityView {
    pub canonical_name: Seq<char>,
    pub location: Seq<char>,
}

impl View for WorkspaceIdentity {
    type V = WorkspaceIdentityView;

    open spec fn view(&self) -> WorkspaceIdentityView {
        WorkspaceIdentityView { canonical_name: self.canonical_name@, location: self.location@ }
    }
}

/// The view of an optional identity.
pub open spec fn opt_identity_view(r: Option<WorkspaceIdentity>) -> Option<WorkspaceIdentityView> {
    match r {
        Some(identity) => Some(identity@),
        None => None,
    }
}

/// `base` with each prefix and a dash in front, in the order of the
/// prefixes; a prefix that `base` already starts with adds nothing.
pub open spec fn spec_prefixed(base: Seq<char>, prefixes: Seq<Seq<char>>) -> Seq<Seq<char>>
    decreases prefixes.len(),
{
    if prefixes.len() == 0 {
        Seq::empty()
    } else {
        let earlier = spec_prefixed(base, prefixes.drop_last());
        let lead = prefixes.last().push('-');
        if lead.is_prefix_of(base) {
            earlier
        } else {
            earlier.push(lead + base)
        }
    }
}

/// The prefixed forms of every base, base by base.
pub open spec fn spec_all_prefixed(bases: Seq<Seq<char>>, prefixes: Seq<Seq<char>>) -> Seq<
    Seq<char>,
>
    decreases bases.len(),
{
    if bases.len() == 0 {
        Seq::empty()
    } else {
        spec_all_prefixed(bases.drop_last(), prefixes) + spec_prefixed(bases.last(), prefixes)
    }
}

/// The names that are tried as they stand: the raw name, then its
/// variants.
pub open spec fn spec_candidate_bases(raw: Seq<char>, prefixes: Seq<Seq<char>>) -> Seq<
    Seq<char>,
> {
    seq![raw] + spec_workspace_name_variants(raw, prefixes)
}

/// The candidates for a lookup, in the order in which they are tried:
/// the raw name, its variants, then the prefixed forms of all of these;
/// each text once, at its first place.
pub open spec fn spec_resolution_candidates(raw: Seq<char>, prefixes: Seq<Seq<char>>) -> Seq<
    Seq<char>,
> {
    let bases = spec_candidate_bases(raw, prefixes);
    spec_dedup(bases + spec_all_prefixed(bases, prefixes))
}

fn with_lead(prefix: &str, base: &str) -> (r: String)
    ensures
        r@ == prefix@.push('-') + base@,
{
    let mut out = String::from_str(prefix);
    out.push('-');
    out.append(base);
    out
}

/// The candidates for looking up `raw`, in the order in which they are
/// to be tried.
pub fn resolution_candidates(raw: &str, prefixes: &[String]) -> (r: Vec<String>)
    ensures
        texts(r@) == spec_resolution_candidates(raw@, texts(prefixes@)),
{
    let ghost all = texts(prefixes@);
    let variants = workspace_name_variants(raw, prefixes);
    let mut bases: Vec<String> = Vec::new();
    bases.push(String::from_str(raw));
    assert(texts(bases@) =~= seq![raw@] + texts(variants@).take(0));
    let mut i: usize = 0;
    while i < variants.len()
        invariant
            i <= variants.len(),
            texts(bases@) == seq![raw@] + texts(variants@).take(i as int),
        decreases variants.len() - i,
    {
        let ghost earlier = texts(bases@);
        bases.push(variants[i].clone());
        assert(texts(bases@) =~= earlier.push(variants[i as int]@));
        assert(texts(variants@).take(i + 1) =~= texts(variants@).take(i as int).push(
            variants[i as int]@,
        ));
        assert(earlier.push(variants[i as int]@) =~= seq![raw@] + texts(variants@).take(i + 1));
        i += 1;
    }
    assert(texts(variants@).take(variants.len() as int) =~= texts(variants@));
    let ghost base_texts = spec_candidate_bases(raw@, all);
    assert(texts(bases@) == base_texts);

    let mut out: Vec<String> = Vec::new();
    let mut b: usize = 0;
    assert(base_texts.take(0) =~= Seq::<Seq<char>>::empty());
    while b < bases.len()
        invariant
            b <= bases.len(),
            texts(bases@) == base_texts,
            texts(out@) == spec_dedup(base_texts.take(b as int)),
        decreases bases.len() - b,
    {
        proof {
            lemma_dedup_push(base_texts.take(b as int), bases[b as int]@);
            assert(base_texts.take(b as int).push(bases[b as int]@) =~= base_texts.take(b + 1));
        }
        push_unique(&mut out, bases[b].clone());
        b += 1;
    }
    assert(base_texts.take(bases.len() as int) =~= base_texts);

    let mut b: usize = 0;
    assert(base_texts + spec_all_prefixed(base_texts.take(0), all) =~= base_texts);
    while b < bases.len()
        invariant
            b <= bases.len(),
            all == texts(prefixes@),
            texts(bases@) == base_texts,
            texts(out@) == spec_dedup(
                base_texts + spec_all_prefixed(base_texts.take(b as int), all),
            ),
        decreases bases.len() - b,
    {
        let base = bases[b].as_str();
        let base_chars = chars_of(base);
        let ghost done = base_texts + spec_all_prefixed(base_texts.take(b as int), all);
        let mut p: usize = 0;
        assert(all.take(0) =~= Seq::<Seq<char>>::empty());
        assert(done + spec_prefixed(base@, all.take(0)) =~= done);
        while p < prefixes.len()
            invariant
                p <= prefixes.len(),
                all == texts(prefixes@),
                base_chars@ == base@,
                texts(out@) == spec_dedup(done + spec_prefixed(base@, all.take(p as int))),
            decreases prefixes.len() - p,
        {
            let prefix = prefixes[p].as_str();
            let prefix_chars = chars_of(prefix);
            let ghost earlier = spec_prefixed(base@, all.take(p as int));
            proof {
                assert(all.take(p + 1).drop_last() =~= all.take(p as int));
                assert(all.take(p + 1).last() == prefix@);
            }
            if !has_lead(base_chars.as_slice(), prefix_chars.as_slice()) {
                let candidate = with_lead(prefix, base);
                proof {
                    lemma_dedup_push(done + earlier, candidate@);
                    assert((done + earlier).push(candidate@) =~= done + earlier.push(candidate@));
                }
                push_unique(&mut out, candidate);
            }
            p += 1;
        }
        proof {
            assert(all.take(prefixes.len() as int) =~= all);
            assert(base_texts.take(b + 1).drop_last() =~= base_texts.take(b as int));
            assert(base_texts.take(b + 1).last() == base@);
            assert(done + spec_prefixed(base@, all) =~= base_texts + spec_all_prefixed(
                base_texts.take(b + 1),
                all,
            ));
        }
        b += 1;
    }
    assert(base_texts.take(bases.len() as int) =~= base_texts);
    out
}

/// The probe answers for `store`: it reports a name to exist exactly
/// where the store holds it.
pub open spec fn reports<F: Fn(&str) -> bool>(probe: F, store: Set<Seq<char>>) -> bool {
    forall|name: &str, found: bool|
        call_ensures(probe, (name,), found) ==> found == store.contains(name@)
}

/// `found` is an answer that the probe may give for the name `text`.
pub open spec fn answered<F: Fn(&str) -> bool>(probe: F, text: Seq<char>, found: bool) -> bool {
    exists|name: &str| name@ == text && call_ensures(probe, (name,), found)
}

/// The first name of the list that the store holds.
pub open spec fn spec_first_in(names: Seq<Seq<char>>, store: Set<Seq<char>>) -> Option<Seq<char>>
    decreases names.len(),
{
    if names.len() == 0 {
        None
    } else if store.contains(names[0]) {
        Some(names[0])
    } else {
        spec_first_in(names.drop_first(), store)
    }
}

/// The workspace that a lookup of `raw` finds in `store`: the first
/// candidate that the store holds, with the fully stripped name as its
/// canonical name.
pub open spec fn spec_resolve(
    raw: Seq<char>,
    prefixes: Seq<Seq<char>>,
    store: Set<Seq<char>>,
) -> Option<WorkspaceIdentityView> {
    match spec_first_in(spec_resolution_candidates(raw, prefixes), store) {
        Some(location) => Some(
            WorkspaceIdentityView {
                canonical_name: spec_stripped_name(raw, prefixes),
                location,
            },
        ),
        None => None,
    }
}

/// The first name that the store holds is found at the first position
/// whose name the store holds.
pub proof fn lemma_first_in_at(names: Seq<Seq<char>>, store: Set<Seq<char>>, i: int)
    requires
        0 <= i < names.len(),
        store.contains(names[i]),
        forall|j: int| 0 <= j < i ==> !store.contains(names[j]),
    ensures
        spec_first_in(names, store) == Some(names[i]),
    decreases i,
{
    if i > 0 {
        let rest = names.drop_first();
        assert(!store.contains(names[0]));
        assert forall|j: int| 0 <= j < i - 1 implies !store.contains(rest[j]) by {
            assert(rest[j] == names[j + 1]);
        }
        lemma_first_in_at(rest, store, i - 1);
    }
}

/// Nothing is found where the store holds none of the names.
pub proof fn lemma_first_in_none(names: Seq<Seq<char>>, store: Set<Seq<char>>)
    requires
        forall|j: int| 0 <= j < names.len() ==> !store.contains(names[j]),
    ensures
        spec_first_in(names, store) is None,
    decreases names.len(),
{
    if names.len() > 0 {
        let rest = names.drop_first();
        assert(!store.contains(names[0]));
        assert forall|j: int| 0 <= j < rest.len() implies !store.contains(rest[j]) by {
            assert(rest[j] == names[j + 1]);
        }
        lemma_first_in_none(rest, store);
    }
}

fn first_reported<F: Fn(&str) -> bool>(candidates: &[String], probe: &F) -> (r: Option<usize>)
    requires
        forall|name: &str| call_requires(*probe, (name,)),
    ensures
        match r {
            Some(i) => {
                &&& i < candidates.len()
                &&& answered(*probe, candidates[i as int]@, true)
                &&& forall|j: int| 0 <= j < i ==> answered(*probe, #[trigger] candidates[j]@, false)
            },
            None => forall|j: int|
                0 <= j < candidates.len() ==> answered(*probe, #[trigger] candidates[j]@, false),
        },
        forall|store: Set<Seq<char>>|
            reports(*probe, store) ==> #[trigger] spec_first_in(texts(candidates@), store) == (
            match r {
                Some(i) => Some(candidates[i as int]@),
                None => None,
            }),
{
    let mut i: usize = 0;
    let mut found: Option<usize> = None;
    while i < candidates.len()
        invariant_except_break
            found is None,
        invariant
            i <= candidates.len(),
            forall|name: &str| call_requires(*probe, (name,)),
            forall|j: int| 0 <= j < i ==> answered(*probe, #[trigger] candidates[j]@, false),
        ensures
            match found {
                Some(k) => {
                    &&& k < candidates.len()
                    &&& answered(*probe, candidates[k as int]@, true)
                    &&& forall|j: int|
                        0 <= j < k ==> answered(*probe, #[trigger] candidates[j]@, false)
                },
                None => forall|j: int|
                    0 <= j < candidates.len() ==> answered(
                        *probe,
                        #[trigger] candidates[j]@,
                        false,
                    ),
            },
        decreases candidates.len() - i,
    {
        let name = candidates[i].as_str();
        let exists_here = probe(name);
        assert(answered(*probe, candidates[i as int]@, exists_here));
        if exists_here {
            found = Some(i);
            break ;
        }
        i += 1;
    }
    proof {
        let names = texts(candidates@);
        assert forall|store: Set<Seq<char>>| reports(*probe, store) implies #[trigger] spec_first_in(
            names,
            store,
        ) == (match found {
            Some(k) => Some(candidates[k as int]@),
            None => None,
        }) by {
            let upto: int = match found {
                Some(k) => k as int,
                None => candidates.len() as int,
            };
            assert forall|j: int| 0 <= j < upto implies !store.contains(names[j]) by {
                assert(answered(*probe, candidates[j]@, false));
            }
            match found {
                Some(k) => {
                    assert(answered(*probe, candidates[k as int]@, true));
                    assert(store.contains(names[k as int]));
                    lemma_first_in_at(names, store, k as int);
                },
                None => {
                    lemma_first_in_none(names, store);
                },
            }
        }
    }
    found
}

/// The first of the candidates that `probe` accepts, or `None` where it
/// accepts none. Candidates behind the first accepted one are not
/// probed.
pub fn first_accepted<F: Fn(&str) -> bool>(candidates: &[String], probe: F) -> (r: Option<String>)
    requires
        forall|name: &str| call_requires(probe, (name,)),
    ensures
        forall|store: Set<Seq<char>>|
            reports(probe, store) ==> #[trigger] spec_first_in(texts(candidates@), store)
                == crate::text::opt_text(r),
        match r {
            Some(found) => texts(candidates@).contains(found@) && answered(probe, found@, true),
            None => forall|j: int|
                0 <= j < candidates.len() ==> answered(probe, #[trigger] candidates[j]@, false),
        },
{
    match first_reported(candidates, &probe) {
        Some(i) => {
            assert(texts(candidates@)[i as int] == candidates[i as int]@);
            Some(candidates[i].clone())
        },
        None => None,
    }
}

/// Looks a workspace up: tries the candidates for `raw` in order and
/// returns the first that `probe` reports to exist, or `None` where it
/// reports none. With a probe that answers for a store, the result is
/// what the store holds first among the candidates.
pub fn resolve<F: Fn(&str) -> bool>(raw: &str, prefixes: &[String], probe: F) -> (r: Option<
    WorkspaceIdentity,
>)
    requires
        forall|name: &str| call_requires(probe, (name,)),
    ensures
        forall|store: Set<Seq<char>>|
            reports(probe, store) ==> opt_identity_view(r) == #[trigger] spec_resolve(
                raw@,
                texts(prefixes@),
                store,
            ),
        match r {
            Some(identity) => {
                &&& identity@.canonical_name == spec_stripped_name(raw@, texts(prefixes@))
                &&& spec_resolution_candidates(raw@, texts(prefixes@)).contains(
                    identity@.location,
                )
                &&& answered(probe, identity@.location, true)
            },
            None => forall|j: int|
                0 <= j < spec_resolution_candidates(raw@, texts(prefixes@)).len() ==> answered(
                    probe,
                    #[trigger] spec_resolution_candidates(raw@, texts(prefixes@))[j],
                    false,
                ),
        },
{
    let candidates = resolution_candidates(raw, prefixes);
    match first_reported(candidates.as_slice(), &probe) {
        Some(i) => {
            let variants = workspace_name_variants(raw, prefixes);
            let canonical_name = if variants.len() > 0 {
                assert(texts(variants@).last() == variants[variants.len() - 1]@);
                variants[variants.len() - 1].clone()
            } else {
                String::new()
            };
            assert(texts(candidates@)[i as int] == candidates[i as int]@);
            Some(WorkspaceIdentity { canonical_name, location: candidates[i].clone() })
        },
        None => {
            assert forall|j: int|
                0 <= j < spec_resolution_candidates(raw@, texts(prefixes@)).len() implies answered(
                probe,
                #[trigger] spec_resolution_candidates(raw@, texts(prefixes@))[j],
                false,
            ) by {
                assert(texts(candidates@)[j] == candidates[j]@);
            }
            None
        },
    }
}

/// The container name of a workspace: the first candidate that `probe`
/// reports to exist, or `None` where it reports none. A name is only
/// ever returned where the probe said that it exists.
pub fn resolve_workspace_container_name_str<F: Fn(&str) -> bool>(
    workspace_name: &str,
    prefixes: &[String],
    probe: F,
) -> (r: Option<String>)
    requires
        forall|name: &str| call_requires(probe, (name,)),
    ensures
        forall|store: Set<Seq<char>>|
            reports(probe, store) ==> crate::text::opt_text(r) == (match #[trigger] spec_resolve(
                workspace_name@,
                texts(prefixes@),
                store,
            ) {
                Some(found) => Some(found.location),
                None => None,
            }),
        match r {
            Some(found) => {
                &&& spec_resolution_candidates(workspace_name@, texts(prefixes@)).contains(found@)
                &&& answered(probe, found@, true)
            },
            None => forall|j: int|
                0 <= j < spec_resolution_candidates(workspace_name@, texts(prefixes@)).len()
                    ==> answered(
                    probe,
                    #[trigger] spec_resolution_candidates(workspace_name@, texts(prefixes@))[j],
                    false,
                ),
        },
{
    match resolve(workspace_name, prefixes, probe) {
        Some(found) => Some(found.location),
        None => None,
    }
}

/// Why no container could be chosen.
pub enum ResolveError {
    /// A workspace was named and no candidate for it exists.
    NotFound(String),
    /// No workspace was named and none exists.
    NoWorkspaces,
    /// No workspace was named and more than one exists.
    MultipleWorkspaces(Vec<String>),
}

pub ghost enum ResolveErrorView {
    NotFound(Seq<char>),
    NoWorkspaces,
    MultipleWorkspaces(Seq<Seq<char>>),
}

impl View for ResolveError {
    type V = ResolveErrorView;

    open spec fn view(&self) -> ResolveErrorView {
        match self {
            ResolveError::NotFound(name) => ResolveErrorView::NotFound(name@),
            ResolveError::NoWorkspaces => ResolveErrorView::NoWorkspaces,
            ResolveError::MultipleWorkspaces(names) => ResolveErrorView::MultipleWorkspaces(
                texts(names@),
            ),
        }
    }
}

impl ResolveErrorView {
    /// The message shown for the error.
    pub open spec fn message(self) -> Seq<char> {
        match self {
            ResolveErrorView::NotFound(name) => "workspace container not found: "@ + name,
            ResolveErrorView::NoWorkspaces => "no workspaces found"@,
            ResolveErrorView::MultipleWorkspaces(names) =>
                "multiple workspaces found; specify one: "@ + spec_join(names, ", "@),
        }
    }
}

impl ResolveError {
    /// The message shown for the error.
    pub fn message(&self) -> (r: String)
        ensures
            r@ == self@.message(),
    {
        match self {
            ResolveError::NotFound(name) => {
                let mut out = String::from_str("workspace container not found: ");
                out.append(name.as_str());
                out
            },
            ResolveError::NoWorkspaces => String::from_str("no workspaces found"),
            ResolveError::MultipleWorkspaces(names) => {
                let mut out = String::from_str("multiple workspaces found; specify one: ");
                let joined = join(names.as_slice(), ", ");
                out.append(joined.as_str());
                out
            },
        }
    }
}

/// The view of a container choice.
pub open spec fn container_choice_view(r: Result<String, ResolveError>) -> Result<
    Seq<char>,
    ResolveErrorView,
> {
    match r {
        Ok(name) => Ok(name@),
        Err(e) => Err(e@),
    }
}

/// The only choice where no workspace is named: the one workspace that
/// exists.
pub open spec fn spec_only_workspace(workspaces: Seq<Seq<char>>) -> Result<
    Seq<char>,
    ResolveErrorView,
> {
    if workspaces.len() == 0 {
        Err(ResolveErrorView::NoWorkspaces)
    } else if workspaces.len() == 1 {
        Ok(workspaces[0])
    } else {
        Err(ResolveErrorView::MultipleWorkspaces(workspaces))
    }
}

/// The container that credentials go to: the named workspace as the
/// store holds it, or the only workspace where none is named.
pub open spec fn spec_resolve_container_for_auth(
    name: Option<Seq<char>>,
    prefixes: Seq<Seq<char>>,
    store: Set<Seq<char>>,
    workspaces: Seq<Seq<char>>,
) -> Result<Seq<char>, ResolveErrorView> {
    match spec_trimmed_opt(name) {
        Some(wanted) => match spec_resolve(wanted, prefixes, store) {
            Some(found) => Ok(found.location),
            None => Err(ResolveErrorView::NotFound(wanted)),
        },
        None => spec_only_workspace(workspaces),
    }
}

/// Whether the existing workspaces are needed to choose a container:
/// they are where no workspace is named, or the name is blank.
pub fn needs_workspace_list(name: Option<&str>) -> (r: bool)
    ensures
        r == (spec_trimmed_opt(opt_str_text(name)) is None),
{
    trimmed_opt(name).is_none()
}

/// Chooses the container that credentials go to. A named workspace is
/// looked up and must exist. Where none is named (or the name is blank),
/// `workspaces` lists the existing ones and exactly one is expected.
pub fn resolve_container_for_auth<F: Fn(&str) -> bool>(
    name: Option<&str>,
    prefixes: &[String],
    probe: F,
    workspaces: &[String],
) -> (r: Result<String, ResolveError>)
    requires
        forall|name: &str| call_requires(probe, (name,)),
    ensures
        forall|store: Set<Seq<char>>|
            reports(probe, store) ==> container_choice_view(r)
                == #[trigger] spec_resolve_container_for_auth(
                opt_str_text(name),
                texts(prefixes@),
                store,
                texts(workspaces@),
            ),
        match spec_trimmed_opt(opt_str_text(name)) {
            Some(wanted) => match r {
                Ok(found) => spec_resolution_candidates(wanted, texts(prefixes@)).contains(found@)
                    && answered(probe, found@, true),
                Err(e) => e@ == ResolveErrorView::NotFound(wanted),
            },
            None => container_choice_view(r) == spec_only_workspace(texts(workspaces@)),
        },
{
    match trimmed_opt(name) {
        Some(wanted) => {
            match resolve(wanted.as_str(), prefixes, probe) {
                Some(found) => Ok(found.location),
                None => Err(ResolveError::NotFound(wanted)),
            }
        },
        None => {
            if workspaces.len() == 0 {
                Err(ResolveError::NoWorkspaces)
            } else if workspaces.len() == 1 {
                assert(texts(workspaces@)[0] == workspaces[0]@);
                Ok(workspaces[0].clone())
            } else {
                Err(ResolveError::MultipleWorkspaces(clone_list(workspaces)))
            }
        },
    }
}

/// Where the store holds one of the names, the first such name is found.
pub proof fn lemma_first_in_some(names: Seq<Seq<char>>, store: Set<Seq<char>>, i: int)
    requires
        0 <= i < names.len(),
        store.contains(names[i]),
    ensures
        spec_first_in(names, store) matches Some(found) && store.contains(found) && names.contains(
            found,
        ),
    decreases names.len(),
{
    if store.contains(names[0]) {
    } else {
        let rest = names.drop_first();
        assert(rest[i - 1] == names[i]);
        lemma_first_in_some(rest, store, i - 1);
        let found = spec_first_in(rest, store).unwrap();
        let j = choose|j: int| 0 <= j < rest.len() && rest[j] == found;
        assert(names[j + 1] == found);
    }
}

/// A prefix that the base does not start with gives a prefixed form.
pub proof fn lemma_prefixed_has(base: Seq<char>, prefixes: Seq<Seq<char>>, k: int)
    requires
        0 <= k < prefixes.len(),
        !prefixes[k].push('-').is_prefix_of(base),
    ensures
        spec_prefixed(base, prefixes).contains(prefixes[k].push('-') + base),
    decreases prefixes.len(),
{
    let all = spec_prefixed(base, prefixes);
    let earlier = spec_prefixed(base, prefixes.drop_last());
    let wanted = prefixes[k].push('-') + base;
    if k == prefixes.len() - 1 {
        assert(all[all.len() - 1] == wanted);
    } else {
        assert(prefixes.drop_last()[k] == prefixes[k]);
        lemma_prefixed_has(base, prefixes.drop_last(), k);
        let j = choose|j: int| 0 <= j < earlier.len() && earlier[j] == wanted;
        assert(all[j] == wanted);
    }
}

/// The prefixed forms of each base are among those of all bases.
pub proof fn lemma_all_prefixed_has(
    bases: Seq<Seq<char>>,
    prefixes: Seq<Seq<char>>,
    i: int,
    wanted: Seq<char>,
)
    requires
        0 <= i < bases.len(),
        spec_prefixed(bases[i], prefixes).contains(wanted),
    ensures
        spec_all_prefixed(bases, prefixes).contains(wanted),
    decreases bases.len(),
{
    let all = spec_all_prefixed(bases, prefixes);
    let earlier = spec_all_prefixed(bases.drop_last(), prefixes);
    let here = spec_prefixed(bases.last(), prefixes);
    if i == bases.len() - 1 {
        let j = choose|j: int| 0 <= j < here.len() && here[j] == wanted;
        assert(all[earlier.len() + j] == wanted);
    } else {
        assert(bases.drop_last()[i] == bases[i]);
        lemma_all_prefixed_has(bases.drop_last(), prefixes, i, wanted);
        let j = choose|j: int| 0 <= j < earlier.len() && earlier[j] == wanted;
        assert(all[j] == wanted);
    }
}

/// The candidates hold no name twice, start with the raw name, and hold
/// every variant of it.
pub proof fn lemma_candidates(raw: Seq<char>, prefixes: Seq<Seq<char>>)
    ensures
        spec_resolution_candidates(raw, prefixes).no_duplicates(),
        spec_resolution_candidates(raw, prefixes).len() > 0,
        spec_resolution_candidates(raw, prefixes)[0] == raw,
        forall|i: int|
            0 <= i < spec_workspace_name_variants(raw, prefixes).len()
                ==> spec_resolution_candidates(raw, prefixes).contains(
                #[trigger] spec_workspace_name_variants(raw, prefixes)[i],
            ),
{
    let bases = spec_candidate_bases(raw, prefixes);
    let list = bases + spec_all_prefixed(bases, prefixes);
    assert(list[0] == raw);
    lemma_dedup(list);
    let variants = spec_workspace_name_variants(raw, prefixes);
    assert forall|i: int| 0 <= i < variants.len() implies spec_resolution_candidates(
        raw,
        prefixes,
    ).contains(#[trigger] variants[i]) by {
        assert(list[i + 1] == variants[i]);
        lemma_dedup_contains(list, variants[i]);
    }
}

/// A name is found as it stands in a store that holds it: the raw name
/// is the first candidate.
pub proof fn lemma_lookup_finds_stored_name(
    name: Seq<char>,
    prefixes: Seq<Seq<char>>,
    store: Set<Seq<char>>,
)
    requires
        store.contains(name),
    ensures
        spec_resolve(name, prefixes, store) matches Some(found) && found.location == name,
{
    let bases = spec_candidate_bases(name, prefixes);
    let list = bases + spec_all_prefixed(bases, prefixes);
    assert(list[0] == name);
    lemma_dedup(list);
}

/// A bare name is found in a store that holds it under a known prefix:
/// where the store holds `prefix-name` for a known prefix and no other
/// name, looking `name` up gives `prefix-name`.
pub proof fn lemma_lookup_finds_prefixed_name(name: Seq<char>, prefixes: Seq<Seq<char>>, k: int)
    requires
        0 <= k < prefixes.len(),
        !prefixes[k].push('-').is_prefix_of(name),
    ensures
        spec_resolve(name, prefixes, set![prefixes[k].push('-') + name]) matches Some(found)
            && found.location == prefixes[k].push('-') + name,
{
    let wanted = prefixes[k].push('-') + name;
    let store = set![wanted];
    let bases = spec_candidate_bases(name, prefixes);
    let prefixed = spec_all_prefixed(bases, prefixes);
    let list = bases + prefixed;
    assert(bases[0] == name);
    lemma_prefixed_has(name, prefixes, k);
    lemma_all_prefixed_has(bases, prefixes, 0, wanted);
    let j = choose|j: int| 0 <= j < prefixed.len() && prefixed[j] == wanted;
    assert(list[bases.len() + j] == wanted);
    assert(list.contains(wanted));
    lemma_dedup_contains(list, wanted);
    let candidates = spec_dedup(list);
    assert(candidates.contains(wanted));
    let i = choose|i: int| 0 <= i < candidates.len() && candidates[i] == wanted;
    lemma_first_in_some(candidates, store, i);
}

/// A trimmed, non-empty name that starts with no known prefix and not
/// with `ws-` is its own canonical name.
pub proof fn lemma_bare_name_is_canonical(name: Seq<char>, prefixes: Seq<Seq<char>>)
    requires
        name.len() > 0,
        spec_trimmed_nonempty(name) == Some(name),
        forall|i: int|
            0 <= i < prefixes.len() ==> !(#[trigger] prefixes[i]).push('-').is_prefix_of(name),
        !"ws"@.push('-').is_prefix_of(name),
    ensures
        spec_stripped_name(name, prefixes) == name,
        spec_workspace_name_variants(name, prefixes) == seq![name],
{
    lemma_no_known_prefix(name, prefixes);
}

proof fn lemma_no_known_prefix(name: Seq<char>, prefixes: Seq<Seq<char>>)
    requires
        forall|i: int|
            0 <= i < prefixes.len() ==> !(#[trigger] prefixes[i]).push('-').is_prefix_of(name),
    ensures
        crate::names::spec_strip_known(name, prefixes) is None,
    decreases prefixes.len(),
{
    if prefixes.len() > 0 {
        let rest = prefixes.drop_first();
        assert(!prefixes[0].push('-').is_prefix_of(name));
        assert forall|i: int| 0 <= i < rest.len() implies !(#[trigger] rest[i]).push(
            '-',
        ).is_prefix_of(name) by {
            assert(rest[i] == prefixes[i + 1]);
        }
        lemma_no_known_prefix(name, rest);
    }
}

} // verus!
