//! Cloning a repository where it is not there yet.
//!
//! The decision is made from what a probe of the destination found; the
//! caller performs the action. A destination that already holds a
//! repository is left alone, so that repeating a creation never clones
//! again, and one that holds anything else is never touched.

use vstd::prelude::*;
use crate::repo::RepoSpec;
use crate::text::{
    chars_of, push_signed_decimal, slice, spec_signed_decimal, spec_trim_end_char, string_of, texts,
    trim_end_char,
};

verus! {

/// What a probe found at a destination.
#[derive(Clone, Copy, Debug, PartialEq, Eq, Structural)]
pub enum DestinationState {
    /// The destination has a `.git` entry.
    Repository,
    /// The destination exists and has no `.git` entry.
    Occupied,
    /// Nothing is at the destination.
    Absent,
}

/// The `.git` entry of a destination: the destination without trailing
/// slashes, and `/.git` behind it.
pub open spec fn spec_git_entry_path(destination: Seq<char>) -> Seq<char> {
    spec_trim_end_char(destination, '/') + "/.git"@
}

/// The path whose presence says that a destination holds a repository.
pub fn git_entry_path(destination: &str) -> (r: String)
    ensures
        r@ == spec_git_entry_path(destination@),
{
    let cs = chars_of(destination);
    let mut out = string_of(trim_end_char(cs.as_slice(), '/'));
    out.append("/.git");
    out
}

/// The state of a destination, from two probes: whether its `.git`
/// entry is a directory, and whether the destination itself exists.
pub open spec fn spec_destination_state(has_git_entry: bool, exists_at_all: bool)
    -> DestinationState {
    if has_git_entry {
        DestinationState::Repository
    } else if exists_at_all {
        DestinationState::Occupied
    } else {
        DestinationState::Absent
    }
}

/// Decides the state of a destination from what two probes found. A
/// `.git` entry makes it a repository, whatever the second probe said.
pub fn destination_state(has_git_entry: bool, exists_at_all: bool) -> (r: DestinationState)
    ensures
        r == spec_destination_state(has_git_entry, exists_at_all),
{
    if has_git_entry {
        DestinationState::Repository
    } else if exists_at_all {
        DestinationState::Occupied
    } else {
        DestinationState::Absent
    }
}

/// What is to be done for a destination.
pub enum CloneAction {
    /// The repository is there: nothing is to be done.
    AlreadyCloned,
    /// Create the parent directories and clone `url` into `destination`.
    Clone { url: String, destination: String },
}

pub ghost enum CloneActionView {
    AlreadyCloned,
    Clone { url: Seq<char>, destination: Seq<char> },
}

impl View for CloneAction {
    type V = CloneActionView;

    open spec fn view(&self) -> CloneActionView {
        match self {
            CloneAction::AlreadyCloned => CloneActionView::AlreadyCloned,
            CloneAction::Clone { url, destination } => CloneActionView::Clone {
                url: url@,
                destination: destination@,
            },
        }
    }
}

/// The destination holds something that is not a repository.
pub enum CloneError {
    Occupied { destination: String },
}

pub ghost enum CloneErrorView {
    Occupied { destination: Seq<char> },
}

impl View for CloneError {
    type V = CloneErrorView;

    open spec fn view(&self) -> CloneErrorView {
        match self {
            CloneError::Occupied { destination } => CloneErrorView::Occupied {
                destination: destination@,
            },
        }
    }
}

impl CloneError {
    /// The message shown for the error.
    pub fn message(&self) -> (r: String)
        ensures
            r@ == (match self@ {
                CloneErrorView::Occupied { destination } => destination
                    + " exists but is not a git repo; skipping clone"@,
            }),
    {
        match self {
            CloneError::Occupied { destination } => {
                let mut out = destination.clone();
                out.append(" exists but is not a git repo; skipping clone");
                out
            },
        }
    }
}

/// The view of a result.
pub open spec fn clone_result_view(r: Result<CloneAction, CloneError>) -> Result<
    CloneActionView,
    CloneErrorView,
> {
    match r {
        Ok(action) => Ok(action@),
        Err(e) => Err(e@),
    }
}

/// The decision for a clone URL, a destination and its state.
pub open spec fn spec_ensure_cloned(
    url: Seq<char>,
    destination: Seq<char>,
    state: DestinationState,
) -> Result<CloneActionView, CloneErrorView> {
    match state {
        DestinationState::Repository => Ok(CloneActionView::AlreadyCloned),
        DestinationState::Occupied => Err(CloneErrorView::Occupied { destination }),
        DestinationState::Absent => Ok(CloneActionView::Clone { url, destination }),
    }
}

/// Decides what to do so that `destination` holds a clone of the
/// repository: nothing where it holds a repository, a clone over HTTPS
/// where it is absent, and an error where something else is in the way.
/// Whatever transport the reference named, the clone is over HTTPS.
pub fn ensure_cloned(spec: &RepoSpec, destination: &str, state: DestinationState) -> (r: Result<
    CloneAction,
    CloneError,
>)
    ensures
        clone_result_view(r) == spec_ensure_cloned(spec@.clone_url, destination@, state),
        r matches Ok(CloneAction::Clone { url, .. }) ==> "https://"@.is_prefix_of(url@),
{
    match state {
        DestinationState::Repository => Ok(CloneAction::AlreadyCloned),
        DestinationState::Occupied => Err(
            CloneError::Occupied { destination: String::from_str(destination) },
        ),
        DestinationState::Absent => Ok(
            CloneAction::Clone {
                url: String::from_str(spec.clone_url()),
                destination: String::from_str(destination),
            },
        ),
    }
}

/// The state of a destination once an action decided for it has been
/// carried out with success: a clone leaves a repository behind.
pub open spec fn spec_state_after(action: CloneActionView, before: DestinationState)
    -> DestinationState {
    match action {
        CloneActionView::AlreadyCloned => before,
        CloneActionView::Clone { .. } => DestinationState::Repository,
    }
}

/// How many clones a decision asks for.
pub open spec fn spec_clones(decision: Result<CloneActionView, CloneErrorView>) -> nat {
    match decision {
        Ok(CloneActionView::Clone { .. }) => 1,
        _ => 0,
    }
}

/// Two calls in succession on one destination, the second once the
/// decision of the first has been carried out, clone exactly once where
/// the destination was absent, and never more than once. The second
/// call never clones.
pub proof fn lemma_second_call_clones_nothing(
    url: Seq<char>,
    destination: Seq<char>,
    state: DestinationState,
)
    ensures
        ({
            let first = spec_ensure_cloned(url, destination, state);
            let second = match first {
                Ok(action) => spec_ensure_cloned(url, destination, spec_state_after(action, state)),
                Err(_) => spec_ensure_cloned(url, destination, state),
            };
            &&& spec_clones(second) == 0
            &&& spec_clones(first) + spec_clones(second) <= 1
            &&& state == DestinationState::Absent ==> spec_clones(first) + spec_clones(second) == 1
            &&& state == DestinationState::Absent ==> second == Ok::<
                CloneActionView,
                CloneErrorView,
            >(CloneActionView::AlreadyCloned)
        }),
{
}

/// The directory that holds a path: what stands before its last slash;
/// `/` where that is nothing, and `.` where the path has no slash.
pub open spec fn spec_parent_directory(path: Seq<char>) -> Seq<char> {
    let at = spec_last_slash(path);
    if at < 0 {
        "."@
    } else if at == 0 {
        "/"@
    } else {
        path.take(at)
    }
}

/// The position of the last slash of a path; `-1` where it has none.
pub open spec fn spec_last_slash(path: Seq<char>) -> int
    decreases path.len(),
{
    if path.len() == 0 {
        -1
    } else if path.last() == '/' {
        path.len() - 1
    } else {
        spec_last_slash(path.drop_last())
    }
}

/// The directory to create before a clone into `destination`.
pub fn parent_directory(destination: &str) -> (r: String)
    ensures
        r@ == spec_parent_directory(destination@),
{
    let cs = chars_of(destination);
    let mut at: usize = cs.len();
    assert(cs@.take(cs.len() as int) =~= cs@);
    while at > 0 && cs[at - 1] != '/'
        invariant
            at <= cs.len(),
            spec_last_slash(cs@) == spec_last_slash(cs@.take(at as int)),
        decreases at,
    {
        assert(cs@.take(at as int).drop_last() =~= cs@.take(at - 1));
        at -= 1;
    }
    if at == 0 {
        String::from_str(".")
    } else if at == 1 {
        String::from_str("/")
    } else {
        assert(cs@.subrange(0, at - 1) =~= cs@.take(at - 1));
        string_of(slice(cs.as_slice(), 0, at - 1))
    }
}

/// Where an extra repository is cloned to: `/work/<owner>/<repo>`.
pub open spec fn spec_extra_repo_destination(owner: Seq<char>, repo: Seq<char>) -> Seq<char> {
    "/work/"@ + owner + "/"@ + repo
}

/// Where an extra repository is cloned to.
pub fn extra_repo_destination(repo: &RepoSpec) -> (r: String)
    ensures
        r@ == spec_extra_repo_destination(repo@.owner, repo@.repo),
{
    let mut out = String::from_str("/work/");
    out.append(repo.owner());
    out.append("/");
    out.append(repo.repo());
    out
}

/// Decides what to do for an extra repository of a workspace, given the
/// state of its place under `/work`.
pub fn clone_extra_repo(repo: &RepoSpec, state: DestinationState) -> (r: Result<
    CloneAction,
    CloneError,
>)
    ensures
        clone_result_view(r) == spec_ensure_cloned(
            repo@.clone_url,
            spec_extra_repo_destination(repo@.owner, repo@.repo),
            state,
        ),
        r matches Ok(CloneAction::Clone { url, .. }) ==> "https://"@.is_prefix_of(url@),
{
    let destination = extra_repo_destination(repo);
    ensure_cloned(repo, destination.as_str(), state)
}

/// What is to be done for the private repository of a workspace.
pub enum PrivateRepoAction {
    /// The repository is there: pull, fast-forward only.
    Pull { directory: String },
    /// Clone `url` into `destination` and link it where the shell
    /// configuration looks for it.
    CloneAndLink { url: String, destination: String, link: String },
}

pub ghost enum PrivateRepoActionView {
    Pull { directory: Seq<char> },
    CloneAndLink { url: Seq<char>, destination: Seq<char>, link: Seq<char> },
}

impl View for PrivateRepoAction {
    type V = PrivateRepoActionView;

    open spec fn view(&self) -> PrivateRepoActionView {
        match self {
            PrivateRepoAction::Pull { directory } => PrivateRepoActionView::Pull {
                directory: directory@,
            },
            PrivateRepoAction::CloneAndLink { url, destination, link } =>
                PrivateRepoActionView::CloneAndLink {
                    url: url@,
                    destination: destination@,
                    link: link@,
                },
        }
    }
}

/// The view of a result.
pub open spec fn private_result_view(r: Result<PrivateRepoAction, CloneError>) -> Result<
    PrivateRepoActionView,
    CloneErrorView,
> {
    match r {
        Ok(action) => Ok(action@),
        Err(e) => Err(e@),
    }
}

/// The place of the private repository under a home directory.
pub open spec fn spec_private_repo_dir(home: Seq<char>) -> Seq<char> {
    home + "/.private"@
}

/// The decision for the private repository.
pub open spec fn spec_setup_private_repo(
    url: Seq<char>,
    home: Seq<char>,
    state: DestinationState,
) -> Result<PrivateRepoActionView, CloneErrorView> {
    let destination = spec_private_repo_dir(home);
    match state {
        DestinationState::Repository => Ok(PrivateRepoActionView::Pull { directory: destination }),
        DestinationState::Occupied => Err(CloneErrorView::Occupied { destination }),
        DestinationState::Absent => Ok(
            PrivateRepoActionView::CloneAndLink {
                url,
                destination,
                link: "/opt/zsh-kit/.private"@,
            },
        ),
    }
}

/// Decides what to do for the private repository, which lives in
/// `.private` under the home directory of the workspace: pull where it
/// is there, clone and link where it is absent, and leave alone what
/// else may be in its place.
pub fn setup_private_repo(repo: &RepoSpec, home: &str, state: DestinationState) -> (r: Result<
    PrivateRepoAction,
    CloneError,
>)
    ensures
        private_result_view(r) == spec_setup_private_repo(repo@.clone_url, home@, state),
{
    let mut destination = String::from_str(home);
    destination.append("/.private");
    match state {
        DestinationState::Repository => Ok(PrivateRepoAction::Pull { directory: destination }),
        DestinationState::Occupied => Err(CloneError::Occupied { destination }),
        DestinationState::Absent => Ok(
            PrivateRepoAction::CloneAndLink {
                url: String::from_str(repo.clone_url()),
                destination,
                link: String::from_str("/opt/zsh-kit/.private"),
            },
        ),
    }
}

/// Where the private repository may be, in the order in which the
/// places are looked at: under the home directory, then under the home
/// directories of the two users that a workspace may have.
pub fn private_repo_candidates(home: &str) -> (r: Vec<String>)
    ensures
        texts(r@) == seq![
            spec_private_repo_dir(home@),
            "/home/codex/.private"@,
            "/home/agent/.private"@,
        ],
{
    let mut own = String::from_str(home);
    own.append("/.private");
    let mut places: Vec<String> = Vec::new();
    places.push(own);
    places.push(String::from_str("/home/codex/.private"));
    places.push(String::from_str("/home/agent/.private"));
    assert(texts(places@) =~= seq![
        spec_private_repo_dir(home@),
        "/home/codex/.private"@,
        "/home/agent/.private"@,
    ]);
    places
}

/// The text for a command of the setup that ended with a failure code
/// inside a workspace.
pub open spec fn spec_setup_failed_message(container: Seq<char>, exit_code: int) -> Seq<char> {
    "workspace setup failed in "@ + container + " (exit "@ + spec_signed_decimal(exit_code)
        + ")"@
}

/// The text for a command of the setup that ended with a failure code.
pub fn setup_failed_message(container: &str, exit_code: i32) -> (r: String)
    ensures
        r@ == spec_setup_failed_message(container@, exit_code as int),
{
    let mut out = String::from_str("workspace setup failed in ");
    out.append(container);
    out.append(" (exit ");
    push_signed_decimal(&mut out, exit_code);
    out.append(")");
    out
}

/// The warning for an extra repository that could not be cloned.
pub fn extra_repo_failure_message(owner_repo: &str, detail: &str) -> (r: String)
    ensures
        r@ == "failed to clone extra repo "@ + owner_repo@ + ": "@ + detail@,
{
    let mut out = String::from_str("failed to clone extra repo ");
    out.append(owner_repo);
    out.append(": ");
    out.append(detail);
    out
}

/// The warning for a private repository that could not be set up.
pub fn private_repo_failure_message(owner_repo: &str, detail: &str) -> (r: String)
    ensures
        r@ == "failed to setup ~/.private from "@ + owner_repo@ + ": "@ + detail@,
{
    let mut out = String::from_str("failed to setup ~/.private from ");
    out.append(owner_repo);
    out.append(": ");
    out.append(detail);
    out
}

} // verus!
