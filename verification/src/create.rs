//! What follows the creation of a workspace: finding out which
//! workspace was created, and which further repositories to set up in
//! it. A repository that cannot be set up is warned of and never fails
//! the creation.

use vstd::prelude::*;
use crate::repo::{parse_repo_spec, spec_parse_repo_spec, RepoSpec, RepoSpecView};
use crate::text::{
    chars_of, contains_text, find, find_char, lemma_find_char, opt_str_text, opt_text, slice,
    spec_find, spec_find_char, spec_split_once, spec_trim, spec_trim_start, spec_trimmed_nonempty,
    split_once, starts_with, string_of, texts, trim, trim_start,
};

verus! {

/// The workspace that the first line of the form `workspace: <name>`
/// names. Lines are trimmed before they are looked at; the first line
/// of that form decides, also where it names nothing.
pub open spec fn spec_workspace_from_lines(text: Seq<char>) -> Option<Seq<char>>
    decreases text.len(),
{
    let end = spec_find_char(text, '\n');
    let line = spec_trim(text.take(end));
    if "workspace:"@.is_prefix_of(line) {
        spec_trimmed_nonempty(line.skip("workspace:"@.len() as int))
    } else if end < text.len() {
        proof {
            lemma_find_char(text, '\n');
        }
        spec_workspace_from_lines(text.skip(end + 1))
    } else {
        None
    }
}

/// The name of the workspace that the output of a creation announces on
/// a line of its own.
pub fn parse_workspace_name_from_create_output(stdout: &str) -> (r: Option<String>)
    ensures
        opt_text(r) == spec_workspace_from_lines(stdout@),
{
    let all = chars_of(stdout);
    let label = chars_of("workspace:");
    let mut rest: &[char] = all.as_slice();
    loop
        invariant
            label@ == "workspace:"@,
            spec_workspace_from_lines(stdout@) == spec_workspace_from_lines(rest@),
        decreases rest.len(),
    {
        let end = find_char(rest, '\n');
        let line = trim(slice(rest, 0, end));
        if starts_with(line, label.as_slice()) {
            let value = trim(slice(line, label.len(), line.len()));
            return if value.len() == 0 {
                None
            } else {
                Some(string_of(value))
            };
        }
        if end < rest.len() {
            rest = slice(rest, end + 1, rest.len());
        } else {
            return None;
        }
    }
}

/// The workspace that a JSON text names: the string behind the first
/// key `"workspace"`, trimmed. None where the key is missing, where no
/// colon or no string follows it, or where the string is blank.
pub open spec fn spec_workspace_from_json(text: Seq<char>) -> Option<Seq<char>> {
    let key = "\"workspace\""@;
    let start = spec_find(text, key);
    if start > text.len() {
        None
    } else {
        match spec_split_once(text.skip(start + key.len()), ':') {
            None => None,
            Some((_, after)) => {
                let value = spec_trim_start(after);
                if value.len() == 0 || value[0] != '"' {
                    None
                } else {
                    let body = value.skip(1);
                    let end = spec_find_char(body, '"');
                    if end < body.len() {
                        spec_trimmed_nonempty(body.take(end))
                    } else {
                        None
                    }
                }
            },
        }
    }
}

/// The name of the workspace that the output of a creation gives as a
/// JSON member.
pub fn parse_workspace_name_from_json(stdout: &str) -> (r: Option<String>)
    ensures
        opt_text(r) == spec_workspace_from_json(stdout@),
{
    let all = chars_of(stdout);
    let key = chars_of("\"workspace\"");
    let start = match find(all.as_slice(), key.as_slice()) {
        Some(start) => start,
        None => {
            return None;
        },
    };
    let rest = slice(all.as_slice(), start + key.len(), all.len());
    let after = match split_once(rest, ':') {
        Some((_, after)) => after,
        None => {
            return None;
        },
    };
    let value = trim_start(after);
    if value.len() == 0 || value[0] != '"' {
        return None;
    }
    let body = slice(value, 1, value.len());
    let end = find_char(body, '"');
    if end < body.len() {
        let name = trim(slice(body, 0, end));
        if name.len() == 0 {
            None
        } else {
            Some(string_of(name))
        }
    } else {
        None
    }
}

/// The workspace that the output of a creation names: on a line of its
/// own, or else as a JSON member.
pub open spec fn spec_workspace_from_output(text: Seq<char>) -> Option<Seq<char>> {
    match spec_workspace_from_lines(text) {
        Some(name) => Some(name),
        None => spec_workspace_from_json(text),
    }
}

/// The workspace that the output of a creation names, on a line of its
/// own or else as a JSON member.
pub fn workspace_from_output(stdout: &str) -> (r: Option<String>)
    ensures
        opt_text(r) == spec_workspace_from_output(stdout@),
{
    match parse_workspace_name_from_create_output(stdout) {
        Some(name) => Some(name),
        None => parse_workspace_name_from_json(stdout),
    }
}

/// The names of `after` that `before` does not hold, in their order.
pub open spec fn spec_new_names(before: Seq<Seq<char>>, after: Seq<Seq<char>>) -> Seq<Seq<char>>
    decreases after.len(),
{
    if after.len() == 0 {
        Seq::empty()
    } else {
        let earlier = spec_new_names(before, after.drop_last());
        if before.contains(after.last()) {
            earlier
        } else {
            earlier.push(after.last())
        }
    }
}

/// The one workspace that exists now and did not before.
pub open spec fn spec_detect_new_workspace_name(before: Seq<Seq<char>>, after: Seq<Seq<char>>)
    -> Option<Seq<char>> {
    let created = spec_new_names(before, after);
    if created.len() == 1 {
        Some(created[0])
    } else {
        None
    }
}

/// Finds the workspace that a creation added, from the workspaces that
/// existed before it and those that exist after it. `None` where none
/// or more than one was added.
pub fn detect_new_workspace_name(before: &[String], after: &[String]) -> (r: Option<String>)
    ensures
        opt_text(r) == spec_detect_new_workspace_name(texts(before@), texts(after@)),
{
    let ghost all = texts(after@);
    let mut created: Vec<String> = Vec::new();
    let mut i: usize = 0;
    assert(all.take(0) =~= Seq::<Seq<char>>::empty());
    assert(texts(created@) =~= Seq::<Seq<char>>::empty());
    while i < after.len()
        invariant
            i <= after.len(),
            all == texts(after@),
            texts(created@) == spec_new_names(texts(before@), all.take(i as int)),
        decreases after.len() - i,
    {
        proof {
            assert(all.take(i + 1).drop_last() =~= all.take(i as int));
            assert(all.take(i + 1).last() == after[i as int]@);
        }
        if !contains_text(before, after[i].as_str()) {
            let ghost earlier = texts(created@);
            created.push(after[i].clone());
            assert(texts(created@) =~= earlier.push(after[i as int]@));
        }
        i += 1;
    }
    assert(all.take(after.len() as int) =~= all);
    if created.len() == 1 {
        assert(texts(created@)[0] == created[0]@);
        Some(created[0].clone())
    } else {
        None
    }
}

/// What to do once the creation itself has ended.
#[derive(Clone, Copy, Debug, PartialEq, Eq, Structural)]
pub enum CreateFollowUp {
    /// Nothing more: the command ends with this exit code.
    Stop { exit_code: i32 },
    /// Set up the private repository and the extra repositories.
    SetUpRepositories,
}

/// The decision after a creation. A creation that failed, or that only
/// showed help, ends with its own exit code: a failure of the primary
/// repository is fatal. Without further repositories to set up, or with
/// extras switched off, the command ends in success.
pub open spec fn spec_create_follow_up(
    exit_code: i32,
    show_help: bool,
    no_extras: bool,
    has_private_repo: bool,
    extra_repos: nat,
) -> CreateFollowUp {
    if exit_code != 0 || show_help {
        CreateFollowUp::Stop { exit_code }
    } else if no_extras || (!has_private_repo && extra_repos == 0) {
        CreateFollowUp::Stop { exit_code: 0 }
    } else {
        CreateFollowUp::SetUpRepositories
    }
}

/// Decides what to do once the creation itself has ended.
pub fn create_follow_up(
    exit_code: i32,
    show_help: bool,
    no_extras: bool,
    has_private_repo: bool,
    extra_repos: usize,
) -> (r: CreateFollowUp)
    ensures
        r == spec_create_follow_up(
            exit_code,
            show_help,
            no_extras,
            has_private_repo,
            extra_repos as nat,
        ),
{
    if exit_code != 0 || show_help {
        CreateFollowUp::Stop { exit_code }
    } else if no_extras || (!has_private_repo && extra_repos == 0) {
        CreateFollowUp::Stop { exit_code: 0 }
    } else {
        CreateFollowUp::SetUpRepositories
    }
}

/// The exit code of `create` once everything that follows the creation
/// has been done. Repositories that could not be set up were warned
/// of: however many of them failed, a creation that went through ends
/// in success.
pub open spec fn spec_create_exit_code(follow_up: CreateFollowUp) -> i32 {
    match follow_up {
        CreateFollowUp::Stop { exit_code } => exit_code,
        CreateFollowUp::SetUpRepositories => 0,
    }
}

/// The exit code of `create`, from the decision after the creation and
/// the number of repositories that could not be set up. That number
/// does not change the code: such a failure is a warning.
pub fn create_exit_code(follow_up: CreateFollowUp, failed_tasks: usize) -> (r: i32)
    ensures
        r == spec_create_exit_code(follow_up),
{
    match follow_up {
        CreateFollowUp::Stop { exit_code } => exit_code,
        CreateFollowUp::SetUpRepositories => 0,
    }
}

/// The host of references that name none: the configured one as it
/// stands, or `github.com`.
pub fn default_host(configured: Option<&str>) -> (r: String)
    ensures
        r@ == (match configured {
            Some(host) => host@,
            None => "github.com"@,
        }),
{
    match configured {
        Some(host) => String::from_str(host),
        None => String::from_str("github.com"),
    }
}

/// One repository to set up after a creation.
pub enum RepoTask {
    /// Set up the private repository.
    Private(RepoSpec),
    /// Clone an extra repository.
    Extra(RepoSpec),
    /// The reference to the private repository does not parse.
    InvalidPrivate(String),
    /// The reference to an extra repository does not parse.
    InvalidExtra(String),
}

pub ghost enum RepoTaskView {
    Private(RepoSpecView),
    Extra(RepoSpecView),
    InvalidPrivate(Seq<char>),
    InvalidExtra(Seq<char>),
}

impl View for RepoTask {
    type V = RepoTaskView;

    open spec fn view(&self) -> RepoTaskView {
        match self {
            RepoTask::Private(spec) => RepoTaskView::Private(spec@),
            RepoTask::Extra(spec) => RepoTaskView::Extra(spec@),
            RepoTask::InvalidPrivate(raw) => RepoTaskView::InvalidPrivate(raw@),
            RepoTask::InvalidExtra(raw) => RepoTaskView::InvalidExtra(raw@),
        }
    }
}

impl RepoTaskView {
    /// The warning for a reference that does not parse.
    pub open spec fn warning(self) -> Option<Seq<char>> {
        match self {
            RepoTaskView::InvalidPrivate(raw) => Some(
                "invalid private repo (expected OWNER/REPO or URL): "@ + raw,
            ),
            RepoTaskView::InvalidExtra(raw) => Some(
                "invalid repo (expected OWNER/REPO or URL): "@ + raw,
            ),
            _ => None,
        }
    }
}

impl RepoTask {
    /// The warning to show, if any.
    pub fn warning(&self) -> (r: Option<String>)
        ensures
            opt_text(r) == self@.warning(),
    {
        match self {
            RepoTask::InvalidPrivate(raw) => {
                let mut out = String::from_str(
                    "invalid private repo (expected OWNER/REPO or URL): ",
                );
                out.append(raw.as_str());
                Some(out)
            },
            RepoTask::InvalidExtra(raw) => {
                let mut out = String::from_str("invalid repo (expected OWNER/REPO or URL): ");
                out.append(raw.as_str());
                Some(out)
            },
            _ => None,
        }
    }
}

/// The views of a list of tasks.
pub open spec fn task_views(tasks: Seq<RepoTask>) -> Seq<RepoTaskView> {
    Seq::new(tasks.len(), |i: int| tasks[i]@)
}

/// The task for the private repository.
pub open spec fn spec_private_task(raw: Seq<char>, host: Seq<char>) -> RepoTaskView {
    match spec_parse_repo_spec(raw, host) {
        Some(spec) => RepoTaskView::Private(spec),
        None => RepoTaskView::InvalidPrivate(raw),
    }
}

/// The task for one extra repository.
pub open spec fn spec_extra_task(raw: Seq<char>, host: Seq<char>) -> RepoTaskView {
    match spec_parse_repo_spec(raw, host) {
        Some(spec) => RepoTaskView::Extra(spec),
        None => RepoTaskView::InvalidExtra(raw),
    }
}

/// The tasks for the extra repositories, one for each reference.
pub open spec fn spec_extra_tasks(extras: Seq<Seq<char>>, host: Seq<char>) -> Seq<RepoTaskView> {
    Seq::new(extras.len(), |i: int| spec_extra_task(extras[i], host))
}

/// The tasks after a creation: the private repository first, where one
/// is asked for, then the extra repositories in their order.
pub open spec fn spec_repo_tasks(
    private_repo: Option<Seq<char>>,
    extras: Seq<Seq<char>>,
    host: Seq<char>,
) -> Seq<RepoTaskView> {
    match private_repo {
        Some(raw) => seq![spec_private_task(raw, host)] + spec_extra_tasks(extras, host),
        None => spec_extra_tasks(extras, host),
    }
}

/// Plans the repositories to set up after a creation. Every reference
/// gives one task: a reference that does not parse gives a task that
/// only carries a warning, and does not stand in the way of the others.
pub fn repo_tasks(private_repo: Option<&str>, extra_repos: &[String], host: &str) -> (r: Vec<
    RepoTask,
>)
    ensures
        task_views(r@) == spec_repo_tasks(opt_str_text(private_repo), texts(extra_repos@), host@),
{
    let mut tasks: Vec<RepoTask> = Vec::new();
    match private_repo {
        Some(raw) => {
            match parse_repo_spec(raw, host) {
                Some(spec) => tasks.push(RepoTask::Private(spec)),
                None => tasks.push(RepoTask::InvalidPrivate(String::from_str(raw))),
            }
        },
        None => {},
    }
    let ghost lead = task_views(tasks@);
    let ghost extras = texts(extra_repos@);
    let mut i: usize = 0;
    while i < extra_repos.len()
        invariant
            i <= extra_repos.len(),
            extras == texts(extra_repos@),
            tasks.len() == lead.len() + i,
            forall|j: int| 0 <= j < lead.len() ==> tasks[j]@ == lead[j],
            forall|j: int| 0 <= j < i ==> tasks[lead.len() + j]@ == spec_extra_task(extras[j], host@),
        decreases extra_repos.len() - i,
    {
        let raw = extra_repos[i].as_str();
        match parse_repo_spec(raw, host) {
            Some(spec) => tasks.push(RepoTask::Extra(spec)),
            None => tasks.push(RepoTask::InvalidExtra(String::from_str(raw))),
        }
        i += 1;
    }
    assert(task_views(tasks@) =~= lead + spec_extra_tasks(extras, host@));
    assert(lead + spec_extra_tasks(extras, host@) =~= spec_repo_tasks(
        opt_str_text(private_repo),
        extras,
        host@,
    ));
    tasks
}

} // verus!
