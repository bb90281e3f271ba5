//! The order in which a command does its work: what is tried first,
//! what goes on after a failure, and what ends the command.
//!
//! The work itself is the caller's, handed in as functions. What is
//! asked of them, in which order, and what is made of their answers is
//! decided here.

use vstd::prelude::*;
use crate::create::{
    detect_new_workspace_name, spec_detect_new_workspace_name, spec_workspace_from_output,
    task_views, workspace_from_output, RepoTask, RepoTaskView,
};
use crate::dispatch::EXIT_RUNTIME;
use crate::lookup::{
    answered, reports, resolve_workspace_container_name_str, spec_resolution_candidates,
    spec_resolve,
};
use crate::text::{opt_str_text, opt_text, texts};

verus! {

/// Whether a task is one to carry out: a reference that did not parse
/// only carries a warning.
pub open spec fn spec_is_runnable(task: RepoTaskView) -> bool {
    task is Private || task is Extra
}

/// `done` is an answer that the runner may give for the task.
#[verifier::opaque]
pub open spec fn performed<F: Fn(&RepoTask) -> bool>(
    runner: F,
    task: RepoTaskView,
    done: bool,
) -> bool {
    exists|t: &RepoTask| t@ == task && call_ensures(runner, (t,), done)
}

/// How many of the outcomes are failures.
pub open spec fn spec_count_failed(outcomes: Seq<bool>) -> nat
    decreases outcomes.len(),
{
    if outcomes.len() == 0 {
        0
    } else {
        spec_count_failed(outcomes.drop_last()) + (if outcomes.last() {
            0nat
        } else {
            1nat
        })
    }
}

/// `outcomes` is what setting the tasks up gave, task by task: for a
/// task to carry out, what the runner answered; for any other, a
/// failure.
#[verifier::opaque]
pub open spec fn is_setup_of<F: Fn(&RepoTask) -> bool>(
    runner: F,
    tasks: Seq<RepoTaskView>,
    outcomes: Seq<bool>,
) -> bool {
    &&& outcomes.len() == tasks.len()
    &&& forall|i: int|
        0 <= i < tasks.len() ==> if spec_is_runnable(tasks[i]) {
            performed(runner, tasks[i], #[trigger] outcomes[i])
        } else {
            !outcomes[i]
        }
}

proof fn lemma_setup_extends<F: Fn(&RepoTask) -> bool>(
    runner: F,
    tasks: Seq<RepoTaskView>,
    outcomes: Seq<bool>,
    task: RepoTaskView,
    done: bool,
)
    requires
        is_setup_of(runner, tasks, outcomes),
        if spec_is_runnable(task) {
            performed(runner, task, done)
        } else {
            !done
        },
    ensures
        is_setup_of(runner, tasks.push(task), outcomes.push(done)),
        spec_count_failed(outcomes.push(done)) == spec_count_failed(outcomes) + (if done {
            0nat
        } else {
            1nat
        }),
{
    reveal(is_setup_of);
    assert(outcomes.push(done).drop_last() =~= outcomes);
    let longer = outcomes.push(done);
    let all = tasks.push(task);
    assert forall|i: int| 0 <= i < all.len() implies if spec_is_runnable(all[i]) {
        performed(runner, all[i], #[trigger] longer[i])
    } else {
        !longer[i]
    } by {
        if i < tasks.len() {
            assert(all[i] == tasks[i]);
            assert(longer[i] == outcomes[i]);
        }
    }
}

/// Sets up the repositories of a new workspace: every task that is to
/// be carried out is handed to `runner`, once, in the order of the
/// tasks, whatever became of the tasks before it. Returns how many
/// tasks failed, those whose reference did not parse among them.
pub fn run_repo_tasks<F: Fn(&RepoTask) -> bool>(tasks: &[RepoTask], runner: F) -> (failed: usize)
    requires
        forall|t: &RepoTask| call_requires(runner, (t,)),
    ensures
        failed <= tasks.len(),
        exists|outcomes: Seq<bool>|
            is_setup_of(runner, task_views(tasks@), outcomes) && failed == #[trigger] spec_count_failed(
                outcomes,
            ),
{
    let ghost all = task_views(tasks@);
    let ghost mut outcomes: Seq<bool> = Seq::empty();
    let mut failed: usize = 0;
    let mut i: usize = 0;
    proof {
        reveal(is_setup_of);
        assert(all.take(0) =~= Seq::<RepoTaskView>::empty());
    }
    while i < tasks.len()
        invariant
            i <= tasks.len(),
            all == task_views(tasks@),
            forall|t: &RepoTask| call_requires(runner, (t,)),
            is_setup_of(runner, all.take(i as int), outcomes),
            failed == spec_count_failed(outcomes),
            failed <= i,
        decreases tasks.len() - i,
    {
        let task = &tasks[i];
        let done = match task {
            RepoTask::Private(_) => runner(task),
            RepoTask::Extra(_) => runner(task),
            _ => false,
        };
        proof {
            assert(all[i as int] == task@);
            if spec_is_runnable(task@) {
                assert(performed(runner, task@, done)) by {
                    reveal(performed);
                }
            }
            lemma_setup_extends(runner, all.take(i as int), outcomes, task@, done);
            assert(all.take(i as int).push(task@) =~= all.take(i + 1));
            outcomes = outcomes.push(done);
        }
        if !done {
            failed += 1;
        }
        i += 1;
    }
    assert(all.take(tasks.len() as int) =~= all);
    failed
}

/// What a lookup by name gave: `found` is the first candidate that the
/// probe reported to exist, or none where it reported none.
pub open spec fn is_lookup_result<F: Fn(&str) -> bool>(
    probe: F,
    name: Seq<char>,
    prefixes: Seq<Seq<char>>,
    found: Option<Seq<char>>,
) -> bool {
    &&& forall|store: Set<Seq<char>>|
        reports(probe, store) ==> found == (match #[trigger] spec_resolve(name, prefixes, store) {
            Some(identity) => Some(identity.location),
            None => None,
        })
    &&& match found {
        Some(location) => spec_resolution_candidates(name, prefixes).contains(location)
            && answered(probe, location, true),
        None => forall|j: int|
            0 <= j < spec_resolution_candidates(name, prefixes).len() ==> answered(
                probe,
                #[trigger] spec_resolution_candidates(name, prefixes)[j],
                false,
            ),
    }
}

/// What the search for a created workspace gave where the output of the
/// creation named none and `after` lists the workspaces that exist now:
/// the one new workspace, or else what a lookup of the requested name
/// gave, or nothing where no name was requested.
pub open spec fn is_search_result<P: Fn(&str) -> bool>(
    probe: P,
    before: Seq<Seq<char>>,
    after: Seq<Seq<char>>,
    workspace_name: Option<Seq<char>>,
    prefixes: Seq<Seq<char>>,
    found: Option<Seq<char>>,
) -> bool {
    match spec_detect_new_workspace_name(before, after) {
        Some(name) => found == Some(name),
        None => match workspace_name {
            Some(name) => is_lookup_result(probe, name, prefixes, found),
            None => found is None,
        },
    }
}

/// Finds the workspace that a creation made. The output of the creation
/// is asked first. Only where it names no workspace are the workspaces
/// listed and held against those that existed before; and only where
/// that shows not exactly one new workspace is the requested name
/// looked up.
pub fn find_created_workspace<L: Fn() -> Vec<String>, P: Fn(&str) -> bool>(
    stdout: &str,
    before: &[String],
    workspace_name: Option<&str>,
    prefixes: &[String],
    list_after: L,
    probe: P,
) -> (r: Option<String>)
    requires
        call_requires(list_after, ()),
        forall|name: &str| call_requires(probe, (name,)),
    ensures
        spec_workspace_from_output(stdout@) is Some ==> opt_text(r) == spec_workspace_from_output(
            stdout@,
        ),
        spec_workspace_from_output(stdout@) is None ==> exists|after: Vec<String>|
            #[trigger] call_ensures(list_after, (), after) && is_search_result(
                probe,
                texts(before@),
                texts(after@),
                opt_str_text(workspace_name),
                texts(prefixes@),
                opt_text(r),
            ),
{
    match workspace_from_output(stdout) {
        Some(name) => {
            return Some(name);
        },
        None => {},
    }
    let after = list_after();
    match detect_new_workspace_name(before, after.as_slice()) {
        Some(name) => {
            return Some(name);
        },
        None => {},
    }
    match workspace_name {
        Some(name) => resolve_workspace_container_name_str(name, prefixes, probe),
        None => None,
    }
}

/// `code` is an exit code that the function may give for the name.
pub open spec fn returned<F: Fn(&str) -> i32>(run: F, text: Seq<char>, code: i32) -> bool {
    exists|name: &str| name@ == text && call_ensures(run, (name,), code)
}

/// The function gives the exit codes that `codes` names.
pub open spec fn gives<F: Fn(&str) -> i32>(run: F, codes: spec_fn(Seq<char>) -> i32) -> bool {
    forall|name: &str, code: i32| call_ensures(run, (name,), code) ==> code == codes(name@)
}

/// The first exit code of the names, in their order, that is not zero;
/// zero where there is none.
pub open spec fn spec_first_failure_code(
    names: Seq<Seq<char>>,
    codes: spec_fn(Seq<char>) -> i32,
) -> i32
    decreases names.len(),
{
    if names.len() == 0 {
        0
    } else if codes(names[0]) != 0 {
        codes(names[0])
    } else {
        spec_first_failure_code(names.drop_first(), codes)
    }
}

proof fn lemma_first_failure_code(
    names: Seq<Seq<char>>,
    codes: spec_fn(Seq<char>) -> i32,
    upto: int,
)
    requires
        0 <= upto <= names.len(),
        forall|j: int| 0 <= j < upto ==> codes(names[j]) == 0,
    ensures
        upto < names.len() && codes(names[upto]) != 0 ==> spec_first_failure_code(names, codes)
            == codes(names[upto]),
        upto == names.len() ==> spec_first_failure_code(names, codes) == 0,
    decreases upto,
{
    if upto > 0 {
        let rest = names.drop_first();
        assert(codes(names[0]) == 0);
        assert forall|j: int| 0 <= j < upto - 1 implies codes(rest[j]) == 0 by {
            assert(rest[j] == names[j + 1]);
        }
        lemma_first_failure_code(rest, codes, upto - 1);
        if upto < names.len() {
            assert(rest[upto - 1] == names[upto]);
        }
    }
}

/// Runs a command for each name, in order, and stops at the first that
/// does not end with zero. Returns that exit code, or zero where every
/// command ended with zero.
pub fn run_each_until_failure<F: Fn(&str) -> i32>(names: &[String], run: F) -> (r: i32)
    requires
        forall|name: &str| call_requires(run, (name,)),
    ensures
        forall|codes: spec_fn(Seq<char>) -> i32|
            gives(run, codes) ==> r == #[trigger] spec_first_failure_code(texts(names@), codes),
        r != 0 ==> exists|i: int|
            {
                &&& 0 <= i < names.len()
                &&& returned(run, #[trigger] names[i]@, r)
                &&& forall|j: int| 0 <= j < i ==> returned(run, #[trigger] names[j]@, 0)
            },
        r == 0 ==> forall|j: int| 0 <= j < names.len() ==> returned(run, #[trigger] names[j]@, 0),
{
    let mut i: usize = 0;
    let mut code: i32 = 0;
    while i < names.len()
        invariant_except_break
            code == 0,
        invariant
            i <= names.len(),
            forall|name: &str| call_requires(run, (name,)),
            forall|j: int| 0 <= j < i ==> returned(run, #[trigger] names[j]@, 0),
        ensures
            code != 0 ==> i < names.len() && returned(run, names[i as int]@, code),
            code == 0 ==> i == names.len(),
        decreases names.len() - i,
    {
        let name = names[i].as_str();
        let here = run(name);
        assert(returned(run, names[i as int]@, here));
        if here != 0 {
            code = here;
            break ;
        }
        i += 1;
    }
    proof {
        let all = texts(names@);
        assert forall|codes: spec_fn(Seq<char>) -> i32| gives(run, codes) implies code
            == #[trigger] spec_first_failure_code(all, codes) by {
            assert forall|j: int| 0 <= j < i implies codes(all[j]) == 0 by {
                assert(returned(run, names[j]@, 0));
            }
            if code != 0 {
                assert(returned(run, names[i as int]@, code));
                assert(codes(all[i as int]) == code);
            }
            lemma_first_failure_code(all, codes, i as int);
        }
    }
    code
}

/// Whether a reset of the directories fails: whether one of them holds
/// a repository that cannot be reset.
pub open spec fn spec_reset_fails(
    dirs: Seq<Seq<char>>,
    repositories: Set<Seq<char>>,
    resettable: Set<Seq<char>>,
) -> bool {
    exists|i: int|
        0 <= i < dirs.len() && repositories.contains(#[trigger] dirs[i]) && !resettable.contains(
            dirs[i],
        )
}

/// `dir` went through: it holds no repository, or its repository was
/// reset.
pub open spec fn went_through<P: Fn(&str) -> bool, R: Fn(&str) -> bool>(
    has_repo: P,
    reset: R,
    dir: Seq<char>,
) -> bool {
    answered(has_repo, dir, false) || (answered(has_repo, dir, true) && answered(reset, dir, true))
}

/// Resets the repositories among the directories, in order. A directory
/// that holds no repository is passed over. The first repository that
/// cannot be reset ends the work with the failure code; where all go
/// through, the result is zero.
pub fn reset_each_repository<P: Fn(&str) -> bool, R: Fn(&str) -> bool>(
    dirs: &[String],
    has_repo: P,
    reset: R,
) -> (r: i32)
    requires
        forall|name: &str| call_requires(has_repo, (name,)),
        forall|name: &str| call_requires(reset, (name,)),
    ensures
        r == 0 || r == EXIT_RUNTIME,
        forall|repositories: Set<Seq<char>>, resettable: Set<Seq<char>>|
            reports(has_repo, repositories) && reports(reset, resettable) ==> (r == EXIT_RUNTIME
                <==> #[trigger] spec_reset_fails(texts(dirs@), repositories, resettable)),
        r == EXIT_RUNTIME ==> exists|i: int|
            {
                &&& 0 <= i < dirs.len()
                &&& answered(has_repo, #[trigger] dirs[i]@, true)
                &&& answered(reset, dirs[i]@, false)
                &&& forall|j: int|
                    0 <= j < i ==> went_through(has_repo, reset, #[trigger] dirs[j]@)
            },
        r == 0 ==> forall|j: int|
            0 <= j < dirs.len() ==> went_through(has_repo, reset, #[trigger] dirs[j]@),
{
    let mut i: usize = 0;
    let mut failed = false;
    while i < dirs.len()
        invariant_except_break
            !failed,
        invariant
            i <= dirs.len(),
            forall|name: &str| call_requires(has_repo, (name,)),
            forall|name: &str| call_requires(reset, (name,)),
            forall|j: int| 0 <= j < i ==> went_through(has_repo, reset, #[trigger] dirs[j]@),
        ensures
            failed ==> i < dirs.len() && answered(has_repo, dirs[i as int]@, true) && answered(
                reset,
                dirs[i as int]@,
                false,
            ),
            !failed ==> i == dirs.len(),
        decreases dirs.len() - i,
    {
        let dir = dirs[i].as_str();
        let holds = has_repo(dir);
        assert(answered(has_repo, dirs[i as int]@, holds));
        if holds {
            let done = reset(dir);
            assert(answered(reset, dirs[i as int]@, done));
            if !done {
                failed = true;
                break ;
            }
        }
        i += 1;
    }
    proof {
        let all = texts(dirs@);
        assert forall|repositories: Set<Seq<char>>, resettable: Set<Seq<char>>|
            reports(has_repo, repositories) && reports(reset, resettable) implies (failed
            <==> #[trigger] spec_reset_fails(all, repositories, resettable)) by {
            if failed {
                assert(all[i as int] == dirs[i as int]@);
                assert(repositories.contains(all[i as int]));
                assert(!resettable.contains(all[i as int]));
            } else {
                if spec_reset_fails(all, repositories, resettable) {
                    let k = choose|k: int|
                        0 <= k < all.len() && repositories.contains(#[trigger] all[k])
                            && !resettable.contains(all[k]);
                    assert(went_through(has_repo, reset, dirs[k]@));
                }
            }
        }
    }
    if failed {
        EXIT_RUNTIME
    } else {
        0
    }
}

} // verus!
