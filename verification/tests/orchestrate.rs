use std::cell::RefCell;

use agent_workspace::create::{
    create_exit_code, create_follow_up, repo_tasks, CreateFollowUp, RepoTask,
};
use agent_workspace::dispatch::EXIT_RUNTIME;
use agent_workspace::orchestrate::{
    find_created_workspace, reset_each_repository, run_each_until_failure, run_repo_tasks,
};

fn names(items: &[&str]) -> Vec<String> {
    items.iter().map(|item| item.to_string()).collect()
}

fn defaults() -> Vec<String> {
    names(&["agent-ws", "codex-ws"])
}

fn task_name(task: &RepoTask) -> String {
    match task {
        RepoTask::Private(spec) => format!("private {}", spec.owner_repo()),
        RepoTask::Extra(spec) => format!("extra {}", spec.owner_repo()),
        RepoTask::InvalidPrivate(raw) => format!("invalid private {raw}"),
        RepoTask::InvalidExtra(raw) => format!("invalid {raw}"),
    }
}

#[test]
fn failed_repository_is_a_warning_and_the_others_are_still_set_up() {
    let follow_up = create_follow_up(0, false, false, true, 3);
    assert_eq!(follow_up, CreateFollowUp::SetUpRepositories);
    let tasks = repo_tasks(Some("org/private"), &names(&["org/one", "bad", "org/two"]), "github.com");
    let attempted = RefCell::new(Vec::new());
    let failed = run_repo_tasks(&tasks, |task: &RepoTask| {
        attempted.borrow_mut().push(task_name(task));
        !matches!(task, RepoTask::Private(_)) && task_name(task) != "extra org/one"
    });
    assert_eq!(*attempted.borrow(), vec!["private org/private", "extra org/one", "extra org/two"]);
    assert_eq!(failed, 3);
    assert_eq!(create_exit_code(follow_up, failed), 0);
}

#[test]
fn repositories_that_all_go_through_count_no_failure() {
    let tasks = repo_tasks(None, &names(&["org/one", "org/two"]), "github.com");
    assert_eq!(run_repo_tasks(&tasks, |_: &RepoTask| true), 0);
    assert_eq!(run_repo_tasks(&[], |_: &RepoTask| false), 0);
    assert_eq!(create_exit_code(CreateFollowUp::SetUpRepositories, 0), 0);
}

#[test]
fn failed_creation_ends_with_its_own_code_whatever_else_failed() {
    let follow_up = create_follow_up(7, false, false, true, 2);
    assert_eq!(follow_up, CreateFollowUp::Stop { exit_code: 7 });
    assert_eq!(create_exit_code(follow_up, 0), 7);
    assert_eq!(create_exit_code(follow_up, 5), 7);
    assert_eq!(create_exit_code(CreateFollowUp::Stop { exit_code: 0 }, 2), 0);
}

#[test]
fn created_workspace_is_taken_from_the_output_first() {
    let found = find_created_workspace(
        "workspace: from-output\n",
        &names(&["a"]),
        Some("demo"),
        &defaults(),
        || -> Vec<String> { panic!("the workspaces are not to be listed") },
        |_: &str| -> bool { panic!("no name is to be looked up") },
    );
    assert_eq!(found, Some(String::from("from-output")));
}

#[test]
fn created_workspace_is_the_new_one_where_the_output_names_none() {
    let found = find_created_workspace(
        "created\n",
        &names(&["a"]),
        Some("demo"),
        &defaults(),
        || names(&["a", "agent-ws-new"]),
        |_: &str| -> bool { panic!("no name is to be looked up") },
    );
    assert_eq!(found, Some(String::from("agent-ws-new")));
}

#[test]
fn created_workspace_is_looked_up_by_name_last() {
    let found = find_created_workspace(
        "created\n",
        &names(&["a"]),
        Some("demo"),
        &defaults(),
        || names(&["a", "b", "c"]),
        |name: &str| name == "codex-ws-demo",
    );
    assert_eq!(found, Some(String::from("codex-ws-demo")));
    let found = find_created_workspace(
        "created\n",
        &names(&["a"]),
        Some("demo"),
        &defaults(),
        || names(&["a"]),
        |_: &str| false,
    );
    assert_eq!(found, None);
    let found =
        find_created_workspace("", &[], None, &defaults(), || Vec::new(), |_: &str| true);
    assert_eq!(found, None);
}

#[test]
fn commands_run_in_order_until_one_fails() {
    let ran = RefCell::new(Vec::new());
    let code = run_each_until_failure(&names(&["a", "b", "c"]), |name: &str| {
        ran.borrow_mut().push(name.to_string());
        if name == "b" {
            17
        } else {
            0
        }
    });
    assert_eq!(code, 17);
    assert_eq!(*ran.borrow(), vec!["a", "b"]);
    assert_eq!(run_each_until_failure(&names(&["a", "b"]), |_: &str| 0), 0);
    assert_eq!(run_each_until_failure(&[], |_: &str| 3), 0);
    assert_eq!(run_each_until_failure(&names(&["a"]), |_: &str| -1), -1);
}

#[test]
fn repositories_are_reset_until_one_fails_and_others_are_passed_over() {
    let log = RefCell::new(Vec::new());
    let dirs = names(&["/opt/a", "/opt/b", "/opt/c", "/opt/d"]);
    let code = reset_each_repository(
        &dirs,
        |dir: &str| {
            log.borrow_mut().push(format!("probe {dir}"));
            dir != "/opt/a"
        },
        |dir: &str| {
            log.borrow_mut().push(format!("reset {dir}"));
            dir != "/opt/c"
        },
    );
    assert_eq!(code, EXIT_RUNTIME);
    assert_eq!(
        *log.borrow(),
        vec!["probe /opt/a", "probe /opt/b", "reset /opt/b", "probe /opt/c", "reset /opt/c"]
    );
    assert_eq!(reset_each_repository(&dirs, |_: &str| true, |_: &str| true), 0);
    assert_eq!(reset_each_repository(&dirs, |_: &str| false, |_: &str| false), 0);
    assert_eq!(reset_each_repository(&[], |_: &str| true, |_: &str| false), 0);
}
