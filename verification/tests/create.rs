use agent_workspace::create::{
    create_follow_up, default_host, detect_new_workspace_name,
    parse_workspace_name_from_create_output, parse_workspace_name_from_json, repo_tasks,
    workspace_from_output, CreateFollowUp, RepoTask,
};

fn names(items: &[&str]) -> Vec<String> {
    items.iter().map(|item| item.to_string()).collect()
}

#[test]
fn workspace_is_read_from_its_line() {
    assert_eq!(
        parse_workspace_name_from_create_output("starting\n  workspace: agent-ws-demo \r\ndone\n"),
        Some(String::from("agent-ws-demo"))
    );
    assert_eq!(
        parse_workspace_name_from_create_output("workspace:a\nworkspace:b"),
        Some(String::from("a"))
    );
    assert_eq!(parse_workspace_name_from_create_output("workspace:x"), Some(String::from("x")));
}

#[test]
fn first_workspace_line_decides_also_where_it_is_empty() {
    assert_eq!(parse_workspace_name_from_create_output("workspace:  \nworkspace: b\n"), None);
    assert_eq!(parse_workspace_name_from_create_output(""), None);
    assert_eq!(parse_workspace_name_from_create_output("no workspace: here\n"), None);
    assert_eq!(parse_workspace_name_from_create_output("Workspace: a\n"), None);
}

#[test]
fn workspace_is_read_from_json() {
    assert_eq!(
        parse_workspace_name_from_json("{\"ok\":true,\"workspace\" :  \" agent-ws-demo \"}"),
        Some(String::from("agent-ws-demo"))
    );
    assert_eq!(
        parse_workspace_name_from_json("{\"workspace\":\"a\",\"workspace\":\"b\"}"),
        Some(String::from("a"))
    );
}

#[test]
fn json_without_a_usable_member_gives_nothing() {
    for text in [
        "",
        "{}",
        "{\"workspace\"}",
        "{\"workspace\": 5}",
        "{\"workspace\": \"open",
        "{\"workspace\": \"\"}",
        "{\"workspace\": \"  \"}",
        "{\"workspaces\": \"a\"}",
        "{\"workspace\":",
    ] {
        assert_eq!(parse_workspace_name_from_json(text), None, "text: {text:?}");
    }
}

#[test]
fn line_wins_over_json() {
    assert_eq!(
        workspace_from_output("{\"workspace\": \"from-json\"}\nworkspace: from-line\n"),
        Some(String::from("from-line"))
    );
    assert_eq!(
        workspace_from_output("{\"workspace\": \"from-json\"}\n"),
        Some(String::from("from-json"))
    );
    assert_eq!(workspace_from_output("created\n"), None);
}

#[test]
fn new_workspace_is_the_one_name_that_was_not_there() {
    assert_eq!(
        detect_new_workspace_name(&names(&["a", "b"]), &names(&["b", "c", "a"])),
        Some(String::from("c"))
    );
    assert_eq!(detect_new_workspace_name(&[], &names(&["a"])), Some(String::from("a")));
}

#[test]
fn no_new_workspace_or_several_give_nothing() {
    assert_eq!(detect_new_workspace_name(&names(&["a"]), &names(&["a"])), None);
    assert_eq!(detect_new_workspace_name(&names(&["a"]), &names(&["a", "b", "c"])), None);
    assert_eq!(detect_new_workspace_name(&names(&["a"]), &names(&["b", "b"])), None);
    assert_eq!(detect_new_workspace_name(&names(&["a"]), &[]), None);
}

#[test]
fn failed_creation_is_fatal() {
    assert_eq!(
        create_follow_up(3, false, false, true, 2),
        CreateFollowUp::Stop { exit_code: 3 }
    );
    assert_eq!(create_follow_up(0, true, false, true, 2), CreateFollowUp::Stop { exit_code: 0 });
}

#[test]
fn repositories_are_set_up_only_where_some_are_asked_for() {
    assert_eq!(create_follow_up(0, false, true, true, 2), CreateFollowUp::Stop { exit_code: 0 });
    assert_eq!(create_follow_up(0, false, false, false, 0), CreateFollowUp::Stop { exit_code: 0 });
    assert_eq!(create_follow_up(0, false, false, true, 0), CreateFollowUp::SetUpRepositories);
    assert_eq!(create_follow_up(0, false, false, false, 1), CreateFollowUp::SetUpRepositories);
}

#[test]
fn default_host_is_github_unless_configured() {
    assert_eq!(default_host(None), "github.com");
    assert_eq!(default_host(Some("ghe.example")), "ghe.example");
    assert_eq!(default_host(Some("")), "");
}

#[test]
fn bad_reference_is_warned_of_and_does_not_stop_the_others() {
    let tasks = repo_tasks(
        Some("nonsense"),
        &names(&["org/one", "", "git@ghe.example:org/two.git"]),
        "github.com",
    );
    assert_eq!(tasks.len(), 4);
    match &tasks[0] {
        RepoTask::InvalidPrivate(raw) => assert_eq!(raw, "nonsense"),
        _ => panic!("expected InvalidPrivate"),
    }
    assert_eq!(
        tasks[0].warning().as_deref(),
        Some("invalid private repo (expected OWNER/REPO or URL): nonsense")
    );
    match &tasks[1] {
        RepoTask::Extra(spec) => assert_eq!(spec.clone_url(), "https://github.com/org/one.git"),
        _ => panic!("expected Extra"),
    }
    assert_eq!(tasks[1].warning(), None);
    assert_eq!(
        tasks[2].warning().as_deref(),
        Some("invalid repo (expected OWNER/REPO or URL): ")
    );
    match &tasks[3] {
        RepoTask::Extra(spec) => assert_eq!(spec.clone_url(), "https://ghe.example/org/two.git"),
        _ => panic!("expected Extra"),
    }
}

#[test]
fn private_repository_comes_first() {
    let tasks = repo_tasks(Some("org/private"), &names(&["org/one"]), "github.com");
    assert_eq!(tasks.len(), 2);
    match &tasks[0] {
        RepoTask::Private(spec) => assert_eq!(spec.owner_repo(), "org/private"),
        _ => panic!("expected Private"),
    }
    assert!(repo_tasks(None, &[], "github.com").is_empty());
}
