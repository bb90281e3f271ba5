use agent_workspace::cli::{
    parse_auth_args, parse_create_args, parse_exec_args, parse_rm_args, requested_provider,
    rm_action, ArgError, OptionScope, RmAction,
};
use agent_workspace::cli_reset::{
    parse_reset_opt_repos_args, parse_reset_private_repo_args, parse_reset_repo_args,
    parse_reset_work_repos_args,
};

fn args(items: &[&str]) -> Vec<String> {
    items.iter().map(|item| item.to_string()).collect()
}

fn defaults() -> Vec<String> {
    vec![String::from("agent-ws"), String::from("codex-ws")]
}

fn message<T>(result: Result<T, ArgError>) -> String {
    match result {
        Err(e) => e.message(),
        Ok(_) => panic!("expected parse error"),
    }
}

#[test]
fn create_translation_maps_no_work_repos_to_no_clone() {
    let forwarded = parse_create_args(&args(&["--no-work-repos", "--name", "demo"]), &defaults(), 0)
        .ok()
        .expect("parse")
        .forwarded_args;
    assert_eq!(forwarded, vec!["--no-clone", "--name", "demo"]);
}

#[test]
fn create_translation_normalizes_ws_prefixed_name() {
    let forwarded = parse_create_args(&args(&["--name", "ws-test"]), &defaults(), 0)
        .ok()
        .expect("parse")
        .forwarded_args;
    assert_eq!(forwarded, vec!["--name", "test"]);
}

#[test]
fn create_translation_normalizes_name_equals_syntax() {
    let forwarded = parse_create_args(&args(&["--name=agent-ws-ws-test"]), &defaults(), 0)
        .ok()
        .expect("parse")
        .forwarded_args;
    assert_eq!(forwarded, vec!["--name=test"]);
}

#[test]
fn create_translation_drops_no_extras_private_repo_and_extra_repos() {
    let forwarded = parse_create_args(
        &args(&["--no-extras", "--private-repo", "org/private", "org/one", "org/two"]),
        &defaults(),
        0,
    )
    .ok()
    .expect("parse")
    .forwarded_args;
    assert_eq!(forwarded, vec!["org/one"]);
}

#[test]
fn create_parser_rejects_repo_args_with_no_work_repos() {
    let err = message(parse_create_args(&args(&["--no-work-repos", "org/repo"]), &defaults(), 0));
    assert!(err.contains("--no-work-repos"));
}

#[test]
fn create_parser_keeps_what_it_does_not_hand_on() {
    let parsed = parse_create_args(
        &args(&[
            "--private-repo= org/private ",
            "--image",
            "org/one",
            "-h",
            "--name",
            " My Demo ",
            "--",
            "--no-extras",
            "org/two",
        ]),
        &defaults(),
        0,
    )
    .ok()
    .expect("parse");
    assert!(parsed.show_help);
    assert!(!parsed.no_extras);
    assert!(!parsed.no_work_repos);
    assert_eq!(parsed.private_repo.as_deref(), Some("org/private"));
    assert_eq!(parsed.workspace_name.as_deref(), Some("my-demo"));
    assert_eq!(parsed.primary_repo.as_deref(), Some("org/one"));
    assert_eq!(parsed.extra_repos, vec!["--no-extras", "org/two"]);
    assert_eq!(
        parsed.forwarded_args,
        vec!["--image", "org/one", "-h", "--name", "my-demo", "--"]
    );
}

#[test]
fn create_parser_names_a_nameless_workspace_after_the_time() {
    let parsed = parse_create_args(&args(&["--name=", "--private-repo", " "]), &defaults(), 99)
        .ok()
        .expect("parse");
    assert_eq!(parsed.workspace_name.as_deref(), Some("ws-99"));
    assert_eq!(parsed.private_repo, None);
    assert_eq!(parsed.forwarded_args, vec!["--name=ws-99"]);
}

#[test]
fn create_parser_wants_a_value_behind_an_option_that_takes_one() {
    assert_eq!(
        message(parse_create_args(&args(&["--private-repo"]), &defaults(), 0)),
        "missing value for --private-repo"
    );
    assert_eq!(
        message(parse_create_args(&args(&["org/repo", "--name"]), &defaults(), 0)),
        "missing value for --name"
    );
    assert_eq!(
        message(parse_create_args(&args(&["--no-work-repos", "a", "b"]), &defaults(), 0)),
        "--no-work-repos does not accept repo args"
    );
}

#[test]
fn exec_parser_extracts_user_workspace_and_command() {
    let parsed =
        parse_exec_args(&args(&["--user", "codex", "ws-test", "id", "-u"])).ok().expect("parse");
    assert!(!parsed.show_help);
    assert_eq!(parsed.user, Some(String::from("codex")));
    assert_eq!(parsed.workspace, Some(String::from("ws-test")));
    assert_eq!(parsed.command, vec!["id", "-u"]);
}

#[test]
fn exec_parser_supports_root_flag() {
    let parsed = parse_exec_args(&args(&["--root", "ws-test", "id", "-u"])).ok().expect("parse");
    assert_eq!(parsed.user, Some(String::from("0")));
    assert_eq!(parsed.workspace, Some(String::from("ws-test")));
}

#[test]
fn exec_parser_keeps_a_named_user_over_root() {
    let parsed = parse_exec_args(&args(&["--user=me", "--root", "ws"])).ok().expect("parse");
    assert_eq!(parsed.user.as_deref(), Some("me"));
    assert!(parsed.command.is_empty());
    let parsed = parse_exec_args(&args(&["--root", "--user", "me", "ws"])).ok().expect("parse");
    assert_eq!(parsed.user.as_deref(), Some("me"));
}

#[test]
fn exec_parser_stops_at_a_request_for_help() {
    let parsed = parse_exec_args(&args(&["--help", "--bogus"])).ok().expect("parse");
    assert!(parsed.show_help);
    assert_eq!(parsed.workspace, None);
    let parsed = parse_exec_args(&args(&["ws", "--help"])).ok().expect("parse");
    assert!(!parsed.show_help);
    assert_eq!(parsed.command, vec!["--help"]);
}

#[test]
fn exec_parser_reports_what_is_wrong() {
    assert_eq!(message(parse_exec_args(&args(&[]))), "missing workspace name");
    assert_eq!(message(parse_exec_args(&args(&["--root"]))), "missing workspace name");
    assert_eq!(message(parse_exec_args(&args(&["--user"]))), "missing value for --user");
    assert_eq!(message(parse_exec_args(&args(&["-x", "ws"]))), "unknown option for exec: -x");
    match parse_exec_args(&args(&["-x"])) {
        Err(ArgError::UnknownOption { scope, option }) => {
            assert_eq!(scope, OptionScope::Exec);
            assert_eq!(option, "-x");
        }
        _ => panic!("expected UnknownOption"),
    }
}

#[test]
fn rm_parser_accepts_yes_and_workspace() {
    let parsed = parse_rm_args(&args(&["ws-test", "--yes"])).ok().expect("parse");
    assert!(!parsed.all);
    assert_eq!(parsed.workspace, Some(String::from("ws-test")));
}

#[test]
fn rm_parser_accepts_all() {
    let parsed = parse_rm_args(&args(&["--all", "--yes"])).ok().expect("parse");
    assert!(parsed.all);
    assert_eq!(parsed.workspace, None);
}

#[test]
fn rm_parser_reports_what_is_wrong() {
    assert_eq!(message(parse_rm_args(&args(&["a", "b"]))), "rm accepts at most one workspace name");
    assert_eq!(message(parse_rm_args(&args(&["-y"]))), "unknown option for rm: -y");
    let parsed = parse_rm_args(&args(&["-h"])).ok().expect("parse");
    assert!(parsed.show_help);
}

#[test]
fn auth_parser_extracts_provider_and_container() {
    let parsed =
        parse_auth_args(&args(&["github", "--host", "github.com", "ws-test"])).ok().expect("parse");
    assert_eq!(parsed.provider.as_deref(), Some("github"));
    assert_eq!(parsed.host.as_deref(), Some("github.com"));
    assert_eq!(parsed.container.as_deref(), Some("ws-test"));
}

#[test]
fn auth_parser_reads_every_option_in_both_forms() {
    let parsed = parse_auth_args(&args(&[
        "--profile=work",
        "--key",
        "ABCD",
        "codex",
        "--name",
        "ws-a",
        "--host=ghe",
        "--container=ws-b",
    ]))
    .ok()
    .expect("parse");
    assert_eq!(parsed.provider.as_deref(), Some("codex"));
    assert_eq!(parsed.profile.as_deref(), Some("work"));
    assert_eq!(parsed.key.as_deref(), Some("ABCD"));
    assert_eq!(parsed.host.as_deref(), Some("ghe"));
    assert_eq!(parsed.container.as_deref(), Some("ws-b"));
    assert!(!parsed.show_help);
}

#[test]
fn auth_parser_takes_everything_behind_two_dashes_as_positional() {
    let parsed = parse_auth_args(&args(&["--", "gpg", "--help"])).ok().expect("parse");
    assert_eq!(parsed.provider.as_deref(), Some("gpg"));
    assert_eq!(parsed.container.as_deref(), Some("--help"));
    assert!(!parsed.show_help);
    assert_eq!(message(parse_auth_args(&args(&["a", "--", "b", "c"]))), "unexpected arg: c");
}

#[test]
fn auth_parser_reports_what_is_wrong() {
    assert_eq!(message(parse_auth_args(&args(&["a", "b", "c"]))), "unexpected arg: c");
    assert_eq!(message(parse_auth_args(&args(&["--name"]))), "missing value for --name");
    assert_eq!(message(parse_auth_args(&args(&["--key"]))), "missing value for --key");
    assert_eq!(message(parse_auth_args(&args(&["--token"]))), "unknown option for auth: --token");
}

#[test]
fn reset_repo_parser_extracts_ref_and_yes() {
    let parsed =
        parse_reset_repo_args(&args(&["ws-test", "/work/org/repo", "--ref", "origin/dev", "--yes"]))
            .ok()
            .expect("parse");
    assert_eq!(parsed.container.as_deref(), Some("ws-test"));
    assert_eq!(parsed.repo_dir.as_deref(), Some("/work/org/repo"));
    assert_eq!(parsed.refspec, "origin/dev");
    assert!(parsed.yes);
}

#[test]
fn reset_parsers_start_from_the_defaults() {
    let parsed = parse_reset_work_repos_args(&args(&["ws"])).ok().expect("parse");
    assert_eq!(parsed.root, "/work");
    assert_eq!(parsed.depth, 3);
    assert_eq!(parsed.refspec, "origin/main");
    assert!(!parsed.yes);
    assert!(!parsed.show_help);
    assert_eq!(parsed.repo_dir, None);
}

#[test]
fn reset_work_repos_parser_reads_root_depth_and_ref() {
    let parsed = parse_reset_work_repos_args(&args(&[
        "--root", "/src", "ws", "--depth=5", "--ref=up/dev", "-y",
    ]))
    .ok()
    .expect("parse");
    assert_eq!(parsed.container.as_deref(), Some("ws"));
    assert_eq!(parsed.root, "/src");
    assert_eq!(parsed.depth, 5);
    assert_eq!(parsed.refspec, "up/dev");
    assert!(parsed.yes);
    let parsed =
        parse_reset_work_repos_args(&args(&["--root=/r", "--depth", "+7"])).ok().expect("parse");
    assert_eq!(parsed.root, "/r");
    assert_eq!(parsed.depth, 7);
}

#[test]
fn depth_zero_is_rejected_before_anything_is_searched() {
    for bad in [
        vec!["ws", "--depth", "0"],
        vec!["ws", "--depth=0"],
        vec!["--depth", "0", "--depth", "2", "--depth", "0"],
        vec!["ws", "--depth", "-1"],
        vec!["ws", "--depth", "two"],
        vec!["ws", "--depth="],
        vec!["ws", "--depth", "4294967296"],
    ] {
        assert_eq!(
            message(parse_reset_work_repos_args(&args(&bad))),
            "--depth must be a positive integer",
            "args: {bad:?}"
        );
    }
    let parsed = parse_reset_work_repos_args(&args(&["--depth", "0", "--depth", "2"]));
    assert_eq!(parsed.ok().expect("parse").depth, 2);
}

#[test]
fn reset_parsers_know_only_their_own_options() {
    assert_eq!(message(parse_reset_repo_args(&args(&["ws", "--depth", "2"]))), "unknown arg: --depth");
    assert_eq!(message(parse_reset_repo_args(&args(&["--root=/x"]))), "unknown arg: --root=/x");
    assert_eq!(message(parse_reset_opt_repos_args(&args(&["--ref", "a/b"]))), "unknown arg: --ref");
    assert_eq!(
        message(parse_reset_private_repo_args(&args(&["ws", "--depth=2"]))),
        "unknown arg: --depth=2"
    );
    assert_eq!(message(parse_reset_repo_args(&args(&["a", "b", "c"]))), "unexpected arg: c");
    assert_eq!(message(parse_reset_work_repos_args(&args(&["a", "b"]))), "unexpected arg: b");
    assert_eq!(message(parse_reset_opt_repos_args(&args(&["a", "b"]))), "unexpected arg: b");
    assert_eq!(message(parse_reset_private_repo_args(&args(&["--ref"]))), "missing value for --ref");
    assert_eq!(message(parse_reset_work_repos_args(&args(&["--root"]))), "missing value for --root");
    assert_eq!(
        message(parse_reset_work_repos_args(&args(&["--depth"]))),
        "missing value for --depth"
    );
}

#[test]
fn reset_simple_parsers_read_container_and_yes() {
    let parsed = parse_reset_opt_repos_args(&args(&["--yes", "ws", "-h"])).ok().expect("parse");
    assert_eq!(parsed.container.as_deref(), Some("ws"));
    assert!(parsed.yes);
    assert!(parsed.show_help);
    let parsed =
        parse_reset_private_repo_args(&args(&["ws", "--ref=origin/dev"])).ok().expect("parse");
    assert_eq!(parsed.container.as_deref(), Some("ws"));
    assert_eq!(parsed.refspec, "origin/dev");
}

#[test]
fn rm_shows_help_before_all_else_and_wants_a_workspace() {
    let action = |items: &[&str]| rm_action(&parse_rm_args(&args(items)).ok().expect("parse"));
    assert!(matches!(action(&["--all", "-h", "ws"]), RmAction::ShowHelp));
    assert!(matches!(action(&["ws", "--all"]), RmAction::RemoveAll));
    match action(&["--yes", "ws"]) {
        RmAction::Remove(name) => assert_eq!(name, "ws"),
        _ => panic!("expected Remove"),
    }
    assert!(matches!(action(&["--yes"]), RmAction::MissingWorkspace));
}

#[test]
fn auth_shows_the_usage_where_help_is_asked_or_no_provider_named() {
    let provider =
        |items: &[&str]| requested_provider(&parse_auth_args(&args(items)).ok().expect("parse"));
    assert_eq!(provider(&["github", "ws"]), Some(String::from("github")));
    assert_eq!(provider(&["github", "-h"]), None);
    assert_eq!(provider(&["--host", "h"]), None);
    assert_eq!(provider(&[]), None);
}
