use agent_workspace::clone::{
    clone_extra_repo, destination_state, ensure_cloned, extra_repo_destination,
    extra_repo_failure_message, git_entry_path, parent_directory, private_repo_candidates,
    private_repo_failure_message, setup_failed_message, setup_private_repo, CloneAction,
    CloneError, DestinationState, PrivateRepoAction,
};
use agent_workspace::repo::parse_repo_spec;

#[test]
fn absent_destination_is_cloned_over_https() {
    let spec = parse_repo_spec("git@github.com:octo/demo.git", "github.com").expect("parse");
    match ensure_cloned(&spec, "/work/octo/demo", DestinationState::Absent) {
        Ok(CloneAction::Clone { url, destination }) => {
            assert_eq!(url, "https://github.com/octo/demo.git");
            assert_eq!(destination, "/work/octo/demo");
        }
        _ => panic!("expected a clone"),
    }
}

#[test]
fn second_call_on_one_destination_clones_nothing() {
    let spec = parse_repo_spec("octo/demo", "github.com").expect("parse");
    let mut state = DestinationState::Absent;
    let mut clones = 0;
    for _ in 0..2 {
        match ensure_cloned(&spec, "/work/octo/demo", state) {
            Ok(CloneAction::Clone { .. }) => {
                clones += 1;
                state = DestinationState::Repository;
            }
            Ok(CloneAction::AlreadyCloned) => {}
            Err(_) => panic!("expected no error"),
        }
    }
    assert_eq!(clones, 1);
}

#[test]
fn occupied_destination_is_an_error_of_its_own() {
    let spec = parse_repo_spec("octo/demo", "github.com").expect("parse");
    match ensure_cloned(&spec, "/work/octo/demo", DestinationState::Occupied) {
        Err(CloneError::Occupied { destination }) => assert_eq!(destination, "/work/octo/demo"),
        _ => panic!("expected Occupied"),
    }
    assert_eq!(
        CloneError::Occupied { destination: String::from("/d") }.message(),
        "/d exists but is not a git repo; skipping clone"
    );
}

#[test]
fn extra_repository_goes_under_work() {
    let spec = parse_repo_spec("https://ghe.example/Octo/Demo.git", "github.com").expect("parse");
    assert_eq!(extra_repo_destination(&spec), "/work/Octo/Demo");
    match clone_extra_repo(&spec, DestinationState::Absent) {
        Ok(CloneAction::Clone { url, destination }) => {
            assert_eq!(url, "https://ghe.example/Octo/Demo.git");
            assert_eq!(destination, "/work/Octo/Demo");
        }
        _ => panic!("expected a clone"),
    }
    assert!(matches!(
        clone_extra_repo(&spec, DestinationState::Repository),
        Ok(CloneAction::AlreadyCloned)
    ));
    assert!(matches!(
        clone_extra_repo(&spec, DestinationState::Occupied),
        Err(CloneError::Occupied { .. })
    ));
}

#[test]
fn private_repository_is_pulled_or_cloned_and_linked() {
    let spec = parse_repo_spec("octo/private", "github.com").expect("parse");
    match setup_private_repo(&spec, "/home/agent", DestinationState::Repository) {
        Ok(PrivateRepoAction::Pull { directory }) => assert_eq!(directory, "/home/agent/.private"),
        _ => panic!("expected a pull"),
    }
    match setup_private_repo(&spec, "/home/agent", DestinationState::Absent) {
        Ok(PrivateRepoAction::CloneAndLink { url, destination, link }) => {
            assert_eq!(url, "https://github.com/octo/private.git");
            assert_eq!(destination, "/home/agent/.private");
            assert_eq!(link, "/opt/zsh-kit/.private");
        }
        _ => panic!("expected a clone"),
    }
    match setup_private_repo(&spec, "/home/agent", DestinationState::Occupied) {
        Err(CloneError::Occupied { destination }) => assert_eq!(destination, "/home/agent/.private"),
        _ => panic!("expected Occupied"),
    }
}

#[test]
fn parent_of_a_destination_is_what_stands_before_its_last_slash() {
    assert_eq!(parent_directory("/work/octo/demo"), "/work/octo");
    assert_eq!(parent_directory("/work"), "/");
    assert_eq!(parent_directory("demo"), ".");
    assert_eq!(parent_directory(""), ".");
    assert_eq!(parent_directory("a/b/"), "a/b");
    assert_eq!(parent_directory("/"), "/");
}

#[test]
fn private_repository_is_looked_for_under_three_homes() {
    assert_eq!(
        private_repo_candidates("/root"),
        vec!["/root/.private", "/home/codex/.private", "/home/agent/.private"]
    );
}

#[test]
fn state_of_a_destination_follows_from_two_probes() {
    assert_eq!(destination_state(true, true), DestinationState::Repository);
    assert_eq!(destination_state(true, false), DestinationState::Repository);
    assert_eq!(destination_state(false, true), DestinationState::Occupied);
    assert_eq!(destination_state(false, false), DestinationState::Absent);
}

#[test]
fn git_entry_of_a_destination_ignores_trailing_slashes() {
    assert_eq!(git_entry_path("/work/o/r"), "/work/o/r/.git");
    assert_eq!(git_entry_path("/work/o/r//"), "/work/o/r/.git");
    assert_eq!(git_entry_path("/"), "/.git");
    assert_eq!(git_entry_path(""), "/.git");
}

#[test]
fn failed_setup_is_described_with_repository_and_cause() {
    assert_eq!(
        setup_failed_message("agent-ws-demo", 128),
        "workspace setup failed in agent-ws-demo (exit 128)"
    );
    assert_eq!(setup_failed_message("c", -1), "workspace setup failed in c (exit -1)");
    assert_eq!(
        setup_failed_message("c", i32::MIN),
        "workspace setup failed in c (exit -2147483648)"
    );
    assert_eq!(
        extra_repo_failure_message("octo/demo", "boom"),
        "failed to clone extra repo octo/demo: boom"
    );
    assert_eq!(
        private_repo_failure_message("octo/private", "boom"),
        "failed to setup ~/.private from octo/private: boom"
    );
}
