use agent_workspace::dispatch::{
    auto_detect_launcher_path, classify_reset_target, classify_subcommand, exec_command,
    exit_code_or_failure, is_confirmation, is_help, launcher_path_from_env, lowercase,
    opt_repo_dirs, parse_provider, unknown_provider_message, unknown_reset_target_message,
    wants_help, AuthProvider, ResetTarget, Subcommand,
    DEFAULT_CONTAINER_USER, DEFAULT_LAUNCHER_PATH, DEFAULT_REF, EXIT_RUNTIME,
};

#[test]
fn launcher_path_defaults_when_env_absent() {
    let path = launcher_path_from_env(None);
    assert_eq!(path, String::from(DEFAULT_LAUNCHER_PATH));
}

#[test]
fn launcher_path_uses_env_when_present() {
    let path = launcher_path_from_env(Some(String::from("/tmp/custom-launcher")));
    assert_eq!(path, String::from("/tmp/custom-launcher"));
}

#[test]
fn launcher_path_treats_empty_env_as_default() {
    let path = launcher_path_from_env(Some(String::from("")));
    assert_eq!(path, String::from(DEFAULT_LAUNCHER_PATH));
}

#[test]
fn installed_launcher_is_the_default() {
    assert_eq!(auto_detect_launcher_path(), DEFAULT_LAUNCHER_PATH);
    assert_eq!(DEFAULT_LAUNCHER_PATH, "/opt/agent-kit/docker/agent-env/bin/agent-workspace");
    assert_eq!(launcher_path_from_env(Some(String::from(" "))), " ");
}

#[test]
fn exit_code_of_a_process_without_one_is_the_failure_code() {
    assert_eq!(exit_code_or_failure(Some(17)), 17);
    assert_eq!(exit_code_or_failure(Some(0)), 0);
    assert_eq!(exit_code_or_failure(None), EXIT_RUNTIME);
}

#[test]
fn known_subcommands_are_handled_and_others_forwarded() {
    assert_eq!(classify_subcommand("auth"), Subcommand::Auth);
    assert_eq!(classify_subcommand("create"), Subcommand::Create);
    assert_eq!(classify_subcommand("exec"), Subcommand::Exec);
    assert_eq!(classify_subcommand("reset"), Subcommand::Reset);
    assert_eq!(classify_subcommand("rm"), Subcommand::Rm);
    assert_eq!(classify_subcommand("tunnel"), Subcommand::Tunnel);
    for other in ["ls", "", "Auth", "rm ", "start"] {
        assert_eq!(classify_subcommand(other), Subcommand::Forwarded, "name: {other:?}");
    }
}

#[test]
fn reset_targets_are_a_closed_set() {
    assert_eq!(classify_reset_target("repo"), Some(ResetTarget::Repo));
    assert_eq!(classify_reset_target("work-repos"), Some(ResetTarget::WorkRepos));
    assert_eq!(classify_reset_target("opt-repos"), Some(ResetTarget::OptRepos));
    assert_eq!(classify_reset_target("private-repo"), Some(ResetTarget::PrivateRepo));
    assert_eq!(classify_reset_target("repos"), None);
    assert_eq!(classify_reset_target("Repo"), None);
}

#[test]
fn providers_are_named_in_any_case() {
    assert_eq!(parse_provider("github"), Ok(AuthProvider::Github));
    assert_eq!(parse_provider("GitHub"), Ok(AuthProvider::Github));
    assert_eq!(parse_provider("CODEX"), Ok(AuthProvider::Codex));
    assert_eq!(parse_provider("gpg"), Ok(AuthProvider::Gpg));
    assert_eq!(parse_provider("GitLab"), Err(String::from("gitlab")));
    assert_eq!(parse_provider(""), Err(String::new()));
    assert_eq!(lowercase("AbC-\u{c9}9"), "abc-\u{c9}9");
}

#[test]
fn help_is_asked_for_by_either_option() {
    assert!(is_help("-h"));
    assert!(is_help("--help"));
    assert!(!is_help("help"));
    assert!(wants_help(&[String::from("ws"), String::from("--help")]));
    assert!(!wants_help(&[String::from("ws"), String::from("--name")]));
    assert!(!wants_help(&[]));
}

#[test]
fn only_a_plain_yes_confirms() {
    for yes in ["y", "Y", " y\n", "\tY "] {
        assert!(is_confirmation(yes), "answer: {yes:?}");
    }
    for no in ["", "n", "yes", "yy", "Yes", "\n"] {
        assert!(!is_confirmation(no), "answer: {no:?}");
    }
}

#[test]
fn exec_command_runs_a_login_shell_in_the_work_directory_by_default() {
    assert_eq!(
        exec_command(None, true, true, "ws", &[]),
        vec!["exec", "-u", "agent", "-it", "-w", "/work", "ws", "zsh", "-l"]
    );
    assert_eq!(DEFAULT_CONTAINER_USER, "agent");
    assert_eq!(DEFAULT_REF, "origin/main");
}

#[test]
fn exec_command_hands_the_command_on_as_it_stands() {
    let command = vec![String::from("id"), String::from("-u")];
    assert_eq!(
        exec_command(Some("0"), true, false, "ws", &command),
        vec!["exec", "-u", "0", "-i", "ws", "id", "-u"]
    );
    assert_eq!(
        exec_command(Some("me"), false, true, "ws", &command),
        vec!["exec", "-u", "me", "ws", "id", "-u"]
    );
}

#[test]
fn opt_repositories_are_the_two_kits() {
    assert_eq!(opt_repo_dirs(), vec!["/opt/codex-kit", "/opt/zsh-kit"]);
}

#[test]
fn unknown_names_are_reported_with_the_name() {
    assert_eq!(unknown_provider_message("gitlab"), "unknown auth provider: gitlab");
    assert_eq!(unknown_reset_target_message("repos"), "unknown reset subcommand: repos");
}
