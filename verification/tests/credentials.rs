use agent_workspace::credentials::{
    github_auth_notice, auth_mode_setting, codex_fallback_files, codex_secret_dirs, configured_gpg_key,
    decide_github_token, env_token, github_host, parse_auth_mode, profile_is_safe,
    required_token, resolve_codex_auth_file, resolve_codex_profile,
    resolve_codex_profile_auth_files, resolve_github_token, resolve_gpg_key, AuthError, AuthMode,
    CodexError, CredentialSource, MissingGpgKey,
};

#[test]
fn keyring_mode_falls_back_to_the_environment_with_a_warning() {
    let mode = auth_mode_setting(Some("gh"), None);
    let decision = resolve_github_token(&mode, None, Some("abc"), None).ok().expect("decision");
    assert_eq!(decision.material.as_deref(), Some("abc"));
    assert_eq!(decision.source, CredentialSource::Env);
    assert!(decision.keyring_fallback);
    assert_eq!(
        decision.warning(&mode).as_deref(),
        Some(
            "AGENT_WORKSPACE_AUTH=gh but no gh keyring token found; falling back to GH_TOKEN/GITHUB_TOKEN"
        )
    );
}

#[test]
fn sources_are_shown_under_their_labels() {
    assert_eq!(CredentialSource::Env.label(), "env");
    assert_eq!(CredentialSource::Keyring.label(), "gh");
    assert_eq!(CredentialSource::Nothing.label(), "none");
    assert_eq!(
        github_auth_notice("agent-ws-demo", "github.com", CredentialSource::Keyring),
        "auth: github -> agent-ws-demo (github.com; source=gh)"
    );
    let decision = resolve_github_token("auto", None, Some("abc"), None).ok().expect("decision");
    assert_eq!(decision.warning("auto"), None);
}

#[test]
fn keyring_token_is_preferred_where_the_keyring_is_asked() {
    for mode in ["gh", "keyring", "auto", ""] {
        let decision = resolve_github_token(mode, Some(" ghp_key \n"), Some("abc"), Some("def"))
            .ok()
            .expect("decision");
        assert_eq!(decision.material.as_deref(), Some("ghp_key"), "mode: {mode}");
        assert_eq!(decision.source, CredentialSource::Keyring);
        assert!(!decision.keyring_fallback);
    }
}

#[test]
fn auto_mode_falls_back_without_a_warning() {
    let decision = resolve_github_token("auto", None, None, Some("def")).ok().expect("decision");
    assert_eq!(decision.material.as_deref(), Some("def"));
    assert_eq!(decision.source, CredentialSource::Env);
    assert!(!decision.keyring_fallback);
    let decision = resolve_github_token("auto", Some("  "), None, None).ok().expect("decision");
    assert_eq!(decision.material, None);
    assert_eq!(decision.source, CredentialSource::Env);
}

#[test]
fn env_mode_ignores_the_keyring() {
    let decision =
        resolve_github_token("env", Some("ghp_key"), Some("abc"), Some("def")).ok().expect("ok");
    assert_eq!(decision.material.as_deref(), Some("abc"));
    assert_eq!(decision.source, CredentialSource::Env);
    assert!(!decision.keyring_fallback);
}

#[test]
fn none_mode_gives_no_token_and_an_error_where_one_is_required() {
    let decision =
        resolve_github_token("none", Some("ghp_key"), Some("abc"), None).ok().expect("ok");
    assert_eq!(decision.material, None);
    assert_eq!(decision.source, CredentialSource::Nothing);
    match required_token(decision) {
        Err(AuthError::TokenDisabled) => {}
        _ => panic!("expected TokenDisabled"),
    }
    assert_eq!(
        AuthError::TokenDisabled.message(),
        "AGENT_WORKSPACE_AUTH=none; no token to apply"
    );
}

#[test]
fn missing_token_is_an_error_where_one_is_required() {
    let decision = resolve_github_token("gh", None, None, Some(" ")).ok().expect("ok");
    assert!(decision.keyring_fallback);
    match required_token(decision) {
        Err(AuthError::NoToken) => {}
        _ => panic!("expected NoToken"),
    }
    let decision = decide_github_token(AuthMode::Env, None, Some(String::from("t")));
    assert_eq!(required_token(decision).ok(), Some(String::from("t")));
    assert_eq!(
        AuthError::NoToken.message(),
        "no GitHub token found (gh keyring or GH_TOKEN/GITHUB_TOKEN)"
    );
}

#[test]
fn unknown_mode_is_an_error_that_lists_the_valid_ones() {
    match resolve_github_token("token", None, Some("abc"), None) {
        Err(e) => assert_eq!(
            e.message(),
            "unknown AGENT_WORKSPACE_AUTH=token (expected: auto|gh|env|none)"
        ),
        Ok(_) => panic!("expected an error"),
    }
    assert!(parse_auth_mode("GH").is_err());
    assert!(parse_auth_mode(" env").is_err());
    assert_eq!(parse_auth_mode("").ok(), Some(AuthMode::Auto));
    assert_eq!(parse_auth_mode("auto").ok(), Some(AuthMode::Auto));
    assert_eq!(parse_auth_mode("gh").ok(), Some(AuthMode::Keyring));
    assert_eq!(parse_auth_mode("keyring").ok(), Some(AuthMode::Keyring));
    assert_eq!(parse_auth_mode("env").ok(), Some(AuthMode::Env));
    assert_eq!(parse_auth_mode("none").ok(), Some(AuthMode::Disabled));
}

#[test]
fn first_mode_variable_that_is_not_blank_wins() {
    assert_eq!(auth_mode_setting(Some("env"), Some("gh")), "env");
    assert_eq!(auth_mode_setting(Some("  "), Some("gh")), "gh");
    assert_eq!(auth_mode_setting(None, Some("gh")), "gh");
    assert_eq!(auth_mode_setting(None, Some("")), "");
    assert_eq!(auth_mode_setting(None, None), "auto");
}

#[test]
fn first_token_variable_that_is_not_blank_wins() {
    assert_eq!(env_token(Some("a"), Some("b")), Some(String::from("a")));
    assert_eq!(env_token(Some(" "), Some("b")), Some(String::from("b")));
    assert_eq!(env_token(None, Some(" b ")), Some(String::from(" b ")));
    assert_eq!(env_token(Some(""), None), None);
    assert_eq!(env_token(None, None), None);
}

#[test]
fn github_host_comes_from_flag_then_environment() {
    assert_eq!(github_host(Some(" ghe.example "), Some("other")), "ghe.example");
    assert_eq!(github_host(Some("  "), Some("other")), "other");
    assert_eq!(github_host(None, Some(" ")), "github.com");
    assert_eq!(github_host(None, None), "github.com");
}

#[test]
fn profile_comes_from_flag_then_environment() {
    assert_eq!(
        resolve_codex_profile(Some(" work "), Some("a"), Some("b")).ok(),
        Some(Some(String::from("work")))
    );
    assert_eq!(
        resolve_codex_profile(Some(" "), Some("a"), Some("b")).ok(),
        Some(Some(String::from("a")))
    );
    assert_eq!(
        resolve_codex_profile(None, None, Some("b")).ok(),
        Some(Some(String::from("b")))
    );
    assert_eq!(resolve_codex_profile(None, Some(""), None).ok(), Some(None));
}

#[test]
fn profile_that_could_leave_its_directory_is_rejected() {
    for name in ["a/b", "..", "a..b", "../x", "a b", "a\tb", "/"] {
        assert!(!profile_is_safe(name), "name: {name:?}");
        match resolve_codex_profile(Some(name), None, None) {
            Err(CodexError::InvalidProfile(rejected)) => assert_eq!(rejected, name),
            _ => panic!("expected InvalidProfile for {name:?}"),
        }
    }
    for name in ["work", "a.b", "a-b_c", ".hidden", "", "caf\u{e9}"] {
        assert!(profile_is_safe(name), "name: {name:?}");
    }
    assert_eq!(
        CodexError::InvalidProfile(String::from("a/b")).message(),
        "invalid codex profile name: a/b"
    );
}

#[test]
fn secret_files_are_the_cross_product_of_directories_and_names() {
    assert_eq!(
        resolve_codex_profile_auth_files(" work ", Some("/secrets/"), Some("/home/me")),
        vec![
            "/secrets/work.json",
            "/secrets/work",
            "/home/me/.config/codex_secrets/work.json",
            "/home/me/.config/codex_secrets/work",
            "/home/me/codex_secrets/work.json",
            "/home/me/codex_secrets/work",
            "/home/agent/codex_secrets/work.json",
            "/home/agent/codex_secrets/work",
            "/home/codex/codex_secrets/work.json",
            "/home/codex/codex_secrets/work",
            "/opt/zsh-kit/scripts/_features/codex/secrets/work.json",
            "/opt/zsh-kit/scripts/_features/codex/secrets/work",
        ]
    );
}

#[test]
fn secret_files_are_listed_once_and_blank_settings_are_skipped() {
    assert_eq!(
        resolve_codex_profile_auth_files("work", Some("/home/agent/codex_secrets"), Some(" ")),
        vec![
            "/home/agent/codex_secrets/work.json",
            "/home/agent/codex_secrets/work",
            "/home/codex/codex_secrets/work.json",
            "/home/codex/codex_secrets/work",
            "/opt/zsh-kit/scripts/_features/codex/secrets/work.json",
            "/opt/zsh-kit/scripts/_features/codex/secrets/work",
        ]
    );
    assert!(resolve_codex_profile_auth_files("  ", Some("/secrets"), None).is_empty());
    assert_eq!(codex_secret_dirs(Some("//"), None).len(), 4);
    assert_eq!(resolve_codex_profile_auth_files("work", Some("//"), None).len(), 6);
}

#[test]
fn generic_credential_file_comes_last_and_only_once() {
    assert_eq!(resolve_codex_auth_file(Some("/x/auth.json"), Some("/home/me")), "/x/auth.json");
    assert_eq!(resolve_codex_auth_file(Some(" "), Some("/home/me")), "/home/me/.codex/auth.json");
    assert_eq!(resolve_codex_auth_file(None, None), "/root/.codex/auth.json");
    let files = codex_fallback_files("work", None, None, Some("/x/auth.json"));
    assert_eq!(files.len(), 7);
    assert_eq!(files.last().map(String::as_str), Some("/x/auth.json"));
    let files =
        codex_fallback_files("work", None, None, Some("/home/agent/codex_secrets/work.json"));
    assert_eq!(files.len(), 6);
    assert_eq!(files[0], "/home/agent/codex_secrets/work.json");
}

#[test]
fn gpg_key_comes_from_the_first_source_that_names_one() {
    assert_eq!(resolve_gpg_key(Some(" K1 "), Some("K2"), Some("K3"), Some("K4")).ok().unwrap(), "K1");
    assert_eq!(resolve_gpg_key(Some(" "), Some("K2"), Some("K3"), Some("K4")).ok().unwrap(), "K2");
    assert_eq!(resolve_gpg_key(None, None, Some("K3"), Some("K4")).ok().unwrap(), "K3");
    assert_eq!(resolve_gpg_key(None, Some(""), None, Some("K4\n")).ok().unwrap(), "K4");
    assert_eq!(configured_gpg_key(None, Some(""), None), None);
    assert_eq!(configured_gpg_key(None, Some("K2"), None), Some(String::from("K2")));
}

#[test]
fn missing_gpg_key_is_an_error() {
    assert_eq!(resolve_gpg_key(None, None, None, None).err(), Some(MissingGpgKey));
    assert_eq!(resolve_gpg_key(Some(" "), Some(""), None, Some("\n")).err(), Some(MissingGpgKey));
}
