use agent_workspace::names::{
    fallback_name, normalize_workspace_name_for_create, slugify, workspace_name_variants,
    workspace_prefixes,
};

fn defaults() -> Vec<String> {
    vec![String::from("agent-ws"), String::from("codex-ws")]
}

fn slug(text: &str) -> String {
    let chars: Vec<char> = text.chars().collect();
    slugify(&chars).into_iter().collect()
}

#[test]
fn workspace_variants_strip_known_prefixes_in_order() {
    let variants = workspace_name_variants(
        "agent-ws-ws-debug-auth",
        &[String::from("agent-ws"), String::from("codex-ws")],
    );
    assert_eq!(
        variants,
        vec![
            String::from("agent-ws-ws-debug-auth"),
            String::from("ws-debug-auth"),
            String::from("debug-auth"),
        ]
    );
}

#[test]
fn create_name_normalization_keeps_plain_names() {
    assert_eq!(
        normalize_workspace_name_for_create("debug-auth", &defaults(), 0),
        String::from("debug-auth")
    );
}

#[test]
fn create_name_normalization_strips_every_prefix() {
    assert_eq!(
        normalize_workspace_name_for_create("agent-ws-ws-debug-auth", &defaults(), 0),
        String::from("debug-auth")
    );
}

#[test]
fn variants_of_blank_name_are_empty() {
    assert!(workspace_name_variants("   ", &defaults()).is_empty());
    assert!(workspace_name_variants("", &defaults()).is_empty());
}

#[test]
fn variants_trim_the_name_and_each_rest() {
    assert_eq!(
        workspace_name_variants("  codex-ws- demo ", &defaults()),
        vec![String::from("codex-ws- demo"), String::from("demo")]
    );
}

#[test]
fn prefix_with_nothing_behind_it_is_kept() {
    assert_eq!(
        workspace_name_variants("agent-ws-", &defaults()),
        vec![String::from("agent-ws-")]
    );
    assert_eq!(workspace_name_variants("ws-", &defaults()), vec![String::from("ws-")]);
}

#[test]
fn first_matching_prefix_is_stripped() {
    let prefixes = vec![String::from("a"), String::from("a-b")];
    assert_eq!(
        workspace_name_variants("a-b-c", &prefixes),
        vec![String::from("a-b-c"), String::from("b-c")]
    );
}

#[test]
fn variants_never_repeat() {
    let prefixes = vec![String::from(""), String::from("x")];
    let variants = workspace_name_variants("--x-ws-ws-x-y", &prefixes);
    for (i, a) in variants.iter().enumerate() {
        for b in variants.iter().skip(i + 1) {
            assert_ne!(a, b);
            assert!(b.len() < a.len());
        }
    }
    assert_eq!(variants.last().map(String::as_str), Some("y"));
}

#[test]
fn slug_keeps_lowers_and_collapses() {
    assert_eq!(slug("Debug_Auth-2"), "debug_auth-2");
    assert_eq!(slug("my project"), "my-project");
    assert_eq!(slug("a / . : b"), "a-b");
    assert_eq!(slug("a.b:c/d"), "a-b-c-d");
    assert_eq!(slug("caf\u{e9}!"), "caf");
    assert_eq!(slug("a.@.b"), "a--b");
    assert_eq!(slug(""), "");
}

#[test]
fn normalization_makes_a_slug_of_the_stripped_name() {
    assert_eq!(
        normalize_workspace_name_for_create("ws-My Project.v2", &defaults(), 7),
        String::from("my-project-v2")
    );
}

#[test]
fn empty_slug_gets_the_fallback_name() {
    assert_eq!(
        normalize_workspace_name_for_create("", &defaults(), 1700000000),
        String::from("ws-1700000000")
    );
    assert_eq!(
        normalize_workspace_name_for_create(" !!! ", &defaults(), 42),
        String::from("ws-42")
    );
    assert_eq!(fallback_name(0), "ws-0");
    assert_eq!(fallback_name(9), "ws-9");
    assert_eq!(fallback_name(10), "ws-10");
    assert_eq!(fallback_name(u64::MAX), "ws-18446744073709551615");
}

#[test]
fn normalization_is_idempotent_on_plain_names() {
    for name in ["debug-auth", "agent-ws-ws-debug-auth", "codex-ws-My Repo", "  ws-a_b  "] {
        let once = normalize_workspace_name_for_create(name, &defaults(), 5);
        let twice = normalize_workspace_name_for_create(&once, &defaults(), 5);
        assert_eq!(once, twice);
    }
}

#[test]
fn normalization_strips_again_where_the_slug_brings_a_prefix_about() {
    let once = normalize_workspace_name_for_create("Agent-WS-demo", &defaults(), 5);
    assert_eq!(once, "agent-ws-demo");
    assert_eq!(normalize_workspace_name_for_create(&once, &defaults(), 5), "demo");
}

#[test]
fn known_prefixes_are_overrides_then_defaults_each_once() {
    assert_eq!(workspace_prefixes(None, None), vec!["agent-ws", "codex-ws"]);
    assert_eq!(
        workspace_prefixes(Some(" team "), Some("codex-ws")),
        vec!["team", "codex-ws", "agent-ws"]
    );
    assert_eq!(workspace_prefixes(Some("x"), Some("x")), vec!["x", "agent-ws", "codex-ws"]);
    assert_eq!(workspace_prefixes(Some("  "), Some("")), vec!["agent-ws", "codex-ws"]);
    assert_eq!(workspace_prefixes(None, Some("agent-ws")), vec!["agent-ws", "codex-ws"]);
}

#[test]
fn normalization_strips_the_fallback_name_again() {
    let once = normalize_workspace_name_for_create("", &defaults(), 5);
    assert_eq!(once, "ws-5");
    assert_eq!(normalize_workspace_name_for_create(&once, &defaults(), 5), "5");
}
