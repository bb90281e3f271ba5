use std::cell::RefCell;

use agent_workspace::lookup::{
    first_accepted, needs_workspace_list, resolution_candidates, resolve, resolve_container_for_auth,
    resolve_workspace_container_name_str, ResolveError,
};

fn defaults() -> Vec<String> {
    vec![String::from("agent-ws"), String::from("codex-ws")]
}

#[test]
fn candidates_are_raw_then_variants_then_prefixed_forms() {
    assert_eq!(
        resolution_candidates("demo", &defaults()),
        vec!["demo", "agent-ws-demo", "codex-ws-demo"]
    );
    assert_eq!(
        resolution_candidates(" agent-ws-demo", &defaults()),
        vec![
            " agent-ws-demo",
            "agent-ws-demo",
            "demo",
            "agent-ws- agent-ws-demo",
            "codex-ws- agent-ws-demo",
            "codex-ws-agent-ws-demo",
            "codex-ws-demo",
        ]
    );
}

#[test]
fn candidates_hold_each_name_once() {
    let prefixes = vec![String::from("p"), String::from("p")];
    assert_eq!(resolution_candidates("x", &prefixes), vec!["x", "p-x"]);
}

#[test]
fn bare_name_is_found_in_a_store_of_bare_names() {
    let found = resolve("demo", &defaults(), |name: &str| name == "demo").expect("found");
    assert_eq!(found.location, "demo");
    assert_eq!(found.canonical_name, "demo");
}

#[test]
fn bare_name_is_found_in_a_store_of_prefixed_names() {
    for prefix in ["agent-ws", "codex-ws"] {
        let stored = format!("{prefix}-demo");
        let found = resolve("demo", &defaults(), |name: &str| name == stored).expect("found");
        assert_eq!(found.location, stored);
        assert_eq!(found.canonical_name, "demo");
    }
}

#[test]
fn prefixed_name_is_found_in_a_store_of_bare_names() {
    let found =
        resolve("agent-ws-ws-demo", &defaults(), |name: &str| name == "demo").expect("found");
    assert_eq!(found.location, "demo");
    assert_eq!(found.canonical_name, "demo");
}

#[test]
fn first_existing_candidate_wins() {
    let found = resolve("demo", &defaults(), |name: &str| name.ends_with("demo")).expect("found");
    assert_eq!(found.location, "demo");
    let found = resolve("demo", &defaults(), |name: &str| name.contains("-ws-")).expect("found");
    assert_eq!(found.location, "agent-ws-demo");
}

#[test]
fn nothing_is_found_in_an_empty_store() {
    assert!(resolve("demo", &defaults(), |_: &str| false).is_none());
    assert_eq!(resolve_workspace_container_name_str("demo", &defaults(), |_: &str| false), None);
}

#[test]
fn container_name_is_the_first_that_exists() {
    assert_eq!(
        resolve_workspace_container_name_str("demo", &defaults(), |name: &str| name
            == "codex-ws-demo"),
        Some(String::from("codex-ws-demo"))
    );
    assert_eq!(
        resolve_workspace_container_name_str("ws-demo", &defaults(), |name: &str| name == "demo"),
        Some(String::from("demo"))
    );
}

#[test]
fn auth_container_is_the_named_workspace() {
    let chosen = resolve_container_for_auth(
        Some(" demo "),
        &defaults(),
        |name: &str| name == "agent-ws-demo",
        &[],
    );
    assert_eq!(chosen.ok(), Some(String::from("agent-ws-demo")));
}

#[test]
fn auth_container_that_is_missing_is_an_error() {
    let chosen = resolve_container_for_auth(Some("demo"), &defaults(), |_: &str| false, &[]);
    match chosen {
        Err(ResolveError::NotFound(name)) => assert_eq!(name, "demo"),
        _ => panic!("expected NotFound"),
    }
    assert_eq!(
        ResolveError::NotFound(String::from("demo")).message(),
        "workspace container not found: demo"
    );
}

#[test]
fn auth_container_defaults_to_the_only_workspace() {
    let one = vec![String::from("agent-ws-a")];
    let two = vec![String::from("agent-ws-a"), String::from("agent-ws-b")];
    assert_eq!(
        resolve_container_for_auth(None, &defaults(), |_: &str| false, &one).ok(),
        Some(String::from("agent-ws-a"))
    );
    assert_eq!(
        resolve_container_for_auth(Some("  "), &defaults(), |_: &str| true, &one).ok(),
        Some(String::from("agent-ws-a"))
    );
    match resolve_container_for_auth(None, &defaults(), |_: &str| false, &[]) {
        Err(e) => assert_eq!(e.message(), "no workspaces found"),
        Ok(_) => panic!("expected an error"),
    }
    match resolve_container_for_auth(None, &defaults(), |_: &str| false, &two) {
        Err(e) => assert_eq!(
            e.message(),
            "multiple workspaces found; specify one: agent-ws-a, agent-ws-b"
        ),
        Ok(_) => panic!("expected an error"),
    }
}

#[test]
fn first_accepted_candidate_is_chosen_and_later_ones_are_not_probed() {
    let files = vec![String::from("/a"), String::from("/b"), String::from("/c")];
    let probed = RefCell::new(Vec::new());
    let chosen = first_accepted(&files, |name: &str| {
        probed.borrow_mut().push(name.to_string());
        name == "/b"
    });
    assert_eq!(chosen, Some(String::from("/b")));
    assert_eq!(*probed.borrow(), vec!["/a", "/b"]);
    assert_eq!(first_accepted(&files, |_: &str| false), None);
    assert_eq!(first_accepted(&Vec::new(), |_: &str| true), None);
}

#[test]
fn container_name_is_only_returned_where_the_probe_said_it_exists() {
    for stored in ["demo", "agent-ws-demo", "codex-ws-demo", "other"] {
        let probed = RefCell::new(Vec::new());
        let found = resolve_workspace_container_name_str("demo", &defaults(), |name: &str| {
            probed.borrow_mut().push(name.to_string());
            name == stored
        });
        match found {
            Some(name) => {
                assert_eq!(name, stored);
                assert_eq!(probed.borrow().last(), Some(&name));
            }
            None => {
                assert_eq!(stored, "other");
                assert_eq!(*probed.borrow(), vec!["demo", "agent-ws-demo", "codex-ws-demo"]);
            }
        }
    }
}

#[test]
fn workspaces_are_listed_only_where_none_is_named() {
    assert!(needs_workspace_list(None));
    assert!(needs_workspace_list(Some("  ")));
    assert!(!needs_workspace_list(Some(" demo ")));
}
