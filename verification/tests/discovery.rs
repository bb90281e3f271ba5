use agent_workspace::discovery::{
    count_failures, discovery_depths, outcome_of, repo_dirs, reset_failed_message,
    resets_exit_code, summarize_resets, text_lt, trimmed_lines, DepthRange, InvalidDepth,
    PartialFailure, ResetOutcome,
};
use agent_workspace::dispatch::EXIT_RUNTIME;
use agent_workspace::reset::{reset_to_ref, ResetAction, CommandOutcome, ResetError};

fn names(items: &[&str]) -> Vec<String> {
    items.iter().map(|item| item.to_string()).collect()
}

fn outcome(path: &str, success: bool) -> ResetOutcome {
    ResetOutcome {
        path: path.to_string(),
        success,
        error_detail: if success { None } else { Some(String::from("failed")) },
    }
}

#[test]
fn depth_zero_is_a_caller_error() {
    assert_eq!(discovery_depths(0), Err(InvalidDepth));
    assert_eq!(InvalidDepth.message(), "--depth must be a positive integer");
}

#[test]
fn git_entries_are_looked_for_one_level_below_the_repositories() {
    assert_eq!(discovery_depths(1), Ok(DepthRange { min_depth: 2, max_depth: 2 }));
    assert_eq!(discovery_depths(3), Ok(DepthRange { min_depth: 2, max_depth: 4 }));
    assert_eq!(
        discovery_depths(u32::MAX),
        Ok(DepthRange { min_depth: 2, max_depth: 4294967296 })
    );
}

#[test]
fn lines_are_trimmed_and_blank_ones_dropped() {
    assert_eq!(trimmed_lines(" a \n\n\tb\r\n  \nc"), vec!["a", "b", "c"]);
    assert_eq!(trimmed_lines("a\n"), vec!["a"]);
    assert!(trimmed_lines("").is_empty());
    assert!(trimmed_lines("\n \n").is_empty());
}

#[test]
fn repositories_are_listed_once_and_in_order() {
    let entries = names(&[
        "/work/z/app/.git",
        "/work/a/lib/.git",
        "/work/z/app/.git",
        "/work/a/.git",
        "/work/a/lib-2/.git",
        "/work/B/.git",
    ]);
    assert_eq!(
        repo_dirs(&entries),
        vec!["/work/B", "/work/a", "/work/a/lib", "/work/a/lib-2", "/work/z/app"]
    );
    assert!(repo_dirs(&[]).is_empty());
}

#[test]
fn only_a_trailing_git_entry_is_cut_off() {
    assert_eq!(
        repo_dirs(&names(&["/work/a/.git/", "/work/.git/x", ".git", "/.git"])),
        vec!["", ".git", "/work/.git/x", "/work/a/.git/"]
    );
}

#[test]
fn order_of_texts_agrees_with_the_order_of_strings() {
    let samples = ["", "a", "b", "ab", "a/", "a-", "B", "\u{e9}", "\u{1F600}", "aa", "a\u{0}"];
    for a in samples {
        for b in samples {
            let left: Vec<char> = a.chars().collect();
            let right: Vec<char> = b.chars().collect();
            assert_eq!(text_lt(&left, &right), a < b, "{a:?} < {b:?}");
        }
    }
}

#[test]
fn sorting_agrees_with_the_standard_library() {
    let entries = names(&["q", "", "ab", "a", "b", "a", "A", "\u{e9}", "zz", "z", "ab"]);
    let mut expected = entries.clone();
    expected.sort();
    expected.dedup();
    assert_eq!(repo_dirs(&entries), expected);
}

#[test]
fn failures_are_counted_and_do_not_hide_each_other() {
    let outcomes = vec![outcome("/a", true), outcome("/b", false), outcome("/c", false)];
    assert_eq!(count_failures(&outcomes), 2);
    assert_eq!(summarize_resets(&outcomes), Err(PartialFailure { failed: 2 }));
    assert_eq!(PartialFailure { failed: 2 }.message(), "failed to reset 2 repo(s)");
}

#[test]
fn resets_without_failure_sum_up_to_success() {
    assert_eq!(summarize_resets(&[outcome("/a", true), outcome("/b", true)]), Ok(()));
    assert_eq!(summarize_resets(&[]), Ok(()));
    assert_eq!(count_failures(&[]), 0);
}

#[test]
fn outcome_of_a_reset_carries_the_message_of_its_error() {
    let failed = Err(ResetError::RemoteBranchNotFound);
    let outcome = outcome_of("/work/a", "origin/main", &failed);
    assert_eq!(outcome.path, "/work/a");
    assert!(!outcome.success);
    assert_eq!(outcome.error_detail.as_deref(), Some("remote branch not found: origin/main"));

    let done = reset_to_ref("/work/a", "origin/main", |_: &ResetAction| CommandOutcome {
        success: true,
        output: String::new(),
    });
    let outcome = outcome_of("/work/a", "origin/main", &done);
    assert!(outcome.success);
    assert_eq!(outcome.error_detail, None);
}

#[test]
fn any_failed_reset_gives_the_failure_code() {
    assert_eq!(outcome("/a", true).exit_code(), 0);
    assert_eq!(outcome("/a", false).exit_code(), EXIT_RUNTIME);
    assert_eq!(resets_exit_code(&[outcome("/a", true), outcome("/b", false)]), EXIT_RUNTIME);
    assert_eq!(resets_exit_code(&[outcome("/a", true)]), 0);
    assert_eq!(resets_exit_code(&[]), 0);
    assert_eq!(reset_failed_message("/work/a", "ws"), "failed to reset repo /work/a in ws");
}
