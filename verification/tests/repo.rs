use agent_workspace::repo::parse_repo_spec;

fn parts(input: &str, host: &str) -> Option<(String, String, String, String)> {
    parse_repo_spec(input, host).map(|spec| {
        (
            spec.owner().to_string(),
            spec.repo().to_string(),
            spec.owner_repo().to_string(),
            spec.clone_url().to_string(),
        )
    })
}

fn octo_demo() -> Option<(String, String, String, String)> {
    Some((
        String::from("octo"),
        String::from("demo"),
        String::from("octo/demo"),
        String::from("https://github.com/octo/demo.git"),
    ))
}

#[test]
fn scp_style_reference_gives_https_clone_url() {
    let spec = parse_repo_spec("git@github.com:octo/demo.git", "github.com").expect("parse");
    assert_eq!(spec.owner(), "octo");
    assert_eq!(spec.repo(), "demo");
    assert_eq!(spec.owner_repo(), "octo/demo");
    assert_eq!(spec.clone_url(), "https://github.com/octo/demo.git");
}

#[test]
fn every_form_of_one_repository_parses_alike() {
    for input in [
        "octo/demo",
        "octo/demo.git",
        "  octo/demo  ",
        "http://github.com/octo/demo",
        "https://github.com/octo/demo",
        "https://github.com/octo/demo.git",
        "https://github.com/octo/demo/",
        "git@github.com:octo/demo",
        "git@github.com:octo/demo.git",
        "ssh://git@github.com/octo/demo",
        "ssh://git@github.com/octo/demo.git",
    ] {
        assert_eq!(parts(input, "github.com"), octo_demo(), "input: {input}");
    }
}

#[test]
fn url_host_wins_over_default_host() {
    let spec = parse_repo_spec("https://git.example.org/team/tool", "github.com").expect("parse");
    assert_eq!(spec.clone_url(), "https://git.example.org/team/tool.git");
    let spec = parse_repo_spec("team/tool", "git.example.org").expect("parse");
    assert_eq!(spec.clone_url(), "https://git.example.org/team/tool.git");
}

#[test]
fn empty_and_incomplete_references_are_rejected() {
    for input in [
        "",
        "   ",
        "octo",
        "octo/",
        "/demo",
        " / ",
        "https://github.com",
        "https://github.com/",
        "https://github.com/octo",
        "git@github.com",
        "git@github.com:octo",
        "ssh://git@github.com",
        ".git",
    ] {
        assert!(parse_repo_spec(input, "github.com").is_none(), "input: {input:?}");
    }
}

#[test]
fn segments_behind_the_second_are_dropped() {
    assert_eq!(
        parts("org/sub/repo", "github.com"),
        Some((
            String::from("org"),
            String::from("sub"),
            String::from("org/sub"),
            String::from("https://github.com/org/sub.git"),
        ))
    );
}

#[test]
fn trailing_git_suffix_goes_as_often_as_it_stands() {
    let spec = parse_repo_spec("octo/demo.git.git", "github.com").expect("parse");
    assert_eq!(spec.repo(), "demo");
    let spec = parse_repo_spec("octo/demo.git/", "github.com").expect("parse");
    assert_eq!(spec.repo(), "demo.git");
    let spec = parse_repo_spec("octo/demo//", "github.com").expect("parse");
    assert_eq!(spec.repo(), "demo");
}

#[test]
fn owner_and_repo_are_trimmed_and_case_is_kept() {
    let spec = parse_repo_spec(" Octo / Demo ", "github.com").expect("parse");
    assert_eq!(spec.owner(), "Octo");
    assert_eq!(spec.repo(), "Demo");
    assert_eq!(spec.owner_repo(), "Octo/Demo");
}
