//! Which part of the tool a command line is for: the subcommand, the
//! target of a reset, the provider of a credential, and the low-level
//! program that everything else is handed to.

use vstd::prelude::*;
use crate::text::{
    chars_of, opt_str_text, spec_to_ascii_lowercase, spec_trim, str_eq, string_of, texts,
    to_ascii_lowercase, trim,
};

verus! {

/// The exit code of a command that failed at run time.
pub const EXIT_RUNTIME: i32 = 1;

/// Where the low-level program is installed.
pub const DEFAULT_LAUNCHER_PATH: &'static str =
    "/opt/agent-kit/docker/agent-env/bin/agent-workspace";

/// The exit code to report for a process: its own, or the run-time
/// failure code where it ended without one.
pub fn exit_code_or_failure(code: Option<i32>) -> (r: i32)
    ensures
        r == (match code {
            Some(value) => value,
            None => EXIT_RUNTIME,
        }),
{
    match code {
        Some(value) => value,
        None => EXIT_RUNTIME,
    }
}

/// The low-level program where none is configured.
pub fn auto_detect_launcher_path() -> (r: String)
    ensures
        r@ == DEFAULT_LAUNCHER_PATH@,
{
    String::from_str(DEFAULT_LAUNCHER_PATH)
}

/// The low-level program: the configured one unless that is unset or
/// empty, else the installed one.
pub fn launcher_path_from_env(value: Option<String>) -> (r: String)
    ensures
        r@ == (match value {
            Some(path) => if path@.len() > 0 {
                path@
            } else {
                DEFAULT_LAUNCHER_PATH@
            },
            None => DEFAULT_LAUNCHER_PATH@,
        }),
{
    match value {
        Some(path) => {
            if path.as_str().unicode_len() > 0 {
                path
            } else {
                auto_detect_launcher_path()
            }
        },
        None => auto_detect_launcher_path(),
    }
}

/// The subcommands that are handled here; every other one is handed to
/// the low-level program as it stands.
#[derive(Clone, Copy, Debug, PartialEq, Eq, Structural)]
pub enum Subcommand {
    Auth,
    Create,
    Exec,
    Reset,
    Rm,
    Tunnel,
    Forwarded,
}

/// The subcommand that a name stands for; `Forwarded` for every name
/// that is not handled here.
pub open spec fn spec_classify_subcommand(name: Seq<char>) -> Subcommand {
    if name == "auth"@ {
        Subcommand::Auth
    } else if name == "create"@ {
        Subcommand::Create
    } else if name == "exec"@ {
        Subcommand::Exec
    } else if name == "reset"@ {
        Subcommand::Reset
    } else if name == "rm"@ {
        Subcommand::Rm
    } else if name == "tunnel"@ {
        Subcommand::Tunnel
    } else {
        Subcommand::Forwarded
    }
}

/// The subcommand that a name stands for.
pub fn classify_subcommand(name: &str) -> (r: Subcommand)
    ensures
        r == spec_classify_subcommand(name@),
{
    if str_eq(name, "auth") {
        Subcommand::Auth
    } else if str_eq(name, "create") {
        Subcommand::Create
    } else if str_eq(name, "exec") {
        Subcommand::Exec
    } else if str_eq(name, "reset") {
        Subcommand::Reset
    } else if str_eq(name, "rm") {
        Subcommand::Rm
    } else if str_eq(name, "tunnel") {
        Subcommand::Tunnel
    } else {
        Subcommand::Forwarded
    }
}

/// What a reset can be applied to.
#[derive(Clone, Copy, Debug, PartialEq, Eq, Structural)]
pub enum ResetTarget {
    Repo,
    WorkRepos,
    OptRepos,
    PrivateRepo,
}

/// The target that a reset subcommand names.
pub open spec fn spec_classify_reset_target(name: Seq<char>) -> Option<ResetTarget> {
    if name == "repo"@ {
        Some(ResetTarget::Repo)
    } else if name == "work-repos"@ {
        Some(ResetTarget::WorkRepos)
    } else if name == "opt-repos"@ {
        Some(ResetTarget::OptRepos)
    } else if name == "private-repo"@ {
        Some(ResetTarget::PrivateRepo)
    } else {
        None
    }
}

/// The target that a reset subcommand names; `None` for an unknown one.
pub fn classify_reset_target(name: &str) -> (r: Option<ResetTarget>)
    ensures
        r == spec_classify_reset_target(name@),
{
    if str_eq(name, "repo") {
        Some(ResetTarget::Repo)
    } else if str_eq(name, "work-repos") {
        Some(ResetTarget::WorkRepos)
    } else if str_eq(name, "opt-repos") {
        Some(ResetTarget::OptRepos)
    } else if str_eq(name, "private-repo") {
        Some(ResetTarget::PrivateRepo)
    } else {
        None
    }
}

/// Whose credential is to be applied.
#[derive(Clone, Copy, Debug, PartialEq, Eq, Structural)]
pub enum AuthProvider {
    Github,
    Codex,
    Gpg,
}

/// A text with its ASCII upper-case letters in lower case.
pub open spec fn spec_lowercase(s: Seq<char>) -> Seq<char> {
    Seq::new(s.len(), |i: int| spec_to_ascii_lowercase(s[i]))
}

/// A text with its ASCII upper-case letters in lower case.
pub fn lowercase(s: &str) -> (r: String)
    ensures
        r@ == spec_lowercase(s@),
{
    let cs = chars_of(s);
    let mut out: Vec<char> = Vec::new();
    let mut i: usize = 0;
    while i < cs.len()
        invariant
            i <= cs.len(),
            out.len() == i,
            forall|j: int| 0 <= j < i ==> out[j] == spec_to_ascii_lowercase(cs[j]),
        decreases cs.len() - i,
    {
        out.push(to_ascii_lowercase(cs[i]));
        i += 1;
    }
    assert(out@ =~= spec_lowercase(s@));
    string_of(out.as_slice())
}

/// The provider that a name stands for, whatever its case.
pub open spec fn spec_parse_provider(name: Seq<char>) -> Option<AuthProvider> {
    let lower = spec_lowercase(name);
    if lower == "github"@ {
        Some(AuthProvider::Github)
    } else if lower == "codex"@ {
        Some(AuthProvider::Codex)
    } else if lower == "gpg"@ {
        Some(AuthProvider::Gpg)
    } else {
        None
    }
}

/// The provider that a name stands for, whatever its case. An unknown
/// name is an error that carries the name in lower case.
pub fn parse_provider(name: &str) -> (r: Result<AuthProvider, String>)
    ensures
        match r {
            Ok(provider) => spec_parse_provider(name@) == Some(provider),
            Err(unknown) => spec_parse_provider(name@) is None && unknown@ == spec_lowercase(
                name@,
            ),
        },
{
    let lower = lowercase(name);
    if str_eq(lower.as_str(), "github") {
        Ok(AuthProvider::Github)
    } else if str_eq(lower.as_str(), "codex") {
        Ok(AuthProvider::Codex)
    } else if str_eq(lower.as_str(), "gpg") {
        Ok(AuthProvider::Gpg)
    } else {
        Err(lower)
    }
}

/// The text for a provider that is not known.
pub fn unknown_provider_message(name: &str) -> (r: String)
    ensures
        r@ == "unknown auth provider: "@ + name@,
{
    let mut out = String::from_str("unknown auth provider: ");
    out.append(name);
    out
}

/// The text for a reset subcommand that is not known.
pub fn unknown_reset_target_message(name: &str) -> (r: String)
    ensures
        r@ == "unknown reset subcommand: "@ + name@,
{
    let mut out = String::from_str("unknown reset subcommand: ");
    out.append(name);
    out
}

/// Whether an argument asks for help.
pub open spec fn spec_is_help(arg: Seq<char>) -> bool {
    arg == "-h"@ || arg == "--help"@
}

/// Whether an argument asks for help.
pub fn is_help(arg: &str) -> (r: bool)
    ensures
        r == spec_is_help(arg@),
{
    str_eq(arg, "-h") || str_eq(arg, "--help")
}

/// Whether any argument asks for help.
pub fn wants_help(args: &[String]) -> (r: bool)
    ensures
        r == exists|i: int| 0 <= i < args.len() && spec_is_help(#[trigger] args[i]@),
{
    let mut i: usize = 0;
    while i < args.len()
        invariant
            i <= args.len(),
            forall|j: int| 0 <= j < i ==> !spec_is_help(#[trigger] args[j]@),
        decreases args.len() - i,
    {
        if is_help(args[i].as_str()) {
            return true;
        }
        i += 1;
    }
    false
}

/// The user as whom commands run in a workspace unless another is
/// named.
pub const DEFAULT_CONTAINER_USER: &'static str = "agent";

/// The ref to which repositories are reset unless another is named.
pub const DEFAULT_REF: &'static str = "origin/main";

/// Whether an answer to a prompt is a yes: `y` or `Y`, with white space
/// around it or without.
pub open spec fn spec_is_confirmation(answer: Seq<char>) -> bool {
    spec_trim(answer) == "y"@ || spec_trim(answer) == "Y"@
}

/// Whether an answer to a prompt is a yes.
pub fn is_confirmation(answer: &str) -> (r: bool)
    ensures
        r == spec_is_confirmation(answer@),
{
    let cs = chars_of(answer);
    let t = trim(cs.as_slice());
    let lower = chars_of("y");
    let upper = chars_of("Y");
    crate::text::text_eq(t, lower.as_slice()) || crate::text::text_eq(t, upper.as_slice())
}

/// The terminal option of `docker exec`: `-it` where input and output
/// are terminals, `-i` where only the input is one, none else.
pub open spec fn spec_terminal_option(stdin_tty: bool, stdout_tty: bool) -> Seq<Seq<char>> {
    if stdin_tty && stdout_tty {
        seq!["-it"@]
    } else if stdin_tty {
        seq!["-i"@]
    } else {
        Seq::empty()
    }
}

/// The arguments of `docker` that run a command in a workspace: as the
/// named user or the default one; with a login shell in `/work` where
/// no command is given.
pub open spec fn spec_exec_command(
    user: Option<Seq<char>>,
    stdin_tty: bool,
    stdout_tty: bool,
    workspace: Seq<char>,
    command: Seq<Seq<char>>,
) -> Seq<Seq<char>> {
    let who = match user {
        Some(name) => name,
        None => DEFAULT_CONTAINER_USER@,
    };
    let lead = seq!["exec"@, "-u"@, who] + spec_terminal_option(stdin_tty, stdout_tty);
    if command.len() == 0 {
        lead + seq!["-w"@, "/work"@, workspace, "zsh"@, "-l"@]
    } else {
        lead + seq![workspace] + command
    }
}

/// The arguments of `docker` that run a command in a workspace.
pub fn exec_command(
    user: Option<&str>,
    stdin_tty: bool,
    stdout_tty: bool,
    workspace: &str,
    command: &[String],
) -> (r: Vec<String>)
    ensures
        texts(r@) == spec_exec_command(
            opt_str_text(user),
            stdin_tty,
            stdout_tty,
            workspace@,
            texts(command@),
        ),
{
    let mut args: Vec<String> = Vec::new();
    args.push(String::from_str("exec"));
    args.push(String::from_str("-u"));
    match user {
        Some(name) => args.push(String::from_str(name)),
        None => args.push(String::from_str(DEFAULT_CONTAINER_USER)),
    }
    if stdin_tty && stdout_tty {
        args.push(String::from_str("-it"));
    } else if stdin_tty {
        args.push(String::from_str("-i"));
    }
    let ghost who = match user {
        Some(name) => name@,
        None => DEFAULT_CONTAINER_USER@,
    };
    let ghost lead = seq!["exec"@, "-u"@, who] + spec_terminal_option(stdin_tty, stdout_tty);
    assert(texts(args@) =~= lead);
    if command.len() == 0 {
        args.push(String::from_str("-w"));
        args.push(String::from_str("/work"));
        args.push(String::from_str(workspace));
        args.push(String::from_str("zsh"));
        args.push(String::from_str("-l"));
        assert(texts(args@) =~= lead + seq!["-w"@, "/work"@, workspace@, "zsh"@, "-l"@]);
    } else {
        args.push(String::from_str(workspace));
        let mut i: usize = 0;
        assert(texts(args@) =~= lead + seq![workspace@] + texts(command@).take(0));
        while i < command.len()
            invariant
                i <= command.len(),
                texts(args@) == lead + seq![workspace@] + texts(command@).take(i as int),
            decreases command.len() - i,
        {
            let ghost earlier = texts(args@);
            args.push(command[i].clone());
            assert(texts(args@) =~= earlier.push(command[i as int]@));
            assert(texts(command@).take(i + 1) =~= texts(command@).take(i as int).push(
                command[i as int]@,
            ));
            assert(earlier.push(command[i as int]@) =~= lead + seq![workspace@] + texts(
                command@,
            ).take(i + 1));
            i += 1;
        }
        assert(texts(command@).take(command.len() as int) =~= texts(command@));
    }
    args
}

/// The repositories under `/opt` that a workspace carries.
pub fn opt_repo_dirs() -> (r: Vec<String>)
    ensures
        texts(r@) == seq!["/opt/codex-kit"@, "/opt/zsh-kit"@],
{
    let mut dirs: Vec<String> = Vec::new();
    dirs.push(String::from_str("/opt/codex-kit"));
    dirs.push(String::from_str("/opt/zsh-kit"));
    assert(texts(dirs@) =~= seq!["/opt/codex-kit"@, "/opt/zsh-kit"@]);
    dirs
}

} // verus!
