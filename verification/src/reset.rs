//! Resetting a working tree to a ref of its remote.
//!
//! The reset is a machine of phases. In every phase but the last it
//! names one command; the caller runs it and hands back whether it
//! succeeded and what it printed, and the machine moves on. Fetching and
//! checking out are each tried twice at most, and a remote branch that
//! is missing is replaced by the remote's default branch or by `master`.

use vstd::prelude::*;
use crate::text::{
    chars_of, spec_split_once, spec_trimmed_nonempty, split_once, string_of, texts,
    trimmed_nonempty,
};

verus! {

/// Why a reset did not go through.
#[derive(Clone, Copy, Debug, PartialEq, Eq, Structural)]
pub enum ResetError {
    /// The directory has no `.git` entry.
    NotARepo,
    /// The ref is not of the form `remote/branch`.
    InvalidRef,
    /// Fetching failed twice.
    FetchFailed,
    /// Neither the branch asked for, nor the remote's default branch,
    /// nor its `master` exists.
    RemoteBranchNotFound,
    /// Checking out failed, also after untracked files were removed.
    CheckoutFailed,
    /// The hard reset failed.
    ResetFailed,
    /// Removing untracked files after the reset failed.
    CleanFailed,
}

/// The message for a reset that failed, with the directory and the ref
/// that it was for.
pub open spec fn spec_reset_error_message(e: ResetError, repo_dir: Seq<char>, refspec: Seq<char>)
    -> Seq<char> {
    match e {
        ResetError::NotARepo => "not a git repo: "@ + repo_dir,
        ResetError::InvalidRef => "invalid ref (expected remote/branch): "@ + refspec,
        ResetError::FetchFailed => "fetch failed for "@ + refspec + " in "@ + repo_dir,
        ResetError::RemoteBranchNotFound => "remote branch not found: "@ + refspec,
        ResetError::CheckoutFailed => "checkout failed for "@ + refspec + " in "@ + repo_dir,
        ResetError::ResetFailed => "reset failed for "@ + refspec + " in "@ + repo_dir,
        ResetError::CleanFailed => "clean failed in "@ + repo_dir,
    }
}

/// The message for a reset that failed.
pub fn reset_error_message(e: ResetError, repo_dir: &str, refspec: &str) -> (r: String)
    ensures
        r@ == spec_reset_error_message(e, repo_dir@, refspec@),
{
    match e {
        ResetError::NotARepo => {
            let mut out = String::from_str("not a git repo: ");
            out.append(repo_dir);
            out
        },
        ResetError::InvalidRef => {
            let mut out = String::from_str("invalid ref (expected remote/branch): ");
            out.append(refspec);
            out
        },
        ResetError::FetchFailed => {
            let mut out = String::from_str("fetch failed for ");
            out.append(refspec);
            out.append(" in ");
            out.append(repo_dir);
            out
        },
        ResetError::RemoteBranchNotFound => {
            let mut out = String::from_str("remote branch not found: ");
            out.append(refspec);
            out
        },
        ResetError::CheckoutFailed => {
            let mut out = String::from_str("checkout failed for ");
            out.append(refspec);
            out.append(" in ");
            out.append(repo_dir);
            out
        },
        ResetError::ResetFailed => {
            let mut out = String::from_str("reset failed for ");
            out.append(refspec);
            out.append(" in ");
            out.append(repo_dir);
            out
        },
        ResetError::CleanFailed => {
            let mut out = String::from_str("clean failed in ");
            out.append(repo_dir);
            out
        },
    }
}

/// Which ref stands for the one that was asked for.
#[derive(Clone, Copy, Debug, PartialEq, Eq, Structural)]
pub enum Fallback {
    /// The ref asked for exists: nothing was substituted.
    Requested,
    /// The default branch of the remote was taken.
    DefaultBranch,
    /// The remote's `master` was taken.
    Master,
}

/// Where a reset stands.
#[derive(Clone, Copy, Debug, PartialEq, Eq, Structural)]
pub enum Phase {
    ProbeRepo,
    Fetch,
    FetchRetry,
    CheckRequested,
    ReadDefault,
    CheckDefault,
    CheckMaster,
    CheckLocal,
    Checkout,
    CleanBeforeRetry,
    CheckoutRetry,
    HardReset,
    Clean,
    Done,
    Failed(ResetError),
}

/// A reset in progress.
pub struct ResetRun {
    repo_dir: String,
    remote: String,
    branch: String,
    ref_valid: bool,
    phase: Phase,
    resolved: String,
    default_ref: String,
    fallback: Fallback,
    local_exists: bool,
}

pub ghost struct ResetRunView {
    pub repo_dir: Seq<char>,
    pub remote: Seq<char>,
    pub branch: Seq<char>,
    pub ref_valid: bool,
    pub phase: Phase,
    pub resolved: Seq<char>,
    pub default_ref: Seq<char>,
    pub fallback: Fallback,
    pub local_exists: bool,
}

impl View for ResetRun {
    type V = ResetRunView;

    closed spec fn view(&self) -> ResetRunView {
        ResetRunView {
            repo_dir: self.repo_dir@,
            remote: self.remote@,
            branch: self.branch@,
            ref_valid: self.ref_valid,
            phase: self.phase,
            resolved: self.resolved@,
            default_ref: self.default_ref@,
            fallback: self.fallback,
            local_exists: self.local_exists,
        }
    }
}

/// What a reset that went through did.
pub struct ResetReport {
    pub repo_dir: String,
    pub requested: String,
    pub resolved: String,
    pub fallback: Fallback,
}

pub ghost struct ResetReportView {
    pub repo_dir: Seq<char>,
    pub requested: Seq<char>,
    pub resolved: Seq<char>,
    pub fallback: Fallback,
}

impl View for ResetReport {
    type V = ResetReportView;

    open spec fn view(&self) -> ResetReportView {
        ResetReportView {
            repo_dir: self.repo_dir@,
            requested: self.requested@,
            resolved: self.resolved@,
            fallback: self.fallback,
        }
    }
}

impl ResetReportView {
    /// The warning that names the substituted ref; none where the ref
    /// asked for was used.
    pub open spec fn warning(self) -> Option<Seq<char>> {
        match self.fallback {
            Fallback::Requested => None,
            Fallback::DefaultBranch => Some(
                self.requested + " not found; using "@ + self.resolved
                    + " (from the remote's HEAD)"@,
            ),
            Fallback::Master => Some(self.requested + " not found; using "@ + self.resolved),
        }
    }
}

impl ResetReport {
    /// The warning to show, if any.
    pub fn warning(&self) -> (r: Option<String>)
        ensures
            crate::text::opt_text(r) == self@.warning(),
    {
        match self.fallback {
            Fallback::Requested => None,
            Fallback::DefaultBranch => {
                let mut out = self.requested.clone();
                out.append(" not found; using ");
                out.append(self.resolved.as_str());
                out.append(" (from the remote's HEAD)");
                Some(out)
            },
            Fallback::Master => {
                let mut out = self.requested.clone();
                out.append(" not found; using ");
                out.append(self.resolved.as_str());
                Some(out)
            },
        }
    }
}

/// What the caller is to do next.
pub enum ResetAction {
    /// Find out whether the directory has a `.git` entry.
    ProbeGitEntry { repo_dir: String },
    /// Run git in the directory with these arguments; `quiet` says that
    /// its output is to be suppressed.
    Git { args: Vec<String>, quiet: bool },
    /// The reset went through.
    Done(ResetReport),
    /// The reset failed.
    Failed(ResetError),
}

pub ghost enum ResetActionView {
    ProbeGitEntry { repo_dir: Seq<char> },
    Git { args: Seq<Seq<char>>, quiet: bool },
    Done(ResetReportView),
    Failed(ResetError),
}

impl View for ResetAction {
    type V = ResetActionView;

    open spec fn view(&self) -> ResetActionView {
        match self {
            ResetAction::ProbeGitEntry { repo_dir } => ResetActionView::ProbeGitEntry {
                repo_dir: repo_dir@,
            },
            ResetAction::Git { args, quiet } => ResetActionView::Git {
                args: texts(args@),
                quiet: *quiet,
            },
            ResetAction::Done(report) => ResetActionView::Done(report@),
            ResetAction::Failed(e) => ResetActionView::Failed(*e),
        }
    }
}

/// Remote and branch of a ref: what stands before and after its first
/// slash, where both are non-empty.
pub open spec fn spec_parse_refspec(refspec: Seq<char>) -> Option<(Seq<char>, Seq<char>)> {
    match spec_split_once(refspec, '/') {
        Some((remote, branch)) => if remote.len() > 0 && branch.len() > 0 {
            Some((remote, branch))
        } else {
            None
        },
        None => None,
    }
}

/// Splits `remote/branch` at its first slash. `None` where there is no
/// slash or nothing on one side of it.
pub fn parse_refspec(refspec: &str) -> (r: Option<(String, String)>)
    ensures
        match r {
            Some((remote, branch)) => spec_parse_refspec(refspec@) == Some((remote@, branch@)),
            None => spec_parse_refspec(refspec@) is None,
        },
{
    let cs = chars_of(refspec);
    match split_once(cs.as_slice(), '/') {
        Some((remote, branch)) => {
            if remote.len() > 0 && branch.len() > 0 {
                Some((string_of(remote), string_of(branch)))
            } else {
                None
            }
        },
        None => None,
    }
}

/// The local branch for a remote ref: what follows its first slash, or
/// the whole ref where it has none.
pub open spec fn spec_target_branch(resolved: Seq<char>) -> Seq<char> {
    match spec_split_once(resolved, '/') {
        Some((_, branch)) => branch,
        None => resolved,
    }
}

fn target_branch(resolved: &str) -> (r: String)
    ensures
        r@ == spec_target_branch(resolved@),
{
    let cs = chars_of(resolved);
    match split_once(cs.as_slice(), '/') {
        Some((_, branch)) => string_of(branch),
        None => String::from_str(resolved),
    }
}

/// The state in which a reset starts.
pub open spec fn spec_begin(repo_dir: Seq<char>, refspec: Seq<char>) -> ResetRunView {
    let (remote, branch) = match spec_parse_refspec(refspec) {
        Some(parts) => parts,
        None => (Seq::empty(), Seq::empty()),
    };
    ResetRunView {
        repo_dir,
        remote,
        branch,
        ref_valid: spec_parse_refspec(refspec) is Some,
        phase: Phase::ProbeRepo,
        resolved: refspec,
        default_ref: Seq::empty(),
        fallback: Fallback::Requested,
        local_exists: false,
    }
}

/// The arguments of `git show-ref` that ask whether a ref exists.
pub open spec fn spec_show_ref(kind: Seq<char>, name: Seq<char>) -> Seq<Seq<char>> {
    seq!["show-ref"@, "--verify"@, "--quiet"@, "refs/"@ + kind + "/"@ + name]
}

/// The arguments that check the local branch out: by name where it
/// exists, created from the remote ref where it does not.
pub open spec fn spec_checkout_args(s: ResetRunView) -> Seq<Seq<char>> {
    if s.local_exists {
        seq!["checkout"@, "--force"@, spec_target_branch(s.resolved)]
    } else {
        seq!["checkout"@, "--force"@, "-B"@, spec_target_branch(s.resolved), s.resolved]
    }
}

/// What a state asks the caller to do.
pub open spec fn spec_action(s: ResetRunView) -> ResetActionView {
    match s.phase {
        Phase::ProbeRepo => ResetActionView::ProbeGitEntry { repo_dir: s.repo_dir },
        Phase::Fetch => ResetActionView::Git {
            args: seq!["fetch"@, "--prune"@, "--"@, s.remote],
            quiet: true,
        },
        Phase::FetchRetry => ResetActionView::Git {
            args: seq!["fetch"@, "--prune"@, "--"@, s.remote],
            quiet: false,
        },
        Phase::CheckRequested => ResetActionView::Git {
            args: spec_show_ref("remotes"@, s.resolved),
            quiet: true,
        },
        Phase::ReadDefault => ResetActionView::Git {
            args: seq![
                "symbolic-ref"@,
                "-q"@,
                "--short"@,
                "refs/remotes/"@ + s.remote + "/HEAD"@,
            ],
            quiet: true,
        },
        Phase::CheckDefault => ResetActionView::Git {
            args: spec_show_ref("remotes"@, s.default_ref),
            quiet: true,
        },
        Phase::CheckMaster => ResetActionView::Git {
            args: spec_show_ref("remotes"@, s.remote + "/master"@),
            quiet: true,
        },
        Phase::CheckLocal => ResetActionView::Git {
            args: spec_show_ref("heads"@, spec_target_branch(s.resolved)),
            quiet: true,
        },
        Phase::Checkout => ResetActionView::Git { args: spec_checkout_args(s), quiet: true },
        Phase::CleanBeforeRetry => ResetActionView::Git {
            args: seq!["clean"@, "-fd"@],
            quiet: true,
        },
        Phase::CheckoutRetry => ResetActionView::Git { args: spec_checkout_args(s), quiet: false },
        Phase::HardReset => ResetActionView::Git {
            args: seq!["reset"@, "--hard"@, s.resolved],
            quiet: false,
        },
        Phase::Clean => ResetActionView::Git { args: seq!["clean"@, "-fd"@], quiet: false },
        Phase::Done => ResetActionView::Done(
            ResetReportView {
                repo_dir: s.repo_dir,
                requested: s.remote + "/"@ + s.branch,
                resolved: s.resolved,
                fallback: s.fallback,
            },
        ),
        Phase::Failed(e) => ResetActionView::Failed(e),
    }
}

/// The state after the command of a state has been run, with `success`
/// for how it ended and `output` for what it printed.
pub open spec fn spec_advance(s: ResetRunView, success: bool, output: Seq<char>) -> ResetRunView {
    match s.phase {
        Phase::ProbeRepo => ResetRunView {
            phase: if !success {
                Phase::Failed(ResetError::NotARepo)
            } else if !s.ref_valid {
                Phase::Failed(ResetError::InvalidRef)
            } else {
                Phase::Fetch
            },
            ..s
        },
        Phase::Fetch => ResetRunView {
            phase: if success {
                Phase::CheckRequested
            } else {
                Phase::FetchRetry
            },
            ..s
        },
        Phase::FetchRetry => ResetRunView {
            phase: if success {
                Phase::CheckRequested
            } else {
                Phase::Failed(ResetError::FetchFailed)
            },
            ..s
        },
        Phase::CheckRequested => ResetRunView {
            phase: if success {
                Phase::CheckLocal
            } else {
                Phase::ReadDefault
            },
            ..s
        },
        Phase::ReadDefault => match spec_trimmed_nonempty(output) {
            Some(default_ref) => ResetRunView { phase: Phase::CheckDefault, default_ref, ..s },
            None => ResetRunView { phase: Phase::CheckMaster, ..s },
        },
        Phase::CheckDefault => if success {
            ResetRunView {
                phase: Phase::CheckLocal,
                resolved: s.default_ref,
                fallback: Fallback::DefaultBranch,
                ..s
            }
        } else {
            ResetRunView { phase: Phase::CheckMaster, ..s }
        },
        Phase::CheckMaster => if success {
            ResetRunView {
                phase: Phase::CheckLocal,
                resolved: s.remote + "/master"@,
                fallback: Fallback::Master,
                ..s
            }
        } else {
            ResetRunView { phase: Phase::Failed(ResetError::RemoteBranchNotFound), ..s }
        },
        Phase::CheckLocal => ResetRunView { phase: Phase::Checkout, local_exists: success, ..s },
        Phase::Checkout => ResetRunView {
            phase: if success {
                Phase::HardReset
            } else {
                Phase::CleanBeforeRetry
            },
            ..s
        },
        Phase::CleanBeforeRetry => ResetRunView { phase: Phase::CheckoutRetry, ..s },
        Phase::CheckoutRetry => ResetRunView {
            phase: if success {
                Phase::HardReset
            } else {
                Phase::Failed(ResetError::CheckoutFailed)
            },
            ..s
        },
        Phase::HardReset => ResetRunView {
            phase: if success {
                Phase::Clean
            } else {
                Phase::Failed(ResetError::ResetFailed)
            },
            ..s
        },
        Phase::Clean => ResetRunView {
            phase: if success {
                Phase::Done
            } else {
                Phase::Failed(ResetError::CleanFailed)
            },
            ..s
        },
        Phase::Done => s,
        Phase::Failed(_) => s,
    }
}

fn show_ref(kind: &str, name: &str) -> (r: Vec<String>)
    ensures
        texts(r@) == spec_show_ref(kind@, name@),
{
    let mut full = String::from_str("refs/");
    full.append(kind);
    full.append("/");
    full.append(name);
    let mut args: Vec<String> = Vec::new();
    args.push(String::from_str("show-ref"));
    args.push(String::from_str("--verify"));
    args.push(String::from_str("--quiet"));
    args.push(full);
    assert(texts(args@) =~= spec_show_ref(kind@, name@));
    args
}

impl ResetRun {
    /// Starts a reset of the working tree in `repo_dir` to `refspec`, a
    /// ref of the form `remote/branch`.
    pub fn begin(repo_dir: &str, refspec: &str) -> (r: ResetRun)
        ensures
            r@ == spec_begin(repo_dir@, refspec@),
    {
        let (remote, branch, ref_valid) = match parse_refspec(refspec) {
            Some((remote, branch)) => (remote, branch, true),
            None => (String::new(), String::new(), false),
        };
        ResetRun {
            repo_dir: String::from_str(repo_dir),
            remote,
            branch,
            ref_valid,
            phase: Phase::ProbeRepo,
            resolved: String::from_str(refspec),
            default_ref: String::new(),
            fallback: Fallback::Requested,
            local_exists: false,
        }
    }

    /// Where the reset stands.
    pub fn phase(&self) -> (r: Phase)
        ensures
            r == self@.phase,
    {
        self.phase
    }

    /// Whether the reset has ended, in success or in failure.
    pub fn is_finished(&self) -> (r: bool)
        ensures
            r == (self@.phase is Done || self@.phase is Failed),
    {
        match self.phase {
            Phase::Done => true,
            Phase::Failed(_) => true,
            _ => false,
        }
    }

    fn checkout_args(&self) -> (r: Vec<String>)
        ensures
            texts(r@) == spec_checkout_args(self@),
    {
        let target = target_branch(self.resolved.as_str());
        let mut args: Vec<String> = Vec::new();
        args.push(String::from_str("checkout"));
        args.push(String::from_str("--force"));
        if self.local_exists {
            args.push(target);
        } else {
            args.push(String::from_str("-B"));
            args.push(target);
            args.push(self.resolved.clone());
        }
        assert(texts(args@) =~= spec_checkout_args(self@));
        args
    }

    fn fetch_args(&self) -> (r: Vec<String>)
        ensures
            texts(r@) == seq!["fetch"@, "--prune"@, "--"@, self@.remote],
    {
        let mut args: Vec<String> = Vec::new();
        args.push(String::from_str("fetch"));
        args.push(String::from_str("--prune"));
        args.push(String::from_str("--"));
        args.push(self.remote.clone());
        assert(texts(args@) =~= seq!["fetch"@, "--prune"@, "--"@, self@.remote]);
        args
    }

    fn clean_args() -> (r: Vec<String>)
        ensures
            texts(r@) == seq!["clean"@, "-fd"@],
    {
        let mut args: Vec<String> = Vec::new();
        args.push(String::from_str("clean"));
        args.push(String::from_str("-fd"));
        assert(texts(args@) =~= seq!["clean"@, "-fd"@]);
        args
    }

    /// What is to be done in the state that the reset is in.
    pub fn action(&self) -> (r: ResetAction)
        ensures
            r@ == spec_action(self@),
    {
        match self.phase {
            Phase::ProbeRepo => ResetAction::ProbeGitEntry { repo_dir: self.repo_dir.clone() },
            Phase::Fetch => ResetAction::Git { args: self.fetch_args(), quiet: true },
            Phase::FetchRetry => ResetAction::Git { args: self.fetch_args(), quiet: false },
            Phase::CheckRequested => ResetAction::Git {
                args: show_ref("remotes", self.resolved.as_str()),
                quiet: true,
            },
            Phase::ReadDefault => {
                let mut head = String::from_str("refs/remotes/");
                head.append(self.remote.as_str());
                head.append("/HEAD");
                let mut args: Vec<String> = Vec::new();
                args.push(String::from_str("symbolic-ref"));
                args.push(String::from_str("-q"));
                args.push(String::from_str("--short"));
                args.push(head);
                assert(texts(args@) =~= seq![
                    "symbolic-ref"@,
                    "-q"@,
                    "--short"@,
                    "refs/remotes/"@ + self@.remote + "/HEAD"@,
                ]);
                ResetAction::Git { args, quiet: true }
            },
            Phase::CheckDefault => ResetAction::Git {
                args: show_ref("remotes", self.default_ref.as_str()),
                quiet: true,
            },
            Phase::CheckMaster => {
                let mut master = self.remote.clone();
                master.append("/master");
                ResetAction::Git { args: show_ref("remotes", master.as_str()), quiet: true }
            },
            Phase::CheckLocal => {
                let target = target_branch(self.resolved.as_str());
                ResetAction::Git { args: show_ref("heads", target.as_str()), quiet: true }
            },
            Phase::Checkout => ResetAction::Git { args: self.checkout_args(), quiet: true },
            Phase::CleanBeforeRetry => ResetAction::Git { args: Self::clean_args(), quiet: true },
            Phase::CheckoutRetry => ResetAction::Git { args: self.checkout_args(), quiet: false },
            Phase::HardReset => {
                let mut args: Vec<String> = Vec::new();
                args.push(String::from_str("reset"));
                args.push(String::from_str("--hard"));
                args.push(self.resolved.clone());
                assert(texts(args@) =~= seq!["reset"@, "--hard"@, self@.resolved]);
                ResetAction::Git { args, quiet: false }
            },
            Phase::Clean => ResetAction::Git { args: Self::clean_args(), quiet: false },
            Phase::Done => {
                let mut requested = self.remote.clone();
                requested.append("/");
                requested.append(self.branch.as_str());
                ResetAction::Done(
                    ResetReport {
                        repo_dir: self.repo_dir.clone(),
                        requested,
                        resolved: self.resolved.clone(),
                        fallback: self.fallback,
                    },
                )
            },
            Phase::Failed(e) => ResetAction::Failed(e),
        }
    }

    /// Moves on once the command of the current state has been run.
    /// `success` says how it ended and `output` what it printed. A reset
    /// that has ended stays as it is.
    pub fn advance(self, success: bool, output: &str) -> (next: ResetRun)
        ensures
            next@ == spec_advance(self@, success, output@),
    {
        let mut next = self;
        match next.phase {
            Phase::ProbeRepo => {
                next.phase = if !success {
                    Phase::Failed(ResetError::NotARepo)
                } else if !next.ref_valid {
                    Phase::Failed(ResetError::InvalidRef)
                } else {
                    Phase::Fetch
                };
            },
            Phase::Fetch => {
                next.phase = if success {
                    Phase::CheckRequested
                } else {
                    Phase::FetchRetry
                };
            },
            Phase::FetchRetry => {
                next.phase = if success {
                    Phase::CheckRequested
                } else {
                    Phase::Failed(ResetError::FetchFailed)
                };
            },
            Phase::CheckRequested => {
                next.phase = if success {
                    Phase::CheckLocal
                } else {
                    Phase::ReadDefault
                };
            },
            Phase::ReadDefault => {
                match trimmed_nonempty(output) {
                    Some(default_ref) => {
                        next.default_ref = default_ref;
                        next.phase = Phase::CheckDefault;
                    },
                    None => {
                        next.phase = Phase::CheckMaster;
                    },
                }
            },
            Phase::CheckDefault => {
                if success {
                    next.resolved = next.default_ref.clone();
                    next.fallback = Fallback::DefaultBranch;
                    next.phase = Phase::CheckLocal;
                } else {
                    next.phase = Phase::CheckMaster;
                }
            },
            Phase::CheckMaster => {
                if success {
                    let mut master = next.remote.clone();
                    master.append("/master");
                    next.resolved = master;
                    next.fallback = Fallback::Master;
                    next.phase = Phase::CheckLocal;
                } else {
                    next.phase = Phase::Failed(ResetError::RemoteBranchNotFound);
                }
            },
            Phase::CheckLocal => {
                next.local_exists = success;
                next.phase = Phase::Checkout;
            },
            Phase::Checkout => {
                next.phase = if success {
                    Phase::HardReset
                } else {
                    Phase::CleanBeforeRetry
                };
            },
            Phase::CleanBeforeRetry => {
                next.phase = Phase::CheckoutRetry;
            },
            Phase::CheckoutRetry => {
                next.phase = if success {
                    Phase::HardReset
                } else {
                    Phase::Failed(ResetError::CheckoutFailed)
                };
            },
            Phase::HardReset => {
                next.phase = if success {
                    Phase::Clean
                } else {
                    Phase::Failed(ResetError::ResetFailed)
                };
            },
            Phase::Clean => {
                next.phase = if success {
                    Phase::Done
                } else {
                    Phase::Failed(ResetError::CleanFailed)
                };
            },
            Phase::Done => {},
            Phase::Failed(_) => {},
        }
        next
    }
}

/// How a command ended and what it printed.
pub struct CommandOutcome {
    pub success: bool,
    pub output: String,
}

pub ghost struct CommandOutcomeView {
    pub success: bool,
    pub output: Seq<char>,
}

impl View for CommandOutcome {
    type V = CommandOutcomeView;

    open spec fn view(&self) -> CommandOutcomeView {
        CommandOutcomeView { success: self.success, output: self.output@ }
    }
}

/// The most commands that a reset can still ask for.
pub open spec fn spec_steps_left(phase: Phase) -> nat {
    match phase {
        Phase::ProbeRepo => 13,
        Phase::Fetch => 12,
        Phase::FetchRetry => 11,
        Phase::CheckRequested => 10,
        Phase::ReadDefault => 9,
        Phase::CheckDefault => 8,
        Phase::CheckMaster => 7,
        Phase::CheckLocal => 6,
        Phase::Checkout => 5,
        Phase::CleanBeforeRetry => 4,
        Phase::CheckoutRetry => 3,
        Phase::HardReset => 2,
        Phase::Clean => 1,
        Phase::Done => 0,
        Phase::Failed(_) => 0,
    }
}

/// Every command brings the reset closer to its end, whatever its
/// result: a reset asks for thirteen commands at most, fetches twice at
/// most and checks out twice at most. A reset that has ended stays as
/// it is.
pub proof fn lemma_reset_progresses(s: ResetRunView, success: bool, output: Seq<char>)
    ensures
        spec_steps_left(s.phase) > 0 ==> spec_steps_left(spec_advance(s, success, output).phase)
            < spec_steps_left(s.phase),
        spec_steps_left(s.phase) == 0 ==> spec_advance(s, success, output) == s,
        spec_steps_left(s.phase) == 0 <==> (s.phase is Done || s.phase is Failed),
        spec_advance(s, success, output).repo_dir == s.repo_dir,
        spec_advance(s, success, output).remote == s.remote,
        spec_advance(s, success, output).branch == s.branch,
{
}

/// Whether a state is sound: a ref that counts as valid has a remote
/// and a branch, and a reset that is past the two checks it starts
/// with has a valid ref.
pub open spec fn spec_sound(s: ResetRunView) -> bool {
    let unchecked = s.phase is ProbeRepo || s.phase == Phase::Failed(ResetError::NotARepo)
        || s.phase == Phase::Failed(ResetError::InvalidRef);
    &&& s.ref_valid ==> s.remote.len() > 0 && s.branch.len() > 0
    &&& !unchecked ==> s.ref_valid
}

/// Every state of a reset is sound: the first is, and every step keeps
/// it so. No git command is asked for on a ref that is not valid.
pub proof fn lemma_reset_stays_sound(
    repo_dir: Seq<char>,
    refspec: Seq<char>,
    s: ResetRunView,
    success: bool,
    output: Seq<char>,
)
    ensures
        spec_sound(spec_begin(repo_dir, refspec)),
        spec_sound(s) ==> spec_sound(spec_advance(s, success, output)),
{
}

/// The state after the commands of a run have given `results`, in order.
pub open spec fn spec_run(start: ResetRunView, results: Seq<CommandOutcomeView>) -> ResetRunView
    decreases results.len(),
{
    if results.len() == 0 {
        start
    } else {
        spec_advance(
            spec_run(start, results.drop_last()),
            results.last().success,
            results.last().output,
        )
    }
}

/// How a state that has ended turned out; none for one that has not.
pub open spec fn spec_outcome(s: ResetRunView) -> Option<Result<ResetReportView, ResetError>> {
    match spec_action(s) {
        ResetActionView::Done(report) => Some(Ok(report)),
        ResetActionView::Failed(e) => Some(Err(e)),
        _ => None,
    }
}

/// The view of a result.
pub open spec fn report_result_view(r: Result<ResetReport, ResetError>) -> Result<
    ResetReportView,
    ResetError,
> {
    match r {
        Ok(report) => Ok(report@),
        Err(e) => Err(e),
    }
}

/// `outcome` is an answer that the runner may give to the action.
#[verifier::opaque]
pub open spec fn ran<F: Fn(&ResetAction) -> CommandOutcome>(
    runner: F,
    action: ResetActionView,
    outcome: CommandOutcomeView,
) -> bool {
    exists|a: &ResetAction, o: CommandOutcome|
        a@ == action && o@ == outcome && call_ensures(runner, (a,), o)
}

/// `results` is what the runner answered, command by command, in a run
/// from `start`.
#[verifier::opaque]
pub open spec fn is_run_of<F: Fn(&ResetAction) -> CommandOutcome>(
    runner: F,
    start: ResetRunView,
    results: Seq<CommandOutcomeView>,
) -> bool {
    forall|i: int|
        0 <= i < results.len() ==> ran(
            runner,
            spec_action(spec_run(start, results.take(i))),
            #[trigger] results[i],
        )
}

proof fn lemma_run_extends<F: Fn(&ResetAction) -> CommandOutcome>(
    runner: F,
    start: ResetRunView,
    results: Seq<CommandOutcomeView>,
    outcome: CommandOutcomeView,
)
    requires
        is_run_of(runner, start, results),
        ran(runner, spec_action(spec_run(start, results)), outcome),
    ensures
        is_run_of(runner, start, results.push(outcome)),
        spec_run(start, results.push(outcome)) == spec_advance(
            spec_run(start, results),
            outcome.success,
            outcome.output,
        ),
{
    reveal(is_run_of);
    let longer = results.push(outcome);
    assert(longer.drop_last() =~= results);
    assert forall|i: int| 0 <= i < longer.len() implies ran(
        runner,
        spec_action(spec_run(start, longer.take(i))),
        #[trigger] longer[i],
    ) by {
        if i < results.len() {
            assert(longer.take(i) =~= results.take(i));
            assert(longer[i] == results[i]);
        } else {
            assert(longer.take(i) =~= results);
        }
    }
}

/// Resets the working tree in `repo_dir` to `refspec`, with `runner` to
/// carry out each command. The result is that of the machine for the
/// answers that the runner gave; the runner is asked thirteen times at
/// most.
pub fn reset_to_ref<F: Fn(&ResetAction) -> CommandOutcome>(
    repo_dir: &str,
    refspec: &str,
    runner: F,
) -> (r: Result<ResetReport, ResetError>)
    requires
        forall|a: &ResetAction| call_requires(runner, (a,)),
    ensures
        exists|results: Seq<CommandOutcomeView>|
            {
                &&& results.len() <= 13
                &&& is_run_of(runner, spec_begin(repo_dir@, refspec@), results)
                &&& #[trigger] spec_outcome(spec_run(spec_begin(repo_dir@, refspec@), results))
                    == Some(report_result_view(r))
            },
{
    let mut run = ResetRun::begin(repo_dir, refspec);
    let ghost start = run@;
    let ghost mut results: Seq<CommandOutcomeView> = Seq::empty();
    proof {
        reveal(is_run_of);
    }
    loop
        invariant
            start == spec_begin(repo_dir@, refspec@),
            forall|a: &ResetAction| call_requires(runner, (a,)),
            run@ == spec_run(start, results),
            results.len() + spec_steps_left(run@.phase) <= 13,
            is_run_of(runner, start, results),
        decreases spec_steps_left(run@.phase),
    {
        let action = run.action();
        match action {
            ResetAction::Done(report) => {
                assert(spec_outcome(spec_run(start, results)) == Some(
                    Ok::<ResetReportView, ResetError>(report@),
                ));
                return Ok(report);
            },
            ResetAction::Failed(e) => {
                assert(spec_outcome(spec_run(start, results)) == Some(
                    Err::<ResetReportView, ResetError>(e),
                ));
                return Err(e);
            },
            _ => {},
        }
        let outcome = runner(&action);
        proof {
            assert(ran(runner, spec_action(run@), outcome@)) by {
                reveal(ran);
            }
            lemma_reset_progresses(run@, outcome.success, outcome.output@);
            lemma_run_extends(runner, start, results, outcome@);
            results = results.push(outcome@);
        }
        run = run.advance(outcome.success, outcome.output.as_str());
    }
}

/// A branch that the remote does not have is replaced, and the report
/// says by what. After a fetch that went through, where the ref asked
/// for does not exist: the default branch of the remote is taken where
/// the remote names one that exists, and the remote's `master` where it
/// does not and `master` exists. Where checkout, reset and clean then go
/// through, the reset ends in success, and its report names the ref
/// that was used and carries a warning.
pub proof fn lemma_missing_branch_is_replaced(
    repo_dir: Seq<char>,
    refspec: Seq<char>,
    default_output: Seq<char>,
    default_exists: bool,
    local_exists: bool,
)
    requires
        spec_parse_refspec(refspec) is Some,
    ensures
        ({
            let (remote, branch) = spec_parse_refspec(refspec).unwrap();
            let probed = spec_advance(spec_begin(repo_dir, refspec), true, Seq::empty());
            let fetched = spec_advance(probed, true, Seq::empty());
            let missing = spec_advance(fetched, false, Seq::empty());
            let asked = spec_advance(missing, true, default_output);
            let default_ref = spec_trimmed_nonempty(default_output);
            let uses_default = default_ref is Some && default_exists;
            let chosen = if default_ref is Some {
                let checked = spec_advance(asked, default_exists, Seq::empty());
                if default_exists {
                    checked
                } else {
                    spec_advance(checked, true, Seq::empty())
                }
            } else {
                spec_advance(asked, true, Seq::empty())
            };
            let looked = spec_advance(chosen, local_exists, Seq::empty());
            let checked_out = spec_advance(looked, true, Seq::empty());
            let reset = spec_advance(checked_out, true, Seq::empty());
            let cleaned = spec_advance(reset, true, Seq::empty());
            &&& spec_action(cleaned) matches ResetActionView::Done(report)
            &&& report.requested == refspec
            &&& report.resolved == (if uses_default {
                default_ref.unwrap()
            } else {
                remote + "/master"@
            })
            &&& report.fallback == (if uses_default {
                Fallback::DefaultBranch
            } else {
                Fallback::Master
            })
            &&& report.warning() is Some
        }),
{
    let (remote, branch) = spec_parse_refspec(refspec).unwrap();
    crate::text::lemma_find_char(refspec, '/');
    reveal_strlit("/");
    assert("/"@ =~= seq!['/']);
    let i = crate::text::spec_find_char(refspec, '/');
    assert(remote + "/"@ + branch =~= refspec);
}

} // verus!
