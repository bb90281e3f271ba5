//! The arguments of each subcommand, read into a typed request.
//!
//! Every parser walks its arguments once, from left to right. What it
//! does with one argument depends on the argument and on what it has
//! read so far, which is how its contract is stated: as the walk from a
//! position and a request read so far to the end.

use vstd::prelude::*;
use crate::names::{normalize_workspace_name_for_create, spec_normalize_workspace_name_for_create};
use crate::text::{
    chars_of, opt_text, slice, spec_trimmed_nonempty, starts_with, string_of, text_eq, texts,
    trimmed_nonempty,
};

verus! {

/// Which subcommand an option is unknown to.
#[derive(Clone, Copy, Debug, PartialEq, Eq, Structural)]
pub enum OptionScope {
    Exec,
    Rm,
    Auth,
    Reset,
}

/// Why arguments could not be read.
pub enum ArgError {
    /// An option that takes a value stands last.
    MissingValue(String),
    /// An option that the subcommand does not know.
    UnknownOption { scope: OptionScope, option: String },
    /// One positional argument too many.
    UnexpectedArg(String),
    /// `--no-work-repos` together with repositories.
    RepoArgsWithNoWorkRepos,
    /// More than one workspace for `rm`.
    TooManyWorkspaces,
    /// No workspace for `exec`.
    MissingWorkspace,
    /// A depth that is no positive number.
    InvalidDepth,
}

pub ghost enum ArgErrorView {
    MissingValue(Seq<char>),
    UnknownOption { scope: OptionScope, option: Seq<char> },
    UnexpectedArg(Seq<char>),
    RepoArgsWithNoWorkRepos,
    TooManyWorkspaces,
    MissingWorkspace,
    InvalidDepth,
}

impl View for ArgError {
    type V = ArgErrorView;

    open spec fn view(&self) -> ArgErrorView {
        match self {
            ArgError::MissingValue(flag) => ArgErrorView::MissingValue(flag@),
            ArgError::UnknownOption { scope, option } => ArgErrorView::UnknownOption {
                scope: *scope,
                option: option@,
            },
            ArgError::UnexpectedArg(arg) => ArgErrorView::UnexpectedArg(arg@),
            ArgError::RepoArgsWithNoWorkRepos => ArgErrorView::RepoArgsWithNoWorkRepos,
            ArgError::TooManyWorkspaces => ArgErrorView::TooManyWorkspaces,
            ArgError::MissingWorkspace => ArgErrorView::MissingWorkspace,
            ArgError::InvalidDepth => ArgErrorView::InvalidDepth,
        }
    }
}

impl ArgErrorView {
    /// The message shown for the error.
    pub open spec fn message(self) -> Seq<char> {
        match self {
            ArgErrorView::MissingValue(flag) => "missing value for "@ + flag,
            ArgErrorView::UnknownOption { scope, option } => (match scope {
                OptionScope::Exec => "unknown option for exec: "@,
                OptionScope::Rm => "unknown option for rm: "@,
                OptionScope::Auth => "unknown option for auth: "@,
                OptionScope::Reset => "unknown arg: "@,
            }) + option,
            ArgErrorView::UnexpectedArg(arg) => "unexpected arg: "@ + arg,
            ArgErrorView::RepoArgsWithNoWorkRepos => "--no-work-repos does not accept repo args"@,
            ArgErrorView::TooManyWorkspaces => "rm accepts at most one workspace name"@,
            ArgErrorView::MissingWorkspace => "missing workspace name"@,
            ArgErrorView::InvalidDepth => "--depth must be a positive integer"@,
        }
    }
}

impl ArgError {
    /// The message shown for the error.
    pub fn message(&self) -> (r: String)
        ensures
            r@ == self@.message(),
    {
        match self {
            ArgError::MissingValue(flag) => {
                let mut out = String::from_str("missing value for ");
                out.append(flag.as_str());
                out
            },
            ArgError::UnknownOption { scope, option } => {
                let mut out = match scope {
                    OptionScope::Exec => String::from_str("unknown option for exec: "),
                    OptionScope::Rm => String::from_str("unknown option for rm: "),
                    OptionScope::Auth => String::from_str("unknown option for auth: "),
                    OptionScope::Reset => String::from_str("unknown arg: "),
                };
                out.append(option.as_str());
                out
            },
            ArgError::UnexpectedArg(arg) => {
                let mut out = String::from_str("unexpected arg: ");
                out.append(arg.as_str());
                out
            },
            ArgError::RepoArgsWithNoWorkRepos => String::from_str(
                "--no-work-repos does not accept repo args",
            ),
            ArgError::TooManyWorkspaces => String::from_str(
                "rm accepts at most one workspace name",
            ),
            ArgError::MissingWorkspace => String::from_str("missing workspace name"),
            ArgError::InvalidDepth => String::from_str("--depth must be a positive integer"),
        }
    }
}

/// Whether the argument is the given word.
pub fn is_word(arg: &[char], word: &str) -> (r: bool)
    ensures
        r == (arg@ == word@),
{
    let w = chars_of(word);
    text_eq(arg, w.as_slice())
}

/// What follows `lead` in an argument that starts with it.
pub open spec fn spec_value_after(arg: Seq<char>, lead: Seq<char>) -> Option<Seq<char>> {
    if lead.is_prefix_of(arg) {
        Some(arg.skip(lead.len() as int))
    } else {
        None
    }
}

/// What follows `lead` in an argument that starts with it.
pub fn value_after<'a>(arg: &'a [char], lead: &str) -> (r: Option<&'a [char]>)
    ensures
        match r {
            Some(value) => spec_value_after(arg@, lead@) == Some(value@),
            None => spec_value_after(arg@, lead@) is None,
        },
{
    let l = chars_of(lead);
    if starts_with(arg, l.as_slice()) {
        Some(slice(arg, l.len(), arg.len()))
    } else {
        None
    }
}

/// Whether the argument starts with a dash.
pub open spec fn spec_is_option(arg: Seq<char>) -> bool {
    arg.len() > 0 && arg[0] == '-'
}

/// Whether the argument starts with a dash.
pub fn is_option(arg: &[char]) -> (r: bool)
    ensures
        r == spec_is_option(arg@),
{
    arg.len() > 0 && arg[0] == '-'
}

/// The request that the arguments of `create` make.
pub struct ParsedCreate {
    pub show_help: bool,
    pub no_extras: bool,
    pub no_work_repos: bool,
    pub private_repo: Option<String>,
    pub workspace_name: Option<String>,
    pub primary_repo: Option<String>,
    pub extra_repos: Vec<String>,
    pub forwarded_args: Vec<String>,
}

pub ghost struct ParsedCreateView {
    pub show_help: bool,
    pub no_extras: bool,
    pub no_work_repos: bool,
    pub private_repo: Option<Seq<char>>,
    pub workspace_name: Option<Seq<char>>,
    pub primary_repo: Option<Seq<char>>,
    pub extra_repos: Seq<Seq<char>>,
    pub forwarded_args: Seq<Seq<char>>,
}

impl View for ParsedCreate {
    type V = ParsedCreateView;

    open spec fn view(&self) -> ParsedCreateView {
        ParsedCreateView {
            show_help: self.show_help,
            no_extras: self.no_extras,
            no_work_repos: self.no_work_repos,
            private_repo: opt_text(self.private_repo),
            workspace_name: opt_text(self.workspace_name),
            primary_repo: opt_text(self.primary_repo),
            extra_repos: texts(self.extra_repos@),
            forwarded_args: texts(self.forwarded_args@),
        }
    }
}

/// The view of a result.
pub open spec fn create_result_view(r: Result<ParsedCreate, ArgError>) -> Result<
    ParsedCreateView,
    ArgErrorView,
> {
    match r {
        Ok(parsed) => Ok(parsed@),
        Err(e) => Err(e@),
    }
}

/// The request with nothing read yet.
pub open spec fn spec_create_start() -> ParsedCreateView {
    ParsedCreateView {
        show_help: false,
        no_extras: false,
        no_work_repos: false,
        private_repo: None,
        workspace_name: None,
        primary_repo: None,
        extra_repos: Seq::empty(),
        forwarded_args: Seq::empty(),
    }
}

/// The request with one more repository: the first is the primary one
/// and is handed on, the others are extras and are not.
pub open spec fn spec_create_positional(p: ParsedCreateView, arg: Seq<char>) -> ParsedCreateView {
    if p.primary_repo is None {
        ParsedCreateView {
            primary_repo: Some(arg),
            forwarded_args: p.forwarded_args.push(arg),
            ..p
        }
    } else {
        ParsedCreateView { extra_repos: p.extra_repos.push(arg), ..p }
    }
}

/// The request with a workspace name read: the name is normalised
/// before it is handed on, behind `lead`.
pub open spec fn spec_create_named(
    p: ParsedCreateView,
    lead: Seq<char>,
    name: Seq<char>,
    whole: bool,
) -> ParsedCreateView {
    ParsedCreateView {
        workspace_name: spec_trimmed_nonempty(name),
        forwarded_args: p.forwarded_args.push(
            if whole {
                name
            } else {
                lead + name
            },
        ),
        ..p
    }
}

/// The walk over the arguments of `create` from position `idx` on.
///
/// Before a `--`, options are read: `--no-work-repos` is handed on as
/// `--no-clone`; `--no-extras` and `--private-repo` are kept here; the
/// value of `--name` is normalised and handed on; every other option is
/// handed on as it stands. What is no option is a repository. Repositories
/// together with `--no-work-repos` are an error.
pub open spec fn spec_parse_create_from(
    args: Seq<Seq<char>>,
    idx: int,
    positional_only: bool,
    p: ParsedCreateView,
    prefixes: Seq<Seq<char>>,
    unix_seconds: nat,
) -> Result<ParsedCreateView, ArgErrorView>
    decreases args.len() - idx,
{
    if idx < 0 || idx >= args.len() {
        if p.no_work_repos && (p.primary_repo is Some || p.extra_repos.len() > 0) {
            Err(ArgErrorView::RepoArgsWithNoWorkRepos)
        } else {
            Ok(p)
        }
    } else {
        let arg = args[idx];
        let next = idx + 1;
        if positional_only {
            spec_parse_create_from(
                args,
                next,
                true,
                spec_create_positional(p, arg),
                prefixes,
                unix_seconds,
            )
        } else if arg == "-h"@ || arg == "--help"@ {
            spec_parse_create_from(
                args,
                next,
                false,
                ParsedCreateView {
                    show_help: true,
                    forwarded_args: p.forwarded_args.push(arg),
                    ..p
                },
                prefixes,
                unix_seconds,
            )
        } else if arg == "--no-work-repos"@ {
            spec_parse_create_from(
                args,
                next,
                false,
                ParsedCreateView {
                    no_work_repos: true,
                    forwarded_args: p.forwarded_args.push("--no-clone"@),
                    ..p
                },
                prefixes,
                unix_seconds,
            )
        } else if arg == "--no-extras"@ {
            spec_parse_create_from(
                args,
                next,
                false,
                ParsedCreateView { no_extras: true, ..p },
                prefixes,
                unix_seconds,
            )
        } else if arg == "--private-repo"@ {
            if next >= args.len() {
                Err(ArgErrorView::MissingValue("--private-repo"@))
            } else {
                spec_parse_create_from(
                    args,
                    next + 1,
                    false,
                    ParsedCreateView { private_repo: spec_trimmed_nonempty(args[next]), ..p },
                    prefixes,
                    unix_seconds,
                )
            }
        } else if arg == "--name"@ {
            if next >= args.len() {
                Err(ArgErrorView::MissingValue("--name"@))
            } else {
                spec_parse_create_from(
                    args,
                    next + 1,
                    false,
                    spec_create_named(
                        ParsedCreateView {
                            forwarded_args: p.forwarded_args.push("--name"@),
                            ..p
                        },
                        Seq::empty(),
                        spec_normalize_workspace_name_for_create(
                            args[next],
                            prefixes,
                            unix_seconds,
                        ),
                        true,
                    ),
                    prefixes,
                    unix_seconds,
                )
            }
        } else if arg == "--"@ {
            spec_parse_create_from(
                args,
                next,
                true,
                ParsedCreateView { forwarded_args: p.forwarded_args.push(arg), ..p },
                prefixes,
                unix_seconds,
            )
        } else if spec_value_after(arg, "--private-repo="@) is Some {
            spec_parse_create_from(
                args,
                next,
                false,
                ParsedCreateView {
                    private_repo: spec_trimmed_nonempty(
                        spec_value_after(arg, "--private-repo="@).unwrap(),
                    ),
                    ..p
                },
                prefixes,
                unix_seconds,
            )
        } else if spec_value_after(arg, "--name="@) is Some {
            spec_parse_create_from(
                args,
                next,
                false,
                spec_create_named(
                    p,
                    "--name="@,
                    spec_normalize_workspace_name_for_create(
                        spec_value_after(arg, "--name="@).unwrap(),
                        prefixes,
                        unix_seconds,
                    ),
                    false,
                ),
                prefixes,
                unix_seconds,
            )
        } else if spec_is_option(arg) {
            spec_parse_create_from(
                args,
                next,
                false,
                ParsedCreateView { forwarded_args: p.forwarded_args.push(arg), ..p },
                prefixes,
                unix_seconds,
            )
        } else {
            spec_parse_create_from(
                args,
                next,
                false,
                spec_create_positional(p, arg),
                prefixes,
                unix_seconds,
            )
        }
    }
}

/// The request that the arguments of `create` make.
pub open spec fn spec_parse_create_args(
    args: Seq<Seq<char>>,
    prefixes: Seq<Seq<char>>,
    unix_seconds: nat,
) -> Result<ParsedCreateView, ArgErrorView> {
    spec_parse_create_from(args, 0, false, spec_create_start(), prefixes, unix_seconds)
}

impl ParsedCreate {
    fn push_forwarded(&mut self, arg: String)
        ensures
            final(self)@ == (ParsedCreateView {
                forwarded_args: old(self)@.forwarded_args.push(arg@),
                ..old(self)@
            }),
    {
        self.forwarded_args.push(arg);
        assert(texts(self.forwarded_args@) =~= texts(old(self).forwarded_args@).push(arg@));
    }

    fn positional(&mut self, arg: &str)
        ensures
            final(self)@ == spec_create_positional(old(self)@, arg@),
    {
        if self.primary_repo.is_none() {
            self.primary_repo = Some(String::from_str(arg));
            self.push_forwarded(String::from_str(arg));
        } else {
            self.extra_repos.push(String::from_str(arg));
            assert(texts(self.extra_repos@) =~= texts(old(self).extra_repos@).push(arg@));
        }
    }

    fn named(&mut self, lead: &str, name: String, whole: bool)
        ensures
            final(self)@ == spec_create_named(old(self)@, lead@, name@, whole),
    {
        self.workspace_name = trimmed_nonempty(name.as_str());
        if whole {
            self.push_forwarded(name);
        } else {
            let mut joined = String::from_str(lead);
            joined.append(name.as_str());
            self.push_forwarded(joined);
        }
    }
}

/// Reads the arguments of `create`. The name of the workspace is
/// normalised with the known `prefixes`; `unix_seconds` is the time that
/// a name without any usable character is made from.
pub fn parse_create_args(args: &[String], prefixes: &[String], unix_seconds: u64) -> (r: Result<
    ParsedCreate,
    ArgError,
>)
    ensures
        create_result_view(r) == spec_parse_create_args(
            texts(args@),
            texts(prefixes@),
            unix_seconds as nat,
        ),
{
    let ghost all = texts(args@);
    let ghost known = texts(prefixes@);
    let ghost secs = unix_seconds as nat;
    let mut parsed = ParsedCreate {
        show_help: false,
        no_extras: false,
        no_work_repos: false,
        private_repo: None,
        workspace_name: None,
        primary_repo: None,
        extra_repos: Vec::new(),
        forwarded_args: Vec::new(),
    };
    assert(parsed@ =~= spec_create_start()) by {
        assert(texts(parsed.extra_repos@) =~= Seq::<Seq<char>>::empty());
        assert(texts(parsed.forwarded_args@) =~= Seq::<Seq<char>>::empty());
    }
    let mut idx: usize = 0;
    let mut positional_only = false;
    while idx < args.len()
        invariant
            idx <= args.len(),
            all == texts(args@),
            known == texts(prefixes@),
            secs == unix_seconds as nat,
            spec_parse_create_args(all, known, secs) == spec_parse_create_from(
                all,
                idx as int,
                positional_only,
                parsed@,
                known,
                secs,
            ),
        decreases args.len() - idx,
    {
        let text = args[idx].as_str();
        let arg = chars_of(text);
        let a = arg.as_slice();
        assert(all[idx as int] == a@);
        if positional_only {
            parsed.positional(text);
        } else if is_word(a, "-h") || is_word(a, "--help") {
            parsed.show_help = true;
            parsed.push_forwarded(String::from_str(text));
        } else if is_word(a, "--no-work-repos") {
            parsed.no_work_repos = true;
            parsed.push_forwarded(String::from_str("--no-clone"));
        } else if is_word(a, "--no-extras") {
            parsed.no_extras = true;
        } else if is_word(a, "--private-repo") {
            idx += 1;
            if idx >= args.len() {
                return Err(ArgError::MissingValue(String::from_str("--private-repo")));
            }
            assert(all[idx as int] == args[idx as int]@);
            parsed.private_repo = trimmed_nonempty(args[idx].as_str());
        } else if is_word(a, "--name") {
            parsed.push_forwarded(String::from_str("--name"));
            idx += 1;
            if idx >= args.len() {
                return Err(ArgError::MissingValue(String::from_str("--name")));
            }
            assert(all[idx as int] == args[idx as int]@);
            let name = normalize_workspace_name_for_create(
                args[idx].as_str(),
                prefixes,
                unix_seconds,
            );
            parsed.named("", name, true);
        } else if is_word(a, "--") {
            positional_only = true;
            parsed.push_forwarded(String::from_str(text));
        } else if let Some(value) = value_after(a, "--private-repo=") {
            let value = string_of(value);
            parsed.private_repo = trimmed_nonempty(value.as_str());
        } else if let Some(value) = value_after(a, "--name=") {
            let value = string_of(value);
            let name = normalize_workspace_name_for_create(value.as_str(), prefixes, unix_seconds);
            parsed.named("--name=", name, false);
        } else if is_option(a) {
            parsed.push_forwarded(String::from_str(text));
        } else {
            parsed.positional(text);
        }
        idx += 1;
    }
    if parsed.no_work_repos && (parsed.primary_repo.is_some() || parsed.extra_repos.len() > 0) {
        Err(ArgError::RepoArgsWithNoWorkRepos)
    } else {
        Ok(parsed)
    }
}

/// The request that the arguments of `exec` make.
pub struct ParsedExec {
    pub show_help: bool,
    pub user: Option<String>,
    pub workspace: Option<String>,
    pub command: Vec<String>,
}

pub ghost struct ParsedExecView {
    pub show_help: bool,
    pub user: Option<Seq<char>>,
    pub workspace: Option<Seq<char>>,
    pub command: Seq<Seq<char>>,
}

impl View for ParsedExec {
    type V = ParsedExecView;

    open spec fn view(&self) -> ParsedExecView {
        ParsedExecView {
            show_help: self.show_help,
            user: opt_text(self.user),
            workspace: opt_text(self.workspace),
            command: texts(self.command@),
        }
    }
}

/// The view of a result.
pub open spec fn exec_result_view(r: Result<ParsedExec, ArgError>) -> Result<
    ParsedExecView,
    ArgErrorView,
> {
    match r {
        Ok(parsed) => Ok(parsed@),
        Err(e) => Err(e@),
    }
}

/// The request with nothing read yet.
pub open spec fn spec_exec_start() -> ParsedExecView {
    ParsedExecView { show_help: false, user: None, workspace: None, command: Seq::empty() }
}

/// The walk over the arguments of `exec` from position `idx` on.
///
/// Options come first: `--root` stands for the user `0` unless a user
/// is named already, and `--user` names one. The first argument that is
/// no option is the workspace, and all that follows it is the command.
/// A request for help ends the walk at once.
pub open spec fn spec_parse_exec_from(args: Seq<Seq<char>>, idx: int, p: ParsedExecView) -> Result<
    ParsedExecView,
    ArgErrorView,
>
    decreases args.len() - idx,
{
    if idx < 0 || idx >= args.len() {
        if p.workspace is None {
            Err(ArgErrorView::MissingWorkspace)
        } else {
            Ok(p)
        }
    } else {
        let arg = args[idx];
        let next = idx + 1;
        if p.workspace is Some {
            Ok(ParsedExecView { command: p.command + args.skip(idx), ..p })
        } else if arg == "-h"@ || arg == "--help"@ {
            Ok(ParsedExecView { show_help: true, ..p })
        } else if arg == "--root"@ {
            spec_parse_exec_from(
                args,
                next,
                if p.user is None {
                    ParsedExecView { user: Some("0"@), ..p }
                } else {
                    p
                },
            )
        } else if arg == "--user"@ {
            if next >= args.len() {
                Err(ArgErrorView::MissingValue("--user"@))
            } else {
                spec_parse_exec_from(
                    args,
                    next + 1,
                    ParsedExecView { user: Some(args[next]), ..p },
                )
            }
        } else if spec_value_after(arg, "--user="@) is Some {
            spec_parse_exec_from(
                args,
                next,
                ParsedExecView { user: spec_value_after(arg, "--user="@), ..p },
            )
        } else if spec_is_option(arg) {
            Err(ArgErrorView::UnknownOption { scope: OptionScope::Exec, option: arg })
        } else {
            spec_parse_exec_from(args, next, ParsedExecView { workspace: Some(arg), ..p })
        }
    }
}

/// The request that the arguments of `exec` make.
pub open spec fn spec_parse_exec_args(args: Seq<Seq<char>>) -> Result<
    ParsedExecView,
    ArgErrorView,
> {
    spec_parse_exec_from(args, 0, spec_exec_start())
}

/// Reads the arguments of `exec`.
pub fn parse_exec_args(args: &[String]) -> (r: Result<ParsedExec, ArgError>)
    ensures
        exec_result_view(r) == spec_parse_exec_args(texts(args@)),
{
    let ghost all = texts(args@);
    let mut parsed = ParsedExec { show_help: false, user: None, workspace: None, command: Vec::new() };
    assert(texts(parsed.command@) =~= Seq::<Seq<char>>::empty());
    let mut idx: usize = 0;
    while idx < args.len()
        invariant
            idx <= args.len(),
            all == texts(args@),
            parsed.command@.len() == 0,
            spec_parse_exec_args(all) == spec_parse_exec_from(all, idx as int, parsed@),
        decreases args.len() - idx,
    {
        if parsed.workspace.is_some() {
            let ghost at = idx;
            let ghost before = parsed@;
            assert(texts(parsed.command@) =~= all.subrange(at as int, idx as int));
            while idx < args.len()
                invariant
                    at <= idx <= args.len(),
                    all == texts(args@),
                    parsed@ == (ParsedExecView {
                        command: all.subrange(at as int, idx as int),
                        ..before
                    }),
                decreases args.len() - idx,
            {
                let ghost earlier = texts(parsed.command@);
                parsed.command.push(args[idx].clone());
                assert(texts(parsed.command@) =~= earlier.push(args[idx as int]@));
                assert(all.subrange(at as int, idx + 1) =~= all.subrange(at as int, idx as int).push(
                    all[idx as int],
                ));
                idx += 1;
            }
            assert(all.subrange(at as int, args.len() as int) =~= before.command + all.skip(
                at as int,
            ));
            return Ok(parsed);
        }
        let text = args[idx].as_str();
        let arg = chars_of(text);
        let a = arg.as_slice();
        assert(all[idx as int] == a@);
        if is_word(a, "-h") || is_word(a, "--help") {
            parsed.show_help = true;
            return Ok(parsed);
        } else if is_word(a, "--root") {
            if parsed.user.is_none() {
                parsed.user = Some(String::from_str("0"));
            }
        } else if is_word(a, "--user") {
            idx += 1;
            if idx >= args.len() {
                return Err(ArgError::MissingValue(String::from_str("--user")));
            }
            assert(all[idx as int] == args[idx as int]@);
            parsed.user = Some(args[idx].clone());
        } else if let Some(value) = value_after(a, "--user=") {
            parsed.user = Some(string_of(value));
        } else if is_option(a) {
            return Err(
                ArgError::UnknownOption { scope: OptionScope::Exec, option: String::from_str(text) },
            );
        } else {
            parsed.workspace = Some(String::from_str(text));
        }
        idx += 1;
    }
    if parsed.workspace.is_none() {
        Err(ArgError::MissingWorkspace)
    } else {
        Ok(parsed)
    }
}

/// The request that the arguments of `rm` make.
pub struct ParsedRm {
    pub show_help: bool,
    pub all: bool,
    pub workspace: Option<String>,
}

pub ghost struct ParsedRmView {
    pub show_help: bool,
    pub all: bool,
    pub workspace: Option<Seq<char>>,
}

impl View for ParsedRm {
    type V = ParsedRmView;

    open spec fn view(&self) -> ParsedRmView {
        ParsedRmView {
            show_help: self.show_help,
            all: self.all,
            workspace: opt_text(self.workspace),
        }
    }
}

/// The view of a result.
pub open spec fn rm_result_view(r: Result<ParsedRm, ArgError>) -> Result<
    ParsedRmView,
    ArgErrorView,
> {
    match r {
        Ok(parsed) => Ok(parsed@),
        Err(e) => Err(e@),
    }
}

/// The walk over the arguments of `rm` from position `idx` on: `--all`
/// and a request for help are noted, `--yes` is accepted, and one
/// workspace at most may be named.
pub open spec fn spec_parse_rm_from(args: Seq<Seq<char>>, idx: int, p: ParsedRmView) -> Result<
    ParsedRmView,
    ArgErrorView,
>
    decreases args.len() - idx,
{
    if idx < 0 || idx >= args.len() {
        Ok(p)
    } else {
        let arg = args[idx];
        if arg == "-h"@ || arg == "--help"@ {
            spec_parse_rm_from(args, idx + 1, ParsedRmView { show_help: true, ..p })
        } else if arg == "--all"@ {
            spec_parse_rm_from(args, idx + 1, ParsedRmView { all: true, ..p })
        } else if arg == "--yes"@ {
            spec_parse_rm_from(args, idx + 1, p)
        } else if spec_is_option(arg) {
            Err(ArgErrorView::UnknownOption { scope: OptionScope::Rm, option: arg })
        } else if p.workspace is Some {
            Err(ArgErrorView::TooManyWorkspaces)
        } else {
            spec_parse_rm_from(args, idx + 1, ParsedRmView { workspace: Some(arg), ..p })
        }
    }
}

/// The request that the arguments of `rm` make.
pub open spec fn spec_parse_rm_args(args: Seq<Seq<char>>) -> Result<ParsedRmView, ArgErrorView> {
    spec_parse_rm_from(
        args,
        0,
        ParsedRmView { show_help: false, all: false, workspace: None },
    )
}

/// Reads the arguments of `rm`.
pub fn parse_rm_args(args: &[String]) -> (r: Result<ParsedRm, ArgError>)
    ensures
        rm_result_view(r) == spec_parse_rm_args(texts(args@)),
{
    let ghost all = texts(args@);
    let mut parsed = ParsedRm { show_help: false, all: false, workspace: None };
    let mut idx: usize = 0;
    while idx < args.len()
        invariant
            idx <= args.len(),
            all == texts(args@),
            spec_parse_rm_args(all) == spec_parse_rm_from(all, idx as int, parsed@),
        decreases args.len() - idx,
    {
        let text = args[idx].as_str();
        let arg = chars_of(text);
        let a = arg.as_slice();
        assert(all[idx as int] == a@);
        if is_word(a, "-h") || is_word(a, "--help") {
            parsed.show_help = true;
        } else if is_word(a, "--all") {
            parsed.all = true;
        } else if is_word(a, "--yes") {
        } else if is_option(a) {
            return Err(
                ArgError::UnknownOption { scope: OptionScope::Rm, option: String::from_str(text) },
            );
        } else if parsed.workspace.is_some() {
            return Err(ArgError::TooManyWorkspaces);
        } else {
            parsed.workspace = Some(String::from_str(text));
        }
        idx += 1;
    }
    Ok(parsed)
}

/// What `rm` is to do.
pub enum RmAction {
    /// Show the usage.
    ShowHelp,
    /// Remove every workspace.
    RemoveAll,
    /// Remove the one workspace that is named.
    Remove(String),
    /// Neither a workspace nor `--all` is given: an error.
    MissingWorkspace,
}

pub ghost enum RmActionView {
    ShowHelp,
    RemoveAll,
    Remove(Seq<char>),
    MissingWorkspace,
}

impl View for RmAction {
    type V = RmActionView;

    open spec fn view(&self) -> RmActionView {
        match self {
            RmAction::ShowHelp => RmActionView::ShowHelp,
            RmAction::RemoveAll => RmActionView::RemoveAll,
            RmAction::Remove(name) => RmActionView::Remove(name@),
            RmAction::MissingWorkspace => RmActionView::MissingWorkspace,
        }
    }
}

/// What a request to `rm` asks for: help before all else, then `--all`,
/// then the named workspace.
pub open spec fn spec_rm_action(p: ParsedRmView) -> RmActionView {
    if p.show_help {
        RmActionView::ShowHelp
    } else if p.all {
        RmActionView::RemoveAll
    } else {
        match p.workspace {
            Some(name) => RmActionView::Remove(name),
            None => RmActionView::MissingWorkspace,
        }
    }
}

/// Decides what `rm` is to do for a request.
pub fn rm_action(parsed: &ParsedRm) -> (r: RmAction)
    ensures
        r@ == spec_rm_action(parsed@),
{
    if parsed.show_help {
        RmAction::ShowHelp
    } else if parsed.all {
        RmAction::RemoveAll
    } else {
        match &parsed.workspace {
            Some(name) => RmAction::Remove(name.clone()),
            None => RmAction::MissingWorkspace,
        }
    }
}

/// The request that the arguments of `auth` make.
pub struct ParsedAuth {
    pub show_help: bool,
    pub provider: Option<String>,
    pub container: Option<String>,
    pub profile: Option<String>,
    pub host: Option<String>,
    pub key: Option<String>,
}

pub ghost struct ParsedAuthView {
    pub show_help: bool,
    pub provider: Option<Seq<char>>,
    pub container: Option<Seq<char>>,
    pub profile: Option<Seq<char>>,
    pub host: Option<Seq<char>>,
    pub key: Option<Seq<char>>,
}

impl View for ParsedAuth {
    type V = ParsedAuthView;

    open spec fn view(&self) -> ParsedAuthView {
        ParsedAuthView {
            show_help: self.show_help,
            provider: opt_text(self.provider),
            container: opt_text(self.container),
            profile: opt_text(self.profile),
            host: opt_text(self.host),
            key: opt_text(self.key),
        }
    }
}

/// The view of a result.
pub open spec fn auth_result_view(r: Result<ParsedAuth, ArgError>) -> Result<
    ParsedAuthView,
    ArgErrorView,
> {
    match r {
        Ok(parsed) => Ok(parsed@),
        Err(e) => Err(e@),
    }
}

/// The provider that a request to `auth` is for; none where help is
/// asked for or no provider is named, which both show the usage.
pub open spec fn spec_requested_provider(p: ParsedAuthView) -> Option<Seq<char>> {
    if p.show_help {
        None
    } else {
        p.provider
    }
}

/// The provider to apply a credential for, or `None` where the usage is
/// to be shown.
pub fn requested_provider(parsed: &ParsedAuth) -> (r: Option<String>)
    ensures
        opt_text(r) == spec_requested_provider(parsed@),
{
    if parsed.show_help {
        None
    } else {
        match &parsed.provider {
            Some(name) => Some(name.clone()),
            None => None,
        }
    }
}

/// The request with one more positional argument: the provider first,
/// then the container, and no third.
pub open spec fn spec_auth_positional(p: ParsedAuthView, arg: Seq<char>) -> Result<
    ParsedAuthView,
    ArgErrorView,
> {
    if p.provider is None {
        Ok(ParsedAuthView { provider: Some(arg), ..p })
    } else if p.container is None {
        Ok(ParsedAuthView { container: Some(arg), ..p })
    } else {
        Err(ArgErrorView::UnexpectedArg(arg))
    }
}

/// The request with the value of an option that takes one.
pub open spec fn spec_auth_valued(p: ParsedAuthView, flag: Seq<char>, value: Seq<char>)
    -> ParsedAuthView {
    if flag == "--container"@ || flag == "--name"@ {
        ParsedAuthView { container: Some(value), ..p }
    } else if flag == "--profile"@ {
        ParsedAuthView { profile: Some(value), ..p }
    } else if flag == "--host"@ {
        ParsedAuthView { host: Some(value), ..p }
    } else {
        ParsedAuthView { key: Some(value), ..p }
    }
}

/// Whether the argument is an option of `auth` that takes a value.
pub open spec fn spec_auth_takes_value(arg: Seq<char>) -> bool {
    arg == "--container"@ || arg == "--name"@ || arg == "--profile"@ || arg == "--host"@ || arg
        == "--key"@
}

/// The option and the value of an argument of the form `--option=value`
/// that `auth` knows.
pub open spec fn spec_auth_assignment(arg: Seq<char>) -> Option<(Seq<char>, Seq<char>)> {
    if spec_value_after(arg, "--container="@) is Some {
        Some(("--container"@, spec_value_after(arg, "--container="@).unwrap()))
    } else if spec_value_after(arg, "--name="@) is Some {
        Some(("--name"@, spec_value_after(arg, "--name="@).unwrap()))
    } else if spec_value_after(arg, "--profile="@) is Some {
        Some(("--profile"@, spec_value_after(arg, "--profile="@).unwrap()))
    } else if spec_value_after(arg, "--host="@) is Some {
        Some(("--host"@, spec_value_after(arg, "--host="@).unwrap()))
    } else if spec_value_after(arg, "--key="@) is Some {
        Some(("--key"@, spec_value_after(arg, "--key="@).unwrap()))
    } else {
        None
    }
}

/// The walk over the arguments of `auth` from position `idx` on.
///
/// Behind a `--` every argument is positional. Before it, options are
/// read, with their value in the next argument or behind a `=`; what is
/// no option is positional.
pub open spec fn spec_parse_auth_from(
    args: Seq<Seq<char>>,
    idx: int,
    positional_only: bool,
    p: ParsedAuthView,
) -> Result<ParsedAuthView, ArgErrorView>
    decreases args.len() - idx,
{
    if idx < 0 || idx >= args.len() {
        Ok(p)
    } else {
        let arg = args[idx];
        let next = idx + 1;
        if positional_only {
            match spec_auth_positional(p, arg) {
                Ok(q) => spec_parse_auth_from(args, next, true, q),
                Err(e) => Err(e),
            }
        } else if arg == "-h"@ || arg == "--help"@ {
            spec_parse_auth_from(args, next, false, ParsedAuthView { show_help: true, ..p })
        } else if spec_auth_takes_value(arg) {
            if next >= args.len() {
                Err(ArgErrorView::MissingValue(arg))
            } else {
                spec_parse_auth_from(args, next + 1, false, spec_auth_valued(p, arg, args[next]))
            }
        } else if spec_auth_assignment(arg) is Some {
            spec_parse_auth_from(
                args,
                next,
                false,
                spec_auth_valued(
                    p,
                    spec_auth_assignment(arg).unwrap().0,
                    spec_auth_assignment(arg).unwrap().1,
                ),
            )
        } else if arg == "--"@ {
            spec_parse_auth_from(args, next, true, p)
        } else if spec_is_option(arg) {
            Err(ArgErrorView::UnknownOption { scope: OptionScope::Auth, option: arg })
        } else {
            match spec_auth_positional(p, arg) {
                Ok(q) => spec_parse_auth_from(args, next, false, q),
                Err(e) => Err(e),
            }
        }
    }
}

/// The request that the arguments of `auth` make.
pub open spec fn spec_parse_auth_args(args: Seq<Seq<char>>) -> Result<
    ParsedAuthView,
    ArgErrorView,
> {
    spec_parse_auth_from(
        args,
        0,
        false,
        ParsedAuthView {
            show_help: false,
            provider: None,
            container: None,
            profile: None,
            host: None,
            key: None,
        },
    )
}

impl ParsedAuth {
    fn positional(&mut self, arg: &str) -> (r: Result<(), ArgError>)
        ensures
            match r {
                Ok(_) => spec_auth_positional(old(self)@, arg@) == Ok::<
                    ParsedAuthView,
                    ArgErrorView,
                >(final(self)@),
                Err(e) => spec_auth_positional(old(self)@, arg@) == Err::<
                    ParsedAuthView,
                    ArgErrorView,
                >(e@),
            },
    {
        if self.provider.is_none() {
            self.provider = Some(String::from_str(arg));
            Ok(())
        } else if self.container.is_none() {
            self.container = Some(String::from_str(arg));
            Ok(())
        } else {
            Err(ArgError::UnexpectedArg(String::from_str(arg)))
        }
    }

    fn valued(&mut self, flag: &[char], value: String)
        ensures
            final(self)@ == spec_auth_valued(old(self)@, flag@, value@),
    {
        if is_word(flag, "--container") || is_word(flag, "--name") {
            self.container = Some(value);
        } else if is_word(flag, "--profile") {
            self.profile = Some(value);
        } else if is_word(flag, "--host") {
            self.host = Some(value);
        } else {
            self.key = Some(value);
        }
    }
}

fn auth_takes_value(arg: &[char]) -> (r: bool)
    ensures
        r == spec_auth_takes_value(arg@),
{
    is_word(arg, "--container") || is_word(arg, "--name") || is_word(arg, "--profile") || is_word(
        arg,
        "--host",
    ) || is_word(arg, "--key")
}

fn auth_assignment(arg: &[char]) -> (r: Option<(Vec<char>, String)>)
    ensures
        match r {
            Some((flag, value)) => spec_auth_assignment(arg@) == Some((flag@, value@)),
            None => spec_auth_assignment(arg@) is None,
        },
{
    if let Some(value) = value_after(arg, "--container=") {
        Some((chars_of("--container"), string_of(value)))
    } else if let Some(value) = value_after(arg, "--name=") {
        Some((chars_of("--name"), string_of(value)))
    } else if let Some(value) = value_after(arg, "--profile=") {
        Some((chars_of("--profile"), string_of(value)))
    } else if let Some(value) = value_after(arg, "--host=") {
        Some((chars_of("--host"), string_of(value)))
    } else if let Some(value) = value_after(arg, "--key=") {
        Some((chars_of("--key"), string_of(value)))
    } else {
        None
    }
}

/// Reads the arguments of `auth`.
pub fn parse_auth_args(args: &[String]) -> (r: Result<ParsedAuth, ArgError>)
    ensures
        auth_result_view(r) == spec_parse_auth_args(texts(args@)),
{
    let ghost all = texts(args@);
    let mut parsed = ParsedAuth {
        show_help: false,
        provider: None,
        container: None,
        profile: None,
        host: None,
        key: None,
    };
    let mut idx: usize = 0;
    let mut positional_only = false;
    while idx < args.len()
        invariant
            idx <= args.len(),
            all == texts(args@),
            spec_parse_auth_args(all) == spec_parse_auth_from(
                all,
                idx as int,
                positional_only,
                parsed@,
            ),
        decreases args.len() - idx,
    {
        let text = args[idx].as_str();
        let arg = chars_of(text);
        let a = arg.as_slice();
        assert(all[idx as int] == a@);
        if positional_only {
            match parsed.positional(text) {
                Ok(_) => {},
                Err(e) => {
                    return Err(e);
                },
            }
        } else if is_word(a, "-h") || is_word(a, "--help") {
            parsed.show_help = true;
        } else if auth_takes_value(a) {
            idx += 1;
            if idx >= args.len() {
                return Err(ArgError::MissingValue(String::from_str(text)));
            }
            assert(all[idx as int] == args[idx as int]@);
            parsed.valued(a, args[idx].clone());
        } else if let Some((flag, value)) = auth_assignment(a) {
            parsed.valued(flag.as_slice(), value);
        } else if is_word(a, "--") {
            positional_only = true;
        } else if is_option(a) {
            return Err(
                ArgError::UnknownOption { scope: OptionScope::Auth, option: String::from_str(text) },
            );
        } else {
            match parsed.positional(text) {
                Ok(_) => {},
                Err(e) => {
                    return Err(e);
                },
            }
        }
        idx += 1;
    }
    Ok(parsed)
}

} // verus!
