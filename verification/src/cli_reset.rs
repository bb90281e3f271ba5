//! The arguments of the `reset` subcommands.

use vstd::prelude::*;
use crate::cli::{
    is_option, is_word, spec_is_option, spec_value_after, value_after, ArgError, ArgErrorView,
    OptionScope,
};
use crate::text::{chars_of, opt_text, parse_u32, spec_parse_u32, string_of, texts};

verus! {

/// The request that the arguments of a reset make. Every reset names a
/// container; `reset repo` names a directory as well, `reset work-repos`
/// a root and a depth, and all but `reset opt-repos` a ref.
pub struct ParsedReset {
    pub show_help: bool,
    pub container: Option<String>,
    pub repo_dir: Option<String>,
    pub root: String,
    pub depth: u32,
    pub refspec: String,
    pub yes: bool,
}

pub ghost struct ParsedResetView {
    pub show_help: bool,
    pub container: Option<Seq<char>>,
    pub repo_dir: Option<Seq<char>>,
    pub root: Seq<char>,
    pub depth: u32,
    pub refspec: Seq<char>,
    pub yes: bool,
}

impl View for ParsedReset {
    type V = ParsedResetView;

    open spec fn view(&self) -> ParsedResetView {
        ParsedResetView {
            show_help: self.show_help,
            container: opt_text(self.container),
            repo_dir: opt_text(self.repo_dir),
            root: self.root@,
            depth: self.depth,
            refspec: self.refspec@,
            yes: self.yes,
        }
    }
}

/// The view of a result.
pub open spec fn reset_result_view(r: Result<ParsedReset, ArgError>) -> Result<
    ParsedResetView,
    ArgErrorView,
> {
    match r {
        Ok(parsed) => Ok(parsed@),
        Err(e) => Err(e@),
    }
}

/// Which reset the arguments are for: it decides which options are
/// known and how many positional arguments there may be.
#[derive(Clone, Copy, Debug, PartialEq, Eq, Structural)]
pub enum ResetKind {
    Repo,
    WorkRepos,
    OptRepos,
    PrivateRepo,
}

/// The request with nothing read yet: the ref is `origin/main`, the
/// root `/work`, and the depth 3.
pub open spec fn spec_reset_start() -> ParsedResetView {
    ParsedResetView {
        show_help: false,
        container: None,
        repo_dir: None,
        root: "/work"@,
        depth: 3,
        refspec: "origin/main"@,
        yes: false,
    }
}

/// Whether a reset takes a ref.
pub open spec fn spec_takes_ref(kind: ResetKind) -> bool {
    kind != ResetKind::OptRepos
}

/// Whether a reset takes a root and a depth.
pub open spec fn spec_takes_root(kind: ResetKind) -> bool {
    kind == ResetKind::WorkRepos
}

/// The request with one more positional argument: the container first;
/// for `reset repo` the directory second.
pub open spec fn spec_reset_positional(kind: ResetKind, p: ParsedResetView, arg: Seq<char>)
    -> Result<ParsedResetView, ArgErrorView> {
    if p.container is None {
        Ok(ParsedResetView { container: Some(arg), ..p })
    } else if kind == ResetKind::Repo && p.repo_dir is None {
        Ok(ParsedResetView { repo_dir: Some(arg), ..p })
    } else {
        Err(ArgErrorView::UnexpectedArg(arg))
    }
}

/// The request with a depth read from a text.
pub open spec fn spec_reset_depth(p: ParsedResetView, text: Seq<char>) -> Result<
    ParsedResetView,
    ArgErrorView,
> {
    match spec_parse_u32(text) {
        Some(depth) => Ok(ParsedResetView { depth, ..p }),
        None => Err(ArgErrorView::InvalidDepth),
    }
}

/// The walk over the arguments of a reset from position `idx` on.
///
/// `-y` and `--yes` skip the confirmation. `--ref`, `--root` and
/// `--depth` take their value from the next argument or from behind a
/// `=`, where the reset knows them. Any other option is an error. What
/// is no option is positional. At the end the depth must not be zero.
pub open spec fn spec_parse_reset_from(
    kind: ResetKind,
    args: Seq<Seq<char>>,
    idx: int,
    p: ParsedResetView,
) -> Result<ParsedResetView, ArgErrorView>
    decreases args.len() - idx,
{
    if idx < 0 || idx >= args.len() {
        if p.depth == 0 {
            Err(ArgErrorView::InvalidDepth)
        } else {
            Ok(p)
        }
    } else {
        let arg = args[idx];
        let next = idx + 1;
        if arg == "-h"@ || arg == "--help"@ {
            spec_parse_reset_from(kind, args, next, ParsedResetView { show_help: true, ..p })
        } else if spec_takes_root(kind) && arg == "--root"@ {
            if next >= args.len() {
                Err(ArgErrorView::MissingValue("--root"@))
            } else {
                spec_parse_reset_from(
                    kind,
                    args,
                    next + 1,
                    ParsedResetView { root: args[next], ..p },
                )
            }
        } else if spec_takes_root(kind) && arg == "--depth"@ {
            if next >= args.len() {
                Err(ArgErrorView::MissingValue("--depth"@))
            } else {
                match spec_reset_depth(p, args[next]) {
                    Ok(q) => spec_parse_reset_from(kind, args, next + 1, q),
                    Err(e) => Err(e),
                }
            }
        } else if spec_takes_ref(kind) && arg == "--ref"@ {
            if next >= args.len() {
                Err(ArgErrorView::MissingValue("--ref"@))
            } else {
                spec_parse_reset_from(
                    kind,
                    args,
                    next + 1,
                    ParsedResetView { refspec: args[next], ..p },
                )
            }
        } else if arg == "-y"@ || arg == "--yes"@ {
            spec_parse_reset_from(kind, args, next, ParsedResetView { yes: true, ..p })
        } else if spec_takes_root(kind) && spec_value_after(arg, "--root="@) is Some {
            spec_parse_reset_from(
                kind,
                args,
                next,
                ParsedResetView { root: spec_value_after(arg, "--root="@).unwrap(), ..p },
            )
        } else if spec_takes_root(kind) && spec_value_after(arg, "--depth="@) is Some {
            match spec_reset_depth(p, spec_value_after(arg, "--depth="@).unwrap()) {
                Ok(q) => spec_parse_reset_from(kind, args, next, q),
                Err(e) => Err(e),
            }
        } else if spec_takes_ref(kind) && spec_value_after(arg, "--ref="@) is Some {
            spec_parse_reset_from(
                kind,
                args,
                next,
                ParsedResetView { refspec: spec_value_after(arg, "--ref="@).unwrap(), ..p },
            )
        } else if spec_is_option(arg) {
            Err(ArgErrorView::UnknownOption { scope: OptionScope::Reset, option: arg })
        } else {
            match spec_reset_positional(kind, p, arg) {
                Ok(q) => spec_parse_reset_from(kind, args, next, q),
                Err(e) => Err(e),
            }
        }
    }
}

/// The request that the arguments of a reset make.
pub open spec fn spec_parse_reset_args(kind: ResetKind, args: Seq<Seq<char>>) -> Result<
    ParsedResetView,
    ArgErrorView,
> {
    spec_parse_reset_from(kind, args, 0, spec_reset_start())
}

impl ParsedReset {
    fn positional(&mut self, kind: ResetKind, arg: &str) -> (r: Result<(), ArgError>)
        ensures
            match r {
                Ok(_) => spec_reset_positional(kind, old(self)@, arg@) == Ok::<
                    ParsedResetView,
                    ArgErrorView,
                >(final(self)@),
                Err(e) => spec_reset_positional(kind, old(self)@, arg@) == Err::<
                    ParsedResetView,
                    ArgErrorView,
                >(e@),
            },
    {
        if self.container.is_none() {
            self.container = Some(String::from_str(arg));
            Ok(())
        } else if kind == ResetKind::Repo && self.repo_dir.is_none() {
            self.repo_dir = Some(String::from_str(arg));
            Ok(())
        } else {
            Err(ArgError::UnexpectedArg(String::from_str(arg)))
        }
    }

    fn set_depth(&mut self, text: &[char]) -> (r: Result<(), ArgError>)
        ensures
            match r {
                Ok(_) => spec_reset_depth(old(self)@, text@) == Ok::<ParsedResetView, ArgErrorView>(
                    final(self)@,
                ),
                Err(e) => spec_reset_depth(old(self)@, text@) == Err::<
                    ParsedResetView,
                    ArgErrorView,
                >(e@),
            },
    {
        match parse_u32(text) {
            Some(depth) => {
                self.depth = depth;
                Ok(())
            },
            None => Err(ArgError::InvalidDepth),
        }
    }
}

fn parse_reset_args(kind: ResetKind, args: &[String]) -> (r: Result<ParsedReset, ArgError>)
    ensures
        reset_result_view(r) == spec_parse_reset_args(kind, texts(args@)),
{
    let ghost all = texts(args@);
    let takes_root = kind == ResetKind::WorkRepos;
    let takes_ref = kind != ResetKind::OptRepos;
    let mut parsed = ParsedReset {
        show_help: false,
        container: None,
        repo_dir: None,
        root: String::from_str("/work"),
        depth: 3,
        refspec: String::from_str("origin/main"),
        yes: false,
    };
    let mut idx: usize = 0;
    while idx < args.len()
        invariant
            idx <= args.len(),
            all == texts(args@),
            takes_root == spec_takes_root(kind),
            takes_ref == spec_takes_ref(kind),
            spec_parse_reset_args(kind, all) == spec_parse_reset_from(
                kind,
                all,
                idx as int,
                parsed@,
            ),
        decreases args.len() - idx,
    {
        let text = args[idx].as_str();
        let arg = chars_of(text);
        let a = arg.as_slice();
        assert(all[idx as int] == a@);
        if is_word(a, "-h") || is_word(a, "--help") {
            parsed.show_help = true;
        } else if takes_root && is_word(a, "--root") {
            idx += 1;
            if idx >= args.len() {
                return Err(ArgError::MissingValue(String::from_str("--root")));
            }
            assert(all[idx as int] == args[idx as int]@);
            parsed.root = args[idx].clone();
        } else if takes_root && is_word(a, "--depth") {
            idx += 1;
            if idx >= args.len() {
                return Err(ArgError::MissingValue(String::from_str("--depth")));
            }
            assert(all[idx as int] == args[idx as int]@);
            let value = chars_of(args[idx].as_str());
            match parsed.set_depth(value.as_slice()) {
                Ok(_) => {},
                Err(e) => {
                    return Err(e);
                },
            }
        } else if takes_ref && is_word(a, "--ref") {
            idx += 1;
            if idx >= args.len() {
                return Err(ArgError::MissingValue(String::from_str("--ref")));
            }
            assert(all[idx as int] == args[idx as int]@);
            parsed.refspec = args[idx].clone();
        } else if is_word(a, "-y") || is_word(a, "--yes") {
            parsed.yes = true;
        } else if takes_root && value_after(a, "--root=").is_some() {
            parsed.root = string_of(value_after(a, "--root=").unwrap());
        } else if takes_root && value_after(a, "--depth=").is_some() {
            match parsed.set_depth(value_after(a, "--depth=").unwrap()) {
                Ok(_) => {},
                Err(e) => {
                    return Err(e);
                },
            }
        } else if takes_ref && value_after(a, "--ref=").is_some() {
            parsed.refspec = string_of(value_after(a, "--ref=").unwrap());
        } else if is_option(a) {
            return Err(
                ArgError::UnknownOption {
                    scope: OptionScope::Reset,
                    option: String::from_str(text),
                },
            );
        } else {
            match parsed.positional(kind, text) {
                Ok(_) => {},
                Err(e) => {
                    return Err(e);
                },
            }
        }
        idx += 1;
    }
    if parsed.depth == 0 {
        Err(ArgError::InvalidDepth)
    } else {
        Ok(parsed)
    }
}

/// Reads the arguments of `reset repo`: a container, a directory, and
/// optionally a ref.
pub fn parse_reset_repo_args(args: &[String]) -> (r: Result<ParsedReset, ArgError>)
    ensures
        reset_result_view(r) == spec_parse_reset_args(ResetKind::Repo, texts(args@)),
{
    parse_reset_args(ResetKind::Repo, args)
}

/// Reads the arguments of `reset work-repos`: a container, and
/// optionally a root, a depth and a ref. A depth that is no number, or
/// zero, is an error: nothing is searched with it.
pub fn parse_reset_work_repos_args(args: &[String]) -> (r: Result<ParsedReset, ArgError>)
    ensures
        reset_result_view(r) == spec_parse_reset_args(ResetKind::WorkRepos, texts(args@)),
        r matches Ok(parsed) ==> parsed.depth > 0,
{
    let r = parse_reset_args(ResetKind::WorkRepos, args);
    proof {
        lemma_parsed_depth_is_positive(ResetKind::WorkRepos, texts(args@), 0, spec_reset_start());
    }
    r
}

/// Reads the arguments of `reset opt-repos`: a container.
pub fn parse_reset_opt_repos_args(args: &[String]) -> (r: Result<ParsedReset, ArgError>)
    ensures
        reset_result_view(r) == spec_parse_reset_args(ResetKind::OptRepos, texts(args@)),
{
    parse_reset_args(ResetKind::OptRepos, args)
}

/// Reads the arguments of `reset private-repo`: a container, and
/// optionally a ref.
pub fn parse_reset_private_repo_args(args: &[String]) -> (r: Result<ParsedReset, ArgError>)
    ensures
        reset_result_view(r) == spec_parse_reset_args(ResetKind::PrivateRepo, texts(args@)),
{
    parse_reset_args(ResetKind::PrivateRepo, args)
}

/// No request that is read has a depth of zero.
pub proof fn lemma_parsed_depth_is_positive(
    kind: ResetKind,
    args: Seq<Seq<char>>,
    idx: int,
    p: ParsedResetView,
)
    ensures
        spec_parse_reset_from(kind, args, idx, p) matches Ok(parsed) ==> parsed.depth > 0,
    decreases args.len() - idx,
{
    if 0 <= idx < args.len() {
        let arg = args[idx];
        let next = idx + 1;
        if arg == "-h"@ || arg == "--help"@ {
            lemma_parsed_depth_is_positive(
                kind,
                args,
                next,
                ParsedResetView { show_help: true, ..p },
            );
        } else if spec_takes_root(kind) && arg == "--root"@ {
            if next < args.len() {
                lemma_parsed_depth_is_positive(
                    kind,
                    args,
                    next + 1,
                    ParsedResetView { root: args[next], ..p },
                );
            }
        } else if spec_takes_root(kind) && arg == "--depth"@ {
            if next < args.len() {
                if let Ok(q) = spec_reset_depth(p, args[next]) {
                    lemma_parsed_depth_is_positive(kind, args, next + 1, q);
                }
            }
        } else if spec_takes_ref(kind) && arg == "--ref"@ {
            if next < args.len() {
                lemma_parsed_depth_is_positive(
                    kind,
                    args,
                    next + 1,
                    ParsedResetView { refspec: args[next], ..p },
                );
            }
        } else if arg == "-y"@ || arg == "--yes"@ {
            lemma_parsed_depth_is_positive(kind, args, next, ParsedResetView { yes: true, ..p });
        } else if spec_takes_root(kind) && spec_value_after(arg, "--root="@) is Some {
            lemma_parsed_depth_is_positive(
                kind,
                args,
                next,
                ParsedResetView { root: spec_value_after(arg, "--root="@).unwrap(), ..p },
            );
        } else if spec_takes_root(kind) && spec_value_after(arg, "--depth="@) is Some {
            if let Ok(q) = spec_reset_depth(p, spec_value_after(arg, "--depth="@).unwrap()) {
                lemma_parsed_depth_is_positive(kind, args, next, q);
            }
        } else if spec_takes_ref(kind) && spec_value_after(arg, "--ref="@) is Some {
            lemma_parsed_depth_is_positive(
                kind,
                args,
                next,
                ParsedResetView { refspec: spec_value_after(arg, "--ref="@).unwrap(), ..p },
            );
        } else if spec_is_option(arg) {
        } else {
            if let Ok(q) = spec_reset_positional(kind, p, arg) {
                lemma_parsed_depth_is_positive(kind, args, next, q);
            }
        }
    }
}

} // verus!
