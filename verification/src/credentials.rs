//! Which credential to apply: the GitHub token, the profile and secret
//! files of the assistant, and the GPG key.
//!
//! Every policy is a function of values that the caller has looked up:
//! flags, environment variables, and what a probe of the keyring or of
//! the git configuration gave. Nothing here reads the environment.

use vstd::prelude::*;
use crate::text::{
    chars_of, find, find_char, is_whitespace, lemma_dedup_push, nonblank, opt_str_text, opt_text,
    push_unique, spec_dedup, spec_find, spec_nonblank, spec_push_unique, spec_trim_end_char,
    spec_trimmed_nonempty, spec_trimmed_opt, str_eq, string_of, texts, trim_end_char,
    trimmed_nonempty, trimmed_opt,
};

verus! {

/// How the GitHub token is chosen.
#[derive(Clone, Copy, Debug, PartialEq, Eq, Structural)]
pub enum AuthMode {
    /// The keyring first, the environment where it holds no token.
    Auto,
    /// The environment alone.
    Env,
    /// The keyring, with the environment as a fallback that is warned of.
    Keyring,
    /// No token at all.
    Disabled,
}

/// Where a credential came from.
#[derive(Clone, Copy, Debug, PartialEq, Eq, Structural)]
pub enum CredentialSource {
    Env,
    Keyring,
    Nothing,
}

/// The outcome of a resolution: the credential, if one was found, its
/// source, and whether the keyring was asked for and had to be replaced
/// by the environment.
pub struct CredentialDecision {
    pub material: Option<String>,
    pub source: CredentialSource,
    pub keyring_fallback: bool,
}

pub ghost struct CredentialDecisionView {
    pub material: Option<Seq<char>>,
    pub source: CredentialSource,
    pub keyring_fallback: bool,
}

impl View for CredentialDecision {
    type V = CredentialDecisionView;

    open spec fn view(&self) -> CredentialDecisionView {
        CredentialDecisionView {
            material: opt_text(self.material),
            source: self.source,
            keyring_fallback: self.keyring_fallback,
        }
    }
}

/// The name under which a source is shown.
pub open spec fn spec_source_label(source: CredentialSource) -> Seq<char> {
    match source {
        CredentialSource::Env => "env"@,
        CredentialSource::Keyring => "gh"@,
        CredentialSource::Nothing => "none"@,
    }
}

/// The warning for a keyring that was asked for by the mode setting
/// `mode` and held no token.
pub open spec fn spec_keyring_fallback_warning(mode: Seq<char>) -> Seq<char> {
    "AGENT_WORKSPACE_AUTH="@ + mode
        + " but no gh keyring token found; falling back to GH_TOKEN/GITHUB_TOKEN"@
}

/// The line that says whose token goes where, and from which source.
pub open spec fn spec_github_auth_notice(
    container: Seq<char>,
    host: Seq<char>,
    source: CredentialSource,
) -> Seq<char> {
    "auth: github -> "@ + container + " ("@ + host + "; source="@ + spec_source_label(source)
        + ")"@
}

impl CredentialSource {
    /// The name under which the source is shown.
    pub fn label(&self) -> (r: String)
        ensures
            r@ == spec_source_label(*self),
    {
        match self {
            CredentialSource::Env => String::from_str("env"),
            CredentialSource::Keyring => String::from_str("gh"),
            CredentialSource::Nothing => String::from_str("none"),
        }
    }
}

impl CredentialDecision {
    /// The warning that goes with the decision: one where the keyring
    /// was asked for by name and the environment had to stand in, none
    /// else. `mode` is the mode setting that the decision was made for.
    pub fn warning(&self, mode: &str) -> (r: Option<String>)
        ensures
            opt_text(r) == (if self.keyring_fallback {
                Some(spec_keyring_fallback_warning(mode@))
            } else {
                None
            }),
    {
        if self.keyring_fallback {
            let mut out = String::from_str("AGENT_WORKSPACE_AUTH=");
            out.append(mode);
            out.append(" but no gh keyring token found; falling back to GH_TOKEN/GITHUB_TOKEN");
            Some(out)
        } else {
            None
        }
    }
}

/// The line that says whose token goes where, and from which source.
pub fn github_auth_notice(container: &str, host: &str, source: CredentialSource) -> (r: String)
    ensures
        r@ == spec_github_auth_notice(container@, host@, source),
{
    let mut out = String::from_str("auth: github -> ");
    out.append(container);
    out.append(" (");
    out.append(host);
    out.append("; source=");
    let label = source.label();
    out.append(label.as_str());
    out.append(")");
    out
}

/// Why no GitHub token can be applied.
pub enum AuthError {
    /// The mode is none of `auto`, `gh`, `keyring`, `env`, `none`.
    UnknownMode(String),
    /// The mode is `none` and a token is required.
    TokenDisabled,
    /// Neither the keyring nor the environment holds a token.
    NoToken,
}

pub ghost enum AuthErrorView {
    UnknownMode(Seq<char>),
    TokenDisabled,
    NoToken,
}

impl View for AuthError {
    type V = AuthErrorView;

    open spec fn view(&self) -> AuthErrorView {
        match self {
            AuthError::UnknownMode(mode) => AuthErrorView::UnknownMode(mode@),
            AuthError::TokenDisabled => AuthErrorView::TokenDisabled,
            AuthError::NoToken => AuthErrorView::NoToken,
        }
    }
}

impl AuthErrorView {
    /// The message shown for the error.
    pub open spec fn message(self) -> Seq<char> {
        match self {
            AuthErrorView::UnknownMode(mode) => "unknown AGENT_WORKSPACE_AUTH="@ + mode
                + " (expected: auto|gh|env|none)"@,
            AuthErrorView::TokenDisabled => "AGENT_WORKSPACE_AUTH=none; no token to apply"@,
            AuthErrorView::NoToken =>
                "no GitHub token found (gh keyring or GH_TOKEN/GITHUB_TOKEN)"@,
        }
    }
}

impl AuthError {
    /// The message shown for the error.
    pub fn message(&self) -> (r: String)
        ensures
            r@ == self@.message(),
    {
        match self {
            AuthError::UnknownMode(mode) => {
                let mut out = String::from_str("unknown AGENT_WORKSPACE_AUTH=");
                out.append(mode.as_str());
                out.append(" (expected: auto|gh|env|none)");
                out
            },
            AuthError::TokenDisabled => String::from_str(
                "AGENT_WORKSPACE_AUTH=none; no token to apply",
            ),
            AuthError::NoToken => String::from_str(
                "no GitHub token found (gh keyring or GH_TOKEN/GITHUB_TOKEN)",
            ),
        }
    }
}

/// The mode setting in force: the first variable unless it is unset or
/// blank, else the second as it stands, else `auto`.
pub open spec fn spec_auth_mode_setting(first: Option<Seq<char>>, second: Option<Seq<char>>) -> Seq<
    char,
> {
    match spec_nonblank(first) {
        Some(mode) => mode,
        None => match second {
            Some(mode) => mode,
            None => "auto"@,
        },
    }
}

/// The mode setting in force, from the values of the two variables that
/// can hold it.
pub fn auth_mode_setting(first: Option<&str>, second: Option<&str>) -> (r: String)
    ensures
        r@ == spec_auth_mode_setting(opt_str_text(first), opt_str_text(second)),
{
    match nonblank(first) {
        Some(mode) => mode,
        None => match second {
            Some(mode) => String::from_str(mode),
            None => String::from_str("auto"),
        },
    }
}

/// The mode that a setting names; the empty setting is `auto`.
pub open spec fn spec_parse_auth_mode(mode: Seq<char>) -> Option<AuthMode> {
    if mode == "none"@ {
        Some(AuthMode::Disabled)
    } else if mode == "env"@ {
        Some(AuthMode::Env)
    } else if mode == "gh"@ || mode == "keyring"@ {
        Some(AuthMode::Keyring)
    } else if mode == "auto"@ || mode.len() == 0 {
        Some(AuthMode::Auto)
    } else {
        None
    }
}

/// Reads a mode setting. Any other text than the five known ones is an
/// error that carries the text.
pub fn parse_auth_mode(mode: &str) -> (r: Result<AuthMode, AuthError>)
    ensures
        match r {
            Ok(parsed) => spec_parse_auth_mode(mode@) == Some(parsed),
            Err(e) => spec_parse_auth_mode(mode@) is None && e@ == AuthErrorView::UnknownMode(
                mode@,
            ),
        },
{
    if str_eq(mode, "none") {
        Ok(AuthMode::Disabled)
    } else if str_eq(mode, "env") {
        Ok(AuthMode::Env)
    } else if str_eq(mode, "gh") || str_eq(mode, "keyring") {
        Ok(AuthMode::Keyring)
    } else if str_eq(mode, "auto") || mode.unicode_len() == 0 {
        Ok(AuthMode::Auto)
    } else {
        Err(AuthError::UnknownMode(String::from_str(mode)))
    }
}

/// Whether a mode asks the keyring at all: only then is it worth
/// probing.
pub fn asks_keyring(mode: AuthMode) -> (r: bool)
    ensures
        r == (mode == AuthMode::Auto || mode == AuthMode::Keyring),
{
    match mode {
        AuthMode::Auto => true,
        AuthMode::Keyring => true,
        _ => false,
    }
}

/// The token that the environment holds: the first of the two values
/// that is not blank, as it stands.
pub open spec fn spec_env_token(gh_token: Option<Seq<char>>, github_token: Option<Seq<char>>)
    -> Option<Seq<char>> {
    match spec_nonblank(gh_token) {
        Some(token) => Some(token),
        None => spec_nonblank(github_token),
    }
}

/// The token that the environment holds, from the values of `GH_TOKEN`
/// and `GITHUB_TOKEN`.
pub fn env_token(gh_token: Option<&str>, github_token: Option<&str>) -> (r: Option<String>)
    ensures
        opt_text(r) == spec_env_token(opt_str_text(gh_token), opt_str_text(github_token)),
{
    match nonblank(gh_token) {
        Some(token) => Some(token),
        None => nonblank(github_token),
    }
}

/// The decision for a mode, a keyring token and an environment token.
pub open spec fn spec_decide_github_token(
    mode: AuthMode,
    keyring: Option<Seq<char>>,
    env: Option<Seq<char>>,
) -> CredentialDecisionView {
    match mode {
        AuthMode::Disabled => CredentialDecisionView {
            material: None,
            source: CredentialSource::Nothing,
            keyring_fallback: false,
        },
        AuthMode::Env => CredentialDecisionView {
            material: env,
            source: CredentialSource::Env,
            keyring_fallback: false,
        },
        AuthMode::Keyring | AuthMode::Auto => match keyring {
            Some(token) => CredentialDecisionView {
                material: Some(token),
                source: CredentialSource::Keyring,
                keyring_fallback: false,
            },
            None => CredentialDecisionView {
                material: env,
                source: CredentialSource::Env,
                keyring_fallback: mode == AuthMode::Keyring,
            },
        },
    }
}

/// Chooses the token for a mode. The keyring is preferred in the modes
/// that ask it, and is never a hard blocker: where it holds no token the
/// environment's token is taken, with `keyring_fallback` set where the
/// keyring was asked for by name.
pub fn decide_github_token(mode: AuthMode, keyring: Option<String>, env: Option<String>) -> (r:
    CredentialDecision)
    ensures
        r@ == spec_decide_github_token(mode, opt_text(keyring), opt_text(env)),
{
    match mode {
        AuthMode::Disabled => CredentialDecision {
            material: None,
            source: CredentialSource::Nothing,
            keyring_fallback: false,
        },
        AuthMode::Env => CredentialDecision {
            material: env,
            source: CredentialSource::Env,
            keyring_fallback: false,
        },
        AuthMode::Keyring => match keyring {
            Some(token) => CredentialDecision {
                material: Some(token),
                source: CredentialSource::Keyring,
                keyring_fallback: false,
            },
            None => CredentialDecision {
                material: env,
                source: CredentialSource::Env,
                keyring_fallback: true,
            },
        },
        AuthMode::Auto => match keyring {
            Some(token) => CredentialDecision {
                material: Some(token),
                source: CredentialSource::Keyring,
                keyring_fallback: false,
            },
            None => CredentialDecision {
                material: env,
                source: CredentialSource::Env,
                keyring_fallback: false,
            },
        },
    }
}

/// The decision for a mode setting, the output of a keyring probe (none
/// where the probe failed) and the two environment variables.
pub open spec fn spec_resolve_github_token(
    mode: Seq<char>,
    keyring_output: Option<Seq<char>>,
    gh_token: Option<Seq<char>>,
    github_token: Option<Seq<char>>,
) -> Result<CredentialDecisionView, AuthErrorView> {
    match spec_parse_auth_mode(mode) {
        Some(parsed) => Ok(
            spec_decide_github_token(
                parsed,
                spec_trimmed_opt(keyring_output),
                spec_env_token(gh_token, github_token),
            ),
        ),
        None => Err(AuthErrorView::UnknownMode(mode)),
    }
}

/// The view of a result.
pub open spec fn decision_result_view(r: Result<CredentialDecision, AuthError>) -> Result<
    CredentialDecisionView,
    AuthErrorView,
> {
    match r {
        Ok(decision) => Ok(decision@),
        Err(e) => Err(e@),
    }
}

/// Resolves the GitHub token from the mode setting, what the keyring
/// probe printed (trimmed here; `None` where the probe failed), and the
/// values of `GH_TOKEN` and `GITHUB_TOKEN`.
pub fn resolve_github_token(
    mode: &str,
    keyring_output: Option<&str>,
    gh_token: Option<&str>,
    github_token: Option<&str>,
) -> (r: Result<CredentialDecision, AuthError>)
    ensures
        decision_result_view(r) == spec_resolve_github_token(
            mode@,
            opt_str_text(keyring_output),
            opt_str_text(gh_token),
            opt_str_text(github_token),
        ),
{
    match parse_auth_mode(mode) {
        Ok(parsed) => Ok(
            decide_github_token(
                parsed,
                trimmed_opt(keyring_output),
                env_token(gh_token, github_token),
            ),
        ),
        Err(e) => Err(e),
    }
}

/// The token of a decision, or the reason why there is none.
pub open spec fn spec_required_token(decision: CredentialDecisionView) -> Result<
    Seq<char>,
    AuthErrorView,
> {
    match decision.material {
        Some(token) => Ok(token),
        None => if decision.source == CredentialSource::Nothing {
            Err(AuthErrorView::TokenDisabled)
        } else {
            Err(AuthErrorView::NoToken)
        },
    }
}

/// Takes the token out of a decision. A decision without one is an
/// error: `TokenDisabled` where the mode was `none`, `NoToken` else.
pub fn required_token(decision: CredentialDecision) -> (r: Result<String, AuthError>)
    ensures
        match r {
            Ok(token) => spec_required_token(decision@) == Ok::<Seq<char>, AuthErrorView>(token@),
            Err(e) => spec_required_token(decision@) == Err::<Seq<char>, AuthErrorView>(e@),
        },
{
    match decision.material {
        Some(token) => Ok(token),
        None => match decision.source {
            CredentialSource::Nothing => Err(AuthError::TokenDisabled),
            _ => Err(AuthError::NoToken),
        },
    }
}

/// The GitHub host: the flag where it is not blank (trimmed), else the
/// environment's value where that is not blank, else `github.com`.
pub open spec fn spec_github_host(flag: Option<Seq<char>>, env: Option<Seq<char>>) -> Seq<char> {
    match spec_trimmed_opt(flag) {
        Some(host) => host,
        None => match spec_nonblank(env) {
            Some(host) => host,
            None => "github.com"@,
        },
    }
}

/// The GitHub host, from the flag and the value of `GITHUB_HOST`.
pub fn github_host(flag: Option<&str>, env: Option<&str>) -> (r: String)
    ensures
        r@ == spec_github_host(opt_str_text(flag), opt_str_text(env)),
{
    match trimmed_opt(flag) {
        Some(host) => host,
        None => match nonblank(env) {
            Some(host) => host,
            None => String::from_str("github.com"),
        },
    }
}

/// The first of three optional values that is not blank, trimmed.
pub open spec fn spec_first_trimmed(
    first: Option<Seq<char>>,
    second: Option<Seq<char>>,
    third: Option<Seq<char>>,
) -> Option<Seq<char>> {
    match spec_trimmed_opt(first) {
        Some(value) => Some(value),
        None => match spec_trimmed_opt(second) {
            Some(value) => Some(value),
            None => spec_trimmed_opt(third),
        },
    }
}

/// The first of three optional values that is not blank, trimmed.
pub fn first_trimmed(first: Option<&str>, second: Option<&str>, third: Option<&str>) -> (r:
    Option<String>)
    ensures
        opt_text(r) == spec_first_trimmed(
            opt_str_text(first),
            opt_str_text(second),
            opt_str_text(third),
        ),
{
    match trimmed_opt(first) {
        Some(value) => Some(value),
        None => match trimmed_opt(second) {
            Some(value) => Some(value),
            None => trimmed_opt(third),
        },
    }
}

/// Whether the text holds a white-space character.
pub open spec fn spec_has_whitespace(s: Seq<char>) -> bool {
    exists|i: int| 0 <= i < s.len() && is_whitespace(#[trigger] s[i])
}

/// Whether the text holds a white-space character.
pub fn has_whitespace(s: &[char]) -> (r: bool)
    ensures
        r == spec_has_whitespace(s@),
{
    let mut i: usize = 0;
    while i < s.len()
        invariant
            i <= s.len(),
            forall|j: int| 0 <= j < i ==> !is_whitespace(#[trigger] s[j]),
        decreases s.len() - i,
    {
        if is_whitespace(s[i]) {
            return true;
        }
        i += 1;
    }
    false
}

/// A profile name that can stand as one component of a file path: it
/// holds no `/`, no `..` and no white space.
pub open spec fn spec_profile_is_safe(profile: Seq<char>) -> bool {
    &&& !profile.contains('/')
    &&& spec_find(profile, ".."@) > profile.len()
    &&& !spec_has_whitespace(profile)
}

/// Whether a profile name can stand as one component of a file path.
pub fn profile_is_safe(profile: &str) -> (r: bool)
    ensures
        r == spec_profile_is_safe(profile@),
{
    let cs = chars_of(profile);
    let dots = chars_of("..");
    proof {
        crate::text::lemma_find_char(cs@, '/');
    }
    let slash = find_char(cs.as_slice(), '/');
    if slash < cs.len() {
        return false;
    }
    if find(cs.as_slice(), dots.as_slice()).is_some() {
        return false;
    }
    !has_whitespace(cs.as_slice())
}

/// A profile name that was asked for and cannot be used.
pub enum CodexError {
    InvalidProfile(String),
}

pub ghost enum CodexErrorView {
    InvalidProfile(Seq<char>),
}

impl View for CodexError {
    type V = CodexErrorView;

    open spec fn view(&self) -> CodexErrorView {
        match self {
            CodexError::InvalidProfile(name) => CodexErrorView::InvalidProfile(name@),
        }
    }
}

impl CodexError {
    /// The message shown for the error.
    pub fn message(&self) -> (r: String)
        ensures
            r@ == (match self@ {
                CodexErrorView::InvalidProfile(name) => "invalid codex profile name: "@ + name,
            }),
    {
        match self {
            CodexError::InvalidProfile(name) => {
                let mut out = String::from_str("invalid codex profile name: ");
                out.append(name.as_str());
                out
            },
        }
    }
}

/// The profile to apply: the flag, else the first, else the second
/// environment variable, each trimmed and skipped where blank. A profile
/// that is not safe as a path component is rejected.
pub open spec fn spec_resolve_codex_profile(
    flag: Option<Seq<char>>,
    first_env: Option<Seq<char>>,
    second_env: Option<Seq<char>>,
) -> Result<Option<Seq<char>>, CodexErrorView> {
    match spec_first_trimmed(flag, first_env, second_env) {
        Some(profile) => if spec_profile_is_safe(profile) {
            Ok(Some(profile))
        } else {
            Err(CodexErrorView::InvalidProfile(profile))
        },
        None => Ok(None),
    }
}

/// Resolves the profile name. `Ok(None)` says that no profile was asked
/// for, so that the generic credential file is to be used.
pub fn resolve_codex_profile(
    flag: Option<&str>,
    first_env: Option<&str>,
    second_env: Option<&str>,
) -> (r: Result<Option<String>, CodexError>)
    ensures
        match r {
            Ok(profile) => spec_resolve_codex_profile(
                opt_str_text(flag),
                opt_str_text(first_env),
                opt_str_text(second_env),
            ) == Ok::<Option<Seq<char>>, CodexErrorView>(opt_text(profile)),
            Err(e) => spec_resolve_codex_profile(
                opt_str_text(flag),
                opt_str_text(first_env),
                opt_str_text(second_env),
            ) == Err::<Option<Seq<char>>, CodexErrorView>(e@),
        },
{
    match first_trimmed(flag, first_env, second_env) {
        Some(profile) => {
            if profile_is_safe(profile.as_str()) {
                Ok(Some(profile))
            } else {
                Err(CodexError::InvalidProfile(profile))
            }
        },
        None => Ok(None),
    }
}

/// The generic credential file: the configured one, else the one under
/// the home directory, else the one of the root user.
pub open spec fn spec_resolve_codex_auth_file(
    auth_file: Option<Seq<char>>,
    home: Option<Seq<char>>,
) -> Seq<char> {
    match spec_nonblank(auth_file) {
        Some(path) => path,
        None => match spec_nonblank(home) {
            Some(dir) => dir + "/.codex/auth.json"@,
            None => "/root/.codex/auth.json"@,
        },
    }
}

/// The generic credential file, from the values of `CODEX_AUTH_FILE` and
/// `HOME`.
pub fn resolve_codex_auth_file(auth_file: Option<&str>, home: Option<&str>) -> (r: String)
    ensures
        r@ == spec_resolve_codex_auth_file(opt_str_text(auth_file), opt_str_text(home)),
{
    match nonblank(auth_file) {
        Some(path) => path,
        None => match nonblank(home) {
            Some(dir) => {
                let mut out = dir;
                out.append("/.codex/auth.json");
                out
            },
            None => String::from_str("/root/.codex/auth.json"),
        },
    }
}

/// The directories in which secret files are looked for: the configured
/// one, two under the home directory, then three fixed ones.
pub open spec fn spec_codex_secret_dirs(secret_dir: Option<Seq<char>>, home: Option<Seq<char>>)
    -> Seq<Seq<char>> {
    let configured = match spec_nonblank(secret_dir) {
        Some(dir) => seq![dir],
        None => Seq::empty(),
    };
    let under_home = match spec_nonblank(home) {
        Some(dir) => seq![dir + "/.config/codex_secrets"@, dir + "/codex_secrets"@],
        None => Seq::empty(),
    };
    configured + under_home + seq![
        "/home/agent/codex_secrets"@,
        "/home/codex/codex_secrets"@,
        "/opt/zsh-kit/scripts/_features/codex/secrets"@,
    ]
}

/// The directories in which secret files are looked for, from the
/// values of `CODEX_SECRET_DIR` and `HOME`.
pub fn codex_secret_dirs(secret_dir: Option<&str>, home: Option<&str>) -> (r: Vec<String>)
    ensures
        texts(r@) == spec_codex_secret_dirs(opt_str_text(secret_dir), opt_str_text(home)),
{
    let mut dirs: Vec<String> = Vec::new();
    match nonblank(secret_dir) {
        Some(dir) => {
            dirs.push(dir);
        },
        None => {},
    }
    match nonblank(home) {
        Some(dir) => {
            let mut config = dir.clone();
            config.append("/.config/codex_secrets");
            let mut plain = dir;
            plain.append("/codex_secrets");
            dirs.push(config);
            dirs.push(plain);
        },
        None => {},
    }
    dirs.push(String::from_str("/home/agent/codex_secrets"));
    dirs.push(String::from_str("/home/codex/codex_secrets"));
    dirs.push(String::from_str("/opt/zsh-kit/scripts/_features/codex/secrets"));
    assert(texts(dirs@) =~= spec_codex_secret_dirs(opt_str_text(secret_dir), opt_str_text(home)));
    dirs
}

/// The two files of a profile in a directory: `<profile>.json` and
/// `<profile>`. A directory that is empty once its trailing slashes are
/// gone has none.
pub open spec fn spec_profile_files_in(dir: Seq<char>, profile: Seq<char>) -> Seq<Seq<char>> {
    let base = spec_trim_end_char(dir, '/');
    if base.len() == 0 {
        Seq::empty()
    } else {
        seq![base + "/"@ + profile + ".json"@, base + "/"@ + profile]
    }
}

/// The files of a profile in each directory, directory by directory.
pub open spec fn spec_profile_files(dirs: Seq<Seq<char>>, profile: Seq<char>) -> Seq<Seq<char>>
    decreases dirs.len(),
{
    if dirs.len() == 0 {
        Seq::empty()
    } else {
        spec_profile_files(dirs.drop_last(), profile) + spec_profile_files_in(
            dirs.last(),
            profile,
        )
    }
}

/// The secret files to try for a profile, in order, each once. A blank
/// profile has none.
pub open spec fn spec_resolve_codex_profile_auth_files(
    profile: Seq<char>,
    secret_dir: Option<Seq<char>>,
    home: Option<Seq<char>>,
) -> Seq<Seq<char>> {
    match spec_trimmed_nonempty(profile) {
        Some(name) => spec_dedup(spec_profile_files(spec_codex_secret_dirs(secret_dir, home), name)),
        None => Seq::empty(),
    }
}

/// The secret files to try for a profile, in the order in which they
/// are to be tried.
pub fn resolve_codex_profile_auth_files(
    profile: &str,
    secret_dir: Option<&str>,
    home: Option<&str>,
) -> (r: Vec<String>)
    ensures
        texts(r@) == spec_resolve_codex_profile_auth_files(
            profile@,
            opt_str_text(secret_dir),
            opt_str_text(home),
        ),
{
    let mut out: Vec<String> = Vec::new();
    let name = match trimmed_nonempty(profile) {
        Some(name) => name,
        None => {
            assert(texts(out@) =~= Seq::<Seq<char>>::empty());
            return out;
        },
    };
    let dirs = codex_secret_dirs(secret_dir, home);
    let ghost all = texts(dirs@);
    let mut i: usize = 0;
    assert(all.take(0) =~= Seq::<Seq<char>>::empty());
    assert(texts(out@) =~= Seq::<Seq<char>>::empty());
    while i < dirs.len()
        invariant
            i <= dirs.len(),
            all == texts(dirs@),
            texts(out@) == spec_dedup(spec_profile_files(all.take(i as int), name@)),
        decreases dirs.len() - i,
    {
        let dir = chars_of(dirs[i].as_str());
        let base = trim_end_char(dir.as_slice(), '/');
        let ghost earlier = spec_profile_files(all.take(i as int), name@);
        proof {
            assert(all.take(i + 1).drop_last() =~= all.take(i as int));
            assert(all.take(i + 1).last() == dirs[i as int]@);
        }
        if base.len() > 0 {
            let mut plain = string_of(base);
            plain.append("/");
            plain.append(name.as_str());
            let mut json = plain.clone();
            json.append(".json");
            proof {
                lemma_dedup_push(earlier, json@);
                lemma_dedup_push(earlier.push(json@), plain@);
                assert(earlier.push(json@).push(plain@) =~= earlier + seq![json@, plain@]);
            }
            push_unique(&mut out, json);
            push_unique(&mut out, plain);
        } else {
            assert(earlier + Seq::<Seq<char>>::empty() =~= earlier);
        }
        i += 1;
    }
    assert(all.take(dirs.len() as int) =~= all);
    out
}

/// Every file that may hold the credential for a profile: its secret
/// files, then the generic credential file unless it is among them.
pub open spec fn spec_codex_fallback_files(
    profile: Seq<char>,
    secret_dir: Option<Seq<char>>,
    home: Option<Seq<char>>,
    auth_file: Option<Seq<char>>,
) -> Seq<Seq<char>> {
    spec_push_unique(
        spec_resolve_codex_profile_auth_files(profile, secret_dir, home),
        spec_resolve_codex_auth_file(auth_file, home),
    )
}

/// Every file that may hold the credential for a profile, in the order
/// in which they are to be tried.
pub fn codex_fallback_files(
    profile: &str,
    secret_dir: Option<&str>,
    home: Option<&str>,
    auth_file: Option<&str>,
) -> (r: Vec<String>)
    ensures
        texts(r@) == spec_codex_fallback_files(
            profile@,
            opt_str_text(secret_dir),
            opt_str_text(home),
            opt_str_text(auth_file),
        ),
{
    let mut files = resolve_codex_profile_auth_files(profile, secret_dir, home);
    push_unique(&mut files, resolve_codex_auth_file(auth_file, home));
    files
}

/// No GPG key is named anywhere.
#[derive(Clone, Copy, Debug, PartialEq, Eq, Structural)]
pub struct MissingGpgKey;

/// The key that the flag or the environment names.
pub open spec fn spec_configured_gpg_key(
    flag: Option<Seq<char>>,
    first_env: Option<Seq<char>>,
    second_env: Option<Seq<char>>,
) -> Option<Seq<char>> {
    spec_first_trimmed(flag, first_env, second_env)
}

/// The key that the flag or the environment names, if either does. Only
/// where this gives `None` is the git configuration worth asking.
pub fn configured_gpg_key(
    flag: Option<&str>,
    first_env: Option<&str>,
    second_env: Option<&str>,
) -> (r: Option<String>)
    ensures
        opt_text(r) == spec_configured_gpg_key(
            opt_str_text(flag),
            opt_str_text(first_env),
            opt_str_text(second_env),
        ),
{
    first_trimmed(flag, first_env, second_env)
}

/// The GPG key to export: the flag, else the two environment variables,
/// else the signing key of the git configuration; each trimmed, and
/// skipped where blank.
pub open spec fn spec_resolve_gpg_key(
    flag: Option<Seq<char>>,
    first_env: Option<Seq<char>>,
    second_env: Option<Seq<char>>,
    signing_key: Option<Seq<char>>,
) -> Option<Seq<char>> {
    match spec_first_trimmed(flag, first_env, second_env) {
        Some(key) => Some(key),
        None => spec_trimmed_opt(signing_key),
    }
}

/// Resolves the GPG key. There is no silent default: where no source
/// names a key the result is an error.
pub fn resolve_gpg_key(
    flag: Option<&str>,
    first_env: Option<&str>,
    second_env: Option<&str>,
    signing_key: Option<&str>,
) -> (r: Result<String, MissingGpgKey>)
    ensures
        match r {
            Ok(key) => spec_resolve_gpg_key(
                opt_str_text(flag),
                opt_str_text(first_env),
                opt_str_text(second_env),
                opt_str_text(signing_key),
            ) == Some(key@),
            Err(_) => spec_resolve_gpg_key(
                opt_str_text(flag),
                opt_str_text(first_env),
                opt_str_text(second_env),
                opt_str_text(signing_key),
            ) is None,
        },
{
    match first_trimmed(flag, first_env, second_env) {
        Some(key) => Ok(key),
        None => match trimmed_opt(signing_key) {
            Some(key) => Ok(key),
            None => Err(MissingGpgKey),
        },
    }
}

} // verus!
