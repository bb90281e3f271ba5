//! Repository references: one parser for `owner/repo`, HTTP(S) URLs,
//! scp-style `git@host:owner/repo` and `ssh://git@host/owner/repo`.
//!
//! Whatever transport the reference names, the clone URL that comes out
//! is an HTTPS one: token authentication applies to HTTPS alone.

use vstd::prelude::*;
use crate::text::{
    chars_of, find_char, is_whitespace, lemma_before_first_has_none, lemma_split_once_joined,
    lemma_trim_fixed, lemma_trim_idempotent, lemma_trim_keeps_absence, slice, spec_find_char,
    spec_split_once, spec_trim, spec_trim_end_char, spec_trim_end_text, split_once, starts_with,
    string_of, trim, trim_end_char, trim_end_text,
};

verus! {

/// A parsed repository reference. Every value is well-formed: it is
/// made by the parser alone, and never changed.
pub struct RepoSpec {
    owner: String,
    repo: String,
    owner_repo: String,
    clone_url: String,
}

/// What a [`RepoSpec`] holds, as plain texts.
pub ghost struct RepoSpecView {
    pub owner: Seq<char>,
    pub repo: Seq<char>,
    pub owner_repo: Seq<char>,
    pub clone_url: Seq<char>,
}

impl RepoSpecView {
    /// Owner and repository are non-empty single path segments without
    /// surrounding white space, `owner_repo` joins them with a slash, and
    /// the clone URL is an HTTPS URL that ends in `/owner/repo.git`.
    pub open spec fn wf(self) -> bool {
        &&& self.owner.len() > 0
        &&& self.repo.len() > 0
        &&& !self.owner.contains('/')
        &&& !self.repo.contains('/')
        &&& spec_trim(self.owner) == self.owner
        &&& spec_trim(self.repo) == self.repo
        &&& self.owner_repo == self.owner + "/"@ + self.repo
        &&& "https://"@.is_prefix_of(self.clone_url)
        &&& ("/"@ + self.owner + "/"@ + self.repo + ".git"@).is_suffix_of(self.clone_url)
    }
}

impl View for RepoSpec {
    type V = RepoSpecView;

    closed spec fn view(&self) -> RepoSpecView {
        RepoSpecView {
            owner: self.owner@,
            repo: self.repo@,
            owner_repo: self.owner_repo@,
            clone_url: self.clone_url@,
        }
    }
}

impl RepoSpec {
    /// Every value of the type is well-formed.
    #[verifier::type_invariant]
    closed spec fn well_formed(self) -> bool {
        self@.wf()
    }

    /// The owner of the repository.
    pub fn owner(&self) -> (r: &str)
        ensures
            r@ == self@.owner,
            self@.wf(),
    {
        proof {
            use_type_invariant(self);
        }
        self.owner.as_str()
    }

    /// The name of the repository.
    pub fn repo(&self) -> (r: &str)
        ensures
            r@ == self@.repo,
            self@.wf(),
    {
        proof {
            use_type_invariant(self);
        }
        self.repo.as_str()
    }

    /// Owner and name, joined by a slash.
    pub fn owner_repo(&self) -> (r: &str)
        ensures
            r@ == self@.owner_repo,
            self@.wf(),
    {
        proof {
            use_type_invariant(self);
        }
        self.owner_repo.as_str()
    }

    /// The HTTPS URL to clone from.
    pub fn clone_url(&self) -> (r: &str)
        ensures
            r@ == self@.clone_url,
            self@.wf(),
    {
        proof {
            use_type_invariant(self);
        }
        self.clone_url.as_str()
    }
}

/// The view of an optional [`RepoSpec`].
pub open spec fn opt_repo_view(r: Option<RepoSpec>) -> Option<RepoSpecView> {
    match r {
        Some(spec) => Some(spec@),
        None => None,
    }
}

/// Host and path of a trimmed reference: by the scheme it starts with,
/// or the default host and the whole text where it starts with none.
pub open spec fn spec_host_and_path(cleaned: Seq<char>, default_host: Seq<char>) -> Option<
    (Seq<char>, Seq<char>),
> {
    if "http://"@.is_prefix_of(cleaned) {
        spec_split_once(cleaned.skip("http://"@.len() as int), '/')
    } else if "https://"@.is_prefix_of(cleaned) {
        spec_split_once(cleaned.skip("https://"@.len() as int), '/')
    } else if "git@"@.is_prefix_of(cleaned) {
        spec_split_once(cleaned.skip("git@"@.len() as int), ':')
    } else if "ssh://git@"@.is_prefix_of(cleaned) {
        spec_split_once(cleaned.skip("ssh://git@"@.len() as int), '/')
    } else {
        Some((default_host, cleaned))
    }
}

/// Owner and repository of a path: trailing `.git` and then trailing
/// slashes go, the first two segments are trimmed, further ones dropped.
pub open spec fn spec_owner_and_repo(path: Seq<char>) -> Option<(Seq<char>, Seq<char>)> {
    let stripped = spec_trim_end_char(spec_trim_end_text(path, ".git"@), '/');
    match spec_split_once(stripped, '/') {
        None => None,
        Some((first, rest)) => {
            let owner = spec_trim(first);
            let repo = spec_trim(rest.take(spec_find_char(rest, '/')));
            if owner.len() == 0 || repo.len() == 0 {
                None
            } else {
                Some((owner, repo))
            }
        },
    }
}

/// The HTTPS clone URL of `owner/repo` on `host`.
pub open spec fn spec_clone_url(host: Seq<char>, owner: Seq<char>, repo: Seq<char>) -> Seq<char> {
    "https://"@ + host + "/"@ + owner + "/"@ + repo + ".git"@
}

/// What a repository reference denotes, if anything.
pub open spec fn spec_parse_repo_spec(input: Seq<char>, default_host: Seq<char>) -> Option<
    RepoSpecView,
> {
    let cleaned = spec_trim(input);
    if cleaned.len() == 0 {
        None
    } else {
        match spec_host_and_path(cleaned, default_host) {
            None => None,
            Some((host, path)) => match spec_owner_and_repo(path) {
                None => None,
                Some((owner, repo)) => Some(
                    RepoSpecView {
                        owner,
                        repo,
                        owner_repo: owner + "/"@ + repo,
                        clone_url: spec_clone_url(host, owner, repo),
                    },
                ),
            },
        }
    }
}

fn host_and_path<'a>(cleaned: &'a [char], default_host: &'a [char]) -> (r: Option<
    (&'a [char], &'a [char]),
>)
    ensures
        match r {
            Some((host, path)) => spec_host_and_path(cleaned@, default_host@) == Some(
                (host@, path@),
            ),
            None => spec_host_and_path(cleaned@, default_host@) is None,
        },
{
    let http = chars_of("http://");
    let https = chars_of("https://");
    let scp = chars_of("git@");
    let ssh = chars_of("ssh://git@");
    if starts_with(cleaned, http.as_slice()) {
        split_once(slice(cleaned, http.len(), cleaned.len()), '/')
    } else if starts_with(cleaned, https.as_slice()) {
        split_once(slice(cleaned, https.len(), cleaned.len()), '/')
    } else if starts_with(cleaned, scp.as_slice()) {
        split_once(slice(cleaned, scp.len(), cleaned.len()), ':')
    } else if starts_with(cleaned, ssh.as_slice()) {
        split_once(slice(cleaned, ssh.len(), cleaned.len()), '/')
    } else {
        Some((default_host, cleaned))
    }
}

fn owner_and_repo<'a>(path: &'a [char]) -> (r: Option<(&'a [char], &'a [char])>)
    ensures
        match r {
            Some((owner, repo)) => spec_owner_and_repo(path@) == Some((owner@, repo@)),
            None => spec_owner_and_repo(path@) is None,
        },
{
    let suffix = chars_of(".git");
    let stripped = trim_end_char(trim_end_text(path, suffix.as_slice()), '/');
    match split_once(stripped, '/') {
        None => None,
        Some((first, rest)) => {
            let owner = trim(first);
            let repo = trim(slice(rest, 0, find_char(rest, '/')));
            if owner.len() == 0 || repo.len() == 0 {
                None
            } else {
                Some((owner, repo))
            }
        },
    }
}

/// Parses a repository reference. Returns `None` for an empty reference,
/// for a URL without a path and for a path without a non-empty owner and
/// repository. What it returns is well-formed, with an HTTPS clone URL.
pub fn parse_repo_spec(input: &str, default_host: &str) -> (r: Option<RepoSpec>)
    ensures
        opt_repo_view(r) == spec_parse_repo_spec(input@, default_host@),
        r matches Some(spec) ==> spec@.wf(),
{
    proof {
        lemma_parsed_repo_is_well_formed(input@, default_host@);
    }
    let input_chars = chars_of(input);
    let default_chars = chars_of(default_host);
    let cleaned = trim(input_chars.as_slice());
    if cleaned.len() == 0 {
        return None;
    }
    let (host, path) = match host_and_path(cleaned, default_chars.as_slice()) {
        None => { return None; },
        Some(found) => found,
    };
    let (owner, repo) = match owner_and_repo(path) {
        None => { return None; },
        Some(found) => found,
    };
    let owner = string_of(owner);
    let repo = string_of(repo);
    let host = string_of(host);
    let mut owner_repo = owner.clone();
    owner_repo.append("/");
    owner_repo.append(repo.as_str());
    let mut clone_url = String::from_str("https://");
    clone_url.append(host.as_str());
    clone_url.append("/");
    clone_url.append(owner.as_str());
    clone_url.append("/");
    clone_url.append(repo.as_str());
    clone_url.append(".git");
    Some(RepoSpec { owner, repo, owner_repo, clone_url })
}

/// Every reference that parses gives a well-formed result: in particular
/// its clone URL uses the `https://` scheme, whatever the reference said.
pub proof fn lemma_parsed_repo_is_well_formed(input: Seq<char>, default_host: Seq<char>)
    ensures
        spec_parse_repo_spec(input, default_host) matches Some(v) ==> v.wf(),
{
    if let Some(v) = spec_parse_repo_spec(input, default_host) {
        let cleaned = spec_trim(input);
        let (host, path) = spec_host_and_path(cleaned, default_host).unwrap();
        let stripped = spec_trim_end_char(spec_trim_end_text(path, ".git"@), '/');
        let (first, rest) = spec_split_once(stripped, '/').unwrap();
        let second = rest.take(spec_find_char(rest, '/'));
        lemma_before_first_has_none(stripped, '/');
        lemma_before_first_has_none(rest, '/');
        lemma_trim_keeps_absence(first, '/');
        lemma_trim_keeps_absence(second, '/');
        lemma_trim_idempotent(first);
        lemma_trim_idempotent(second);
        let tail = "/"@ + v.owner + "/"@ + v.repo + ".git"@;
        assert(v.clone_url =~= ("https://"@ + host) + tail);
        assert(v.clone_url.subrange(0, "https://"@.len() as int) =~= "https://"@);
        assert(v.clone_url.subrange(v.clone_url.len() - tail.len(), v.clone_url.len() as int)
            =~= tail);
    }
}

/// The result of parsing a path on a host, whichever form named them.
pub open spec fn spec_repo_at(host: Seq<char>, path: Seq<char>) -> Option<RepoSpecView> {
    match spec_owner_and_repo(path) {
        None => None,
        Some((owner, repo)) => Some(
            RepoSpecView {
                owner,
                repo,
                owner_repo: owner + "/"@ + repo,
                clone_url: spec_clone_url(host, owner, repo),
            },
        ),
    }
}

/// One repository, written in any of the accepted forms, parses to one
/// result: the bare `path` with `host` as the default host, the HTTP and
/// HTTPS URLs, the scp-style `git@host:path` and `ssh://git@host/path`
/// all give the same owner, repository and clone URL, or all give none.
///
/// The host holds neither `/` nor `:`, and the path is non-empty, has no
/// white space at its ends and does not itself start with a scheme.
pub proof fn lemma_reference_forms_agree(
    host: Seq<char>,
    path: Seq<char>,
    default_host: Seq<char>,
)
    requires
        !host.contains('/'),
        !host.contains(':'),
        path.len() > 0,
        !is_whitespace(path[0]),
        !is_whitespace(path.last()),
        !"http://"@.is_prefix_of(path),
        !"https://"@.is_prefix_of(path),
        !"git@"@.is_prefix_of(path),
        !"ssh://git@"@.is_prefix_of(path),
    ensures
        spec_parse_repo_spec(path, host) == spec_repo_at(host, path),
        spec_parse_repo_spec("http://"@ + host + "/"@ + path, default_host) == spec_repo_at(
            host,
            path,
        ),
        spec_parse_repo_spec("https://"@ + host + "/"@ + path, default_host) == spec_repo_at(
            host,
            path,
        ),
        spec_parse_repo_spec("git@"@ + host + ":"@ + path, default_host) == spec_repo_at(
            host,
            path,
        ),
        spec_parse_repo_spec("ssh://git@"@ + host + "/"@ + path, default_host) == spec_repo_at(
            host,
            path,
        ),
{
    lemma_trim_fixed(path);
    lemma_http_form(host, path, default_host);
    lemma_https_form(host, path, default_host);
    lemma_scp_form(host, path, default_host);
    lemma_ssh_form(host, path, default_host);
}

/// A text that starts with `lead`, goes on with a host and a separator
/// and ends with a path is its own trimmed form, and what follows the
/// lead splits into host and path.
proof fn lemma_joined_reference(lead: Seq<char>, host: Seq<char>, separator: char, path: Seq<char>)
    requires
        lead.len() > 0,
        !is_whitespace(lead[0]),
        !host.contains(separator),
        path.len() > 0,
        !is_whitespace(path.last()),
    ensures
        spec_trim(lead + host + seq![separator] + path) == lead + host + seq![separator] + path,
        lead.is_prefix_of(lead + host + seq![separator] + path),
        spec_split_once(
            (lead + host + seq![separator] + path).skip(lead.len() as int),
            separator,
        ) == Some((host, path)),
{
    let whole = lead + host + seq![separator] + path;
    assert(whole[0] == lead[0]);
    assert(whole.last() == path.last());
    lemma_trim_fixed(whole);
    assert(whole.subrange(0, lead.len() as int) =~= lead);
    assert(whole.skip(lead.len() as int) =~= host + seq![separator] + path);
    lemma_split_once_joined(host, separator, path);
}

/// Two texts that differ at a place within both do not start alike.
proof fn lemma_not_prefix(lead: Seq<char>, text: Seq<char>, at: int)
    requires
        0 <= at < lead.len(),
        at < text.len(),
        lead[at] != text[at],
    ensures
        !lead.is_prefix_of(text),
{
    if lead.is_prefix_of(text) {
        assert(text.subrange(0, lead.len() as int)[at] == lead[at]);
    }
}

proof fn lemma_http_form(host: Seq<char>, path: Seq<char>, default_host: Seq<char>)
    requires
        !host.contains('/'),
        path.len() > 0,
        !is_whitespace(path.last()),
    ensures
        spec_parse_repo_spec("http://"@ + host + "/"@ + path, default_host) == spec_repo_at(
            host,
            path,
        ),
{
    reveal_strlit("http://");
    reveal_strlit("/");
    assert("/"@ =~= seq!['/']);
    lemma_joined_reference("http://"@, host, '/', path);
}

proof fn lemma_https_form(host: Seq<char>, path: Seq<char>, default_host: Seq<char>)
    requires
        !host.contains('/'),
        path.len() > 0,
        !is_whitespace(path.last()),
    ensures
        spec_parse_repo_spec("https://"@ + host + "/"@ + path, default_host) == spec_repo_at(
            host,
            path,
        ),
{
    reveal_strlit("http://");
    reveal_strlit("https://");
    reveal_strlit("/");
    assert("/"@ =~= seq!['/']);
    let whole = "https://"@ + host + seq!['/'] + path;
    lemma_joined_reference("https://"@, host, '/', path);
    assert(whole[4] == 's');
    lemma_not_prefix("http://"@, whole, 4);
}

proof fn lemma_scp_form(host: Seq<char>, path: Seq<char>, default_host: Seq<char>)
    requires
        !host.contains(':'),
        path.len() > 0,
        !is_whitespace(path.last()),
    ensures
        spec_parse_repo_spec("git@"@ + host + ":"@ + path, default_host) == spec_repo_at(
            host,
            path,
        ),
{
    reveal_strlit("http://");
    reveal_strlit("https://");
    reveal_strlit("git@");
    reveal_strlit(":");
    assert(":"@ =~= seq![':']);
    let whole = "git@"@ + host + seq![':'] + path;
    lemma_joined_reference("git@"@, host, ':', path);
    assert(whole[0] == 'g');
    lemma_not_prefix("http://"@, whole, 0);
    lemma_not_prefix("https://"@, whole, 0);
}

proof fn lemma_ssh_form(host: Seq<char>, path: Seq<char>, default_host: Seq<char>)
    requires
        !host.contains('/'),
        path.len() > 0,
        !is_whitespace(path.last()),
    ensures
        spec_parse_repo_spec("ssh://git@"@ + host + "/"@ + path, default_host) == spec_repo_at(
            host,
            path,
        ),
{
    reveal_strlit("http://");
    reveal_strlit("https://");
    reveal_strlit("git@");
    reveal_strlit("ssh://git@");
    reveal_strlit("/");
    assert("/"@ =~= seq!['/']);
    let whole = "ssh://git@"@ + host + seq!['/'] + path;
    lemma_joined_reference("ssh://git@"@, host, '/', path);
    assert(whole[0] == 's');
    lemma_not_prefix("http://"@, whole, 0);
    lemma_not_prefix("https://"@, whole, 0);
    lemma_not_prefix("git@"@, whole, 0);
}

} // verus!
