//! Repository references: the record, the grammar and the parser.
//!
//! The accepted form, matched against the whole input, is
//!
//! ```text
//! [ scheme "://" ] [ "www." ] [ "github.com/" ] owner "/" repo [ "/tree/" branch [ "/" subpath ] ]
//! ```
//!
//! Each optional prefix is taken where it is present and the rest can still be
//! read; otherwise the text is read without it.

use crate::laws::lemma_parsed_is_well_formed;
use crate::text::{all_free_of, split, split_range, starts_with_at, to_chars};
use vstd::prelude::*;

verus! {

/// What a reference names, as mathematical values.
pub struct Reference {
    pub owner: Seq<char>,
    pub repo: Seq<char>,
    pub branch: Option<Seq<char>>,
    pub subpath: Option<Seq<Seq<char>>>,
}

/// A parsed repository reference.
#[derive(Debug, Clone, PartialEq)]
pub struct RepositoryProps {
    pub owner: String,
    pub repo: String,
    pub branch: Option<String>,
    pub subpath: Option<Vec<String>>,
}

impl View for RepositoryProps {
    type V = Reference;

    open spec fn view(&self) -> Reference {
        Reference {
            owner: self.owner@,
            repo: self.repo@,
            branch: match self.branch {
                Some(b) => Some(b@),
                None => None,
            },
            subpath: match self.subpath {
                Some(p) => Some(p.deep_view()),
                None => None,
            },
        }
    }
}

/// One or more characters, none of them `/`.
pub open spec fn is_segment(s: Seq<char>) -> bool {
    s.len() > 0 && !s.contains('/')
}

impl Reference {
    /// The invariant of a reference that the grammar can express: owner, repo
    /// and branch are segments, and a subpath comes only with a branch, as a
    /// non-empty text cut at each `/`.
    pub open spec fn wf(self) -> bool {
        &&& is_segment(self.owner)
        &&& is_segment(self.repo)
        &&& (self.branch matches Some(b) ==> is_segment(b))
        &&& (self.subpath matches Some(p) ==> {
            &&& self.branch is Some
            &&& p.len() >= 1
            &&& all_free_of(p, '/')
            &&& (p.len() > 1 || p[0].len() > 0)
        })
    }
}

/// The marker that introduces a branch.
pub open spec fn tree_marker() -> Seq<char> {
    "tree"@
}

/// The literal host segment.
pub open spec fn host_prefix() -> Seq<char> {
    "github.com/"@
}

/// The literal `www.` prefix.
pub open spec fn www_prefix() -> Seq<char> {
    "www."@
}

/// The recognised schemes, each with its `://`.
pub open spec fn is_scheme(prefix: Seq<char>) -> bool {
    prefix == "https://"@ || prefix == "http://"@ || prefix == "ftp://"@ || prefix == "smtp://"@
}

/// The scheme that `text` begins with, if it begins with one.
pub open spec fn scheme_of(text: Seq<char>) -> Option<Seq<char>> {
    if "https://"@.is_prefix_of(text) {
        Some("https://"@)
    } else if "http://"@.is_prefix_of(text) {
        Some("http://"@)
    } else if "ftp://"@.is_prefix_of(text) {
        Some("ftp://"@)
    } else if "smtp://"@.is_prefix_of(text) {
        Some("smtp://"@)
    } else {
        None
    }
}

/// A reference without any prefix: `owner/repo`, `owner/repo/tree/branch` or
/// `owner/repo/tree/branch/subpath`, read off the pieces between the slashes.
pub open spec fn parse_bare(text: Seq<char>) -> Option<Reference> {
    let parts = split(text, '/');
    if parts.len() < 2 || parts[0].len() == 0 || parts[1].len() == 0 {
        None
    } else if parts.len() == 2 {
        Some(Reference { owner: parts[0], repo: parts[1], branch: None, subpath: None })
    } else if parts.len() < 4 || parts[2] != tree_marker() || parts[3].len() == 0 {
        None
    } else if parts.len() == 4 {
        Some(Reference { owner: parts[0], repo: parts[1], branch: Some(parts[3]), subpath: None })
    } else if parts.len() == 5 && parts[4].len() == 0 {
        None
    } else {
        Some(
            Reference {
                owner: parts[0],
                repo: parts[1],
                branch: Some(parts[3]),
                subpath: Some(parts.skip(4)),
            },
        )
    }
}

/// A reference that may begin with the host segment.
pub open spec fn parse_from_host(text: Seq<char>) -> Option<Reference> {
    if host_prefix().is_prefix_of(text) && parse_bare(text.skip(host_prefix().len() as int))
        is Some {
        parse_bare(text.skip(host_prefix().len() as int))
    } else {
        parse_bare(text)
    }
}

/// A reference that may begin with `www.` and then with the host segment.
pub open spec fn parse_from_www(text: Seq<char>) -> Option<Reference> {
    if www_prefix().is_prefix_of(text) && parse_from_host(text.skip(www_prefix().len() as int))
        is Some {
        parse_from_host(text.skip(www_prefix().len() as int))
    } else {
        parse_from_host(text)
    }
}

/// What a reference string names, or `None` where the whole string is not a
/// reference.
pub open spec fn parse_reference(text: Seq<char>) -> Option<Reference> {
    match scheme_of(text) {
        Some(scheme) if parse_from_www(text.skip(scheme.len() as int)) is Some => parse_from_www(
            text.skip(scheme.len() as int),
        ),
        _ => parse_from_www(text),
    }
}

/// The mathematical value of a parser's result.
pub open spec fn parsed(result: Option<RepositoryProps>) -> Option<Reference> {
    match result {
        Some(props) => Some(props@),
        None => None,
    }
}

/// The lengths of the literals that the grammar names.
pub proof fn lemma_literal_lengths()
    ensures
        tree_marker().len() == 4,
        host_prefix().len() == 11,
        www_prefix().len() == 4,
        "https://"@.len() == 8,
        "http://"@.len() == 7,
        "ftp://"@.len() == 6,
        "smtp://"@.len() == 7,
{
    reveal_strlit("tree");
    reveal_strlit("github.com/");
    reveal_strlit("www.");
    reveal_strlit("https://");
    reveal_strlit("http://");
    reveal_strlit("ftp://");
    reveal_strlit("smtp://");
}

/// Reads a reference without any prefix from position `at` to the end.
fn parse_bare_at(text: &str, chars: &Vec<char>, at: usize) -> (result: Option<RepositoryProps>)
    requires
        chars@ == text@,
        at <= chars.len(),
    ensures
        parsed(result) == parse_bare(chars@.skip(at as int)),
{
    let parts = split_range(text, chars, at, chars.len(), '/');
    proof {
        assert(chars@.subrange(at as int, chars.len() as int) =~= chars@.skip(at as int));
    }
    let ghost pieces = parts.deep_view();
    assert(forall|i: int| 0 <= i < parts.len() ==> parts[i]@ == #[trigger] pieces[i]);
    if parts.len() < 2 || parts[0].as_str().is_empty() || parts[1].as_str().is_empty() {
        return None;
    }
    let owner = parts[0].clone();
    let repo = parts[1].clone();
    if parts.len() == 2 {
        return Some(RepositoryProps { owner, repo, branch: None, subpath: None });
    }
    if parts.len() < 4 {
        return None;
    }
    let marker = "tree".to_owned();
    if parts[2] != marker || parts[3].as_str().is_empty() {
        return None;
    }
    let branch = parts[3].clone();
    if parts.len() == 4 {
        return Some(RepositoryProps { owner, repo, branch: Some(branch), subpath: None });
    }
    if parts.len() == 5 && parts[4].as_str().is_empty() {
        return None;
    }
    let mut subpath: Vec<String> = Vec::new();
    let mut i: usize = 4;
    while i < parts.len()
        invariant
            4 <= i <= parts.len(),
            pieces == parts.deep_view(),
            subpath.deep_view() == pieces.subrange(4, i as int),
        decreases parts.len() - i,
    {
        let ghost before = subpath.deep_view();
        subpath.push(parts[i].clone());
        proof {
            assert(subpath.deep_view() =~= before.push(pieces[i as int]));
            assert(pieces.subrange(4, i + 1) =~= before.push(pieces[i as int]));
        }
        i += 1;
    }
    proof {
        assert(pieces.subrange(4, parts.len() as int) =~= pieces.skip(4));
    }
    Some(RepositoryProps { owner, repo, branch: Some(branch), subpath: Some(subpath) })
}

/// Reads a reference that may begin with the host segment.
fn parse_from_host_at(text: &str, chars: &Vec<char>, at: usize) -> (result: Option<
    RepositoryProps,
>)
    requires
        chars@ == text@,
        at <= chars.len(),
    ensures
        parsed(result) == parse_from_host(chars@.skip(at as int)),
{
    proof {
        lemma_literal_lengths();
    }
    if starts_with_at(chars, at, "github.com/") {
        proof {
            assert(chars@.skip(at as int).skip(11) =~= chars@.skip(at + 11));
        }
        let inner = parse_bare_at(text, chars, at + 11);
        if inner.is_some() {
            return inner;
        }
    }
    parse_bare_at(text, chars, at)
}

/// Reads a reference that may begin with `www.`.
fn parse_from_www_at(text: &str, chars: &Vec<char>, at: usize) -> (result: Option<RepositoryProps>)
    requires
        chars@ == text@,
        at <= chars.len(),
    ensures
        parsed(result) == parse_from_www(chars@.skip(at as int)),
{
    proof {
        lemma_literal_lengths();
    }
    if starts_with_at(chars, at, "www.") {
        proof {
            assert(chars@.skip(at as int).skip(4) =~= chars@.skip(at + 4));
        }
        let inner = parse_from_host_at(text, chars, at + 4);
        if inner.is_some() {
            return inner;
        }
    }
    parse_from_host_at(text, chars, at)
}

/// The length of the scheme that the characters begin with, 0 where they
/// begin with none.
fn scheme_length(chars: &Vec<char>) -> (length: usize)
    ensures
        match scheme_of(chars@) {
            Some(scheme) => length == scheme.len(),
            None => length == 0,
        },
        length <= chars.len(),
{
    proof {
        lemma_literal_lengths();
        assert(chars@.skip(0) =~= chars@);
    }
    if starts_with_at(chars, 0, "https://") {
        8
    } else if starts_with_at(chars, 0, "http://") {
        7
    } else if starts_with_at(chars, 0, "ftp://") {
        6
    } else if starts_with_at(chars, 0, "smtp://") {
        7
    } else {
        0
    }
}

/// Parses a repository reference.
///
/// The result is `Some` exactly where the whole string is a reference, and
/// then holds what the grammar reads from it, with nothing normalised.
pub fn parse_repository(repository: &str) -> (result: Option<RepositoryProps>)
    ensures
        parsed(result) == parse_reference(repository@),
        result matches Some(props) ==> props@.wf(),
{
    let chars = to_chars(repository);
    let skipped = scheme_length(&chars);
    proof {
        assert(chars@.skip(0) =~= chars@);
        if parse_reference(repository@) is Some {
            lemma_parsed_is_well_formed(repository@);
        }
    }
    if skipped > 0 {
        let inner = parse_from_www_at(repository, &chars, skipped);
        if inner.is_some() {
            return inner;
        }
    }
    parse_from_www_at(repository, &chars, 0)
}

} // verus!
