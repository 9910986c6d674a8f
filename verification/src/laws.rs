//! Laws of the reference grammar.

use crate::plan::remote_url_of;
use crate::reference::{
    host_prefix, is_scheme, is_segment, parse_bare, parse_from_host, parse_from_www,
    parse_reference, scheme_of, tree_marker, www_prefix, Reference,
};
use crate::text::{
    all_free_of, join, lemma_join_concat, lemma_join_split, lemma_split_around, lemma_split_join,
    lemma_split_pieces, lemma_split_plain, split,
};
use vstd::prelude::*;

verus! {

/// The text of a reference without any prefix:
/// `owner/repo`, then `/tree/branch` and `/subpath` where the reference has them.
pub open spec fn render(r: Reference) -> Seq<char> {
    let head = r.owner.push('/') + r.repo;
    match r.branch {
        None => head,
        Some(branch) => {
            let upto = head.push('/') + tree_marker().push('/') + branch;
            match r.subpath {
                None => upto,
                Some(segments) => upto.push('/') + join(segments, '/'),
            }
        },
    }
}

/// The pieces between the slashes of a rendered reference.
pub open spec fn pieces(r: Reference) -> Seq<Seq<char>> {
    let head = seq![r.owner, r.repo];
    match r.branch {
        None => head,
        Some(branch) => match r.subpath {
            None => head + seq![tree_marker(), branch],
            Some(segments) => head + seq![tree_marker(), branch] + segments,
        },
    }
}

/// The marker is a segment.
pub proof fn lemma_tree_marker_is_segment()
    ensures
        is_segment(tree_marker()),
{
    reveal_strlit("tree");
    let m = tree_marker();
    assert forall|i: int| 0 <= i < m.len() implies m[i] != '/' by {
        assert(m[0] == 't' && m[1] == 'r' && m[2] == 'e' && m[3] == 'e');
    }
}

/// A rendered reference is its pieces joined by slashes.
pub proof fn lemma_render_joins_pieces(r: Reference)
    requires
        r.subpath matches Some(segments) ==> segments.len() >= 1,
    ensures
        render(r) == join(pieces(r), '/'),
{
    let head = seq![r.owner, r.repo];
    assert(head.drop_last() =~= seq![r.owner]);
    assert(join(seq![r.owner], '/') == r.owner);
    assert(join(head, '/') =~= r.owner.push('/') + r.repo);
    match r.branch {
        None => {},
        Some(branch) => {
            let tail = seq![tree_marker(), branch];
            assert(tail.drop_last() =~= seq![tree_marker()]);
            assert(join(seq![tree_marker()], '/') == tree_marker());
            assert(join(tail, '/') =~= tree_marker().push('/') + branch);
            lemma_join_concat(head, tail, '/');
            assert(join(head + tail, '/') =~= (r.owner.push('/') + r.repo).push('/')
                + tree_marker().push('/') + branch);
            match r.subpath {
                None => {},
                Some(segments) => {
                    lemma_join_concat(head + tail, segments, '/');
                },
            }
        },
    }
}

/// What the grammar reads from a text without prefix is well formed, and
/// rendering it gives the text back.
pub proof fn lemma_parse_bare_sound(text: Seq<char>)
    requires
        parse_bare(text) is Some,
    ensures
        parse_bare(text).unwrap().wf(),
        render(parse_bare(text).unwrap()) == text,
        pieces(parse_bare(text).unwrap()) == split(text, '/'),
{
    let parts = split(text, '/');
    let r = parse_bare(text).unwrap();
    lemma_split_pieces(text, '/');
    lemma_join_split(text, '/');
    if parts.len() == 2 {
        assert(pieces(r) =~= parts);
    } else if parts.len() == 4 {
        assert(pieces(r) =~= parts);
    } else {
        let segments = parts.skip(4);
        assert(pieces(r) =~= parts);
        assert(all_free_of(segments, '/')) by {
            assert forall|i: int| 0 <= i < segments.len() implies !(#[trigger] segments[i]).contains(
                '/',
            ) by {
                assert(segments[i] == parts[i + 4]);
            }
        }
    }
    lemma_render_joins_pieces(r);
}

/// Every well-formed reference is read back from its rendered text.
pub proof fn lemma_parse_bare_complete(r: Reference)
    requires
        r.wf(),
    ensures
        parse_bare(render(r)) == Some(r),
{
    lemma_tree_marker_is_segment();
    lemma_render_joins_pieces(r);
    let all = pieces(r);
    assert(all_free_of(all, '/')) by {
        assert forall|i: int| 0 <= i < all.len() implies !(#[trigger] all[i]).contains('/') by {
            if i >= 4 {
                assert(all[i] == r.subpath.unwrap()[i - 4]);
            }
        }
    }
    lemma_split_join(all, '/');
    if r.subpath is Some {
        assert(all.skip(4) =~= r.subpath.unwrap());
    }
}

/// `literal` where `present`, nothing otherwise.
pub open spec fn optional(present: bool, literal: Seq<char>) -> Seq<char> {
    if present {
        literal
    } else {
        Seq::empty()
    }
}

/// `bare` behind a scheme (or none, where `scheme` is empty), `www.` and the
/// host segment, each where asked for.
pub open spec fn with_prefixes(scheme: Seq<char>, www: bool, host: bool, bare: Seq<char>) -> Seq<
    char,
> {
    scheme + optional(www, www_prefix()) + optional(host, host_prefix()) + bare
}

/// A text in which a slash directly follows the first one is no reference
/// without prefix: its repository name would be empty.
pub proof fn lemma_double_slash(head: Seq<char>, rest: Seq<char>)
    requires
        !head.contains('/'),
    ensures
        parse_bare(head.push('/').push('/') + rest) is None,
{
    let text = head.push('/').push('/') + rest;
    let tail = Seq::<char>::empty().push('/') + rest;
    assert(text =~= head.push('/') + tail);
    lemma_split_around(head, tail, '/');
    lemma_split_around(Seq::empty(), rest, '/');
    lemma_split_plain(head, '/');
    lemma_split_pieces(rest, '/');
    assert(split(Seq::<char>::empty(), '/') =~= seq![Seq::<char>::empty()]);
    assert(split(text, '/')[1] == Seq::<char>::empty());
}

/// Each scheme is slash-free letters and a colon, then two slashes; none
/// begins like `www.` or like the host segment, and a text that begins with
/// one begins with no other.
pub proof fn lemma_scheme_shape(scheme: Seq<char>, rest: Seq<char>)
    requires
        is_scheme(scheme),
    ensures
        scheme.len() >= 3,
        !scheme.take(scheme.len() - 2).contains('/'),
        scheme == scheme.take(scheme.len() - 2).push('/').push('/'),
        scheme[0] != 'w',
        scheme[0] != 'g',
        scheme_of(scheme + rest) == Some(scheme),
{
    reveal_strlit("https://");
    reveal_strlit("http://");
    reveal_strlit("ftp://");
    reveal_strlit("smtp://");
    let head = scheme.take(scheme.len() - 2);
    let text = scheme + rest;
    assert(scheme =~= head.push('/').push('/'));
    assert(text.subrange(0, scheme.len() as int) =~= scheme);
    if scheme == "https://"@ {
        assert(head =~= seq!['h', 't', 't', 'p', 's', ':']);
    } else if scheme == "http://"@ {
        assert(head =~= seq!['h', 't', 't', 'p', ':']);
        if "https://"@.is_prefix_of(text) {
            assert(text.subrange(0, 8)[4] == 's');
        }
    } else if scheme == "ftp://"@ {
        assert(head =~= seq!['f', 't', 'p', ':']);
        if "https://"@.is_prefix_of(text) {
            assert(text.subrange(0, 8)[0] == 'h');
        }
        if "http://"@.is_prefix_of(text) {
            assert(text.subrange(0, 7)[0] == 'h');
        }
    } else {
        assert(head =~= seq!['s', 'm', 't', 'p', ':']);
        if "https://"@.is_prefix_of(text) {
            assert(text.subrange(0, 8)[0] == 'h');
        }
        if "http://"@.is_prefix_of(text) {
            assert(text.subrange(0, 7)[0] == 'h');
        }
        if "ftp://"@.is_prefix_of(text) {
            assert(text.subrange(0, 6)[0] == 'f');
        }
    }
    assert forall|i: int| 0 <= i < head.len() implies head[i] != '/' by {}
}

/// A text that does not begin like `www.` is read from the host segment on.
pub proof fn lemma_no_www_prefix(text: Seq<char>)
    requires
        text.len() == 0 || text[0] != 'w',
    ensures
        parse_from_www(text) == parse_from_host(text),
{
    reveal_strlit("www.");
    if www_prefix().is_prefix_of(text) {
        assert(text.subrange(0, 4)[0] == 'w');
    }
}

/// A text that begins neither like `www.` nor like the host segment is read
/// as a reference without prefix.
pub proof fn lemma_no_literal_prefix(text: Seq<char>)
    requires
        text.len() == 0 || (text[0] != 'w' && text[0] != 'g'),
    ensures
        parse_from_www(text) == parse_bare(text),
        parse_from_host(text) == parse_bare(text),
{
    reveal_strlit("www.");
    reveal_strlit("github.com/");
    if www_prefix().is_prefix_of(text) {
        assert(text.subrange(0, 4)[0] == 'w');
    }
    if host_prefix().is_prefix_of(text) {
        assert(text.subrange(0, 11)[0] == 'g');
    }
}

/// A scheme in front is consumed and changes nothing else.
pub proof fn lemma_scheme_strip(scheme: Seq<char>, rest: Seq<char>)
    requires
        is_scheme(scheme),
    ensures
        parse_reference(scheme + rest) == parse_from_www(rest),
{
    let text = scheme + rest;
    lemma_scheme_shape(scheme, rest);
    assert(text.skip(scheme.len() as int) =~= rest);
    if parse_from_www(rest) is None {
        let head = scheme.take(scheme.len() - 2);
        assert(text =~= head.push('/').push('/') + rest);
        lemma_double_slash(head, rest);
        assert(text[0] == scheme[0]);
        lemma_no_literal_prefix(text);
    }
}

/// A text that is a reference without prefix begins with no scheme.
pub proof fn lemma_bare_has_no_scheme(text: Seq<char>)
    requires
        parse_bare(text) is Some,
    ensures
        scheme_of(text) is None,
        parse_reference(text) == parse_from_www(text),
{
    if scheme_of(text) is Some {
        let scheme = scheme_of(text).unwrap();
        let rest = text.skip(scheme.len() as int);
        assert(text =~= scheme + rest);
        lemma_scheme_shape(scheme, rest);
        let head = scheme.take(scheme.len() - 2);
        assert(text =~= head.push('/').push('/') + rest);
        lemma_double_slash(head, rest);
    }
}

/// The host segment in front of a reference is consumed.
pub proof fn lemma_host_strip(bare: Seq<char>)
    requires
        parse_bare(bare) is Some,
    ensures
        parse_from_host(host_prefix() + bare) == parse_bare(bare),
        (host_prefix() + bare)[0] == 'g',
{
    reveal_strlit("github.com/");
    let text = host_prefix() + bare;
    assert(text.subrange(0, 11) =~= host_prefix());
    assert(text.skip(11) =~= bare);
}

/// `www.` in front of a text that can be read from the host segment on is
/// consumed.
pub proof fn lemma_www_strip(rest: Seq<char>)
    requires
        parse_from_host(rest) is Some,
    ensures
        parse_from_www(www_prefix() + rest) == parse_from_host(rest),
        (www_prefix() + rest)[0] == 'w',
{
    reveal_strlit("www.");
    let text = www_prefix() + rest;
    assert(text.subrange(0, 4) =~= www_prefix());
    assert(text.skip(4) =~= rest);
}

/// A scheme, or none, in front of a text that begins like `www.` or like
/// the host segment is consumed and changes nothing else.
pub proof fn lemma_scheme_before_literal(scheme: Seq<char>, rest: Seq<char>)
    requires
        scheme.len() == 0 || is_scheme(scheme),
        rest.len() > 0 && (rest[0] == 'w' || rest[0] == 'g'),
    ensures
        parse_reference(scheme + rest) == parse_from_www(rest),
{
    if scheme.len() == 0 {
        assert(scheme + rest =~= rest);
        if scheme_of(rest) is Some {
            let found = scheme_of(rest).unwrap();
            lemma_scheme_shape(found, rest.skip(found.len() as int));
            assert(rest.subrange(0, found.len() as int)[0] == found[0]);
        }
    } else {
        lemma_scheme_strip(scheme, rest);
    }
}

/// Behind the host segment every text is read without prefix: a scheme,
/// `www.` and the host segment, the first two in any combination, in front
/// of a reference give that reference, whatever it begins with.
pub proof fn lemma_host_settles(scheme: Seq<char>, www: bool, bare: Seq<char>)
    requires
        scheme.len() == 0 || is_scheme(scheme),
        parse_bare(bare) is Some,
    ensures
        parse_reference(with_prefixes(scheme, www, true, bare)) == parse_bare(bare),
{
    let hosted = host_prefix() + bare;
    let rest = optional(www, www_prefix()) + hosted;
    assert(with_prefixes(scheme, www, true, bare) =~= scheme + rest);
    lemma_host_strip(bare);
    if www {
        lemma_www_strip(hosted);
    } else {
        assert(rest =~= hosted);
        lemma_no_www_prefix(rest);
    }
    lemma_scheme_before_literal(scheme, rest);
}

/// A reference that carries no prefix of its own has no host segment to
/// lose: read from the host segment on, it is read without prefix.
proof fn lemma_bare_from_host(bare: Seq<char>)
    requires
        parse_bare(bare) is Some,
        parse_reference(bare) == parse_bare(bare),
    ensures
        parse_from_host(bare) == parse_bare(bare),
        parse_from_www(bare) == parse_bare(bare),
{
    lemma_bare_has_no_scheme(bare);
    if host_prefix().is_prefix_of(bare) {
        reveal_strlit("github.com/");
        assert(bare.subrange(0, 11)[0] == 'g');
        lemma_no_www_prefix(bare);
    }
}

/// Prefixes do not matter: a scheme, `www.` and the host segment, in any
/// combination, in front of a reference that carries none of them give the
/// reference itself.
///
/// `bare` carries no prefix of its own where it can be read without
/// prefixes, and reading it whole gives the same. `www.x/y`, which names the
/// owner `x`, is a text that carries one; so is `https://a/b`, and a second
/// scheme in front of it gives no reference at all.
pub proof fn lemma_prefixes_do_not_matter(
    scheme: Seq<char>,
    www: bool,
    host: bool,
    bare: Seq<char>,
)
    requires
        scheme.len() == 0 || is_scheme(scheme),
        parse_bare(bare) is Some,
        parse_reference(bare) == parse_bare(bare),
    ensures
        parse_reference(with_prefixes(scheme, www, host, bare)) == parse_reference(bare),
{
    if host {
        lemma_host_settles(scheme, www, bare);
    } else {
        let rest = optional(www, www_prefix()) + bare;
        assert(with_prefixes(scheme, www, false, bare) =~= scheme + rest);
        lemma_bare_from_host(bare);
        if www {
            lemma_www_strip(bare);
            lemma_scheme_before_literal(scheme, rest);
        } else {
            assert(rest =~= bare);
            if scheme.len() == 0 {
                assert(scheme + bare =~= bare);
            } else {
                lemma_scheme_strip(scheme, bare);
            }
        }
    }
}

/// `owner/repo` names that owner and that repository, with no branch and no
/// subpath, for every owner that is not `www.` followed by more.
///
/// An owner such as `www.x` is left out: the grammar takes its `www.` for the
/// optional prefix and reads the owner `x`.
pub proof fn lemma_owner_and_repo(owner: Seq<char>, repo: Seq<char>)
    requires
        is_segment(owner),
        is_segment(repo),
        !(www_prefix().is_prefix_of(owner) && owner.len() > www_prefix().len()),
    ensures
        parse_reference(owner.push('/') + repo) == Some(
            Reference { owner, repo, branch: None, subpath: None },
        ),
{
    reveal_strlit("www.");
    reveal_strlit("github.com/");
    let r = Reference { owner, repo, branch: None, subpath: None };
    let text = owner.push('/') + repo;
    lemma_parse_bare_complete(r);
    lemma_bare_has_no_scheme(text);
    lemma_split_plain(repo, '/');
    // The host segment, where the text begins with it, leaves no reference.
    assert(parse_from_host(text) == parse_bare(text)) by {
        if host_prefix().is_prefix_of(text) {
            assert(text.subrange(0, 11)[10] == '/');
            assert(owner.len() == 10) by {
                if owner.len() < 10 {
                    assert(text.subrange(0, 11)[owner.len() as int] == '/');
                } else if owner.len() > 10 {
                    assert(owner[10] == '/');
                    assert(owner.contains('/'));
                }
            }
            assert(text.skip(11) =~= repo);
        }
    }
    // `www.`, where the text begins with it, is the whole owner.
    if www_prefix().is_prefix_of(text) {
        assert(owner.len() >= 4) by {
            if owner.len() < 4 {
                assert(text.subrange(0, 4)[owner.len() as int] == '/');
            }
        }
        assert(owner.subrange(0, 4) =~= text.subrange(0, 4));
        let rest = text.skip(4);
        assert(rest =~= Seq::<char>::empty().push('/') + repo);
        lemma_split_around(Seq::empty(), repo, '/');
        assert(split(Seq::<char>::empty(), '/') =~= seq![Seq::<char>::empty()]);
        assert(split(rest, '/')[0] == Seq::<char>::empty());
        lemma_no_literal_prefix(rest);
    }
}

/// Owner and repository are the first two pieces: whenever a text is a
/// reference, it is some legal combination of prefixes followed by a text
/// whose first two pieces between slashes are the owner and the repository
/// that are read, whatever follows them. That text is the rendering of what
/// is read: nothing in it is normalised or lost.
pub proof fn lemma_owner_and_repo_lead(text: Seq<char>)
    requires
        parse_reference(text) is Some,
    ensures
        exists|scheme: Seq<char>, www: bool, host: bool, bare: Seq<char>|
            {
                &&& (scheme.len() == 0 || is_scheme(scheme))
                &&& text == #[trigger] with_prefixes(scheme, www, host, bare)
                &&& parse_bare(bare) == parse_reference(text)
                &&& bare == render(parse_reference(text).unwrap())
                &&& split(bare, '/').len() >= 2
                &&& split(bare, '/')[0] == parse_reference(text).unwrap().owner
                &&& split(bare, '/')[1] == parse_reference(text).unwrap().repo
            },
{
    let none = Seq::<char>::empty();
    let (scheme, after_scheme) = match scheme_of(text) {
        Some(found) if parse_from_www(text.skip(found.len() as int)) is Some => (
            found,
            text.skip(found.len() as int),
        ),
        _ => (none, text),
    };
    assert(text =~= scheme + after_scheme);
    assert(parse_from_www(after_scheme) == parse_reference(text));
    let www = www_prefix().is_prefix_of(after_scheme) && parse_from_host(
        after_scheme.skip(www_prefix().len() as int),
    ) is Some;
    let after_www = if www {
        after_scheme.skip(www_prefix().len() as int)
    } else {
        after_scheme
    };
    assert(after_scheme =~= optional(www, www_prefix()) + after_www);
    let host = host_prefix().is_prefix_of(after_www) && parse_bare(
        after_www.skip(host_prefix().len() as int),
    ) is Some;
    let bare = if host {
        after_www.skip(host_prefix().len() as int)
    } else {
        after_www
    };
    assert(after_www =~= optional(host, host_prefix()) + bare);
    assert(text =~= with_prefixes(scheme, www, host, bare));
    assert(parse_bare(bare) == parse_reference(text));
    lemma_parse_bare_sound(bare);
}

/// A text without a slash is no reference.
pub proof fn lemma_slash_needed(text: Seq<char>)
    requires
        !text.contains('/'),
    ensures
        parse_reference(text) is None,
{
    if parse_reference(text) is Some {
        lemma_owner_and_repo_lead(text);
        let (scheme, www, host, bare) = choose|
            scheme: Seq<char>,
            www: bool,
            host: bool,
            bare: Seq<char>,
        |
            text == #[trigger] with_prefixes(scheme, www, host, bare) && split(bare, '/').len()
                >= 2;
        let front = scheme + optional(www, www_prefix()) + optional(host, host_prefix());
        assert forall|i: int| 0 <= i < bare.len() implies bare[i] != '/' by {
            assert(text[front.len() + i] == bare[i]);
            assert(text.contains(bare[i]));
        }
        lemma_split_plain(bare, '/');
    }
}

/// Whatever is read from a text is well formed: owner, repository and
/// branch are segments, and a subpath comes only with a branch.
pub proof fn lemma_parsed_is_well_formed(text: Seq<char>)
    requires
        parse_reference(text) is Some,
    ensures
        parse_reference(text).unwrap().wf(),
{
    lemma_owner_and_repo_lead(text);
    let (scheme, www, host, bare) = choose|
        scheme: Seq<char>,
        www: bool,
        host: bool,
        bare: Seq<char>,
    |
        text == #[trigger] with_prefixes(scheme, www, host, bare) && parse_bare(bare)
            == parse_reference(text);
    lemma_parse_bare_sound(bare);
}

/// The address that a reference is fetched from names the repository of the
/// reference: read as a reference, it gives the same owner and repository.
pub proof fn lemma_remote_url_names_the_repository(r: Reference)
    requires
        is_segment(r.owner),
        is_segment(r.repo),
    ensures
        parse_reference(remote_url_of(r)) == Some(
            Reference { owner: r.owner, repo: r.repo, branch: None, subpath: None },
        ),
{
    let bare = r.owner.push('/') + r.repo;
    let named = Reference { owner: r.owner, repo: r.repo, branch: None, subpath: None };
    lemma_parse_bare_complete(named);
    lemma_host_settles("https://"@, false, bare);
    assert(with_prefixes("https://"@, false, true, bare) =~= remote_url_of(r));
}

} // verus!
