//! Splitting and joining of character sequences, with their laws.

use vstd::prelude::*;

verus! {

/// The pieces of `text` that lie between the occurrences of `sep`, in order.
///
/// There is always at least one piece; a separator at either end of the text,
/// or two in a row, give an empty piece.
pub open spec fn split(text: Seq<char>, sep: char) -> Seq<Seq<char>>
    decreases text.len(),
{
    if text.len() == 0 {
        seq![Seq::empty()]
    } else {
        let before = split(text.drop_last(), sep);
        if text.last() == sep {
            before.push(Seq::empty())
        } else {
            before.drop_last().push(before.last().push(text.last()))
        }
    }
}

/// The pieces put together again, with one `sep` between neighbours.
pub open spec fn join(parts: Seq<Seq<char>>, sep: char) -> Seq<char>
    decreases parts.len(),
{
    if parts.len() == 0 {
        Seq::empty()
    } else if parts.len() == 1 {
        parts[0]
    } else {
        join(parts.drop_last(), sep).push(sep) + parts.last()
    }
}

/// No piece holds the separator.
pub open spec fn all_free_of(parts: Seq<Seq<char>>, sep: char) -> bool {
    forall|i: int| 0 <= i < parts.len() ==> !(#[trigger] parts[i]).contains(sep)
}

/// A split has at least one piece, and no piece holds the separator.
pub proof fn lemma_split_pieces(text: Seq<char>, sep: char)
    ensures
        split(text, sep).len() >= 1,
        all_free_of(split(text, sep), sep),
    decreases text.len(),
{
    if text.len() > 0 {
        lemma_split_pieces(text.drop_last(), sep);
        let before = split(text.drop_last(), sep);
        if text.last() != sep {
            let grown = before.last().push(text.last());
            assert forall|j: int| 0 <= j < grown.len() implies grown[j] != sep by {
                if j < before.last().len() {
                    assert(before.last().contains(grown[j]));
                }
            }
        }
    }
}

/// A text without the separator is its own single piece.
pub proof fn lemma_split_plain(text: Seq<char>, sep: char)
    requires
        !text.contains(sep),
    ensures
        split(text, sep) == seq![text],
    decreases text.len(),
{
    if text.len() > 0 {
        let shorter = text.drop_last();
        assert forall|j: int| 0 <= j < shorter.len() implies shorter[j] != sep by {
            assert(text.contains(text[j]));
        }
        lemma_split_plain(shorter, sep);
        assert(text.contains(text.last()));
        assert(shorter.push(text.last()) =~= text);
        assert(seq![shorter].drop_last().push(shorter.push(text.last())) =~= seq![text]);
    } else {
        assert(text =~= Seq::empty());
    }
}

/// Splitting goes through a separator: the pieces on its left, then those on
/// its right.
pub proof fn lemma_split_around(left: Seq<char>, right: Seq<char>, sep: char)
    ensures
        split(left.push(sep) + right, sep) == split(left, sep) + split(right, sep),
    decreases right.len(),
{
    let whole = left.push(sep) + right;
    if right.len() == 0 {
        assert(whole.drop_last() == left);
        assert(split(whole, sep) =~= split(left, sep) + split(right, sep));
    } else {
        let shorter = right.drop_last();
        lemma_split_around(left, shorter, sep);
        lemma_split_pieces(shorter, sep);
        assert(whole.drop_last() == left.push(sep) + shorter);
        assert(whole.last() == right.last());
        assert(split(whole, sep) =~= split(left, sep) + split(right, sep));
    }
}

/// Joining what a split gave restores the text.
pub proof fn lemma_join_split(text: Seq<char>, sep: char)
    ensures
        join(split(text, sep), sep) == text,
    decreases text.len(),
{
    if text.len() > 0 {
        let shorter = text.drop_last();
        let before = split(shorter, sep);
        lemma_join_split(shorter, sep);
        lemma_split_pieces(shorter, sep);
        let after = split(text, sep);
        if text.last() == sep {
            assert(after.drop_last() == before);
            assert(join(after, sep) =~= text);
        } else if before.len() == 1 {
            assert(join(after, sep) =~= text);
        } else {
            assert(after.drop_last() == before.drop_last());
            assert(join(after, sep) =~= join(before, sep).push(text.last()));
            assert(join(after, sep) =~= text);
        }
    }
}

/// Splitting what a join gave restores the pieces, where there is at least
/// one piece and none holds the separator.
pub proof fn lemma_split_join(parts: Seq<Seq<char>>, sep: char)
    requires
        parts.len() >= 1,
        all_free_of(parts, sep),
    ensures
        split(join(parts, sep), sep) == parts,
    decreases parts.len(),
{
    if parts.len() == 1 {
        lemma_split_plain(parts[0], sep);
        assert(seq![parts[0]] =~= parts);
    } else {
        let front = parts.drop_last();
        assert(all_free_of(front, sep)) by {
            assert forall|i: int| 0 <= i < front.len() implies !(#[trigger] front[i]).contains(
                sep,
            ) by {
                assert(front[i] == parts[i]);
            }
        }
        lemma_split_join(front, sep);
        lemma_split_around(join(front, sep), parts.last(), sep);
        lemma_split_plain(parts.last(), sep);
        assert(front + seq![parts.last()] =~= parts);
    }
}

/// Joining goes through a concatenation: the join of the front, a separator,
/// the join of the back, where neither side is empty.
pub proof fn lemma_join_concat(front: Seq<Seq<char>>, back: Seq<Seq<char>>, sep: char)
    requires
        front.len() >= 1,
        back.len() >= 1,
    ensures
        join(front + back, sep) == join(front, sep).push(sep) + join(back, sep),
    decreases back.len(),
{
    let whole = front + back;
    assert(whole.drop_last() =~= front + back.drop_last());
    assert(whole.last() == back.last());
    if back.len() == 1 {
        assert(front + back.drop_last() =~= front);
        assert(join(whole, sep) =~= join(front, sep).push(sep) + join(back, sep));
    } else {
        lemma_join_concat(front, back.drop_last(), sep);
        assert(join(whole, sep) =~= join(front, sep).push(sep) + join(back, sep));
    }
}

/// The characters of a string slice, in a vector.
pub fn to_chars(text: &str) -> (chars: Vec<char>)
    ensures
        chars@ == text@,
{
    let mut chars: Vec<char> = Vec::new();
    for c in it: text.chars()
        invariant
            it.seq() == text@,
            chars@ == it.seq().take(it.index() as int),
    {
        chars.push(c);
    }
    chars
}

/// Whether `pattern` stands in `chars` at position `at`.
pub fn starts_with_at(chars: &Vec<char>, at: usize, pattern: &str) -> (found: bool)
    requires
        at <= chars.len(),
    ensures
        found == pattern@.is_prefix_of(chars@.skip(at as int)),
{
    let wanted = to_chars(pattern);
    let count = wanted.len();
    if chars.len() - at < count {
        return false;
    }
    let mut k: usize = 0;
    while k < count
        invariant
            k <= count,
            count == wanted.len(),
            wanted@ == pattern@,
            at + count <= chars.len(),
            forall|j: int| 0 <= j < k ==> chars[at + j] == wanted[j],
        decreases count - k,
    {
        if chars[at + k] != wanted[k] {
            proof {
                let rest = chars@.skip(at as int);
                if pattern@.is_prefix_of(rest) {
                    assert(rest.subrange(0, count as int)[k as int] == pattern@[k as int]);
                }
            }
            return false;
        }
        k += 1;
    }
    proof {
        let rest = chars@.skip(at as int);
        assert(rest.subrange(0, count as int) =~= pattern@);
    }
    true
}

/// The pieces of `text` between positions `from` and `to`, split at `sep`.
/// `chars` holds the characters of `text`.
pub fn split_range(text: &str, chars: &Vec<char>, from: usize, to: usize, sep: char) -> (parts:
    Vec<String>)
    requires
        chars@ == text@,
        from <= to <= chars.len(),
    ensures
        parts.deep_view() == split(chars@.subrange(from as int, to as int), sep),
{
    let ghost span = chars@.subrange(from as int, to as int);
    let mut parts: Vec<String> = Vec::new();
    let mut begin: usize = from;
    let mut i: usize = from;
    proof {
        assert(span.take(0) =~= Seq::empty());
        assert(parts.deep_view().push(span.subrange(0, 0)) =~= split(span.take(0), sep));
    }
    while i < to
        invariant
            chars@ == text@,
            from <= begin <= i <= to <= chars.len(),
            span == chars@.subrange(from as int, to as int),
            parts.deep_view().push(span.subrange(begin - from, i - from)) == split(
                span.take(i - from),
                sep,
            ),
        decreases to - i,
    {
        let ghost done = parts.deep_view();
        let ghost open = span.subrange(begin - from, i - from);
        proof {
            let next = span.take(i - from + 1);
            assert(next.drop_last() =~= span.take(i - from));
            assert(next.last() == chars[i as int]);
            assert(done.push(open).drop_last() =~= done);
        }
        if chars[i] == sep {
            let piece = text.substring_char(begin, i);
            parts.push(piece.to_owned());
            begin = i + 1;
            proof {
                assert(piece@ =~= open);
                assert(parts.deep_view() =~= done.push(open));
                assert(span.subrange(begin - from, i + 1 - from) =~= Seq::empty());
            }
        } else {
            proof {
                assert(span.subrange(begin - from, i + 1 - from) =~= open.push(chars[i as int]));
            }
        }
        i += 1;
    }
    let ghost done = parts.deep_view();
    let piece = text.substring_char(begin, to);
    parts.push(piece.to_owned());
    proof {
        assert(span.take(to - from) =~= span);
        assert(piece@ =~= span.subrange(begin - from, to - from));
        assert(parts.deep_view() =~= done.push(span.subrange(begin - from, to - from)));
    }
    parts
}

/// The pieces of `text` between the occurrences of `sep`.
pub fn split_on(text: &str, sep: char) -> (parts: Vec<String>)
    ensures
        parts.deep_view() == split(text@, sep),
{
    let chars = to_chars(text);
    let parts = split_range(text, &chars, 0, chars.len(), sep);
    proof {
        assert(chars@.subrange(0, chars.len() as int) =~= text@);
    }
    parts
}

/// The segments of a path put together, with `/` between neighbours.
pub fn join_segments(parts: &Vec<String>) -> (path: String)
    ensures
        path@ == join(parts.deep_view(), '/'),
{
    let mut path = String::new();
    let mut i: usize = 0;
    proof {
        reveal_strlit("/");
        assert(parts.deep_view().take(0) =~= Seq::empty());
    }
    while i < parts.len()
        invariant
            i <= parts.len(),
            "/"@ == seq!['/'],
            path@ == join(parts.deep_view().take(i as int), '/'),
        decreases parts.len() - i,
    {
        let ghost sofar = parts.deep_view().take(i as int);
        let ghost next = parts.deep_view().take(i + 1);
        proof {
            assert(next.drop_last() =~= sofar);
            assert(next.last() == parts[i as int]@);
        }
        if i > 0 {
            path.append("/");
            proof {
                assert(path@ =~= join(sofar, '/').push('/'));
            }
        }
        path.append(parts[i].as_str());
        proof {
            if i == 0 {
                assert(path@ =~= parts[0]@);
            }
        }
        i += 1;
    }
    proof {
        assert(parts.deep_view().take(parts.len() as int) =~= parts.deep_view());
    }
    path
}

} // verus!
