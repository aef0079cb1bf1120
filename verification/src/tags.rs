//! The two paragraph tags, and how often they stand in a text.

use vstd::prelude::*;
use crate::text::lacks;

verus! {

/// The tag that opens a paragraph, `<p>`.
pub open spec fn open_tag() -> Seq<char> {
    seq!['<', 'p', '>']
}

/// The tag that closes a paragraph, `</p>`.
pub open spec fn close_tag() -> Seq<char> {
    seq!['<', '/', 'p', '>']
}

/// `tag` is one of the two paragraph tags.
pub open spec fn is_paragraph_tag(tag: Seq<char>) -> bool {
    tag == open_tag() || tag == close_tag()
}

/// `text` ends with `tag`.
pub open spec fn ends_with(text: Seq<char>, tag: Seq<char>) -> bool {
    text.len() >= tag.len() && text.subrange(text.len() - tag.len(), text.len() as int) == tag
}

/// The number of places in `text` at which `tag` stands.
pub open spec fn occurrences(text: Seq<char>, tag: Seq<char>) -> nat
    decreases text.len(),
{
    if text.len() == 0 {
        0
    } else {
        occurrences(text.drop_last(), tag) + if ends_with(text, tag) {
            1nat
        } else {
            0nat
        }
    }
}

/// The last character of `text`, if it has one, cannot be the first or an
/// inner character of a paragraph tag.
pub open spec fn closes_cleanly(text: Seq<char>) -> bool {
    text.len() == 0 || (text.last() != '<' && text.last() != '/' && text.last() != 'p')
}

/// The first character of `text`, if it has one, cannot be an inner or the
/// last character of a paragraph tag.
pub open spec fn opens_cleanly(text: Seq<char>) -> bool {
    text.len() == 0 || (text[0] != '/' && text[0] != 'p' && text[0] != '>')
}

/// Where no paragraph tag can lie across the joint of two texts, the tags of
/// the whole are those of its parts.
pub proof fn lemma_occurrences_concat(a: Seq<char>, b: Seq<char>, tag: Seq<char>)
    requires
        is_paragraph_tag(tag),
        closes_cleanly(a) || opens_cleanly(b),
    ensures
        occurrences(a + b, tag) == occurrences(a, tag) + occurrences(b, tag),
    decreases b.len(),
{
    if b.len() > 0 {
        let whole = a + b;
        let front = b.drop_last();
        assert(whole.drop_last() == a + front);
        lemma_occurrences_concat(a, front, tag);
        if b.len() >= tag.len() {
            assert(whole.subrange(whole.len() - tag.len(), whole.len() as int) == b.subrange(
                b.len() - tag.len(),
                b.len() as int,
            ));
        }
    }
}

/// A concatenation begins as its first part and ends as its last part.
pub proof fn lemma_concat_ends(a: Seq<char>, b: Seq<char>)
    ensures
        a.len() > 0 ==> (a + b).len() > 0 && (a + b)[0] == a[0],
        b.len() > 0 ==> (a + b).len() > 0 && (a + b).last() == b.last(),
        a.len() > 0 && opens_cleanly(a) ==> opens_cleanly(a + b),
        b.len() > 0 && closes_cleanly(b) ==> closes_cleanly(a + b),
        b.len() == 0 ==> a + b == a,
        a.len() == 0 ==> a + b == b,
{
}

/// A text without `<` holds no paragraph tag.
pub proof fn lemma_no_bracket_no_tag(text: Seq<char>, tag: Seq<char>)
    requires
        is_paragraph_tag(tag),
        lacks(text, '<'),
    ensures
        occurrences(text, tag) == 0,
    decreases text.len(),
{
    if text.len() > 0 {
        lemma_no_bracket_no_tag(text.drop_last(), tag);
    }
}

/// A text in which no `>` follows a `p` holds no paragraph tag.
pub proof fn lemma_no_tag_end_no_tag(text: Seq<char>, tag: Seq<char>)
    requires
        is_paragraph_tag(tag),
        forall|i: int| 0 <= i < text.len() - 1 ==> !(#[trigger] text[i] == 'p' && text[i + 1] == '>'),
    ensures
        occurrences(text, tag) == 0,
    decreases text.len(),
{
    if text.len() > 0 {
        lemma_no_tag_end_no_tag(text.drop_last(), tag);
    }
}

/// Each paragraph tag holds itself once and the other one not at all.
pub proof fn lemma_tag_in_tag(inner: Seq<char>, tag: Seq<char>)
    requires
        is_paragraph_tag(inner),
        is_paragraph_tag(tag),
    ensures
        occurrences(inner, tag) == if inner == tag {
            1nat
        } else {
            0nat
        },
{
    reveal_with_fuel(occurrences, 5);
    let open = open_tag();
    let close = close_tag();
    assert(close.len() == 4 && close[0] == '<' && close[1] == '/' && close[2] == 'p' && close[3]
        == '>');
    assert(open.subrange(0, 3) == open);
    assert(close.subrange(0, 4) == close);
}

/// A paragraph tag between two texts, the first of which ends and the second
/// of which begins so that no tag can lie across a joint, adds one to the
/// count of that tag and nothing to the count of the other.
pub proof fn lemma_one_tag(before: Seq<char>, inner: Seq<char>, after: Seq<char>, tag: Seq<char>)
    requires
        is_paragraph_tag(inner),
        is_paragraph_tag(tag),
        closes_cleanly(before),
        opens_cleanly(after),
    ensures
        occurrences(before + inner + after, tag) == occurrences(before, tag) + occurrences(
            after,
            tag,
        ) + if inner == tag {
            1nat
        } else {
            0nat
        },
{
    lemma_tag_in_tag(inner, tag);
    lemma_occurrences_concat(before, inner, tag);
    lemma_occurrences_concat(before + inner, after, tag);
}

/// How often `tag` stands in the tag `<p>`.
pub open spec fn one_open(tag: Seq<char>) -> nat {
    if tag == open_tag() {
        1
    } else {
        0
    }
}

/// How often `tag` stands in the tag `</p>`.
pub open spec fn one_close(tag: Seq<char>) -> nat {
    if tag == close_tag() {
        1
    } else {
        0
    }
}

} // verus!
