//! Steps of the cursor: by what a reader takes for one character, and to the ends of a line.

use crate::text::{
    at_boundary, byte_len, chars_of, first_index, lemma_boundary_ends, lemma_boundary_in_prefix,
    lemma_boundary_of_parts, lemma_boundary_shift, lemma_first_index_is, lemma_split,
    lemma_utf8_len_concat, prefix_within, split_text, text_after, text_of_range, utf8_len,
};
use unicode_segmentation::UnicodeSegmentation;
use vstd::prelude::*;
use vstd::utf8::*;

verus! {

/// Names the byte offsets at which the extended grapheme clusters of a text begin.
pub uninterp spec fn grapheme_starts_of(text: Seq<char>) -> Seq<usize>;

/// Every character of `text` is of ASCII, and none is a carriage return.
pub open spec fn is_plain(text: Seq<char>) -> bool {
    is_ascii_chars(text) && !text.contains('\r')
}

/// The offsets that `UnicodeSegmentation::grapheme_indices` gives for extended clusters. The
/// clusters are consecutive, not empty, and make up the text. Characters of ASCII join into one
/// cluster only where a newline follows a carriage return, so in a plain text each is a cluster of
/// its own; where the clusters of another text end is left to the Unicode tables of the crate.
#[verifier::external_body]
fn grapheme_starts(text: &str) -> (res: Vec<usize>)
    ensures
        res@ == grapheme_starts_of(text@),
        res@.len() == 0 <==> text@.len() == 0,
        res@.len() > 0 ==> res@[0] == 0,
        forall|i: int, j: int| 0 <= i < j < res@.len() ==> res@[i] < res@[j],
        forall|i: int|
            0 <= i < res@.len() ==> at_boundary(text@, #[trigger] res@[i] as int) && res@[i]
                < utf8_len(text@),
        is_plain(text@) ==> res@.len() == text@.len() && forall|i: int|
            0 <= i < res@.len() ==> #[trigger] res@[i] == i,
{
    text.grapheme_indices(true).map(|(index, _)| index).collect()
}

/// Offsets as numbers without a limit.
pub open spec fn offsets(starts: Seq<usize>) -> Seq<int> {
    Seq::new(starts.len(), |i: int| starts[i] as int)
}

/// Where the clusters of a text begin: in a plain text at every character.
pub open spec fn cluster_starts(text: Seq<char>) -> Seq<int> {
    if is_plain(text) {
        Seq::new(text.len(), |i: int| i)
    } else {
        offsets(grapheme_starts_of(text))
    }
}

/// The last start of a cluster, and 0 where there is none.
pub open spec fn last_start(starts: Seq<int>) -> int {
    if starts.len() == 0 {
        0
    } else {
        starts.last()
    }
}

/// Where the first cluster ends that begins at `cursor`: at the next start, counted from `cursor`,
/// and at the end of the text where none follows.
pub open spec fn first_end(starts: Seq<int>, cursor: int, end: int) -> int {
    if starts.len() <= 1 {
        end
    } else {
        cursor + starts[1]
    }
}

/// Where the cluster before the cursor begins.
pub open spec fn grapheme_before(s: Seq<char>, cursor: int) -> int {
    last_start(cluster_starts(prefix_within(s, cursor)))
}

/// Where the cluster after the cursor ends.
pub open spec fn grapheme_after(s: Seq<char>, cursor: int) -> int {
    first_end(cluster_starts(text_after(s, cursor)), cursor, utf8_len(s))
}

/// What stands in `s` after its last newline.
pub open spec fn last_line(s: Seq<char>) -> Seq<char>
    decreases s.len(),
{
    if s.len() == 0 || s.last() == '\n' {
        Seq::empty()
    } else {
        last_line(s.drop_last()).push(s.last())
    }
}

/// Where the line of the cursor begins.
pub open spec fn line_start_of(s: Seq<char>, cursor: int) -> int {
    cursor - utf8_len(last_line(prefix_within(s, cursor)))
}

/// Where the line of the cursor ends.
pub open spec fn line_end_of(s: Seq<char>, cursor: int) -> int {
    let after = text_after(s, cursor);
    cursor + utf8_len(after.take(first_index(after, '\n')))
}

/// The part of `s` after its last newline is where the search stopped.
proof fn lemma_last_line_is(s: Seq<char>, n: int)
    requires
        0 <= n <= s.len(),
        n > 0 ==> s[n - 1] == '\n',
        forall|i: int| n <= i < s.len() ==> s[i] != '\n',
    ensures
        last_line(s) == s.skip(n),
    decreases s.len(),
{
    if n == s.len() {
        assert(s.skip(n) =~= Seq::<char>::empty());
    } else {
        assert(s.last() != '\n');
        lemma_last_line_is(s.drop_last(), n);
        assert(s.skip(n) =~= s.drop_last().skip(n).push(s.last()));
    }
}

/// A plain text takes one byte for each character.
proof fn lemma_plain_len(s: Seq<char>)
    requires
        is_plain(s),
    ensures
        utf8_len(s) == s.len(),
{
    is_ascii_chars_encode_utf8(s);
}

/// In a plain text a step to the right that is not at the end, and a step to the left after it,
/// come back to the same place; a step to the left at the beginning stays there.
pub proof fn lemma_right_and_left_return(s: Seq<char>, cursor: int)
    requires
        is_plain(s),
        at_boundary(s, cursor),
    ensures
        cursor < utf8_len(s) ==> grapheme_after(s, cursor) == cursor + 1 && grapheme_before(
            s,
            grapheme_after(s, cursor),
        ) == cursor,
        cursor == 0 ==> grapheme_before(s, cursor) == 0,
{
    lemma_split(s, cursor);
    lemma_boundary_ends(s);
    let before = prefix_within(s, cursor);
    let after = text_after(s, cursor);
    assert forall|i: int| 0 <= i < before.len() implies '\0' <= #[trigger] before[i] <= '\u{7f}'
        && before[i] != '\r' by {
        assert(before[i] == s[i]);
    }
    assert forall|i: int| 0 <= i < after.len() implies '\0' <= #[trigger] after[i] <= '\u{7f}'
        && after[i] != '\r' by {
        assert(after[i] == s[before.len() + i]);
    }
    lemma_plain_len(before);
    lemma_plain_len(after);
    lemma_plain_len(s);
    if cursor < utf8_len(s) {
        let longer = s.take(cursor + 1);
        assert forall|i: int| 0 <= i < longer.len() implies '\0' <= #[trigger] longer[i] <= '\u{7f}'
            && longer[i] != '\r' by {
            assert(longer[i] == s[i]);
        }
        lemma_plain_len(longer);
        lemma_boundary_of_parts(longer, s.skip(cursor + 1));
        assert(longer + s.skip(cursor + 1) =~= s);
        assert(grapheme_after(s, cursor) == cursor + 1);
        assert(prefix_within(s, cursor + 1) == longer);
    }
}

/// Where the cluster before the end of a text begins, given where its clusters begin.
pub fn boundary_before(starts: &[usize]) -> (res: usize)
    ensures
        res == last_start(offsets(starts@)),
{
    if starts.len() == 0 {
        0
    } else {
        starts[starts.len() - 1]
    }
}

/// Where the cluster ends that begins at `cursor`, given where the clusters from there on begin,
/// counted from `cursor`, and where the text ends.
pub fn boundary_after(starts: &[usize], cursor: usize, end: usize) -> (res: usize)
    requires
        starts@.len() > 1 ==> cursor + starts@[1] <= usize::MAX,
    ensures
        res == first_end(offsets(starts@), cursor as int, end as int),
{
    if starts.len() <= 1 {
        end
    } else {
        cursor + starts[1]
    }
}

/// Where the cluster before `cursor` begins.
pub fn previous_grapheme_boundary(text: &str, cursor: usize) -> (res: usize)
    requires
        at_boundary(text@, cursor as int),
    ensures
        res == grapheme_before(text@, cursor as int),
        res <= cursor,
        cursor > 0 ==> res < cursor,
        at_boundary(text@, res as int),
{
    let parts = split_text(text, cursor);
    let starts = grapheme_starts(parts.0);
    proof {
        lemma_split(text@, cursor as int);
        lemma_boundary_ends(text@);
        lemma_boundary_ends(parts.0@);
        crate::text::lemma_utf8_len_bounds(parts.0@);
        assert(offsets(starts@) =~= cluster_starts(parts.0@));
        if starts@.len() > 0 {
            lemma_boundary_in_prefix(parts.0@, parts.1@, starts@.last() as int);
        }
    }
    boundary_before(starts.as_slice())
}

/// Where the cluster after `cursor` ends.
pub fn next_grapheme_boundary(text: &str, cursor: usize) -> (res: usize)
    requires
        at_boundary(text@, cursor as int),
    ensures
        res == grapheme_after(text@, cursor as int),
        cursor <= res <= utf8_len(text@),
        cursor < utf8_len(text@) ==> cursor < res,
        at_boundary(text@, res as int),
{
    let parts = split_text(text, cursor);
    let starts = grapheme_starts(parts.1);
    let len = byte_len(text);
    proof {
        lemma_split(text@, cursor as int);
        lemma_boundary_ends(text@);
        assert(offsets(starts@) =~= cluster_starts(parts.1@));
        if starts@.len() > 1 {
            lemma_boundary_shift(parts.0@, parts.1@, starts@[1] as int);
        }
    }
    boundary_after(starts.as_slice(), cursor, len)
}

/// Where the line of `cursor` begins.
pub fn line_start(text: &str, cursor: usize) -> (res: usize)
    requires
        at_boundary(text@, cursor as int),
    ensures
        res == line_start_of(text@, cursor as int),
        res <= cursor,
        at_boundary(text@, res as int),
{
    let parts = split_text(text, cursor);
    let chars = chars_of(parts.0);
    let mut n: usize = chars.len();
    while n > 0 && chars[n - 1] != '\n'
        invariant
            n <= chars.len(),
            forall|i: int| n <= i < chars.len() ==> chars@[i] != '\n',
        decreases n,
    {
        n -= 1;
    }
    let front = text_of_range(&chars, 0, n);
    proof {
        lemma_last_line_is(chars@, n as int);
        lemma_split(text@, cursor as int);
        let before = chars@;
        assert(front@ =~= before.take(n as int));
        assert(before =~= before.take(n as int) + before.skip(n as int));
        lemma_utf8_len_concat(before.take(n as int), before.skip(n as int));
        lemma_boundary_of_parts(before.take(n as int), before.skip(n as int));
        lemma_boundary_in_prefix(before, parts.1@, utf8_len(front@));
    }
    byte_len(&front)
}

/// Where the line of `cursor` ends.
pub fn line_end(text: &str, cursor: usize) -> (res: usize)
    requires
        at_boundary(text@, cursor as int),
    ensures
        res == line_end_of(text@, cursor as int),
        cursor <= res <= utf8_len(text@),
        at_boundary(text@, res as int),
{
    let parts = split_text(text, cursor);
    let chars = chars_of(parts.1);
    let mut n: usize = 0;
    while n < chars.len() && chars[n] != '\n'
        invariant
            n <= chars.len(),
            forall|i: int| 0 <= i < n ==> chars@[i] != '\n',
        decreases chars.len() - n,
    {
        n += 1;
    }
    let front = text_of_range(&chars, 0, n);
    let len = byte_len(text);
    proof {
        lemma_first_index_is(chars@, '\n', n as int);
        lemma_split(text@, cursor as int);
        let after = chars@;
        assert(front@ =~= after.take(n as int));
        assert(after =~= after.take(n as int) + after.skip(n as int));
        lemma_utf8_len_concat(after.take(n as int), after.skip(n as int));
        lemma_boundary_of_parts(after.take(n as int), after.skip(n as int));
        lemma_boundary_shift(parts.0@, after, utf8_len(front@));
    }
    cursor + byte_len(&front)
}

} // verus!
