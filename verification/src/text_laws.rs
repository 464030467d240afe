//! What becomes of texts that are trimmed, split into lines, shortened or written in digits.

use crate::text::{
    ascii_lower, decimal_text, digit, is_white_space, lemma_first_index_is, lemma_prefix_within,
    lemma_suffix_within, prefix_within, suffix_within, text_lines, trimmed, trimmed_end,
    trimmed_start, truncated_text, utf8_len, TRUNCATION_MARKER,
};
use vstd::prelude::*;

verus! {

/// A trimmed text has lost the white space at its ends and nothing else.
pub proof fn lemma_white_space_is_trimmed(left: Seq<char>, core: Seq<char>, right: Seq<char>)
    requires
        forall|i: int| 0 <= i < left.len() ==> is_white_space(#[trigger] left[i]),
        forall|i: int| 0 <= i < right.len() ==> is_white_space(#[trigger] right[i]),
        core.len() > 0,
        !is_white_space(core[0]),
        !is_white_space(core.last()),
    ensures
        trimmed(left + core + right) == core,
{
    lemma_start_is_trimmed(left, core + right);
    assert(left + (core + right) =~= left + core + right);
    lemma_end_is_trimmed(core, right);
}

proof fn lemma_start_is_trimmed(left: Seq<char>, rest: Seq<char>)
    requires
        forall|i: int| 0 <= i < left.len() ==> is_white_space(#[trigger] left[i]),
        rest.len() > 0,
        !is_white_space(rest[0]),
    ensures
        trimmed_start(left + rest) == rest,
    decreases left.len(),
{
    let s = left + rest;
    if left.len() > 0 {
        assert(is_white_space(left[0]));
        assert(s.drop_first() =~= left.drop_first() + rest);
        lemma_start_is_trimmed(left.drop_first(), rest);
    } else {
        assert(s =~= rest);
    }
}

proof fn lemma_end_is_trimmed(front: Seq<char>, right: Seq<char>)
    requires
        forall|i: int| 0 <= i < right.len() ==> is_white_space(#[trigger] right[i]),
        front.len() > 0,
        !is_white_space(front.last()),
    ensures
        trimmed_end(front + right) == front,
    decreases right.len(),
{
    let s = front + right;
    if right.len() > 0 {
        assert(is_white_space(right[right.len() - 1]));
        assert(s.drop_last() =~= front + right.drop_last());
        lemma_end_is_trimmed(front, right.drop_last());
    } else {
        assert(s =~= front);
    }
}

/// A text falls into its lines: what stands before the first newline, without the carriage return
/// before it, and then the lines of what follows. A last line needs no newline.
pub proof fn lemma_texts_fall_into_lines(line: Seq<char>, rest: Seq<char>)
    requires
        !line.contains('\n'),
    ensures
        line.len() == 0 || line.last() != '\r' ==> text_lines(line + seq!['\n'] + rest) == seq![
            line,
        ] + text_lines(rest),
        text_lines(line + seq!['\r', '\n'] + rest) == seq![line] + text_lines(rest),
        line.len() > 0 ==> text_lines(line) == seq![line],
        text_lines(Seq::<char>::empty()).len() == 0,
{
    assert forall|i: int| 0 <= i < line.len() implies #[trigger] line[i] != '\n' by {
        assert(line.contains(line[i]));
    }
    let n: int = line.len() as int;
    let plain = line + seq!['\n'] + rest;
    lemma_first_index_is(plain, '\n', n);
    assert(plain.take(n) =~= line);
    assert(plain.skip(n + 1) =~= rest);
    let both = line + seq!['\r', '\n'] + rest;
    lemma_first_index_is(both, '\n', n + 1);
    assert(both.take(n + 1) =~= line.push('\r'));
    assert(line.push('\r').drop_last() =~= line);
    assert(both.skip(n + 2) =~= rest);
    lemma_first_index_is(line, '\n', n);
}

/// A text that fits is kept. One that does not is shown by its two ends, as much of them as fits
/// on either side of the marker.
pub proof fn lemma_long_texts_are_shown_by_their_ends(text: Seq<char>, limit: int)
    requires
        utf8_len(TRUNCATION_MARKER@) < limit,
    ensures
        utf8_len(text) <= limit ==> truncated_text(text, limit) == text,
        utf8_len(text) > limit ==> exists|head: int, tail: int|
            #![trigger text.take(head), text.skip(tail)]
            0 <= head <= text.len() && 0 <= tail <= text.len() && truncated_text(text, limit)
                == text.take(head) + TRUNCATION_MARKER@ + text.skip(tail) && utf8_len(
                text.take(head),
            ) <= (limit - utf8_len(TRUNCATION_MARKER@)) / 2 && utf8_len(text.skip(tail)) <= (limit
                - utf8_len(TRUNCATION_MARKER@) + 1) / 2 && (head < text.len() ==> utf8_len(
                text.take(head),
            ) + 4 > (limit - utf8_len(TRUNCATION_MARKER@)) / 2),
{
    if utf8_len(text) > limit {
        let retained = limit - utf8_len(TRUNCATION_MARKER@);
        let front = retained / 2;
        lemma_prefix_within(text, front);
        lemma_suffix_within(text, retained - front);
        let head: int = prefix_within(text, front).len() as int;
        let tail: int = text.len() - suffix_within(text, retained - front).len();
        assert(truncated_text(text, limit) =~= text.take(head) + TRUNCATION_MARKER@ + text.skip(
            tail,
        ));
        if head < text.len() {
            crate::text::lemma_char_width(text[head]);
        }
    }
}

/// The number that a text of digits stands for.
pub open spec fn number_of(text: Seq<char>) -> int
    decreases text.len(),
{
    if text.len() == 0 {
        0
    } else {
        10 * number_of(text.drop_last()) + (text.last() as int - 48)
    }
}

/// A number in digits stands for the number, has only digits, and no zero in front but for zero
/// itself.
pub proof fn lemma_digits_stand_for_the_number(n: nat)
    ensures
        number_of(decimal_text(n)) == n,
        decimal_text(n).len() > 0,
        forall|i: int| 0 <= i < decimal_text(n).len() ==> '0' <= #[trigger] decimal_text(n)[i] <= '9',
        n > 0 ==> decimal_text(n)[0] != '0',
    decreases n,
{
    let text = decimal_text(n);
    let last = digit((n % 10) as int);
    assert(last as int == 48 + n % 10 && '0' <= last <= '9');
    if n < 10 {
        assert(text =~= seq![last]);
        assert(text.drop_last() =~= Seq::<char>::empty());
        assert(number_of(text.drop_last()) == 0);
    } else {
        lemma_digits_stand_for_the_number(n / 10);
        assert(text.drop_last() =~= decimal_text(n / 10));
    }
}

/// A letter in small is the letter that many places on, and everything else stays what it is.
pub proof fn lemma_capitals_become_small(c: char)
    ensures
        'A' <= c <= 'Z' ==> ascii_lower(c) as int == c as int + 32,
        !('A' <= c <= 'Z') ==> ascii_lower(c) == c,
        !('A' <= ascii_lower(c) <= 'Z'),
{
}

} // verus!
