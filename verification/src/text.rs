//! Text as a sequence of characters, and its length and boundaries in UTF-8 bytes.

use vstd::prelude::*;
use vstd::string::*;
use vstd::utf8::*;

verus! {

/// Number of bytes that `c` takes in UTF-8.
pub open spec fn char_width(c: char) -> int {
    encode_scalar(c as u32).len() as int
}

/// Number of bytes that `s` takes in UTF-8.
pub open spec fn utf8_len(s: Seq<char>) -> int {
    encode_utf8(s).len() as int
}

/// As many leading characters of `s` as fit in `limit` bytes.
pub open spec fn prefix_within(s: Seq<char>, limit: int) -> Seq<char>
    decreases s.len(),
{
    if s.len() == 0 || char_width(s[0]) > limit {
        Seq::empty()
    } else {
        seq![s[0]] + prefix_within(s.drop_first(), limit - char_width(s[0]))
    }
}

/// As many trailing characters of `s` as fit in `limit` bytes.
pub open spec fn suffix_within(s: Seq<char>, limit: int) -> Seq<char>
    decreases s.len(),
{
    if s.len() == 0 || char_width(s.last()) > limit {
        Seq::empty()
    } else {
        suffix_within(s.drop_last(), limit - char_width(s.last())).push(s.last())
    }
}

/// Byte offset `at` falls between two characters of `s`, or at one of its ends.
pub open spec fn at_boundary(s: Seq<char>, at: int) -> bool {
    utf8_len(prefix_within(s, at)) == at
}

/// What follows the first `at` bytes of `s`.
pub open spec fn text_after(s: Seq<char>, at: int) -> Seq<char> {
    s.skip(prefix_within(s, at).len() as int)
}

/// A character takes one to four bytes.
pub proof fn lemma_char_width(c: char)
    ensures
        1 <= char_width(c) <= 4,
{
}

/// A text without characters takes no bytes.
pub proof fn lemma_utf8_len_empty()
    ensures
        utf8_len(Seq::empty()) == 0,
{
}

/// The bytes of two texts are those of the one and then of the other.
pub proof fn lemma_encode_concat(a: Seq<char>, b: Seq<char>)
    ensures
        encode_utf8(a + b) == encode_utf8(a) + encode_utf8(b),
    decreases a.len(),
{
    if a.len() == 0 {
        assert(a + b =~= b);
        assert(encode_utf8(a) + encode_utf8(b) =~= encode_utf8(b));
    } else {
        assert((a + b).drop_first() =~= a.drop_first() + b);
        lemma_encode_concat(a.drop_first(), b);
        assert(encode_utf8(a + b) =~= encode_utf8(a) + encode_utf8(b));
    }
}

/// Two texts take the bytes of both.
pub proof fn lemma_utf8_len_concat(a: Seq<char>, b: Seq<char>)
    ensures
        utf8_len(a + b) == utf8_len(a) + utf8_len(b),
{
    lemma_encode_concat(a, b);
}

/// A text of one character takes its bytes.
pub proof fn lemma_utf8_len_single(c: char)
    ensures
        utf8_len(seq![c]) == char_width(c),
{
    assert(seq![c].drop_first() =~= Seq::<char>::empty());
    assert(encode_utf8(seq![c].drop_first()) =~= Seq::<u8>::empty());
    assert(encode_utf8(seq![c]) =~= encode_scalar(c as u32));
}

/// A further character adds its bytes.
pub proof fn lemma_utf8_len_push(s: Seq<char>, c: char)
    ensures
        utf8_len(s.push(c)) == utf8_len(s) + char_width(c),
{
    assert(s.push(c) =~= s + seq![c]);
    lemma_utf8_len_concat(s, seq![c]);
    lemma_utf8_len_single(c);
}

/// A text is empty exactly if it takes no bytes, and never has more characters than bytes.
pub proof fn lemma_utf8_len_bounds(s: Seq<char>)
    ensures
        s.len() <= utf8_len(s) <= 4 * s.len(),
    decreases s.len(),
{
    if s.len() > 0 {
        lemma_utf8_len_bounds(s.drop_first());
        lemma_char_width(s[0]);
    }
}

/// Texts with the same bytes are the same text.
pub proof fn lemma_encode_injective(a: Seq<char>, b: Seq<char>)
    requires
        encode_utf8(a) == encode_utf8(b),
    ensures
        a == b,
{
    encode_utf8_decode_utf8(a);
    encode_utf8_decode_utf8(b);
}

/// `prefix_within` is a prefix that fits, and the next character would not.
pub proof fn lemma_prefix_within(s: Seq<char>, limit: int)
    requires
        0 <= limit,
    ensures
        ({
            let p = prefix_within(s, limit);
            &&& p.len() <= s.len()
            &&& p == s.take(p.len() as int)
            &&& utf8_len(p) <= limit
            &&& p.len() < s.len() ==> utf8_len(p) + char_width(s[p.len() as int]) > limit
        }),
    decreases s.len(),
{
    lemma_utf8_len_empty();
    let p = prefix_within(s, limit);
    if s.len() == 0 || char_width(s[0]) > limit {
        assert(s.take(0) =~= Seq::<char>::empty());
    } else {
        let rest = prefix_within(s.drop_first(), limit - char_width(s[0]));
        lemma_prefix_within(s.drop_first(), limit - char_width(s[0]));
        lemma_utf8_len_concat(seq![s[0]], rest);
        lemma_utf8_len_single(s[0]);
        assert(p =~= s.take(p.len() as int));
        if p.len() < s.len() {
            assert(s[p.len() as int] == s.drop_first()[rest.len() as int]);
        }
    }
}

/// A leading part that fits, and whose next character would not, is `prefix_within`.
pub proof fn lemma_prefix_within_is(s: Seq<char>, n: int, limit: int)
    requires
        0 <= n <= s.len(),
        utf8_len(s.take(n)) <= limit,
        n < s.len() ==> utf8_len(s.take(n)) + char_width(s[n]) > limit,
    ensures
        prefix_within(s, limit) == s.take(n),
    decreases s.len(),
{
    lemma_utf8_len_empty();
    if n == 0 {
        assert(s.take(0) =~= Seq::<char>::empty());
        assert(prefix_within(s, limit) =~= s.take(0));
    } else {
        let rest = s.drop_first();
        assert(s.take(n) =~= seq![s[0]] + rest.take(n - 1));
        lemma_utf8_len_concat(seq![s[0]], rest.take(n - 1));
        lemma_utf8_len_single(s[0]);
        lemma_prefix_within_is(rest, n - 1, limit - char_width(s[0]));
        assert(prefix_within(s, limit) =~= s.take(n));
    }
}

/// `suffix_within` is a suffix that fits, and the character before it would not.
pub proof fn lemma_suffix_within(s: Seq<char>, limit: int)
    requires
        0 <= limit,
    ensures
        ({
            let p = suffix_within(s, limit);
            &&& p.len() <= s.len()
            &&& p == s.skip(s.len() - p.len())
            &&& utf8_len(p) <= limit
            &&& p.len() < s.len() ==> utf8_len(p) + char_width(s[s.len() - p.len() - 1]) > limit
        }),
    decreases s.len(),
{
    lemma_utf8_len_empty();
    let p = suffix_within(s, limit);
    if s.len() == 0 || char_width(s.last()) > limit {
        assert(s.skip(s.len() as int) =~= Seq::<char>::empty());
    } else {
        let rest = suffix_within(s.drop_last(), limit - char_width(s.last()));
        lemma_suffix_within(s.drop_last(), limit - char_width(s.last()));
        lemma_utf8_len_push(rest, s.last());
        assert(p =~= s.skip(s.len() - p.len()));
    }
}

/// A trailing part that fits, and whose preceding character would not, is `suffix_within`.
pub proof fn lemma_suffix_within_is(s: Seq<char>, n: int, limit: int)
    requires
        0 <= n <= s.len(),
        utf8_len(s.skip(n)) <= limit,
        n > 0 ==> utf8_len(s.skip(n)) + char_width(s[n - 1]) > limit,
    ensures
        suffix_within(s, limit) == s.skip(n),
    decreases s.len(),
{
    lemma_utf8_len_empty();
    if n == s.len() {
        assert(s.skip(n) =~= Seq::<char>::empty());
        assert(suffix_within(s, limit) =~= s.skip(n));
    } else {
        let rest = s.drop_last();
        assert(s.skip(n) =~= rest.skip(n).push(s.last()));
        lemma_utf8_len_push(rest.skip(n), s.last());
        lemma_utf8_len_bounds(rest.skip(n));
        lemma_suffix_within_is(rest, n, limit - char_width(s.last()));
        assert(suffix_within(s, limit) =~= s.skip(n));
    }
}

/// The byte boundaries of the encoding are the boundaries between characters.
pub proof fn lemma_boundary(s: Seq<char>, at: int)
    requires
        0 <= at,
    ensures
        is_char_boundary(encode_utf8(s), at) <==> at_boundary(s, at),
    decreases s.len(),
{
    let bytes = encode_utf8(s);
    encode_utf8_valid_utf8(s);
    lemma_utf8_len_empty();
    lemma_prefix_within(s, at);
    if at == 0 {
        lemma_utf8_len_bounds(prefix_within(s, at));
    } else if s.len() == 0 {
    } else {
        encode_utf8_first_scalar(s);
        lemma_char_width(s[0]);
        let rest = s.drop_first();
        assert(pop_first_scalar(bytes) =~= encode_utf8(rest));
        let next = at - char_width(s[0]);
        if next < 0 {
            encode_utf8_valid_utf8(rest);
            reveal_with_fuel(is_char_boundary, 2);
        } else {
            lemma_boundary(rest, next);
            lemma_utf8_len_concat(seq![s[0]], prefix_within(rest, next));
            lemma_utf8_len_single(s[0]);
            if at > bytes.len() {
                lemma_utf8_len_concat(prefix_within(s, at), s.skip(prefix_within(s, at).len() as int));
                assert(s =~= prefix_within(s, at) + s.skip(prefix_within(s, at).len() as int));
            }
        }
    }
}

/// The two parts of a text around a boundary make up the text.
pub proof fn lemma_split(s: Seq<char>, at: int)
    requires
        at_boundary(s, at),
    ensures
        0 <= at <= utf8_len(s),
        prefix_within(s, at) + text_after(s, at) == s,
        utf8_len(prefix_within(s, at)) == at,
        utf8_len(text_after(s, at)) == utf8_len(s) - at,
{
    lemma_prefix_within(s, at);
    assert(prefix_within(s, at) + text_after(s, at) =~= s);
    lemma_utf8_len_concat(prefix_within(s, at), text_after(s, at));
}

/// A leading part of a text ends at a boundary.
pub proof fn lemma_boundary_of_parts(a: Seq<char>, b: Seq<char>)
    ensures
        at_boundary(a + b, utf8_len(a)),
        prefix_within(a + b, utf8_len(a)) == a,
        text_after(a + b, utf8_len(a)) == b,
{
    let s = a + b;
    assert(s.take(a.len() as int) =~= a);
    if b.len() > 0 {
        lemma_char_width(s[a.len() as int]);
    }
    lemma_prefix_within_is(s, a.len() as int, utf8_len(a));
    assert(text_after(s, utf8_len(a)) =~= b);
}

/// A boundary of a leading part is one of the whole.
pub proof fn lemma_boundary_in_prefix(a: Seq<char>, b: Seq<char>, at: int)
    requires
        at_boundary(a, at),
    ensures
        at_boundary(a + b, at),
        prefix_within(a + b, at) == prefix_within(a, at),
        text_after(a + b, at) == text_after(a, at) + b,
{
    let p = prefix_within(a, at);
    let rest = text_after(a, at);
    lemma_split(a, at);
    assert(a + b =~= p + (rest + b));
    lemma_boundary_of_parts(p, rest + b);
}

/// A boundary of a trailing part, counted from the front, is one of the whole.
pub proof fn lemma_boundary_shift(a: Seq<char>, b: Seq<char>, at: int)
    requires
        at_boundary(b, at),
    ensures
        at_boundary(a + b, utf8_len(a) + at),
        prefix_within(a + b, utf8_len(a) + at) == a + prefix_within(b, at),
        text_after(a + b, utf8_len(a) + at) == text_after(b, at),
{
    let p = prefix_within(b, at);
    let rest = text_after(b, at);
    lemma_split(b, at);
    lemma_utf8_len_concat(a, p);
    assert(a + b =~= (a + p) + rest);
    lemma_boundary_of_parts(a + p, rest);
}

/// The two ends of a text are boundaries.
pub proof fn lemma_boundary_ends(s: Seq<char>)
    ensures
        at_boundary(s, 0),
        prefix_within(s, 0) == Seq::<char>::empty(),
        text_after(s, 0) == s,
        at_boundary(s, utf8_len(s)),
        prefix_within(s, utf8_len(s)) == s,
        text_after(s, utf8_len(s)) == Seq::<char>::empty(),
{
    lemma_utf8_len_empty();
    assert(Seq::<char>::empty() + s =~= s);
    assert(s + Seq::<char>::empty() =~= s);
    lemma_boundary_of_parts(Seq::empty(), s);
    lemma_boundary_of_parts(s, Seq::empty());
}

/// Length of `s` in bytes.
pub fn byte_len(s: &str) -> (n: usize)
    ensures
        n == utf8_len(s@),
{
    s.as_bytes().len()
}

/// Whether byte offset `at` of `s` lies between two characters or at an end.
pub fn is_boundary(s: &str, at: usize) -> (res: bool)
    ensures
        res == at_boundary(s@, at as int),
{
    proof {
        lemma_boundary(s@, at as int);
    }
    s.is_char_boundary(at)
}

/// The text before and the text after byte offset `at`.
pub fn split_text(s: &str, at: usize) -> (res: (&str, &str))
    requires
        at_boundary(s@, at as int),
    ensures
        res.0@ == prefix_within(s@, at as int),
        res.1@ == text_after(s@, at as int),
{
    proof {
        lemma_boundary(s@, at as int);
    }
    let parts = s.split_at(at);
    proof {
        let p = prefix_within(s@, at as int);
        let q = text_after(s@, at as int);
        lemma_split(s@, at as int);
        lemma_encode_concat(p, q);
        assert(encode_utf8(parts.0@) =~= encode_utf8(p));
        assert(encode_utf8(parts.1@) =~= encode_utf8(q));
        lemma_encode_injective(parts.0@, p);
        lemma_encode_injective(parts.1@, q);
    }
    parts
}

/// Whether two texts are the same.
pub fn same_text(a: &str, b: &str) -> (res: bool)
    ensures
        res == (a@ == b@),
{
    let x = a.as_bytes();
    let y = b.as_bytes();
    if x.len() != y.len() {
        return false;
    }
    let mut i: usize = 0;
    while i < x.len()
        invariant
            x@ == encode_utf8(a@),
            y@ == encode_utf8(b@),
            x@.len() == y@.len(),
            i <= x.len(),
            forall|j: int| 0 <= j < i ==> x@[j] == y@[j],
        decreases x.len() - i,
    {
        if x[i] != y[i] {
            return false;
        }
        i += 1;
    }
    proof {
        assert(x@ =~= y@);
        lemma_encode_injective(a@, b@);
    }
    true
}

/// The longest leading part of `text` that takes at most `limit` bytes.
pub fn prefix_at_boundary(text: &str, limit: usize) -> (res: &str)
    ensures
        res@ == prefix_within(text@, limit as int),
{
    let len = byte_len(text);
    let mut end: usize = if limit < len { limit } else { len };
    let ghost s = text@;
    proof {
        lemma_boundary_of_parts(s, Seq::empty());
        assert(s + Seq::<char>::empty() =~= s);
    }
    while !is_boundary(text, end)
        invariant
            s == text@,
            end <= limit,
            end <= utf8_len(s),
            limit < utf8_len(s) ==> forall|i: int| end < i <= limit ==> !at_boundary(s, i),
            limit >= utf8_len(s) ==> end == utf8_len(s) && at_boundary(s, end as int),
        decreases end,
    {
        proof {
            lemma_prefix_within(s, 0);
            lemma_utf8_len_bounds(prefix_within(s, 0));
        }
        end -= 1;
    }
    proof {
        lemma_split(s, end as int);
        let p = prefix_within(s, end as int);
        lemma_prefix_within(s, end as int);
        let n = p.len() as int;
        if n < s.len() && end + char_width(s[n]) <= limit {
            lemma_utf8_len_push(p, s[n]);
            assert(s.take(n + 1) =~= p.push(s[n]));
            assert(s =~= s.take(n + 1) + s.skip(n + 1));
            lemma_boundary_of_parts(s.take(n + 1), s.skip(n + 1));
            lemma_char_width(s[n]);
            lemma_utf8_len_concat(s.take(n + 1), s.skip(n + 1));
            lemma_utf8_len_bounds(s.skip(n + 1));
            assert(false);
        }
        lemma_prefix_within_is(s, n, limit as int);
    }
    split_text(text, end).0
}

/// The longest trailing part of `text` that takes at most `limit` bytes.
pub fn suffix_at_boundary(text: &str, limit: usize) -> (res: &str)
    ensures
        res@ == suffix_within(text@, limit as int),
{
    let len = byte_len(text);
    let mut start: usize = if limit < len { len - limit } else { 0 };
    let ghost s = text@;
    let ghost floor = start as int;
    proof {
        lemma_boundary_of_parts(s, Seq::empty());
        assert(s + Seq::<char>::empty() =~= s);
    }
    while !is_boundary(text, start)
        invariant
            s == text@,
            len == utf8_len(s),
            floor <= start <= len,
            at_boundary(s, len as int),
            forall|i: int| floor <= i < start ==> !at_boundary(s, i),
        decreases len - start,
    {
        start += 1;
    }
    proof {
        lemma_split(s, start as int);
        let p = prefix_within(s, start as int);
        lemma_prefix_within(s, start as int);
        let n = p.len() as int;
        if n > 0 && len - start + char_width(s[n - 1]) <= limit {
            let shorter = s.take(n - 1);
            assert(p =~= shorter.push(s[n - 1]));
            lemma_utf8_len_push(shorter, s[n - 1]);
            assert(s =~= shorter + s.skip(n - 1));
            lemma_boundary_of_parts(shorter, s.skip(n - 1));
            lemma_char_width(s[n - 1]);
            lemma_utf8_len_bounds(shorter);
            assert(false);
        }
        lemma_suffix_within_is(s, n, limit as int);
    }
    split_text(text, start).1
}

/// Appends `c` to the text: what the documentation of `String::push` promises.
pub assume_specification[ String::push ](text: &mut String, c: char)
    ensures
        final(text)@ == old(text)@.push(c),
;

/// `c` has the Unicode property White_Space: the tab to the carriage return, the space, and the
/// line, paragraph and wider spaces outside ASCII.
pub open spec fn is_white_space(c: char) -> bool {
    ||| '\u{9}' <= c <= '\u{d}'
    ||| c == ' '
    ||| c == '\u{85}'
    ||| c == '\u{a0}'
    ||| c == '\u{1680}'
    ||| '\u{2000}' <= c <= '\u{200a}'
    ||| c == '\u{2028}'
    ||| c == '\u{2029}'
    ||| c == '\u{202f}'
    ||| c == '\u{205f}'
    ||| c == '\u{3000}'
}

/// `char::is_whitespace` answers whether the character has the property White_Space, which the
/// Unicode Character Database gives to these characters and no others.
pub assume_specification[ char::is_whitespace ](c: char) -> (res: bool)
    ensures
        res == is_white_space(c),
;

/// Every character of `s` is white space.
pub open spec fn is_blank_text(s: Seq<char>) -> bool {
    forall|i: int| 0 <= i < s.len() ==> is_white_space(#[trigger] s[i])
}

/// `s` without its leading white space.
pub open spec fn trimmed_start(s: Seq<char>) -> Seq<char>
    decreases s.len(),
{
    if s.len() > 0 && is_white_space(s[0]) {
        trimmed_start(s.drop_first())
    } else {
        s
    }
}

/// `s` without its trailing white space.
pub open spec fn trimmed_end(s: Seq<char>) -> Seq<char>
    decreases s.len(),
{
    if s.len() > 0 && is_white_space(s.last()) {
        trimmed_end(s.drop_last())
    } else {
        s
    }
}

/// `s` without the white space at its ends.
pub open spec fn trimmed(s: Seq<char>) -> Seq<char> {
    trimmed_end(trimmed_start(s))
}

/// `needle` stands in `s` at index `at`.
pub open spec fn occurs_at(s: Seq<char>, needle: Seq<char>, at: int) -> bool {
    0 <= at && at + needle.len() <= s.len() && s.subrange(at, at + needle.len()) == needle
}

/// `needle` stands somewhere in `s`.
pub open spec fn has_infix(s: Seq<char>, needle: Seq<char>) -> bool {
    exists|at: int| occurs_at(s, needle, at)
}

/// The ASCII capital letters become small ones; every other character stays.
pub open spec fn ascii_lower(c: char) -> char {
    if 'A' <= c && c <= 'Z' {
        (c as u8 + 32) as u8 as char
    } else {
        c
    }
}

/// The text with its ASCII letters in small.
pub open spec fn ascii_lowered(s: Seq<char>) -> Seq<char> {
    s.map_values(|c: char| ascii_lower(c))
}

/// The index of the first `c` in `s`, or the length of `s` where there is none.
pub open spec fn first_index(s: Seq<char>, c: char) -> int
    decreases s.len(),
{
    if s.len() == 0 || s[0] == c {
        0
    } else {
        1 + first_index(s.drop_first(), c)
    }
}

/// A line without the carriage return that ended it together with the newline.
pub open spec fn without_return(line: Seq<char>) -> Seq<char> {
    if line.len() > 0 && line.last() == '\r' {
        line.drop_last()
    } else {
        line
    }
}

/// The lines of `s`, each without its end: a newline, or a carriage return and a newline.
pub open spec fn text_lines(s: Seq<char>) -> Seq<Seq<char>>
    decreases s.len(),
{
    let n = first_index(s, '\n');
    if s.len() == 0 {
        Seq::empty()
    } else if n >= s.len() {
        seq![s]
    } else {
        proof {
            lemma_first_index(s, '\n');
        }
        seq![without_return(s.take(n))] + text_lines(s.skip(n + 1))
    }
}

/// The decimal digit `d`.
pub open spec fn digit(d: int) -> char {
    (48 + d) as u8 as char
}

/// `n` in decimal notation.
pub open spec fn decimal_text(n: nat) -> Seq<char>
    decreases n,
{
    if n < 10 {
        seq![digit(n as int)]
    } else {
        decimal_text(n / 10).push(digit((n % 10) as int))
    }
}

/// Ten, multiplied `k` times.
pub open spec fn power_of_ten(k: nat) -> nat
    decreases k,
{
    if k == 0 {
        1
    } else {
        10 * power_of_ten((k - 1) as nat)
    }
}

/// A number below ten to the `k` has at most `k` digits.
pub proof fn lemma_decimal_len(n: nat, k: nat)
    requires
        0 < k,
        n < power_of_ten(k),
    ensures
        decimal_text(n).len() <= k,
    decreases k,
{
    if n >= 10 {
        if k == 1 {
            assert(power_of_ten(1) == 10 * power_of_ten(0));
        } else {
            lemma_decimal_len(n / 10, (k - 1) as nat);
        }
    }
}

/// A number of 64 bits has at most 20 digits.
pub proof fn lemma_decimal_len_u64(n: nat)
    requires
        n <= u64::MAX,
    ensures
        decimal_text(n).len() <= 20,
{
    assert(power_of_ten(20) == 100_000_000_000_000_000_000) by {
        reveal_with_fuel(power_of_ten, 21);
    }
    lemma_decimal_len(n, 20);
}

/// The first index of a character is one of it, and no earlier one is.
pub proof fn lemma_first_index(s: Seq<char>, c: char)
    ensures
        0 <= first_index(s, c) <= s.len(),
        first_index(s, c) < s.len() ==> s[first_index(s, c)] == c,
        forall|i: int| 0 <= i < first_index(s, c) ==> s[i] != c,
    decreases s.len(),
{
    if s.len() > 0 && s[0] != c {
        let rest = s.drop_first();
        lemma_first_index(rest, c);
        assert forall|i: int| 0 <= i < first_index(s, c) implies s[i] != c by {
            if i > 0 {
                assert(rest[i - 1] != c);
            }
        }
    }
}

/// The index before which there is no `c`, and at which there is one or the text ends, is the
/// first.
pub proof fn lemma_first_index_is(s: Seq<char>, c: char, n: int)
    requires
        0 <= n <= s.len(),
        n < s.len() ==> s[n] == c,
        forall|i: int| 0 <= i < n ==> s[i] != c,
    ensures
        first_index(s, c) == n,
{
    lemma_first_index(s, c);
    let m = first_index(s, c);
    if m < n {
        assert(s[m] != c);
    } else if n < m {
        assert(s[n] != c);
    }
}

/// The characters of `s`.
pub fn chars_of(s: &str) -> (res: Vec<char>)
    ensures
        res@ == s@,
{
    let mut res: Vec<char> = Vec::new();
    for c in it: s.chars()
        invariant
            it.seq() == s@,
            res@ == s@.take(it.index() as int),
    {
        res.push(c);
        assert(res@ =~= s@.take(it.index() as int + 1));
    }
    assert(s@.take(s@.len() as int) =~= s@);
    res
}

/// The text made of `chars`.
pub fn text_of(chars: &[char]) -> (res: String)
    ensures
        res@ == chars@,
{
    text_of_range(chars, 0, chars.len())
}

/// The text made of the characters from index `from` up to index `to`.
pub fn text_of_range(chars: &[char], from: usize, to: usize) -> (res: String)
    requires
        from <= to <= chars.len(),
    ensures
        res@ == chars@.subrange(from as int, to as int),
{
    let mut res = String::new();
    let mut i: usize = from;
    while i < to
        invariant
            from <= i <= to <= chars.len(),
            res@ == chars@.subrange(from as int, i as int),
        decreases to - i,
    {
        res.push(chars[i]);
        i += 1;
        assert(res@ =~= chars@.subrange(from as int, i as int));
    }
    res
}

/// `a` followed by `b`.
pub fn concat(a: &str, b: &str) -> (res: String)
    ensures
        res@ == a@ + b@,
{
    let mut res = a.to_owned();
    res.append(b);
    res
}

/// `a`, `b` and `c` one after the other.
pub fn concat3(a: &str, b: &str, c: &str) -> (res: String)
    ensures
        res@ == a@ + b@ + c@,
{
    let mut res = concat(a, b);
    res.append(c);
    res
}

/// Whether `s` holds nothing but white space.
pub fn is_blank(s: &str) -> (res: bool)
    ensures
        res == is_blank_text(s@),
{
    let chars = chars_of(s);
    let mut i: usize = 0;
    while i < chars.len()
        invariant
            chars@ == s@,
            i <= chars.len(),
            forall|j: int| 0 <= j < i ==> is_white_space(#[trigger] s@[j]),
        decreases chars.len() - i,
    {
        if !chars[i].is_whitespace() {
            assert(!is_white_space(s@[i as int]));
            return false;
        }
        i += 1;
    }
    true
}

/// `s` without the white space at its ends.
pub fn trim(s: &str) -> (res: String)
    ensures
        res@ == trimmed(s@),
{
    let chars = chars_of(s);
    let mut from: usize = 0;
    let mut to: usize = chars.len();
    assert(chars@.subrange(0, to as int) =~= s@);
    while from < to && chars[from].is_whitespace()
        invariant
            from <= to == chars.len(),
            trimmed_start(s@) == trimmed_start(chars@.subrange(from as int, to as int)),
        decreases to - from,
    {
        proof {
            let part = chars@.subrange(from as int, to as int);
            assert(part.drop_first() =~= chars@.subrange(from + 1, to as int));
            assert(part[0] == chars@[from as int]);
        }
        from += 1;
    }
    proof {
        let part = chars@.subrange(from as int, to as int);
        if from < to {
            assert(part[0] == chars@[from as int]);
        }
        assert(trimmed_start(s@) == part);
    }
    let ghost start = chars@.subrange(from as int, to as int);
    while from < to && chars[to - 1].is_whitespace()
        invariant
            from <= to <= chars.len(),
            trimmed_end(start) == trimmed_end(chars@.subrange(from as int, to as int)),
        decreases to - from,
    {
        proof {
            let part = chars@.subrange(from as int, to as int);
            assert(part.drop_last() =~= chars@.subrange(from as int, to - 1));
            assert(part.last() == chars@[to - 1]);
        }
        to -= 1;
    }
    proof {
        let part = chars@.subrange(from as int, to as int);
        if from < to {
            assert(part.last() == chars@[to - 1]);
        }
    }
    text_of_range(&chars, from, to)
}

/// Trimming leaves nothing exactly of a text that is white space throughout.
pub proof fn lemma_trimmed_empty(s: Seq<char>)
    ensures
        trimmed(s).len() == 0 <==> is_blank_text(s),
    decreases s.len(),
{
    if s.len() > 0 && is_white_space(s[0]) {
        let rest = s.drop_first();
        lemma_trimmed_empty(rest);
        if is_blank_text(rest) {
            assert forall|i: int| 0 <= i < s.len() implies is_white_space(#[trigger] s[i]) by {
                if i > 0 {
                    assert(is_white_space(rest[i - 1]));
                }
            }
        }
        if is_blank_text(s) {
            assert forall|i: int| 0 <= i < rest.len() implies is_white_space(#[trigger] rest[i]) by {
                assert(is_white_space(s[i + 1]));
            }
        }
    } else if s.len() > 0 {
        lemma_trimmed_end_keeps(s);
    }
}

proof fn lemma_trimmed_end_keeps(s: Seq<char>)
    requires
        s.len() > 0,
        !is_white_space(s[0]),
    ensures
        trimmed_end(s).len() > 0,
    decreases s.len(),
{
    if is_white_space(s.last()) {
        lemma_trimmed_end_keeps(s.drop_last());
    }
}

/// Whether `needle` stands in `chars` at index `at`.
pub fn stands_at(chars: &[char], needle: &[char], at: usize) -> (res: bool)
    requires
        at <= chars.len(),
    ensures
        res == occurs_at(chars@, needle@, at as int),
{
    if needle.len() > chars.len() - at {
        return false;
    }
    let mut i: usize = 0;
    while i < needle.len()
        invariant
            i <= needle.len(),
            at + needle.len() <= chars.len(),
            forall|j: int| 0 <= j < i ==> chars@[at + j] == needle@[j],
        decreases needle.len() - i,
    {
        if chars[at + i] != needle[i] {
            assert(chars@.subrange(at as int, at + needle.len())[i as int] == chars@[at + i]);
            return false;
        }
        i += 1;
    }
    assert(chars@.subrange(at as int, at + needle.len()) =~= needle@);
    true
}

/// The first index from `from` on at which `needle` stands in `chars`.
pub fn find_from(chars: &[char], needle: &[char], from: usize) -> (res: Option<usize>)
    requires
        from <= chars.len(),
    ensures
        match res {
            Some(at) => from <= at <= chars.len() && occurs_at(chars@, needle@, at as int)
                && forall|i: int| from <= i < at ==> !occurs_at(chars@, needle@, i),
            None => forall|i: int| from <= i ==> !occurs_at(chars@, needle@, i),
        },
{
    let mut at: usize = from;
    while at < chars.len()
        invariant
            from <= at <= chars.len(),
            forall|i: int| from <= i < at ==> !occurs_at(chars@, needle@, i),
        decreases chars.len() - at,
    {
        if stands_at(chars, needle, at) {
            return Some(at);
        }
        at += 1;
    }
    if stands_at(chars, needle, at) {
        Some(at)
    } else {
        None
    }
}

/// Whether `needle` stands somewhere in `s`.
pub fn contains_text(s: &str, needle: &str) -> (res: bool)
    ensures
        res == has_infix(s@, needle@),
{
    let chars = chars_of(s);
    let wanted = chars_of(needle);
    match find_from(&chars, &wanted, 0) {
        Some(at) => {
            assert(occurs_at(s@, needle@, at as int));
            true
        },
        None => false,
    }
}

/// Whether `s` begins with `prefix`.
pub fn starts_with(s: &str, prefix: &str) -> (res: bool)
    ensures
        res == prefix@.is_prefix_of(s@),
{
    let chars = chars_of(s);
    let wanted = chars_of(prefix);
    let res = stands_at(&chars, &wanted, 0);
    assert(res == prefix@.is_prefix_of(s@)) by {
        if prefix@.len() <= s@.len() {
            assert(s@.subrange(0, prefix@.len() as int) =~= s@.take(prefix@.len() as int));
        }
    }
    res
}

/// `s` with its ASCII capital letters made small.
pub fn to_ascii_lowercase(s: &str) -> (res: String)
    ensures
        res@ == ascii_lowered(s@),
{
    let chars = chars_of(s);
    let mut res = String::new();
    let mut i: usize = 0;
    while i < chars.len()
        invariant
            chars@ == s@,
            i <= chars.len(),
            res@ == ascii_lowered(s@.take(i as int)),
        decreases chars.len() - i,
    {
        let c = chars[i];
        if 'A' <= c && c <= 'Z' {
            res.push((c as u8 + 32) as char);
        } else {
            res.push(c);
        }
        i += 1;
        assert(res@ =~= ascii_lowered(s@.take(i as int)));
    }
    assert(s@.take(s@.len() as int) =~= s@);
    res
}

/// `n` in decimal notation.
pub fn decimal(n: u64) -> (res: String)
    ensures
        res@ == decimal_text(n as nat),
    decreases n,
{
    let mut res = if n < 10 {
        String::new()
    } else {
        decimal(n / 10)
    };
    res.push((48 + (n % 10) as u8) as char);
    assert(res@ =~= decimal_text(n as nat));
    res
}

/// The lines of `s`, each without its end.
pub fn lines_of(s: &str) -> (res: Vec<String>)
    ensures
        res.deep_view() == text_lines(s@),
{
    let chars = chars_of(s);
    let mut res: Vec<String> = Vec::new();
    let mut from: usize = 0;
    assert(chars@.skip(0) =~= s@);
    assert(res.deep_view() + text_lines(s@) =~= text_lines(s@));
    while from < chars.len()
        invariant
            chars@ == s@,
            from <= chars.len(),
            text_lines(s@) == res.deep_view() + text_lines(s@.skip(from as int)),
        decreases chars.len() - from,
    {
        let ghost rest = s@.skip(from as int);
        let ghost before = res.deep_view();
        let mut end: usize = from;
        while end < chars.len() && chars[end] != '\n'
            invariant
                from <= end <= chars.len(),
                chars@ == s@,
                forall|i: int| from <= i < end ==> chars@[i] != '\n',
            decreases chars.len() - end,
        {
            end += 1;
        }
        proof {
            assert forall|i: int| 0 <= i < end - from implies rest[i] != '\n' by {
                assert(rest[i] == chars@[from + i]);
            }
            lemma_first_index_is(rest, '\n', end - from);
        }
        if end == chars.len() {
            let line = text_of_range(&chars, from, end);
            assert(line@ =~= rest);
            res.push(line);
            proof {
                assert(s@.skip(end as int) =~= Seq::<char>::empty());
                assert(res.deep_view() =~= before.push(rest));
                assert(before + text_lines(rest) =~= res.deep_view() + text_lines(s@.skip(end as int)));
            }
            from = end;
        } else {
            let stop = if end > from && chars[end - 1] == '\r' {
                end - 1
            } else {
                end
            };
            let line = text_of_range(&chars, from, stop);
            proof {
                let n = end - from;
                assert(rest.take(n) =~= s@.subrange(from as int, end as int));
                assert(line@ =~= without_return(rest.take(n)));
                assert(rest.skip(n + 1) =~= s@.skip(end + 1));
            }
            res.push(line);
            proof {
                assert(res.deep_view() =~= before.push(without_return(rest.take(end - from))));
                assert(before + text_lines(rest) =~= res.deep_view() + text_lines(s@.skip(end + 1)));
            }
            from = end + 1;
        }
    }
    assert(s@.skip(from as int) =~= Seq::<char>::empty());
    assert(res.deep_view() + text_lines(Seq::<char>::empty()) =~= res.deep_view());
    res
}

/// The first index from `from` on at which `needle` stands in `s`.
pub open spec fn first_occurrence(s: Seq<char>, needle: Seq<char>, from: int) -> Option<int>
    decreases s.len() + 1 - from,
{
    if from + needle.len() > s.len() {
        None
    } else if occurs_at(s, needle, from) {
        Some(from)
    } else {
        first_occurrence(s, needle, from + 1)
    }
}

/// The first occurrence of a text is one, and there is none before it.
pub proof fn lemma_first_occurrence(s: Seq<char>, needle: Seq<char>, from: int)
    requires
        0 <= from,
    ensures
        match first_occurrence(s, needle, from) {
            Some(at) => from <= at && occurs_at(s, needle, at) && forall|i: int|
                from <= i < at ==> !occurs_at(s, needle, i),
            None => forall|i: int| from <= i ==> !occurs_at(s, needle, i),
        },
    decreases s.len() + 1 - from,
{
    if from + needle.len() > s.len() || occurs_at(s, needle, from) {
    } else {
        lemma_first_occurrence(s, needle, from + 1);
    }
}

/// What stands before and after the first `mark` in `s`.
pub open spec fn split_once_at(s: Seq<char>, mark: Seq<char>) -> Option<(Seq<char>, Seq<char>)> {
    match first_occurrence(s, mark, 0) {
        Some(at) => Some((s.take(at), s.skip(at + mark.len()))),
        None => None,
    }
}

/// The texts before and after the first `mark` in `s`.
pub fn split_once(s: &str, mark: &str) -> (res: Option<(String, String)>)
    ensures
        res.deep_view() == split_once_at(s@, mark@),
{
    let chars = chars_of(s);
    let wanted = chars_of(mark);
    proof {
        lemma_first_occurrence(s@, mark@, 0);
    }
    match find_from(&chars, &wanted, 0) {
        Some(at) => {
            proof {
                let first = first_occurrence(s@, mark@, 0)->0;
                assert(occurs_at(s@, mark@, first));
                assert(occurs_at(s@, mark@, at as int));
                assert(first == at);
            }
            let before = text_of_range(&chars, 0, at);
            let after = text_of_range(&chars, at + wanted.len(), chars.len());
            assert(before@ =~= s@.take(at as int));
            assert(after@ =~= s@.skip(at + mark@.len()));
            Some((before, after))
        },
        None => {
            proof {
                if let Some(first) = first_occurrence(s@, mark@, 0) {
                    assert(occurs_at(s@, mark@, first));
                }
            }
            None
        },
    }
}

/// Names what std prints for a text with `{:?}`: the text in double quotes, with escapes.
pub uninterp spec fn quoted_text(text: Seq<char>) -> Seq<char>;

/// `format!` with `{:?}` on a `str`; how the characters are escaped is left to std.
#[verifier::external_body]
pub(crate) fn quoted(text: &str) -> (res: String)
    ensures
        res@ == quoted_text(text@),
{
    format!("{text:?}")
}

/// What stands for the middle of a text that was cut.
pub const TRUNCATION_MARKER: &'static str = "\n[… text truncated …]\n";

/// `text`, or where it takes more than `limit` bytes its two ends around the marker.
pub open spec fn truncated_text(text: Seq<char>, limit: int) -> Seq<char> {
    let marker = TRUNCATION_MARKER@;
    if utf8_len(text) <= limit {
        text
    } else if limit <= utf8_len(marker) {
        prefix_within(marker, limit)
    } else {
        let retained = limit - utf8_len(marker);
        let head = retained / 2;
        prefix_within(text, head) + marker + suffix_within(text, retained - head)
    }
}

/// A truncated text stays within its limit.
pub proof fn lemma_truncated_text_is_bounded(text: Seq<char>, limit: int)
    requires
        0 <= limit,
    ensures
        utf8_len(truncated_text(text, limit)) <= limit,
{
    let marker = TRUNCATION_MARKER@;
    if utf8_len(text) <= limit {
    } else if limit <= utf8_len(marker) {
        lemma_prefix_within(marker, limit);
    } else {
        let retained = limit - utf8_len(marker);
        let head = retained / 2;
        lemma_prefix_within(text, head);
        lemma_suffix_within(text, retained - head);
        lemma_utf8_len_concat(prefix_within(text, head), marker);
        lemma_utf8_len_concat(
            prefix_within(text, head) + marker,
            suffix_within(text, retained - head),
        );
    }
}

/// `text`, or where it takes more than `limit` bytes its two ends around the marker.
pub fn truncate_text(text: &str, limit: usize) -> (res: String)
    ensures
        res@ == truncated_text(text@, limit as int),
{
    if byte_len(text) <= limit {
        return text.to_owned();
    }
    let marker = byte_len(TRUNCATION_MARKER);
    if limit <= marker {
        return prefix_at_boundary(TRUNCATION_MARKER, limit).to_owned();
    }
    let retained: usize = limit - marker;
    let head: usize = retained / 2;
    let tail: usize = retained - head;
    concat3(prefix_at_boundary(text, head), TRUNCATION_MARKER, suffix_at_boundary(text, tail))
}

} // verus!
