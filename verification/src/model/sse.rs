//! Server-sent events: lines of bytes, and the payloads that they carry.

use crate::model::message::{ProviderError, ProviderErrorView};
use crate::text::{chars_of, concat3, stands_at, text_of_range};
use vstd::prelude::*;
use vstd::utf8::{decode_utf8, encode_utf8, encode_utf8_decode_utf8, valid_utf8};

verus! {

/// Names the message of the error that `std::str::from_utf8` returns for bytes that are no UTF-8.
pub uninterp spec fn utf8_error_text(bytes: Seq<u8>) -> Seq<char>;

/// `std::str::from_utf8` takes exactly the bytes that are valid UTF-8, and gives the text that
/// they encode; its error is taken as text.
#[verifier::external_body]
pub(crate) fn read_utf8(bytes: &[u8]) -> (res: Result<&str, String>)
    ensures
        match res {
            Ok(text) => valid_utf8(bytes@) && encode_utf8(text@) == bytes@,
            Err(message) => !valid_utf8(bytes@) && message@ == utf8_error_text(bytes@),
        },
{
    std::str::from_utf8(bytes).map_err(|error| error.to_string())
}

/// The index of the first newline byte, or the number of bytes where there is none.
pub open spec fn newline_at(bytes: Seq<u8>) -> int
    decreases bytes.len(),
{
    if bytes.len() == 0 || bytes[0] == 10 {
        0
    } else {
        1 + newline_at(bytes.drop_first())
    }
}

/// A line without the carriage return at its end.
pub open spec fn line_of(bytes: Seq<u8>) -> Seq<u8> {
    if bytes.len() > 0 && bytes.last() == 13 {
        bytes.drop_last()
    } else {
        bytes
    }
}

/// What a parser holds: bytes without a newline, and the data lines of an event.
#[verifier::ext_equal]
pub struct SseView {
    pub buffer: Seq<u8>,
    pub data_lines: Seq<Seq<char>>,
}

/// Lines joined by newlines.
pub open spec fn joined_lines(lines: Seq<Seq<char>>) -> Seq<char>
    decreases lines.len(),
{
    if lines.len() == 0 {
        Seq::empty()
    } else if lines.len() == 1 {
        lines[0]
    } else {
        joined_lines(lines.drop_last()) + "\n"@ + lines.last()
    }
}

/// What a data line carries, behind at most one space.
pub open spec fn data_of(line: Seq<char>) -> Seq<char> {
    let rest = line.skip("data:"@.len() as int);
    if rest.len() > 0 && rest[0] == ' ' {
        rest.skip(1)
    } else {
        rest
    }
}

/// What a line makes of the data lines, and the payload that it ends.
pub open spec fn line_taken(data: Seq<Seq<char>>, line: Seq<char>) -> (
    Seq<Seq<char>>,
    Option<Seq<char>>,
) {
    if line.len() == 0 {
        if data.len() == 0 {
            (data, None)
        } else {
            (Seq::empty(), Some(joined_lines(data)))
        }
    } else if "data:"@.is_prefix_of(line) {
        (data.push(data_of(line)), None)
    } else {
        (data, None)
    }
}

/// What has been read: the data lines, the payloads, and the line that was no UTF-8.
#[verifier::ext_equal]
pub struct SseOutcome {
    pub buffer: Seq<u8>,
    pub data_lines: Seq<Seq<char>>,
    pub payloads: Seq<Seq<char>>,
    pub broken: Option<Seq<u8>>,
}

/// One line is read.
pub open spec fn line_read(data: Seq<Seq<char>>, line: Seq<u8>, rest: Seq<u8>) -> SseOutcome {
    if !valid_utf8(line) {
        SseOutcome { buffer: rest, data_lines: data, payloads: Seq::empty(), broken: Some(line) }
    } else {
        let (data_lines, payload) = line_taken(data, decode_utf8(line));
        SseOutcome {
            buffer: rest,
            data_lines,
            payloads: match payload {
                Some(payload) => seq![payload],
                None => Seq::empty(),
            },
            broken: None,
        }
    }
}

/// `later` behind the payloads of `earlier`.
pub open spec fn behind(earlier: Seq<Seq<char>>, later: SseOutcome) -> SseOutcome {
    SseOutcome { payloads: earlier + later.payloads, ..later }
}

/// Whole lines are read from the front of `bytes`, until none is left or one is no UTF-8.
pub open spec fn lines_read(data: Seq<Seq<char>>, bytes: Seq<u8>) -> SseOutcome
    decreases bytes.len(),
{
    let n = newline_at(bytes);
    if n >= bytes.len() {
        SseOutcome { buffer: bytes, data_lines: data, payloads: Seq::empty(), broken: None }
    } else {
        proof {
            lemma_newline_at(bytes);
        }
        let rest = bytes.skip(n + 1);
        let first = line_read(data, line_of(bytes.take(n)), rest);
        if first.broken is Some {
            first
        } else {
            behind(first.payloads, lines_read(first.data_lines, rest))
        }
    }
}

/// The first newline stands where it is said to.
pub proof fn lemma_newline_at(bytes: Seq<u8>)
    ensures
        0 <= newline_at(bytes) <= bytes.len(),
        newline_at(bytes) < bytes.len() ==> bytes[newline_at(bytes)] == 10,
        forall|i: int| 0 <= i < newline_at(bytes) ==> bytes[i] != 10,
    decreases bytes.len(),
{
    if bytes.len() > 0 && bytes[0] != 10 {
        let rest = bytes.drop_first();
        lemma_newline_at(rest);
        assert forall|i: int| 0 <= i < newline_at(bytes) implies bytes[i] != 10 by {
            if i > 0 {
                assert(rest[i - 1] != 10);
            }
        }
    }
}

proof fn lemma_newline_at_is(bytes: Seq<u8>, n: int)
    requires
        0 <= n <= bytes.len(),
        n < bytes.len() ==> bytes[n] == 10,
        forall|i: int| 0 <= i < n ==> bytes[i] != 10,
    ensures
        newline_at(bytes) == n,
{
    lemma_newline_at(bytes);
    let m = newline_at(bytes);
    if m < n {
        assert(bytes[m] != 10);
    } else if n < m {
        assert(bytes[n] != 10);
    }
}

/// How bytes are cut into pieces makes no difference: reading `a` and then `b` reads as much as
/// reading them at once.
pub proof fn lemma_fragments_read_alike(data: Seq<Seq<char>>, a: Seq<u8>, b: Seq<u8>)
    requires
        lines_read(data, a).broken is None,
    ensures
        lines_read(data, a + b) == behind(
            lines_read(data, a).payloads,
            lines_read(lines_read(data, a).data_lines, lines_read(data, a).buffer + b),
        ),
    decreases a.len(),
{
    let n = newline_at(a);
    lemma_newline_at(a);
    let first_part = lines_read(data, a);
    if n >= a.len() {
        assert(behind(Seq::empty(), lines_read(data, a + b)) =~= lines_read(data, a + b));
    } else {
        assert forall|i: int| 0 <= i < n implies (a + b)[i] != 10 by {
            assert(a[i] != 10);
        }
        lemma_newline_at_is(a + b, n);
        let rest = a.skip(n + 1);
        assert((a + b).take(n) =~= a.take(n));
        assert((a + b).skip(n + 1) =~= rest + b);
        let first = line_read(data, line_of(a.take(n)), rest);
        let longer = line_read(data, line_of(a.take(n)), rest + b);
        assert(first.broken is None);
        assert(longer.broken is None);
        lemma_fragments_read_alike(first.data_lines, rest, b);
        let inner = lines_read(first.data_lines, rest);
        let outer = lines_read(inner.data_lines, inner.buffer + b);
        assert(first.payloads + (inner.payloads + outer.payloads) =~= (first.payloads
            + inner.payloads) + outer.payloads);
        assert(lines_read(data, a + b) =~= behind(first_part.payloads, outer));
    }
}

/// Reads server-sent events from bytes that come in pieces.
#[derive(Debug)]
pub struct SseParser {
    buffer: Vec<u8>,
    data_lines: Vec<String>,
}

impl DeepView for SseParser {
    type V = SseView;

    closed spec fn deep_view(&self) -> SseView {
        SseView { buffer: self.buffer@, data_lines: self.data_lines.deep_view() }
    }
}

impl Default for SseParser {
    fn default() -> (res: Self)
        ensures
            res.deep_view() == (SseView { buffer: Seq::empty(), data_lines: Seq::empty() }),
    {
        let res = SseParser { buffer: Vec::new(), data_lines: Vec::new() };
        assert(res.data_lines.deep_view() =~= Seq::<Seq<char>>::empty());
        res
    }
}

/// Lines joined by newlines.
fn join_lines(lines: &Vec<String>) -> (res: String)
    ensures
        res@ == joined_lines(lines.deep_view()),
{
    let ghost all = lines.deep_view();
    if lines.len() == 0 {
        return String::new();
    }
    let mut joined = lines[0].clone();
    let mut i: usize = 1;
    assert(all.take(1)[0] == lines@[0]@);
    while i < lines.len()
        invariant
            1 <= i <= lines.len(),
            all == lines.deep_view(),
            joined@ == joined_lines(all.take(i as int)),
        decreases lines.len() - i,
    {
        proof {
            assert(all.take(i + 1).drop_last() =~= all.take(i as int));
            assert(all.take(i + 1).last() == lines@[i as int]@);
        }
        joined = concat3(&joined, "\n", &lines[i]);
        i += 1;
    }
    assert(all.take(i as int) =~= all);
    joined
}

/// What a data line carries.
fn data_part(line: &str) -> (res: Option<String>)
    ensures
        match res {
            Some(data) => "data:"@.is_prefix_of(line@) && data@ == data_of(line@),
            None => !"data:"@.is_prefix_of(line@),
        },
{
    let chars = chars_of(line);
    let prefix = chars_of("data:");
    if !stands_at(&chars, &prefix, 0) {
        assert(!"data:"@.is_prefix_of(line@)) by {
            if "data:"@.is_prefix_of(line@) {
                assert(line@.subrange(0, "data:"@.len() as int) =~= line@.take(
                    "data:"@.len() as int,
                ));
            }
        }
        return None;
    }
    assert(line@.subrange(0, "data:"@.len() as int) =~= line@.take("data:"@.len() as int));
    let mut from: usize = prefix.len();
    if from < chars.len() && chars[from] == ' ' {
        from += 1;
    }
    let res = text_of_range(&chars, from, chars.len());
    assert(res@ =~= data_of(line@));
    Some(res)
}

impl SseParser {
    /// Takes one line, and returns the payload that it ends.
    fn process_line(&mut self, line: &[u8]) -> (res: Result<Option<String>, ProviderError>)
        ensures
            ({
                let read = line_read(
                    old(self).deep_view().data_lines,
                    line@,
                    old(self).deep_view().buffer,
                );
                &&& final(self).deep_view() == (SseView {
                    buffer: read.buffer,
                    data_lines: read.data_lines,
                })
                &&& match res {
                    Ok(Some(payload)) => read.broken is None && read.payloads == seq![payload@],
                    Ok(None) => read.broken is None && read.payloads == Seq::<Seq<char>>::empty(),
                    Err(error) => read.broken == Some(line@) && error.deep_view()
                        == (ProviderErrorView::Malformed { message: utf8_error_text(line@) }),
                }
            }),
    {
        match read_utf8(line) {
            Err(message) => Err(ProviderError::Malformed { message }),
            Ok(text) => {
                proof {
                    encode_utf8_decode_utf8(text@);
                }
                if text.is_empty() {
                    if self.data_lines.len() == 0 {
                        return Ok(None);
                    }
                    let payload = join_lines(&self.data_lines);
                    self.data_lines = Vec::new();
                    assert(self.data_lines.deep_view() =~= Seq::<Seq<char>>::empty());
                    return Ok(Some(payload));
                }
                let ghost before = self.data_lines.deep_view();
                if let Some(data) = data_part(text) {
                    self.data_lines.push(data);
                    assert(self.data_lines.deep_view() =~= before.push(data_of(text@)));
                }
                Ok(None)
            },
        }
    }

    /// Takes the next bytes, and returns the payloads that they complete. Where a line is no
    /// UTF-8, it is passed over and reported, and the payloads before it are lost.
    pub fn feed(&mut self, bytes: &[u8]) -> (res: Result<Vec<String>, ProviderError>)
        ensures
            ({
                let read = lines_read(
                    old(self).deep_view().data_lines,
                    old(self).deep_view().buffer + bytes@,
                );
                &&& final(self).deep_view() == (SseView {
                    buffer: read.buffer,
                    data_lines: read.data_lines,
                })
                &&& match res {
                    Ok(payloads) => read.broken is None && payloads.deep_view() == read.payloads,
                    Err(error) => match read.broken {
                        Some(line) => error.deep_view() == (ProviderErrorView::Malformed {
                            message: utf8_error_text(line),
                        }),
                        None => false,
                    },
                }
            }),
    {
        let ghost data = self.data_lines.deep_view();
        let ghost whole = self.buffer@ + bytes@;
        append_bytes(&mut self.buffer, bytes);
        let mut payloads: Vec<String> = Vec::new();
        let ghost goal = lines_read(data, whole);
        assert(behind(payloads.deep_view(), goal) =~= goal);
        loop
            invariant
                goal == behind(
                    payloads.deep_view(),
                    lines_read(self.data_lines.deep_view(), self.buffer@),
                ),
                goal == lines_read(
                    old(self).deep_view().data_lines,
                    old(self).deep_view().buffer + bytes@,
                ),
            decreases self.buffer@.len(),
        {
            let ghost before = self.buffer@;
            let ghost data = self.data_lines.deep_view();
            let mut n: usize = 0;
            while n < self.buffer.len() && self.buffer[n] != 10
                invariant
                    n <= self.buffer.len(),
                    forall|i: int| 0 <= i < n ==> self.buffer@[i] != 10,
                decreases self.buffer.len() - n,
            {
                n += 1;
            }
            proof {
                lemma_newline_at_is(before, n as int);
            }
            if n == self.buffer.len() {
                proof {
                    assert(goal.payloads =~= payloads.deep_view());
                }
                return Ok(payloads);
            }
            let rest = self.buffer.split_off(n + 1);
            let mut line: Vec<u8> = Vec::new();
            line.append(&mut self.buffer);
            line.pop();
            proof {
                assert(rest@ =~= before.skip(n + 1));
                assert(line@ =~= before.take(n as int));
            }
            if line.len() > 0 && line[line.len() - 1] == 13 {
                line.pop();
            }
            assert(line@ =~= line_of(before.take(n as int)));
            self.buffer = rest;
            let ghost earlier = payloads.deep_view();
            let ghost read = line_read(data, line@, rest@);
            match self.process_line(&line) {
                Err(error) => {
                    return Err(error);
                },
                Ok(Some(payload)) => {
                    payloads.push(payload);
                    assert(payloads.deep_view() =~= earlier + read.payloads);
                },
                Ok(None) => {
                    assert(payloads.deep_view() =~= earlier + read.payloads);
                },
            }
            proof {
                let next = lines_read(read.data_lines, rest@);
                assert(earlier + (read.payloads + next.payloads) =~= payloads.deep_view()
                    + next.payloads);
                assert(goal =~= behind(payloads.deep_view(), next));
            }
        }
    }

    /// Ends the stream: what was not ended by a newline counts as a line, and what data lines are
    /// left make a payload.
    pub fn finish(&mut self) -> (res: Result<Vec<String>, ProviderError>)
        ensures
            ({
                let s = old(self).deep_view();
                let read = if s.buffer.len() == 0 {
                    SseOutcome {
                        buffer: Seq::empty(),
                        data_lines: s.data_lines,
                        payloads: Seq::empty(),
                        broken: None,
                    }
                } else {
                    line_read(s.data_lines, s.buffer, Seq::empty())
                };
                match res {
                    Ok(payloads) => {
                        &&& read.broken is None
                        &&& payloads.deep_view() == read.payloads + (if read.data_lines.len() == 0 {
                            Seq::empty()
                        } else {
                            seq![joined_lines(read.data_lines)]
                        })
                        &&& final(self).deep_view() == (SseView {
                            buffer: Seq::empty(),
                            data_lines: Seq::empty(),
                        })
                    },
                    Err(error) => {
                        &&& read.broken == Some(s.buffer)
                        &&& error.deep_view() == (ProviderErrorView::Malformed {
                            message: utf8_error_text(s.buffer),
                        })
                        &&& final(self).deep_view() == (SseView {
                            buffer: Seq::empty(),
                            data_lines: s.data_lines,
                        })
                    },
                }
            }),
    {
        let mut payloads: Vec<String> = Vec::new();
        assert(payloads.deep_view() =~= Seq::<Seq<char>>::empty());
        if self.buffer.len() > 0 {
            let mut line: Vec<u8> = Vec::new();
            line.append(&mut self.buffer);
            assert(line@ =~= old(self).deep_view().buffer);
            let ghost read = line_read(self.data_lines.deep_view(), line@, self.buffer@);
            match self.process_line(&line) {
                Err(error) => {
                    return Err(error);
                },
                Ok(Some(payload)) => {
                    payloads.push(payload);
                    assert(payloads.deep_view() =~= read.payloads);
                },
                Ok(None) => {
                    assert(payloads.deep_view() =~= read.payloads);
                },
            }
        } else {
            assert(self.buffer@ =~= Seq::<u8>::empty());
        }
        let ghost first = payloads.deep_view();
        if self.data_lines.len() > 0 {
            let payload = join_lines(&self.data_lines);
            payloads.push(payload);
            self.data_lines = Vec::new();
            assert(payloads.deep_view() =~= first + seq![payload@]);
        } else {
            assert(payloads.deep_view() =~= first + Seq::<Seq<char>>::empty());
        }
        assert(self.data_lines.deep_view() =~= Seq::<Seq<char>>::empty());
        Ok(payloads)
    }
}

/// Appends `bytes`.
pub fn append_bytes(buffer: &mut Vec<u8>, bytes: &[u8])
    ensures
        final(buffer)@ == old(buffer)@ + bytes@,
{
    let ghost start = buffer@;
    let mut i: usize = 0;
    assert(start + bytes@.take(0) =~= start);
    while i < bytes.len()
        invariant
            i <= bytes.len(),
            buffer@ == start + bytes@.take(i as int),
        decreases bytes.len() - i,
    {
        buffer.push(bytes[i]);
        i += 1;
        assert(buffer@ =~= start + bytes@.take(i as int));
    }
    assert(bytes@.take(i as int) =~= bytes@);
}

} // verus!
