//! How a stream of bytes is read: what each of its lines does, and what comes back of what was
//! sent.

use crate::model::message::ProviderErrorView;
use crate::model::sse::{
    behind, data_of, joined_lines, lemma_newline_at, lines_read, newline_at, utf8_error_text,
    SseView,
};
use crate::model::stream::{outcome_processed, rest_read};
use crate::model::collector::CollectorView;
use crate::config::model::ApiKind;
use vstd::prelude::*;
use vstd::utf8::{encode_utf8, encode_utf8_decode_utf8, encode_utf8_valid_utf8, valid_utf8};

verus! {

/// The bytes of a text that stands in one line.
pub open spec fn is_one_line(bytes: Seq<u8>) -> bool {
    !bytes.contains(10u8) && (bytes.len() == 0 || bytes.last() != 13)
}

/// The end of a line: a newline, or a carriage return and a newline.
pub open spec fn is_line_end(end: Seq<u8>) -> bool {
    end == seq![10u8] || end == seq![13u8, 10u8]
}

proof fn lemma_line_ends(line: Seq<u8>, end: Seq<u8>, rest: Seq<u8>)
    requires
        is_one_line(line),
        is_line_end(end),
    ensures
        ({
            let bytes = line + end + rest;
            let n = newline_at(bytes);
            &&& n == line.len() + end.len() - 1
            &&& n < bytes.len()
            &&& crate::model::sse::line_of(bytes.take(n)) == line
            &&& bytes.skip(n + 1) == rest
        }),
{
    let bytes = line + end + rest;
    let n: int = line.len() + end.len() - 1;
    lemma_newline_at(bytes);
    assert(bytes[n] == 10);
    assert forall|i: int| 0 <= i < n implies bytes[i] != 10 by {
        if i < line.len() {
            assert(bytes[i] == line[i]);
            assert(line.contains(line[i]));
        }
    }
    assert(newline_at(bytes) == n);
    if end == seq![10u8] {
        assert(bytes.take(n) =~= line);
    } else {
        assert(bytes.take(n) =~= line.push(13u8));
        assert(line.push(13u8).drop_last() =~= line);
    }
    assert(bytes.skip(n + 1) =~= rest);
}

/// An empty line hands over what was gathered, if anything was, and nothing stays gathered.
pub proof fn lemma_empty_lines_hand_over(data: Seq<Seq<char>>, end: Seq<u8>, rest: Seq<u8>)
    requires
        is_line_end(end),
    ensures
        data.len() == 0 ==> lines_read(data, end + rest) == lines_read(data, rest),
        data.len() > 0 ==> {
            let read = lines_read(data, end + rest);
            let later = lines_read(Seq::empty(), rest);
            &&& read.payloads == seq![joined_lines(data)] + later.payloads
            &&& read.data_lines == later.data_lines
            &&& read.buffer == later.buffer
            &&& read.broken == later.broken
        },
{
    let nothing = Seq::<u8>::empty();
    lemma_line_ends(nothing, end, rest);
    assert(nothing + end + rest =~= end + rest);
    encode_utf8_valid_utf8(Seq::empty());
    encode_utf8_decode_utf8(Seq::empty());
    assert(encode_utf8(Seq::<char>::empty()) =~= nothing);
    let later = lines_read(data, rest);
    assert(Seq::<Seq<char>>::empty() + later.payloads =~= later.payloads);
}

/// A line of data is gathered behind the others: what follows the colon, without one space. Any
/// other line that is not empty is passed over.
pub proof fn lemma_lines_of_data_are_gathered(
    data: Seq<Seq<char>>,
    line: Seq<char>,
    end: Seq<u8>,
    rest: Seq<u8>,
)
    requires
        is_line_end(end),
        is_one_line(encode_utf8(line)),
        line.len() > 0,
    ensures
        !"data:"@.is_prefix_of(line) ==> lines_read(data, encode_utf8(line) + end + rest)
            == lines_read(data, rest),
        forall|text: Seq<char>|
            #![trigger "data: "@ + text]
            line == "data: "@ + text ==> lines_read(data, encode_utf8(line) + end + rest)
                == lines_read(data.push(text), rest),
        forall|text: Seq<char>|
            #![trigger "data:"@ + text]
            line == "data:"@ + text && (text.len() == 0 || text[0] != ' ') ==> lines_read(
                data,
                encode_utf8(line) + end + rest,
            ) == lines_read(data.push(text), rest),
{
    lemma_line_ends(encode_utf8(line), end, rest);
    encode_utf8_valid_utf8(line);
    encode_utf8_decode_utf8(line);
    reveal_strlit("data:");
    reveal_strlit("data: ");
    assert(behind(Seq::empty(), lines_read(data, rest)).payloads =~= lines_read(
        data,
        rest,
    ).payloads);
    assert forall|text: Seq<char>|
        #![trigger "data: "@ + text]
        line == "data: "@ + text implies lines_read(data, encode_utf8(line) + end + rest)
        == lines_read(data.push(text), rest) by {
        assert(line.subrange(0, 5) =~= "data:"@);
        assert(data_of(line) =~= text);
        assert(behind(Seq::empty(), lines_read(data.push(text), rest)).payloads =~= lines_read(
            data.push(text),
            rest,
        ).payloads);
    }
    assert forall|text: Seq<char>|
        #![trigger "data:"@ + text]
        line == "data:"@ + text && (text.len() == 0 || text[0] != ' ') implies lines_read(
        data,
        encode_utf8(line) + end + rest,
    ) == lines_read(data.push(text), rest) by {
        assert(line.subrange(0, 5) =~= "data:"@);
        assert(data_of(line) =~= text);
        assert(behind(Seq::empty(), lines_read(data.push(text), rest)).payloads =~= lines_read(
            data.push(text),
            rest,
        ).payloads);
    }
}

/// Lines of data that were gathered come out as one text, a newline between each and the next.
pub proof fn lemma_gathered_lines_are_joined(lines: Seq<Seq<char>>, line: Seq<char>)
    ensures
        joined_lines(seq![line]) == line,
        lines.len() > 0 ==> joined_lines(lines.push(line)) == joined_lines(lines).push('\n') + line,
{
    reveal_strlit("\n");
    assert(lines.push(line).drop_last() =~= lines);
    assert(joined_lines(lines) + "\n"@ =~= joined_lines(lines).push('\n'));
}

/// What was sent in one line of data and an empty line is what is read, and the stream goes on
/// behind it.
pub proof fn lemma_what_was_sent_is_read(
    payload: Seq<char>,
    end: Seq<u8>,
    rest: Seq<u8>,
)
    requires
        is_line_end(end),
        is_one_line(encode_utf8("data: "@ + payload)),
    ensures
        ({
            let sent = encode_utf8("data: "@ + payload) + end + (end + rest);
            let read = lines_read(Seq::empty(), sent);
            let later = lines_read(Seq::empty(), rest);
            &&& read.payloads == seq![payload] + later.payloads
            &&& read.data_lines == later.data_lines
            &&& read.buffer == later.buffer
            &&& read.broken == later.broken
        }),
{
    let line = "data: "@ + payload;
    reveal_strlit("data: ");
    lemma_lines_of_data_are_gathered(Seq::empty(), line, end, end + rest);
    let gathered = Seq::<Seq<char>>::empty().push(payload);
    lemma_empty_lines_hand_over(gathered, end, rest);
    lemma_gathered_lines_are_joined(Seq::empty(), payload);
    assert(gathered =~= seq![payload]);
}

/// A line that has not ended waits for its end: nothing is read of it, and nothing is lost.
pub proof fn lemma_unfinished_lines_wait(data: Seq<Seq<char>>, bytes: Seq<u8>)
    requires
        !bytes.contains(10u8),
    ensures
        ({
            let read = lines_read(data, bytes);
            &&& read.buffer == bytes
            &&& read.data_lines == data
            &&& read.payloads.len() == 0
            &&& read.broken is None
        }),
{
    lemma_newline_at(bytes);
    if newline_at(bytes) < bytes.len() {
        assert(bytes.contains(bytes[newline_at(bytes)]));
    }
}

/// A line that is no text breaks the reading off, and is reported.
pub proof fn lemma_lines_that_are_no_text_are_reported(
    c: CollectorView,
    api: ApiKind,
    data: Seq<Seq<char>>,
    line: Seq<u8>,
    end: Seq<u8>,
    rest: Seq<u8>,
)
    requires
        is_line_end(end),
        is_one_line(line),
        !valid_utf8(line),
    ensures
        ({
            let read = lines_read(data, line + end + rest);
            let seen = outcome_processed(c, api, read);
            &&& read.broken == Some(line)
            &&& read.buffer == rest
            &&& read.data_lines == data
            &&& seen.outcome == Err::<bool, ProviderErrorView>(
                ProviderErrorView::Malformed { message: utf8_error_text(line) },
            )
            &&& seen.collector == c
            &&& seen.events.len() == 0
        }),
{
    lemma_line_ends(line, end, rest);
}

/// At its end a stream hands over what was gathered and not handed over yet, with the last line
/// where that one did not end.
pub proof fn lemma_the_end_hands_over_the_rest(data: Seq<Seq<char>>, text: Seq<char>)
    ensures
        ({
            let read = rest_read(SseView { buffer: Seq::empty(), data_lines: data });
            &&& read.broken is None
            &&& data.len() == 0 ==> read.payloads.len() == 0
            &&& data.len() > 0 ==> read.payloads == seq![joined_lines(data)]
        }),
        ({
            let read = rest_read(
                SseView { buffer: encode_utf8("data: "@ + text), data_lines: data },
            );
            &&& read.broken is None
            &&& read.payloads == seq![joined_lines(data.push(text))]
        }),
{
    let line = "data: "@ + text;
    reveal_strlit("data:");
    reveal_strlit("data: ");
    encode_utf8_valid_utf8(line);
    encode_utf8_decode_utf8(line);
    assert(encode_utf8(line).len() > 0) by {
        if encode_utf8(line).len() == 0 {
            assert(encode_utf8(line) =~= encode_utf8(Seq::<char>::empty()));
            encode_utf8_decode_utf8(Seq::empty());
            assert(line.len() == 0);
        }
    }
    assert(line.subrange(0, 5) =~= "data:"@);
    assert(data_of(line) =~= text);
    let read = rest_read(SseView { buffer: encode_utf8(line), data_lines: data });
    assert(read.payloads =~= seq![joined_lines(data.push(text))]);
    let plain = rest_read(SseView { buffer: Seq::empty(), data_lines: data });
    if data.len() > 0 {
        assert(plain.payloads =~= seq![joined_lines(data)]);
    }
}

} // verus!
