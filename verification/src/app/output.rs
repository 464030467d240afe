//! The output of tools in the transcript, and its bounds.

use crate::text::{
    byte_len, concat, concat3, first_occurrence, lemma_first_occurrence, lemma_prefix_within,
    lemma_suffix_within, lemma_utf8_len_bounds,
    lemma_utf8_len_concat, occurs_at, prefix_at_boundary, prefix_within, split_once, split_once_at,
    suffix_at_boundary, suffix_within, truncate_text, truncated_text, utf8_len,
};
use crate::tools::{
    ToolExecutionMetadata, ToolOutputStream, ToolPreviewLine, ToolPreviewLineView,
};
use vstd::prelude::*;

verus! {

/// Most bytes of output that the transcript keeps of one call.
pub const MAX_TOOL_TRANSCRIPT_OUTPUT_BYTES: usize = 256 * 1024;

/// What stands for the output between the head and the tail that are kept.
pub const TOOL_OUTPUT_MARKER: &'static str = "\n[… output truncated …]\n";

/// Whether a call still runs, and how it went.
#[derive(Clone, Copy, Debug, PartialEq, Eq, Structural)]
pub enum ToolStatus {
    Running,
    Finished(ToolExecutionMetadata),
}

/// A piece of output from one stream.
#[derive(Debug, PartialEq, Eq)]
pub struct ToolOutputChunk {
    pub stream: Option<ToolOutputStream>,
    pub text: String,
}

/// What a [`ToolOutputChunk`] holds.
#[verifier::ext_equal]
pub struct ToolOutputChunkView {
    pub stream: Option<ToolOutputStream>,
    pub text: Seq<char>,
}

impl DeepView for ToolOutputChunk {
    type V = ToolOutputChunkView;

    open spec fn deep_view(&self) -> ToolOutputChunkView {
        ToolOutputChunkView {
            stream: self.stream,
            text: self.text.deep_view(),
        }
    }
}

impl Clone for ToolOutputChunk {
    fn clone(&self) -> (res: Self)
        ensures
            res.deep_view() == self.deep_view(),
    {
        let res = ToolOutputChunk {
            stream: self.stream,
            text: self.text.clone(),
        };
        assert(res.deep_view() =~~= self.deep_view());
        res
    }
}

/// The call of a tool in the transcript.
#[derive(Debug, PartialEq, Eq)]
pub struct ToolTranscriptEntry {
    pub call_id: String,
    pub name: String,
    pub summary: String,
    pub preview: Vec<ToolPreviewLine>,
    pub output: String,
    pub output_chunks: Vec<ToolOutputChunk>,
    pub output_truncated: bool,
    pub status: ToolStatus,
}

/// What a [`ToolTranscriptEntry`] holds.
#[verifier::ext_equal]
pub struct ToolTranscriptEntryView {
    pub call_id: Seq<char>,
    pub name: Seq<char>,
    pub summary: Seq<char>,
    pub preview: Seq<ToolPreviewLineView>,
    pub output: Seq<char>,
    pub output_chunks: Seq<ToolOutputChunkView>,
    pub output_truncated: bool,
    pub status: ToolStatus,
}

impl DeepView for ToolTranscriptEntry {
    type V = ToolTranscriptEntryView;

    open spec fn deep_view(&self) -> ToolTranscriptEntryView {
        ToolTranscriptEntryView {
            call_id: self.call_id.deep_view(),
            name: self.name.deep_view(),
            summary: self.summary.deep_view(),
            preview: self.preview.deep_view(),
            output: self.output.deep_view(),
            output_chunks: self.output_chunks.deep_view(),
            output_truncated: self.output_truncated,
            status: self.status,
        }
    }
}

impl Clone for ToolTranscriptEntry {
    fn clone(&self) -> (res: Self)
        ensures
            res.deep_view() == self.deep_view(),
    {
        let res = ToolTranscriptEntry {
            call_id: self.call_id.clone(),
            name: self.name.clone(),
            summary: self.summary.clone(),
            preview: self.preview.clone(),
            output: self.output.clone(),
            output_chunks: self.output_chunks.clone(),
            output_truncated: self.output_truncated,
            status: self.status,
        };
        assert(res.deep_view() =~~= self.deep_view());
        res
    }
}

/// Bytes of output that are kept from the front once output is cut.
pub open spec fn head_limit() -> int {
    MAX_TOOL_TRANSCRIPT_OUTPUT_BYTES as int / 2
}

/// Bytes of output that are kept from the back once output is cut.
pub open spec fn tail_limit() -> int {
    MAX_TOOL_TRANSCRIPT_OUTPUT_BYTES as int - head_limit()
}

/// The last bytes of `earlier` followed by `chunk`, as far as they fit in the tail.
pub open spec fn output_tail(earlier: Seq<char>, chunk: Seq<char>) -> Seq<char> {
    if utf8_len(chunk) >= tail_limit() {
        suffix_within(chunk, tail_limit())
    } else {
        suffix_within(earlier, tail_limit() - utf8_len(chunk)) + chunk
    }
}

/// The output, and whether it is cut, after `chunk` was added: output that fits is kept whole;
/// else its head and its tail stand around the marker.
pub open spec fn output_after(output: Seq<char>, truncated: bool, chunk: Seq<char>) -> (
    Seq<char>,
    bool,
) {
    if chunk.len() == 0 {
        (output, truncated)
    } else if !truncated {
        if utf8_len(output) + utf8_len(chunk) <= MAX_TOOL_TRANSCRIPT_OUTPUT_BYTES {
            (output + chunk, false)
        } else {
            (
                prefix_within(output, head_limit()) + TOOL_OUTPUT_MARKER@ + output_tail(
                    output,
                    chunk,
                ),
                true,
            )
        }
    } else {
        match split_once_at(output, TOOL_OUTPUT_MARKER@) {
            Some((head, tail)) => (head + TOOL_OUTPUT_MARKER@ + output_tail(tail, chunk), true),
            None => (truncated_text(output, MAX_TOOL_TRANSCRIPT_OUTPUT_BYTES as int), true),
        }
    }
}

/// An entry after `chunk` was added to its output.
pub open spec fn with_output(
    tool: ToolTranscriptEntryView,
    chunk: Seq<char>,
) -> ToolTranscriptEntryView {
    let (output, output_truncated) = output_after(tool.output, tool.output_truncated, chunk);
    ToolTranscriptEntryView { output, output_truncated, ..tool }
}

/// Output within its bound: whole, or cut with a head of at most half of it before the marker.
pub open spec fn is_bounded_output(output: Seq<char>, truncated: bool) -> bool {
    match split_once_at(output, TOOL_OUTPUT_MARKER@) {
        Some((head, tail)) if truncated => utf8_len(head) <= head_limit() && utf8_len(output)
            <= MAX_TOOL_TRANSCRIPT_OUTPUT_BYTES + utf8_len(TOOL_OUTPUT_MARKER@),
        _ => utf8_len(output) <= MAX_TOOL_TRANSCRIPT_OUTPUT_BYTES,
    }
}

/// The tail fits in its part.
pub proof fn lemma_output_tail(earlier: Seq<char>, chunk: Seq<char>)
    ensures
        utf8_len(output_tail(earlier, chunk)) <= tail_limit(),
{
    lemma_utf8_len_bounds(chunk);
    if utf8_len(chunk) >= tail_limit() {
        lemma_suffix_within(chunk, tail_limit());
    } else {
        lemma_suffix_within(earlier, tail_limit() - utf8_len(chunk));
        lemma_utf8_len_concat(suffix_within(earlier, tail_limit() - utf8_len(chunk)), chunk);
    }
}

/// A marker behind a short head is found no later than behind that head.
proof fn lemma_head_stays_short(head: Seq<char>, tail: Seq<char>)
    requires
        utf8_len(head) <= head_limit(),
    ensures
        match split_once_at(head + TOOL_OUTPUT_MARKER@ + tail, TOOL_OUTPUT_MARKER@) {
            Some((before, after)) => utf8_len(before) <= head_limit(),
            None => false,
        },
{
    let marker = TOOL_OUTPUT_MARKER@;
    let output = head + marker + tail;
    lemma_first_occurrence(output, marker, 0);
    assert(output.subrange(head.len() as int, (head.len() + marker.len()) as int) =~= marker);
    assert(occurs_at(output, marker, head.len() as int));
    let at = first_occurrence(output, marker, 0)->0;
    assert(at <= head.len());
    assert(output.take(at) =~= head.take(at));
    assert(head =~= head.take(at) + head.skip(at));
    lemma_utf8_len_concat(head.take(at), head.skip(at));
    lemma_utf8_len_bounds(head.skip(at));
}

/// Output stays within its bound, however much is added to it.
pub proof fn lemma_output_stays_bounded(output: Seq<char>, truncated: bool, chunk: Seq<char>)
    requires
        is_bounded_output(output, truncated),
    ensures
        ({
            let (after, cut) = output_after(output, truncated, chunk);
            is_bounded_output(after, cut)
        }),
{
    let marker = TOOL_OUTPUT_MARKER@;
    let max = MAX_TOOL_TRANSCRIPT_OUTPUT_BYTES as int;
    if chunk.len() == 0 {
    } else if !truncated && utf8_len(output) + utf8_len(chunk) <= max {
        lemma_utf8_len_concat(output, chunk);
    } else if !truncated {
        let head = prefix_within(output, head_limit());
        let tail = output_tail(output, chunk);
        lemma_prefix_within(output, head_limit());
        lemma_output_tail(output, chunk);
        lemma_utf8_len_concat(head, marker);
        lemma_utf8_len_concat(head + marker, tail);
        lemma_head_stays_short(head, tail);
    } else {
        match split_once_at(output, marker) {
            Some((head, old_tail)) => {
                let tail = output_tail(old_tail, chunk);
                lemma_output_tail(old_tail, chunk);
                lemma_utf8_len_concat(head, marker);
                lemma_utf8_len_concat(head + marker, tail);
                lemma_head_stays_short(head, tail);
            },
            None => {},
        }
    }
}

/// The bytes of all pieces together.
pub open spec fn chunks_len(chunks: Seq<ToolOutputChunkView>) -> int
    decreases chunks.len(),
{
    if chunks.len() == 0 {
        0
    } else {
        chunks_len(chunks.drop_last()) + utf8_len(chunks.last().text)
    }
}

/// `text` as a piece of a stream, unless it is empty.
pub open spec fn piece(stream: Option<ToolOutputStream>, text: Seq<char>) -> Seq<
    ToolOutputChunkView,
> {
    if text.len() == 0 {
        Seq::empty()
    } else {
        seq![ToolOutputChunkView { stream, text }]
    }
}

/// The pieces from the front that fit in `limit` bytes; the last of them may be cut.
pub open spec fn chunks_prefix(chunks: Seq<ToolOutputChunkView>, limit: int) -> Seq<
    ToolOutputChunkView,
>
    decreases chunks.len(),
{
    if limit <= 0 || chunks.len() == 0 {
        Seq::empty()
    } else {
        let text = prefix_within(chunks[0].text, limit);
        let front = piece(chunks[0].stream, text);
        if text.len() < chunks[0].text.len() {
            front
        } else {
            front + chunks_prefix(chunks.drop_first(), limit - utf8_len(text))
        }
    }
}

/// The pieces from the back that fit in `limit` bytes; the first of them may be cut.
pub open spec fn chunks_suffix(chunks: Seq<ToolOutputChunkView>, limit: int) -> Seq<
    ToolOutputChunkView,
>
    decreases chunks.len(),
{
    if limit <= 0 || chunks.len() == 0 {
        Seq::empty()
    } else {
        let text = suffix_within(chunks.last().text, limit);
        let back = piece(chunks.last().stream, text);
        if text.len() < chunks.last().text.len() {
            back
        } else {
            chunks_suffix(chunks.drop_last(), limit - utf8_len(text)) + back
        }
    }
}

/// The pieces with `text` added: to the last piece, where it is of the same stream.
pub open spec fn chunks_joined(
    chunks: Seq<ToolOutputChunkView>,
    stream: Option<ToolOutputStream>,
    text: Seq<char>,
) -> Seq<ToolOutputChunkView> {
    if chunks.len() > 0 && chunks.last().stream == stream {
        chunks.drop_last().push(ToolOutputChunkView { stream, text: chunks.last().text + text })
    } else {
        chunks.push(ToolOutputChunkView { stream, text })
    }
}

/// The pieces within their bound: whole, or a head and a tail around the marker.
pub open spec fn chunks_bounded(chunks: Seq<ToolOutputChunkView>) -> Seq<ToolOutputChunkView> {
    let max = MAX_TOOL_TRANSCRIPT_OUTPUT_BYTES as int;
    if chunks_len(chunks) <= max {
        chunks
    } else {
        let retained = max - utf8_len(TOOL_OUTPUT_MARKER@);
        let head = retained / 2;
        chunks_prefix(chunks, head) + seq![
            ToolOutputChunkView { stream: None, text: TOOL_OUTPUT_MARKER@ },
        ] + chunks_suffix(chunks, retained - head)
    }
}

/// The pieces after `text` came in on a stream.
pub open spec fn chunks_after(
    chunks: Seq<ToolOutputChunkView>,
    stream: Option<ToolOutputStream>,
    text: Seq<char>,
) -> Seq<ToolOutputChunkView> {
    if text.len() == 0 {
        chunks
    } else {
        chunks_bounded(chunks_joined(chunks, stream, text))
    }
}

/// An entry after `text` came in on a stream.
pub open spec fn with_chunk(
    tool: ToolTranscriptEntryView,
    stream: Option<ToolOutputStream>,
    text: Seq<char>,
) -> ToolTranscriptEntryView {
    ToolTranscriptEntryView {
        output_chunks: chunks_after(tool.output_chunks, stream, text),
        ..tool
    }
}

/// The marker takes few bytes.
proof fn lemma_marker()
    ensures
        0 < utf8_len(TOOL_OUTPUT_MARKER@) <= 96,
{
    reveal_strlit("
[… output truncated …]
");
    lemma_utf8_len_bounds(TOOL_OUTPUT_MARKER@);
}

proof fn lemma_chunks_len_concat(a: Seq<ToolOutputChunkView>, b: Seq<ToolOutputChunkView>)
    ensures
        chunks_len(a + b) == chunks_len(a) + chunks_len(b),
    decreases b.len(),
{
    if b.len() == 0 {
        assert(a + b =~= a);
    } else {
        assert((a + b).drop_last() =~= a + b.drop_last());
        lemma_chunks_len_concat(a, b.drop_last());
    }
}

proof fn lemma_piece_len(stream: Option<ToolOutputStream>, text: Seq<char>)
    ensures
        chunks_len(piece(stream, text)) == utf8_len(text),
{
    lemma_utf8_len_bounds(text);
    if text.len() > 0 {
        let one = piece(stream, text);
        assert(one.drop_last() =~= Seq::<ToolOutputChunkView>::empty());
        assert(chunks_len(one.drop_last()) == 0);
    }
}

proof fn lemma_chunks_len_nonnegative(chunks: Seq<ToolOutputChunkView>)
    ensures
        chunks_len(chunks) >= 0,
    decreases chunks.len(),
{
    if chunks.len() > 0 {
        lemma_chunks_len_nonnegative(chunks.drop_last());
    }
}

proof fn lemma_chunks_prefix_fits(chunks: Seq<ToolOutputChunkView>, limit: int)
    requires
        0 <= limit,
    ensures
        chunks_len(chunks_prefix(chunks, limit)) <= limit,
    decreases chunks.len(),
{
    if limit > 0 && chunks.len() > 0 {
        let text = prefix_within(chunks[0].text, limit);
        let front = piece(chunks[0].stream, text);
        lemma_prefix_within(chunks[0].text, limit);
        lemma_piece_len(chunks[0].stream, text);
        if text.len() == chunks[0].text.len() {
            lemma_chunks_prefix_fits(chunks.drop_first(), limit - utf8_len(text));
            lemma_chunks_len_concat(
                front,
                chunks_prefix(chunks.drop_first(), limit - utf8_len(text)),
            );
        }
    }
}

proof fn lemma_chunks_suffix_fits(chunks: Seq<ToolOutputChunkView>, limit: int)
    requires
        0 <= limit,
    ensures
        chunks_len(chunks_suffix(chunks, limit)) <= limit,
    decreases chunks.len(),
{
    if limit > 0 && chunks.len() > 0 {
        let text = suffix_within(chunks.last().text, limit);
        let back = piece(chunks.last().stream, text);
        lemma_suffix_within(chunks.last().text, limit);
        lemma_piece_len(chunks.last().stream, text);
        if text.len() == chunks.last().text.len() {
            lemma_chunks_suffix_fits(chunks.drop_last(), limit - utf8_len(text));
            lemma_chunks_len_concat(
                chunks_suffix(chunks.drop_last(), limit - utf8_len(text)),
                back,
            );
        }
    }
}

/// The pieces of output never take more than the bound together, whatever came in.
pub proof fn lemma_chunks_are_bounded(
    chunks: Seq<ToolOutputChunkView>,
    stream: Option<ToolOutputStream>,
    text: Seq<char>,
)
    requires
        chunks_len(chunks) <= MAX_TOOL_TRANSCRIPT_OUTPUT_BYTES,
    ensures
        chunks_len(chunks_after(chunks, stream, text)) <= MAX_TOOL_TRANSCRIPT_OUTPUT_BYTES,
{
    let joined = chunks_joined(chunks, stream, text);
    let max = MAX_TOOL_TRANSCRIPT_OUTPUT_BYTES as int;
    if text.len() > 0 && chunks_len(joined) > max {
        let retained = max - utf8_len(TOOL_OUTPUT_MARKER@);
        let head = retained / 2;
        let marker = piece(None, TOOL_OUTPUT_MARKER@);
        lemma_marker();
        lemma_piece_len(None, TOOL_OUTPUT_MARKER@);
        lemma_utf8_len_bounds(TOOL_OUTPUT_MARKER@);
        lemma_chunks_prefix_fits(joined, head);
        lemma_chunks_suffix_fits(joined, retained - head);
        lemma_chunks_len_concat(chunks_prefix(joined, head), marker);
        lemma_chunks_len_concat(
            chunks_prefix(joined, head) + marker,
            chunks_suffix(joined, retained - head),
        );
    }
}

/// The pieces of `rest` from the front, behind `before`: the first of them goes first.
proof fn lemma_prefix_step(
    before: Seq<ToolOutputChunkView>,
    rest: Seq<ToolOutputChunkView>,
    limit: int,
)
    requires
        rest.len() > 0,
        limit > 0,
    ensures
        ({
            let text = prefix_within(rest[0].text, limit);
            let more = before + piece(rest[0].stream, text);
            before + chunks_prefix(rest, limit) == if text.len() < rest[0].text.len() {
                more
            } else {
                more + chunks_prefix(rest.drop_first(), limit - utf8_len(text))
            }
        }),
{
    let text = prefix_within(rest[0].text, limit);
    let first = piece(rest[0].stream, text);
    let next = chunks_prefix(rest.drop_first(), limit - utf8_len(text));
    assert(before + (first + next) =~= (before + first) + next);
}

/// The pieces of `rest` from the back, before `after`: the last of them goes first.
proof fn lemma_suffix_step(
    rest: Seq<ToolOutputChunkView>,
    after: Seq<ToolOutputChunkView>,
    limit: int,
)
    requires
        rest.len() > 0,
        limit > 0,
    ensures
        ({
            let text = suffix_within(rest.last().text, limit);
            let more = piece(rest.last().stream, text) + after;
            chunks_suffix(rest, limit) + after == if text.len() < rest.last().text.len() {
                more
            } else {
                chunks_suffix(rest.drop_last(), limit - utf8_len(text)) + more
            }
        }),
{
    let text = suffix_within(rest.last().text, limit);
    let last = piece(rest.last().stream, text);
    let next = chunks_suffix(rest.drop_last(), limit - utf8_len(text));
    assert((next + last) + after =~= next + (last + after));
}

/// The pieces from the front that fit in `limit` bytes.
fn tool_output_prefix(chunks: &Vec<ToolOutputChunk>, limit: usize) -> (res: Vec<ToolOutputChunk>)
    ensures
        res.deep_view() == chunks_prefix(chunks.deep_view(), limit as int),
{
    let ghost all = chunks.deep_view();
    let ghost goal = chunks_prefix(all, limit as int);
    let mut remaining: usize = limit;
    let mut result: Vec<ToolOutputChunk> = Vec::new();
    let mut i: usize = 0;
    assert(all.skip(0) =~= all);
    assert(result.deep_view() + goal =~= goal);
    while i < chunks.len() && remaining > 0
        invariant
            i <= chunks.len(),
            all == chunks.deep_view(),
            goal == result.deep_view() + chunks_prefix(all.skip(i as int), remaining as int),
            goal == chunks_prefix(chunks.deep_view(), limit as int),
        decreases chunks.len() - i,
    {
        let ghost rest = all.skip(i as int);
        let ghost before = result.deep_view();
        proof {
            assert(rest[0] == chunks@[i as int].deep_view());
            assert(rest.drop_first() =~= all.skip(i + 1));
            lemma_prefix_within(rest[0].text, remaining as int);
            lemma_prefix_step(before, rest, remaining as int);
        }
        let text = prefix_at_boundary(&chunks[i].text, remaining);
        let cut = byte_len(text) < byte_len(&chunks[i].text);
        proof {
            let whole = rest[0].text;
            assert(whole =~= text@ + whole.skip(text@.len() as int));
            lemma_utf8_len_concat(text@, whole.skip(text@.len() as int));
            lemma_utf8_len_bounds(whole.skip(text@.len() as int));
            assert(cut <==> text@.len() < whole.len());
        }
        if !text.is_empty() {
            result.push(ToolOutputChunk { stream: chunks[i].stream, text: text.to_owned() });
            assert(result.deep_view() =~= before + piece(rest[0].stream, text@));
        } else {
            assert(result.deep_view() =~= before + piece(rest[0].stream, text@));
        }
        if cut {
            return result;
        }
        remaining -= byte_len(text);
        i += 1;
    }
    assert(result.deep_view() + Seq::<ToolOutputChunkView>::empty() =~= result.deep_view());
    result
}

/// The pieces from the back that fit in `limit` bytes.
fn tool_output_suffix(chunks: &Vec<ToolOutputChunk>, limit: usize) -> (res: Vec<ToolOutputChunk>)
    ensures
        res.deep_view() == chunks_suffix(chunks.deep_view(), limit as int),
{
    let ghost all = chunks.deep_view();
    let ghost goal = chunks_suffix(all, limit as int);
    let mut remaining: usize = limit;
    let mut result: Vec<ToolOutputChunk> = Vec::new();
    let mut i: usize = chunks.len();
    assert(all.take(i as int) =~= all);
    assert(goal + result.deep_view() =~= goal);
    while i > 0 && remaining > 0
        invariant
            i <= chunks.len(),
            all == chunks.deep_view(),
            goal == chunks_suffix(all.take(i as int), remaining as int) + result.deep_view(),
            goal == chunks_suffix(chunks.deep_view(), limit as int),
        decreases i,
    {
        i -= 1;
        let ghost rest = all.take(i + 1);
        let ghost before = result.deep_view();
        proof {
            assert(rest.last() == chunks@[i as int].deep_view());
            assert(rest.drop_last() =~= all.take(i as int));
            lemma_suffix_within(rest.last().text, remaining as int);
            lemma_suffix_step(rest, before, remaining as int);
        }
        let text = suffix_at_boundary(&chunks[i].text, remaining);
        let cut = byte_len(text) < byte_len(&chunks[i].text);
        proof {
            let whole = rest.last().text;
            let front = whole.take(whole.len() - text@.len());
            assert(whole =~= front + text@);
            lemma_utf8_len_concat(front, text@);
            lemma_utf8_len_bounds(front);
            assert(cut <==> text@.len() < whole.len());
        }
        if !text.is_empty() {
            result.insert(0, ToolOutputChunk { stream: chunks[i].stream, text: text.to_owned() });
            assert(result.deep_view() =~= piece(rest.last().stream, text@) + before);
        } else {
            assert(result.deep_view() =~= piece(rest.last().stream, text@) + before);
        }
        if cut {
            return result;
        }
        remaining -= byte_len(text);
    }
    assert(Seq::<ToolOutputChunkView>::empty() + result.deep_view() =~= result.deep_view());
    result
}

/// Whether two pieces are of the same stream.
fn same_stream(a: Option<ToolOutputStream>, b: Option<ToolOutputStream>) -> (res: bool)
    ensures
        res == (a == b),
{
    match (a, b) {
        (Some(a), Some(b)) => a == b,
        (None, None) => true,
        _ => false,
    }
}

/// Whether the pieces take more than `limit` bytes together.
fn exceeds(chunks: &Vec<ToolOutputChunk>, limit: usize) -> (res: bool)
    ensures
        res == (chunks_len(chunks.deep_view()) > limit),
{
    let ghost all = chunks.deep_view();
    let mut total: usize = 0;
    let mut i: usize = 0;
    assert(all.take(0) =~= Seq::<ToolOutputChunkView>::empty());
    while i < chunks.len()
        invariant
            i <= chunks.len(),
            all == chunks.deep_view(),
            total == chunks_len(all.take(i as int)),
            total <= limit,
        decreases chunks.len() - i,
    {
        let len = byte_len(&chunks[i].text);
        proof {
            assert(all.take(i + 1).drop_last() =~= all.take(i as int));
            assert(all.take(i + 1).last() == chunks@[i as int].deep_view());
        }
        if len > limit - total {
            proof {
                assert(all =~= all.take(i + 1) + all.skip(i + 1));
                lemma_chunks_len_concat(all.take(i + 1), all.skip(i + 1));
                lemma_chunks_len_nonnegative(all.skip(i + 1));
            }
            return true;
        }
        total += len;
        i += 1;
    }
    assert(all.take(i as int) =~= all);
    false
}

/// Adds `text` to the pieces of a call's output.
pub fn append_tool_output_chunk(
    tool: &mut ToolTranscriptEntry,
    stream: Option<ToolOutputStream>,
    text: &str,
)
    ensures
        final(tool).deep_view() == with_chunk(old(tool).deep_view(), stream, text@),
{
    if text.is_empty() {
        return;
    }
    let ghost before = tool.output_chunks.deep_view();
    let count = tool.output_chunks.len();
    if count > 0 && same_stream(tool.output_chunks[count - 1].stream, stream) {
        let joined = concat(&tool.output_chunks[count - 1].text, text);
        tool.output_chunks.pop();
        tool.output_chunks.push(ToolOutputChunk { stream, text: joined });
    } else {
        tool.output_chunks.push(ToolOutputChunk { stream, text: text.to_owned() });
    }
    assert(tool.output_chunks.deep_view() =~= chunks_joined(before, stream, text@));
    if !exceeds(&tool.output_chunks, MAX_TOOL_TRANSCRIPT_OUTPUT_BYTES) {
        return;
    }
    proof {
        lemma_marker();
    }
    let retained: usize = MAX_TOOL_TRANSCRIPT_OUTPUT_BYTES - byte_len(TOOL_OUTPUT_MARKER);
    let head: usize = retained / 2;
    let tail: usize = retained - head;
    let mut bounded = tool_output_prefix(&tool.output_chunks, head);
    let mut back = tool_output_suffix(&tool.output_chunks, tail);
    let ghost front_view = bounded.deep_view();
    let ghost back_view = back.deep_view();
    bounded.push(ToolOutputChunk { stream: None, text: TOOL_OUTPUT_MARKER.to_owned() });
    bounded.append(&mut back);
    assert(bounded.deep_view() =~= front_view + seq![
        ToolOutputChunkView { stream: None, text: TOOL_OUTPUT_MARKER@ },
    ] + back_view);
    tool.output_chunks = bounded;
}

/// The last bytes of `earlier` followed by `chunk`, as far as they fit in the tail.
fn tail_of(earlier: &str, chunk: &str) -> (res: String)
    ensures
        res@ == output_tail(earlier@, chunk@),
{
    let limit: usize = MAX_TOOL_TRANSCRIPT_OUTPUT_BYTES - MAX_TOOL_TRANSCRIPT_OUTPUT_BYTES / 2;
    let len = byte_len(chunk);
    if len >= limit {
        suffix_at_boundary(chunk, limit).to_owned()
    } else {
        concat(suffix_at_boundary(earlier, limit - len), chunk)
    }
}

/// Adds `chunk` to a call's output.
pub fn append_tool_output(tool: &mut ToolTranscriptEntry, chunk: &str)
    ensures
        final(tool).deep_view() == with_output(old(tool).deep_view(), chunk@),
{
    if chunk.is_empty() {
        return;
    }
    if !tool.output_truncated {
        if byte_len(&tool.output) <= MAX_TOOL_TRANSCRIPT_OUTPUT_BYTES && byte_len(chunk)
            <= MAX_TOOL_TRANSCRIPT_OUTPUT_BYTES - byte_len(&tool.output) {
            tool.output.append(chunk);
            return;
        }
        let head = prefix_at_boundary(&tool.output, MAX_TOOL_TRANSCRIPT_OUTPUT_BYTES / 2).to_owned();
        let tail = tail_of(&tool.output, chunk);
        tool.output = concat3(&head, TOOL_OUTPUT_MARKER, &tail);
        tool.output_truncated = true;
        return;
    }
    match split_once(&tool.output, TOOL_OUTPUT_MARKER) {
        None => {
            tool.output = truncate_text(&tool.output, MAX_TOOL_TRANSCRIPT_OUTPUT_BYTES);
        },
        Some((head, old_tail)) => {
            let tail = tail_of(&old_tail, chunk);
            tool.output = concat3(&head, TOOL_OUTPUT_MARKER, &tail);
        },
    }
}

} // verus!
