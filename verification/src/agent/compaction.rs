//! Compaction: the older part of a conversation gives way to a summary.

use crate::agent::event::{AgentEvent, AgentEventView};
use crate::context::accounting::{
    automatic_compaction_threshold, compaction_target, compaction_threshold,
    estimate_request_tokens, estimated_usage, request_tokens, target_tokens, ContextUsage,
    COMPACTION_MAX_OUTPUT_TOKENS,
};
use crate::conversation::{
    joined_from, joined_to, lemma_joined_parts, lemma_segments_hold_all_messages,
    lemma_split_at_users, provider_projection, segment_history, segments_of, split_at_users,
    summary_message, CompactionSummary, ConversationHistory, ConversationHistoryView,
    HistorySegment, HistorySegmentView,
};
use crate::json::{no_members, Json};
use crate::model::message::{
    ModelAssistantItem, ModelAssistantItemView, ModelLimits, ModelMessage, ModelMessageView,
    ModelRequest, ModelRequestView, ModelResponse, ModelResponseView, ProviderError,
    ProviderErrorView, StopReason, ToolDefinition, ToolDefinitionView,
};
use crate::model::message::provider_error_text;
use crate::model::collector::has_calls;
use crate::model::requests::joined_texts;
use crate::session::{SessionInfo, SessionInfoView};
use crate::text::{concat, concat3, decimal, decimal_text, is_blank, is_blank_text};
use vstd::prelude::*;

verus! {

/// What a model is told that is to summarize a conversation.
pub const COMPACTION_SYSTEM_INSTRUCTION: &'static str = "Summarize the earlier coding-agent conversation for future continuation.\n\nPreserve concrete technical state:\n- user goals and constraints\n- decisions and rationale that affect future work\n- files inspected or modified and important changes\n- important code architecture and interfaces\n- commands/tests and their significant results\n- important errors and attempted fixes\n- unresolved work and next steps\n- current task state\n- exact identifiers or values when they matter\n\nDo not invent work that did not happen.\nDo not copy large tool outputs verbatim.\nReturn only the continuation summary.";

/// What stands for a summary that is not there yet.
pub const SUMMARY_PLACEHOLDER: &'static str = "[summary of earlier conversation]";

// ---- requests ----

/// The request for the next response: the base messages, the conversation and the tools.
pub open spec fn request_of(
    base: Seq<ModelMessageView>,
    history: ConversationHistoryView,
    tools: Seq<ToolDefinitionView>,
    effort: Option<Seq<char>>,
) -> ModelRequestView {
    ModelRequestView {
        messages: base + provider_projection(history),
        tools,
        max_tokens: None,
        reasoning_effort: effort,
        sampling_params: Map::<Seq<char>, Json>::empty(),
    }
}

fn copy_messages(messages: &[ModelMessage]) -> (res: Vec<ModelMessage>)
    ensures
        res.deep_view() == messages.deep_view(),
{
    let ghost all = messages.deep_view();
    let mut res: Vec<ModelMessage> = Vec::new();
    let mut i: usize = 0;
    while i < messages.len()
        invariant
            i <= messages.len(),
            all == messages.deep_view(),
            res.deep_view() == all.take(i as int),
        decreases messages.len() - i,
    {
        let ghost before = res.deep_view();
        res.push(messages[i].clone());
        assert(res.deep_view() =~= before.push(all[i as int]));
        assert(res.deep_view() =~= all.take(i + 1));
        i += 1;
    }
    assert(all.take(i as int) =~= all);
    res
}

fn copy_tools(tools: &[ToolDefinition]) -> (res: Vec<ToolDefinition>)
    ensures
        res.deep_view() == tools.deep_view(),
{
    let ghost all = tools.deep_view();
    let mut res: Vec<ToolDefinition> = Vec::new();
    let mut i: usize = 0;
    while i < tools.len()
        invariant
            i <= tools.len(),
            all == tools.deep_view(),
            res.deep_view() == all.take(i as int),
        decreases tools.len() - i,
    {
        let ghost before = res.deep_view();
        res.push(tools[i].clone());
        assert(res.deep_view() =~= before.push(all[i as int]));
        assert(res.deep_view() =~= all.take(i + 1));
        i += 1;
    }
    assert(all.take(i as int) =~= all);
    res
}

/// The request for the next response, at a reasoning effort.
pub fn normal_request_with_effort(
    base_messages: &[ModelMessage],
    history: &ConversationHistory,
    tools: &[ToolDefinition],
    reasoning_effort: Option<String>,
) -> (res: ModelRequest)
    ensures
        res.deep_view() == request_of(
            base_messages.deep_view(),
            history.deep_view(),
            tools.deep_view(),
            reasoning_effort.deep_view(),
        ),
{
    let mut messages = copy_messages(base_messages);
    let ghost base = messages.deep_view();
    let mut rest = history.provider_messages();
    let ghost more = rest.deep_view();
    messages.append(&mut rest);
    assert(messages.deep_view() =~= base + more);
    ModelRequest {
        messages,
        tools: copy_tools(tools),
        max_tokens: None,
        reasoning_effort,
        sampling_params: no_members(),
    }
}

/// The request for the next response.
pub fn normal_request(
    base_messages: &[ModelMessage],
    history: &ConversationHistory,
    tools: &[ToolDefinition],
) -> (res: ModelRequest)
    ensures
        res.deep_view() == request_of(
            base_messages.deep_view(),
            history.deep_view(),
            tools.deep_view(),
            None,
        ),
{
    normal_request_with_effort(base_messages, history, tools, None)
}

/// The estimate of a conversation.
pub open spec fn conversation_tokens(
    base: Seq<ModelMessageView>,
    history: ConversationHistoryView,
    tools: Seq<ToolDefinitionView>,
) -> int {
    request_tokens(request_of(base, history, tools, None))
}

/// The estimate of a conversation.
pub fn estimate_conversation(
    base_messages: &[ModelMessage],
    history: &ConversationHistory,
    tools: &[ToolDefinition],
) -> (res: u64)
    ensures
        res == conversation_tokens(
            base_messages.deep_view(),
            history.deep_view(),
            tools.deep_view(),
        ),
{
    estimate_request_tokens(&normal_request(base_messages, history, tools))
}

// ---- what is summarized ----

/// The last of the first `end` segments that holds a message of the user.
pub open spec fn last_user_segment(segments: Seq<HistorySegmentView>, end: int) -> Option<int>
    decreases end,
{
    if end <= 0 {
        None
    } else if segments[end - 1].has_user_message {
        Some(end - 1)
    } else {
        last_user_segment(segments, end - 1)
    }
}

/// How many of the first `end` segments hold a message of the user.
pub open spec fn user_segments(segments: Seq<HistorySegmentView>, end: int) -> int
    decreases end,
{
    if end <= 0 {
        0
    } else {
        user_segments(segments, end - 1) + if segments[end - 1].has_user_message {
            1int
        } else {
            0
        }
    }
}

/// The segment of the request that is worked on.
pub open spec fn current_segment(segments: Seq<HistorySegmentView>) -> int {
    match last_user_segment(segments, segments.len() as int) {
        Some(at) => at,
        None => segments.len() - 1,
    }
}

/// The segments before this one can be summarized: by force all before the current one, else all
/// but the last two of the user.
pub open spec fn eligible_end(segments: Seq<HistorySegmentView>, force: bool) -> int {
    let current = current_segment(segments);
    if force {
        current
    } else if user_segments(segments, segments.len() as int) > 2 {
        match last_user_segment(segments, current) {
            Some(at) => at,
            None => 0,
        }
    } else {
        0
    }
}

/// The conversation as it would be with a summary before `retained`.
pub open spec fn projected(
    base: Seq<ModelMessageView>,
    tools: Seq<ToolDefinitionView>,
    retained: Seq<ModelMessageView>,
) -> int {
    conversation_tokens(
        base,
        ConversationHistoryView { summary: Some(SUMMARY_PLACEHOLDER@), messages: retained },
        tools,
    )
}

/// How many segments are summarized: one more, from `at` on, until what is left is within the
/// target, or one that cannot be comes.
pub open spec fn cut_from(
    segments: Seq<HistorySegmentView>,
    base: Seq<ModelMessageView>,
    tools: Seq<ToolDefinitionView>,
    target: int,
    end: int,
    at: int,
) -> int
    decreases end - at,
{
    if at >= end || !segments[at].safe_to_compact {
        at
    } else if projected(base, tools, joined_from(segments, at + 1)) <= target {
        at + 1
    } else {
        cut_from(segments, base, tools, target, end, at + 1)
    }
}

/// How many segments are summarized of a conversation; none where there is no need, or none can
/// be.
pub open spec fn compaction_cut(
    history: ConversationHistoryView,
    base: Seq<ModelMessageView>,
    tools: Seq<ToolDefinitionView>,
    target: int,
    force: bool,
) -> Option<int> {
    let segments = segments_of(history.messages);
    if segments.len() == 0 || (!force && conversation_tokens(base, history, tools) <= target) {
        None
    } else {
        let cut = cut_from(segments, base, tools, target, eligible_end(segments, force), 0);
        if cut > 0 {
            Some(cut)
        } else {
            None
        }
    }
}

proof fn lemma_last_user_segment(segments: Seq<HistorySegmentView>, end: int)
    requires
        end <= segments.len(),
    ensures
        match last_user_segment(segments, end) {
            Some(at) => 0 <= at < end && segments[at].has_user_message && forall|i: int|
                at < i < end ==> !(#[trigger] segments[i]).has_user_message,
            None => forall|i: int| 0 <= i < end ==> !(#[trigger] segments[i]).has_user_message,
        },
    decreases end,
{
    if end > 0 && !segments[end - 1].has_user_message {
        lemma_last_user_segment(segments, end - 1);
    }
}

proof fn lemma_user_segments(segments: Seq<HistorySegmentView>, end: int)
    requires
        0 <= end <= segments.len(),
    ensures
        0 <= user_segments(segments, end) <= end,
        user_segments(segments, end) > 0 ==> last_user_segment(segments, end) is Some,
        match last_user_segment(segments, end) {
            Some(at) => user_segments(segments, end) == user_segments(segments, at) + 1,
            None => user_segments(segments, end) == 0,
        },
    decreases end,
{
    if end > 0 {
        lemma_user_segments(segments, end - 1);
    }
}

proof fn lemma_eligible_end(segments: Seq<HistorySegmentView>, force: bool)
    requires
        segments.len() > 0,
    ensures
        0 <= current_segment(segments) < segments.len(),
        0 <= eligible_end(segments, force) <= current_segment(segments),
{
    lemma_last_user_segment(segments, segments.len() as int);
    lemma_last_user_segment(segments, current_segment(segments));
}

proof fn lemma_cut_from(
    segments: Seq<HistorySegmentView>,
    base: Seq<ModelMessageView>,
    tools: Seq<ToolDefinitionView>,
    target: int,
    end: int,
    at: int,
)
    requires
        0 <= at <= end <= segments.len(),
    ensures
        at <= cut_from(segments, base, tools, target, end, at) <= end,
        forall|i: int|
            at <= i < cut_from(segments, base, tools, target, end, at) ==> (#[trigger]
            segments[i]).safe_to_compact,
    decreases end - at,
{
    if at < end && segments[at].safe_to_compact && projected(
        base,
        tools,
        joined_from(segments, at + 1),
    ) > target {
        lemma_cut_from(segments, base, tools, target, end, at + 1);
    }
}

/// Compaction summarizes whole segments without open tool calls from the front, and nothing of
/// the current request or after it: what is summarized and what is retained make up the
/// conversation, and what is retained ends with the segment of the current request.
pub proof fn lemma_compaction_keeps_the_current_request(
    history: ConversationHistoryView,
    base: Seq<ModelMessageView>,
    tools: Seq<ToolDefinitionView>,
    target: int,
    force: bool,
)
    ensures
        compaction_cut(history, base, tools, target, force) matches Some(cut) ==> {
            let segments = segments_of(history.messages);
            &&& 0 < cut <= current_segment(segments) < segments.len()
            &&& joined_to(segments, cut) + joined_from(segments, cut) == history.messages
            &&& joined_to(segments, cut).len() > 0
            &&& forall|i: int| 0 <= i < cut ==> (#[trigger] segments[i]).safe_to_compact
            &&& exists|between: Seq<ModelMessageView>|
                joined_from(segments, cut) == between + joined_from(
                    segments,
                    current_segment(segments),
                )
        },
{
    let segments = segments_of(history.messages);
    if let Some(cut) = compaction_cut(history, base, tools, target, force) {
        lemma_eligible_end(segments, force);
        let end = eligible_end(segments, force);
        lemma_cut_from(segments, base, tools, target, end, 0);
        lemma_joined_parts(segments, cut);
        lemma_segments_hold_all_messages(history.messages);
        lemma_split_at_users(history.messages);
        assert(segments[0].messages.len() > 0) by {
            assert(split_at_users(history.messages)[0].len() > 0);
        }
        lemma_joined_to_grows(segments, 1, cut);
        assert(joined_to(segments, 0).len() == 0);
        let between = joined_between(segments, cut, current_segment(segments));
        lemma_joined_between(segments, cut, current_segment(segments));
        assert(joined_from(segments, cut) == between + joined_from(
            segments,
            current_segment(segments),
        ));
    }
}

proof fn lemma_joined_to_grows(segments: Seq<HistorySegmentView>, a: int, b: int)
    requires
        0 <= a <= b <= segments.len(),
    ensures
        joined_to(segments, a).len() <= joined_to(segments, b).len(),
    decreases b - a,
{
    if a < b {
        lemma_joined_to_grows(segments, a, b - 1);
    }
}

spec fn joined_between(segments: Seq<HistorySegmentView>, from: int, to: int) -> Seq<
    ModelMessageView,
>
    decreases to - from,
{
    if from >= to {
        Seq::empty()
    } else {
        segments[from].messages + joined_between(segments, from + 1, to)
    }
}

proof fn lemma_joined_between(segments: Seq<HistorySegmentView>, from: int, to: int)
    requires
        0 <= from <= to <= segments.len(),
    ensures
        joined_from(segments, from) == joined_between(segments, from, to) + joined_from(
            segments,
            to,
        ),
    decreases to - from,
{
    if from < to {
        lemma_joined_between(segments, from + 1, to);
        assert(joined_from(segments, from) =~= joined_between(segments, from, to) + joined_from(
            segments,
            to,
        ));
    } else {
        assert(joined_between(segments, from, to) + joined_from(segments, to) =~= joined_from(
            segments,
            to,
        ));
    }
}

fn find_last_user_segment(segments: &Vec<HistorySegment>, end: usize) -> (res: Option<usize>)
    requires
        end <= segments.len(),
    ensures
        match (res, last_user_segment(segments.deep_view(), end as int)) {
            (Some(at), Some(expected)) => at == expected && at < end,
            (None, None) => true,
            _ => false,
        },
{
    let ghost all = segments.deep_view();
    let mut at: usize = end;
    while at > 0
        invariant
            at <= end <= segments.len(),
            all == segments.deep_view(),
            last_user_segment(all, end as int) == last_user_segment(all, at as int),
        decreases at,
    {
        assert(all[at - 1] == segments@[at - 1].deep_view());
        if segments[at - 1].has_user_message {
            return Some(at - 1);
        }
        at -= 1;
    }
    None
}

fn count_user_segments(segments: &Vec<HistorySegment>) -> (res: usize)
    ensures
        res == user_segments(segments.deep_view(), segments.len() as int),
{
    let ghost all = segments.deep_view();
    let mut count: usize = 0;
    let mut i: usize = 0;
    while i < segments.len()
        invariant
            i <= segments.len(),
            all == segments.deep_view(),
            count == user_segments(all, i as int),
            count <= i,
        decreases segments.len() - i,
    {
        assert(all[i as int] == segments@[i as int].deep_view());
        if segments[i].has_user_message {
            count += 1;
        }
        i += 1;
    }
    count
}

/// The messages of all segments from `start` on, in order.
pub fn messages_from_segments(segments: &Vec<HistorySegment>, start: usize) -> (res: Vec<
    ModelMessage,
>)
    requires
        start <= segments.len(),
    ensures
        res.deep_view() == joined_from(segments.deep_view(), start as int),
{
    let ghost all = segments.deep_view();
    let mut res: Vec<ModelMessage> = Vec::new();
    let mut i: usize = start;
    assert(res.deep_view() + joined_from(all, start as int) =~= joined_from(all, start as int));
    while i < segments.len()
        invariant
            i <= segments.len(),
            all == segments.deep_view(),
            res.deep_view() + joined_from(all, i as int) == joined_from(all, start as int),
        decreases segments.len() - i,
    {
        let ghost before = res.deep_view();
        let mut messages = copy_messages(segments[i].messages.as_slice());
        let ghost more = messages.deep_view();
        res.append(&mut messages);
        proof {
            assert(more =~= all[i as int].messages);
            assert(res.deep_view() =~= before + more);
            assert(before + (more + joined_from(all, i + 1)) =~= res.deep_view() + joined_from(
                all,
                i + 1,
            ));
        }
        i += 1;
    }
    assert(res.deep_view() + Seq::<ModelMessageView>::empty() =~= res.deep_view());
    res
}

fn projected_tokens(
    base_messages: &[ModelMessage],
    tools: &[ToolDefinition],
    retained: &Vec<ModelMessage>,
) -> (res: u64)
    ensures
        res == projected(base_messages.deep_view(), tools.deep_view(), retained.deep_view()),
{
    let messages = copy_messages(retained.as_slice());
    assert(messages.deep_view() =~= retained.deep_view());
    let placeholder = ConversationHistory::new(
        Some(CompactionSummary::new(SUMMARY_PLACEHOLDER)),
        messages,
    );
    estimate_conversation(base_messages, &placeholder, tools)
}

/// The messages to summarize and those to retain.
pub fn select_compaction_prefix(
    history: &ConversationHistory,
    base_messages: &[ModelMessage],
    tools: &[ToolDefinition],
    target: u64,
    force: bool,
) -> (res: Option<(Vec<ModelMessage>, Vec<ModelMessage>)>)
    ensures
        match (
            res,
            compaction_cut(
                history.deep_view(),
                base_messages.deep_view(),
                tools.deep_view(),
                target as int,
                force,
            ),
        ) {
            (Some((prefix, retained)), Some(cut)) => {
                let segments = segments_of(history.deep_view().messages);
                &&& prefix.deep_view() == joined_to(segments, cut)
                &&& retained.deep_view() == joined_from(segments, cut)
            },
            (None, None) => true,
            _ => false,
        },
{
    let segments = segment_history(history.messages());
    let ghost all = segments.deep_view();
    if segments.len() == 0 {
        return None;
    }
    proof {
        lemma_eligible_end(all, force);
        lemma_user_segments(all, all.len() as int);
    }
    let current: usize = match find_last_user_segment(&segments, segments.len()) {
        Some(at) => at,
        None => segments.len() - 1,
    };
    let end: usize = if force {
        current
    } else if count_user_segments(&segments) > 2 {
        match find_last_user_segment(&segments, current) {
            Some(at) => at,
            None => 0,
        }
    } else {
        0
    };
    if !force && estimate_conversation(base_messages, history, tools) <= target {
        return None;
    }
    let ghost base = base_messages.deep_view();
    let ghost offered = tools.deep_view();
    let mut prefix: Vec<ModelMessage> = Vec::new();
    let mut start: usize = 0;
    assert(prefix.deep_view() =~= joined_to(all, 0));
    while start < end && segments[start].safe_to_compact
        invariant
            start <= end < segments.len(),
            all == segments.deep_view(),
            all == segments_of(history.deep_view().messages),
            base == base_messages.deep_view(),
            offered == tools.deep_view(),
            end == eligible_end(all, force),
            force || conversation_tokens(base, history.deep_view(), offered) > target,
            cut_from(all, base, offered, target as int, end as int, 0) == cut_from(
                all,
                base,
                offered,
                target as int,
                end as int,
                start as int,
            ),
            prefix.deep_view() == joined_to(all, start as int),
        decreases end - start,
    {
        let ghost before = prefix.deep_view();
        let mut messages = copy_messages(segments[start].messages.as_slice());
        let ghost more = messages.deep_view();
        prefix.append(&mut messages);
        proof {
            assert(more =~= all[start as int].messages);
            assert(prefix.deep_view() =~= before + more);
            assert(all[start as int] == segments@[start as int].deep_view());
        }
        start += 1;
        let retained = messages_from_segments(&segments, start);
        if projected_tokens(base_messages, tools, &retained) <= target {
            return Some((prefix, retained));
        }
    }
    assert(start < end ==> all[start as int] == segments@[start as int].deep_view());
    if start > 0 {
        let retained = messages_from_segments(&segments, start);
        Some((prefix, retained))
    } else {
        None
    }
}

// ---- the summary ----

/// The name of a stop reason.
pub open spec fn stop_reason_name(reason: StopReason) -> Seq<char> {
    match reason {
        StopReason::Stop => "Stop"@,
        StopReason::ToolCalls => "ToolCalls"@,
        StopReason::Length => "Length"@,
        StopReason::ContentFilter => "ContentFilter"@,
        StopReason::Incomplete => "Incomplete"@,
        StopReason::Cancelled => "Cancelled"@,
        StopReason::Error => "Error"@,
    }
}

fn name_of_stop_reason(reason: StopReason) -> (res: &'static str)
    ensures
        res@ == stop_reason_name(reason),
{
    match reason {
        StopReason::Stop => "Stop",
        StopReason::ToolCalls => "ToolCalls",
        StopReason::Length => "Length",
        StopReason::ContentFilter => "ContentFilter",
        StopReason::Incomplete => "Incomplete",
        StopReason::Cancelled => "Cancelled",
        StopReason::Error => "Error",
    }
}

/// The summary in a response: its text, where it ended by itself and is more than blank.
pub open spec fn summary_of(response: ModelResponseView) -> Result<Seq<char>, Seq<char>> {
    if response.stop_reason == StopReason::ToolCalls || has_calls(response.items) {
        Err("compaction response contained a tool call"@)
    } else if response.stop_reason != StopReason::Stop {
        Err(
            "compaction response did not finish successfully: "@ + stop_reason_name(
                response.stop_reason,
            ),
        )
    } else {
        let summary = joined_texts(response.items, false);
        if is_blank_text(summary) {
            Err("compaction response was empty"@)
        } else {
            Ok(summary)
        }
    }
}

/// The summary in a response.
pub fn extract_summary(response: &ModelResponse) -> (res: Result<String, String>)
    ensures
        match (res, summary_of(response.deep_view())) {
            (Ok(summary), Ok(expected)) => summary@ == expected,
            (Err(message), Err(expected)) => message@ == expected,
            _ => false,
        },
{
    let ghost all = response.items.deep_view();
    let mut called = false;
    let mut summary = String::new();
    let mut i: usize = 0;
    assert(all.take(0) =~= Seq::<ModelAssistantItemView>::empty());
    assert(summary@ =~= Seq::<char>::empty());
    while i < response.items.len()
        invariant
            i <= response.items.len(),
            all == response.items.deep_view(),
            called <==> exists|j: int| 0 <= j < i && (#[trigger] all[j]) is ToolCall,
            summary@ == joined_texts(all.take(i as int), false),
        decreases response.items.len() - i,
    {
        let ghost before = summary@;
        proof {
            assert(all[i as int] == response.items@[i as int].deep_view());
            assert(all.take(i + 1).drop_last() =~= all.take(i as int));
            assert(all.take(i + 1).last() == all[i as int]);
            assert(before + Seq::<char>::empty() =~= before);
        }
        match &response.items[i] {
            ModelAssistantItem::ToolCall(_) => {
                called = true;
            },
            ModelAssistantItem::Text { content } => {
                summary = concat(&summary, content);
            },
            _ => {},
        }
        i += 1;
    }
    assert(all.take(i as int) =~= all);
    if response.stop_reason == StopReason::ToolCalls || called {
        return Err("compaction response contained a tool call".to_owned());
    }
    assert(!has_calls(response.deep_view().items));
    if response.stop_reason != StopReason::Stop {
        return Err(
            concat(
                "compaction response did not finish successfully: ",
                name_of_stop_reason(response.stop_reason),
            ),
        );
    }
    if is_blank(&summary) {
        return Err("compaction response was empty".to_owned());
    }
    Ok(summary)
}

// ---- the course of a compaction ----

/// Why a compaction came to nothing.
#[derive(Debug, PartialEq, Eq)]
pub enum CompactionError {
    Cancelled,
    NoHistory,
    Failed(String),
}

/// What a [`CompactionError`] holds.
#[verifier::ext_equal]
pub enum CompactionErrorView {
    Cancelled,
    NoHistory,
    Failed(Seq<char>),
}

impl DeepView for CompactionError {
    type V = CompactionErrorView;

    open spec fn deep_view(&self) -> CompactionErrorView {
        match self {
            CompactionError::Cancelled => CompactionErrorView::Cancelled,
            CompactionError::NoHistory => CompactionErrorView::NoHistory,
            CompactionError::Failed(message) => CompactionErrorView::Failed(message@),
        }
    }
}

/// The message of an error.
pub open spec fn compaction_error_text(error: CompactionErrorView) -> Seq<char> {
    match error {
        CompactionErrorView::Cancelled => "compaction cancelled"@,
        CompactionErrorView::NoHistory => "nothing to compact"@,
        CompactionErrorView::Failed(message) => message,
    }
}

/// The message of an error.
pub fn compaction_error_message(error: &CompactionError) -> (res: String)
    ensures
        res@ == compaction_error_text(error.deep_view()),
{
    match error {
        CompactionError::Cancelled => "compaction cancelled".to_owned(),
        CompactionError::NoHistory => "nothing to compact".to_owned(),
        CompactionError::Failed(message) => message.clone(),
    }
}

/// A compaction that has come to an end without success: what is reported of it, and why.
#[derive(Debug, PartialEq, Eq)]
pub struct CompactionStop {
    pub report: Option<AgentEvent>,
    pub error: CompactionError,
}

/// What a [`CompactionStop`] holds.
#[verifier::ext_equal]
pub struct CompactionStopView {
    pub report: Option<AgentEventView>,
    pub error: CompactionErrorView,
}

impl DeepView for CompactionStop {
    type V = CompactionStopView;

    open spec fn deep_view(&self) -> CompactionStopView {
        CompactionStopView { report: self.report.deep_view(), error: self.error.deep_view() }
    }
}

/// A compaction that stops with an error, and reports its message.
pub open spec fn stopped(error: CompactionErrorView) -> CompactionStopView {
    CompactionStopView {
        report: Some(
            AgentEventView::CompactionFailed { message: compaction_error_text(error) },
        ),
        error,
    }
}

fn stop(error: CompactionError) -> (res: CompactionStop)
    ensures
        res.deep_view() == stopped(error.deep_view()),
{
    CompactionStop {
        report: Some(AgentEvent::CompactionFailed { message: compaction_error_message(&error) }),
        error,
    }
}

/// A compaction that is about to be made.
#[derive(Debug, PartialEq, Eq)]
pub struct CompactionPlan {
    pub request: ModelRequest,
    pub retained: Vec<ModelMessage>,
    pub before_tokens: u64,
    pub limits: ModelLimits,
    pub automatic: bool,
}

/// What a [`CompactionPlan`] holds: the request for the summary, the messages that are retained,
/// and the estimate before.
#[verifier::ext_equal]
pub struct CompactionPlanView {
    pub request: ModelRequestView,
    pub retained: Seq<ModelMessageView>,
    pub before_tokens: u64,
    pub limits: ModelLimits,
    pub automatic: bool,
}

impl DeepView for CompactionPlan {
    type V = CompactionPlanView;

    open spec fn deep_view(&self) -> CompactionPlanView {
        CompactionPlanView {
            request: self.request.deep_view(),
            retained: self.retained.deep_view(),
            before_tokens: self.before_tokens,
            limits: self.limits,
            automatic: self.automatic,
        }
    }
}

/// What a compaction aims at: half of what the model takes beside the reserve, or of what there is.
pub open spec fn aimed_tokens(limits: ModelLimits, reserve_tokens: u64, before: u64) -> u64 {
    match compaction_threshold(limits, reserve_tokens) {
        Some(threshold) => target_tokens(threshold),
        None => if before / 2 >= 1 {
            before / 2
        } else {
            1
        },
    }
}

/// How long a summary may be.
pub open spec fn summary_limit(limits: ModelLimits) -> u64 {
    match limits.max_output_tokens {
        Some(limit) => if limit == 0 {
            1
        } else if limit <= COMPACTION_MAX_OUTPUT_TOKENS {
            limit
        } else {
            COMPACTION_MAX_OUTPUT_TOKENS
        },
        None => COMPACTION_MAX_OUTPUT_TOKENS,
    }
}

/// The request for a summary: the instruction, the summary there is, and the messages.
pub open spec fn summary_request(
    history: ConversationHistoryView,
    prefix: Seq<ModelMessageView>,
    limits: ModelLimits,
) -> ModelRequestView {
    let front = seq![ModelMessageView::System { content: COMPACTION_SYSTEM_INSTRUCTION@ }];
    ModelRequestView {
        messages: match history.summary {
            Some(summary) => front.push(summary_message(summary)) + prefix,
            None => front + prefix,
        },
        tools: Seq::empty(),
        max_tokens: Some(summary_limit(limits)),
        reasoning_effort: None,
        sampling_params: Map::<Seq<char>, Json>::empty(),
    }
}

/// The plan of a compaction, where there is something to compact.
pub open spec fn compaction_plan(
    base: Seq<ModelMessageView>,
    history: ConversationHistoryView,
    tools: Seq<ToolDefinitionView>,
    limits: ModelLimits,
    reserve_tokens: u64,
    automatic: bool,
    force: bool,
) -> Option<CompactionPlanView> {
    let before = conversation_tokens(base, history, tools) as u64;
    let target = aimed_tokens(limits, reserve_tokens, before);
    match compaction_cut(history, base, tools, target as int, force) {
        Some(cut) => {
            let segments = segments_of(history.messages);
            Some(
                CompactionPlanView {
                    request: summary_request(history, joined_to(segments, cut), limits),
                    retained: joined_from(segments, cut),
                    before_tokens: before,
                    limits,
                    automatic,
                },
            )
        },
        None => None,
    }
}

/// Where there is nothing to compact: that is reported where the user asked for it.
pub open spec fn nothing_to_compact(automatic: bool) -> CompactionStopView {
    if automatic {
        CompactionStopView { report: None, error: CompactionErrorView::NoHistory }
    } else {
        stopped(CompactionErrorView::NoHistory)
    }
}

/// What a compaction has come to.
#[derive(Debug, PartialEq, Eq)]
pub struct CompactedConversation {
    pub summary: CompactionSummary,
    pub retained: Vec<ModelMessage>,
    pub after_tokens: u64,
}

/// What a [`CompactedConversation`] holds.
#[verifier::ext_equal]
pub struct CompactedConversationView {
    pub summary: Seq<char>,
    pub retained: Seq<ModelMessageView>,
    pub after_tokens: u64,
}

impl DeepView for CompactedConversation {
    type V = CompactedConversationView;

    open spec fn deep_view(&self) -> CompactedConversationView {
        CompactedConversationView {
            summary: self.summary.deep_view(),
            retained: self.retained.deep_view(),
            after_tokens: self.after_tokens,
        }
    }
}

/// The conversation after a compaction.
pub open spec fn compacted_history(compacted: CompactedConversationView) ->
    ConversationHistoryView {
    ConversationHistoryView { summary: Some(compacted.summary), messages: compacted.retained }
}

/// What is said of a summary that is no shorter than what it replaces.
pub open spec fn not_reduced_text(before: u64, after: u64) -> Seq<char> {
    "compaction did not reduce context: estimated "@ + decimal_text(before as nat)
        + " tokens before and "@ + (decimal_text(after as nat) + " after"@)
}

/// What a compaction comes to with what the model answered: nothing where it was cancelled, where
/// there is no summary, and where the conversation would not get shorter.
pub open spec fn concluded(
    plan: CompactionPlanView,
    base: Seq<ModelMessageView>,
    tools: Seq<ToolDefinitionView>,
    answer: Result<ModelResponseView, ProviderErrorView>,
    cancelled: bool,
) -> Result<CompactedConversationView, CompactionStopView> {
    match answer {
        Err(ProviderErrorView::Cancelled) => Err(stopped(CompactionErrorView::Cancelled)),
        Err(error) => Err(
            stopped(
                CompactionErrorView::Failed("compaction failed: "@ + provider_error_text(error)),
            ),
        ),
        Ok(response) => if cancelled {
            Err(stopped(CompactionErrorView::Cancelled))
        } else {
            match summary_of(response) {
                Err(message) => Err(stopped(CompactionErrorView::Failed(message))),
                Ok(summary) => {
                    let history = ConversationHistoryView {
                        summary: Some(summary),
                        messages: plan.retained,
                    };
                    let after = conversation_tokens(base, history, tools) as u64;
                    if after >= plan.before_tokens {
                        Err(
                            stopped(
                                CompactionErrorView::Failed(
                                    not_reduced_text(plan.before_tokens, after),
                                ),
                            ),
                        )
                    } else {
                        Ok(
                            CompactedConversationView {
                                summary,
                                retained: plan.retained,
                                after_tokens: after,
                            },
                        )
                    }
                },
            }
        },
    }
}

/// What is reported of a compaction that is made and stored.
pub open spec fn finished_reports(
    plan: CompactionPlanView,
    after_tokens: u64,
    info: Option<SessionInfoView>,
) -> Seq<AgentEventView> {
    let reports = seq![
        AgentEventView::ContextUsageUpdated(estimated_usage(after_tokens, plan.limits)),
        AgentEventView::CompactionFinished {
            automatic: plan.automatic,
            before_tokens: plan.before_tokens,
            after_tokens,
        },
    ];
    match info {
        Some(info) => seq![AgentEventView::SessionChanged { info }] + reports,
        None => reports,
    }
}

/// The plan of a compaction.
pub fn plan_compaction(
    base_messages: &[ModelMessage],
    history: &ConversationHistory,
    tools: &[ToolDefinition],
    limits: ModelLimits,
    reserve_tokens: u64,
    automatic: bool,
    force: bool,
) -> (res: Result<CompactionPlan, CompactionStop>)
    ensures
        match (
            res,
            compaction_plan(
                base_messages.deep_view(),
                history.deep_view(),
                tools.deep_view(),
                limits,
                reserve_tokens,
                automatic,
                force,
            ),
        ) {
            (Ok(plan), Some(expected)) => plan.deep_view() == expected,
            (Err(stop), None) => stop.deep_view() == nothing_to_compact(automatic),
            _ => false,
        },
{
    let before_tokens = estimate_conversation(base_messages, history, tools);
    let target = match automatic_compaction_threshold(limits, reserve_tokens) {
        Some(threshold) => compaction_target(threshold),
        None => if before_tokens / 2 >= 1 {
            before_tokens / 2
        } else {
            1
        },
    };
    match select_compaction_prefix(history, base_messages, tools, target, force) {
        Some((prefix, retained)) => {
            let mut messages: Vec<ModelMessage> = Vec::new();
            messages.push(
                ModelMessage::System { content: COMPACTION_SYSTEM_INSTRUCTION.to_owned() },
            );
            if let Some(summary) = history.summary() {
                messages.push(summary.as_message());
            }
            let ghost front = messages.deep_view();
            let mut prefix = prefix;
            let ghost more = prefix.deep_view();
            messages.append(&mut prefix);
            let max_tokens: u64 = match limits.max_output_tokens {
                Some(limit) => if limit == 0 {
                    1
                } else if limit <= COMPACTION_MAX_OUTPUT_TOKENS {
                    limit
                } else {
                    COMPACTION_MAX_OUTPUT_TOKENS
                },
                None => COMPACTION_MAX_OUTPUT_TOKENS,
            };
            let request = ModelRequest {
                messages,
                tools: Vec::new(),
                max_tokens: Some(max_tokens),
                reasoning_effort: None,
                sampling_params: no_members(),
            };
            proof {
                assert(request.messages.deep_view() =~= front + more);
                assert(request.tools.deep_view() =~= Seq::<ToolDefinitionView>::empty());
                let first = seq![
                    ModelMessageView::System { content: COMPACTION_SYSTEM_INSTRUCTION@ },
                ];
                match history.deep_view().summary {
                    Some(summary) => {
                        assert(front =~= first.push(summary_message(summary)));
                    },
                    None => {
                        assert(front =~= first);
                    },
                }
            }
            Ok(CompactionPlan { request, retained, before_tokens, limits, automatic })
        },
        None => if automatic {
            Err(CompactionStop { report: None, error: CompactionError::NoHistory })
        } else {
            Err(stop(CompactionError::NoHistory))
        },
    }
}

impl CompactionPlan {
    /// What is reported before the compaction begins, unless it was cancelled already.
    pub fn begin(&self, cancelled: bool) -> (res: Result<AgentEvent, CompactionStop>)
        ensures
            match res {
                Ok(report) => !cancelled && report.deep_view()
                    == (AgentEventView::CompactionStarted {
                    automatic: self.deep_view().automatic,
                }),
                Err(stop) => cancelled && stop.deep_view() == stopped(
                    CompactionErrorView::Cancelled,
                ),
            },
    {
        if cancelled {
            Err(stop(CompactionError::Cancelled))
        } else {
            Ok(AgentEvent::CompactionStarted { automatic: self.automatic })
        }
    }

    /// What the compaction comes to with what the model answered.
    pub fn conclude(
        &self,
        base_messages: &[ModelMessage],
        tools: &[ToolDefinition],
        answer: Result<ModelResponse, ProviderError>,
        cancelled: bool,
    ) -> (res: Result<CompactedConversation, CompactionStop>)
        ensures
            match (
                res,
                concluded(
                    self.deep_view(),
                    base_messages.deep_view(),
                    tools.deep_view(),
                    match answer {
                        Ok(response) => Ok(response.deep_view()),
                        Err(error) => Err(error.deep_view()),
                    },
                    cancelled,
                ),
            ) {
                (Ok(compacted), Ok(expected)) => compacted.deep_view() == expected,
                (Err(stop), Err(expected)) => stop.deep_view() == expected,
                _ => false,
            },
    {
        let response = match answer {
            Ok(response) => response,
            Err(ProviderError::Cancelled) => {
                return Err(stop(CompactionError::Cancelled));
            },
            Err(error) => {
                return Err(
                    stop(CompactionError::Failed(concat("compaction failed: ", &error.to_text()))),
                );
            },
        };
        if cancelled {
            return Err(stop(CompactionError::Cancelled));
        }
        let summary = match extract_summary(&response) {
            Ok(summary) => summary,
            Err(message) => {
                return Err(stop(CompactionError::Failed(message)));
            },
        };
        let retained = copy_messages(self.retained.as_slice());
        assert(retained.deep_view() =~= self.retained.deep_view());
        let compacted = ConversationHistory::new(
            Some(CompactionSummary::new(&summary)),
            retained,
        );
        let after_tokens = estimate_conversation(base_messages, &compacted, tools);
        if after_tokens >= self.before_tokens {
            let message = concat3(
                &concat("compaction did not reduce context: estimated ", &decimal(self.before_tokens)),
                " tokens before and ",
                &concat(&decimal(after_tokens), " after"),
            );
            return Err(stop(CompactionError::Failed(message)));
        }
        let retained = copy_messages(self.retained.as_slice());
        assert(retained.deep_view() =~= self.retained.deep_view());
        Ok(
            CompactedConversation {
                summary: CompactionSummary::new(&summary),
                retained,
                after_tokens,
            },
        )
    }

    /// Where the compaction could not be stored.
    pub fn not_stored(&self, error: &str) -> (res: CompactionStop)
        ensures
            res.deep_view() == stopped(
                CompactionErrorView::Failed(
                    "session persistence failed during compaction: "@ + error@,
                ),
            ),
    {
        stop(
            CompactionError::Failed(concat("session persistence failed during compaction: ", error)),
        )
    }

    /// What is reported once the compaction is stored.
    pub fn reports(&self, after_tokens: u64, info: Option<SessionInfo>) -> (res: Vec<AgentEvent>)
        ensures
            res.deep_view() == finished_reports(self.deep_view(), after_tokens, info.deep_view()),
    {
        let mut reports: Vec<AgentEvent> = Vec::new();
        if let Some(info) = info {
            reports.push(AgentEvent::SessionChanged { info });
        }
        reports.push(
            AgentEvent::ContextUsageUpdated(ContextUsage::estimated(after_tokens, self.limits)),
        );
        reports.push(
            AgentEvent::CompactionFinished {
                automatic: self.automatic,
                before_tokens: self.before_tokens,
                after_tokens,
            },
        );
        assert(reports.deep_view() =~= finished_reports(
            self.deep_view(),
            after_tokens,
            info.deep_view(),
        ));
        reports
    }
}

impl CompactedConversation {
    /// The conversation after the compaction.
    pub fn into_history(self) -> (res: ConversationHistory)
        ensures
            res.deep_view() == compacted_history(self.deep_view()),
    {
        ConversationHistory::new(Some(self.summary), self.retained)
    }
}

/// A compaction that is made shortens the conversation, and keeps what was to be retained.
pub proof fn lemma_compaction_shortens(
    plan: CompactionPlanView,
    base: Seq<ModelMessageView>,
    tools: Seq<ToolDefinitionView>,
    answer: Result<ModelResponseView, ProviderErrorView>,
    cancelled: bool,
)
    ensures
        concluded(plan, base, tools, answer, cancelled) matches Ok(compacted) ==> {
            &&& compacted.after_tokens < plan.before_tokens
            &&& compacted_history(compacted).messages == plan.retained
        },
{
}

} // verus!
