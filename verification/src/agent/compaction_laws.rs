//! What a compaction does to a conversation.

use crate::agent::compaction::{
    compacted_history, compaction_cut, compaction_plan, concluded, cut_from, eligible_end,
    finished_reports, last_user_segment, lemma_compaction_keeps_the_current_request,
    nothing_to_compact, request_of, summary_of, user_segments, CompactionErrorView,
    CompactionPlanView, COMPACTION_SYSTEM_INSTRUCTION, SUMMARY_PLACEHOLDER,
};
use crate::agent::event::AgentEventView;
use crate::context::accounting::{request_tokens, UsageSource, COMPACTION_MAX_OUTPUT_TOKENS};
use crate::conversation::{
    has_user, is_resolved, joined_from, joined_to, lemma_segments_hold_all_messages,
    lemma_split_at_users, segments_of, split_at_users, ConversationHistoryView, HistorySegmentView,
    COMPACTION_SUMMARY_END, COMPACTION_SUMMARY_START,
};
use crate::model::message::{
    provider_error_text, ModelAssistantItemView, ModelLimits, ModelMessageView, ModelRequestView,
    ModelResponseView, ProviderErrorView, StopReason, ToolDefinitionView,
};
use crate::session::SessionInfoView;
use crate::text::is_blank_text;
use vstd::prelude::*;

verus! {

/// The message that hands a summary to a model.
pub open spec fn hands_on(message: ModelMessageView, summary: Seq<char>) -> bool {
    message == (ModelMessageView::Developer {
        content: COMPACTION_SUMMARY_START@ + summary + COMPACTION_SUMMARY_END@,
    })
}

/// A compaction removes the older part of a conversation and keeps the rest. The model that is asked
/// for the summary gets the instruction, the summary of what was removed before, and then exactly
/// the messages that are removed, in order; it gets no tools, no effort, and a limit for its answer.
pub proof fn lemma_the_removed_part_is_summarized(
    base: Seq<ModelMessageView>,
    history: ConversationHistoryView,
    tools: Seq<ToolDefinitionView>,
    limits: ModelLimits,
    reserve_tokens: u64,
    automatic: bool,
    force: bool,
)
    ensures
        compaction_plan(
            base,
            history,
            tools,
            limits,
            reserve_tokens,
            automatic,
            force,
        ) matches Some(plan) ==> {
            &&& exists|front: Seq<ModelMessageView>, removed: Seq<ModelMessageView>|
                {
                    &&& plan.request.messages == #[trigger] (front + removed)
                    &&& removed + plan.retained == history.messages
                    &&& removed.len() > 0
                    &&& plan.retained.len() > 0
                    &&& front.len() == if history.summary is Some {
                        2int
                    } else {
                        1
                    }
                    &&& front[0] == (ModelMessageView::System {
                        content: COMPACTION_SYSTEM_INSTRUCTION@,
                    })
                    &&& history.summary matches Some(summary) ==> hands_on(front[1], summary)
                }
            &&& plan.request.tools.len() == 0
            &&& plan.request.reasoning_effort is None
            &&& plan.request.max_tokens matches Some(limit) && 0 < limit
                <= COMPACTION_MAX_OUTPUT_TOKENS && (limits.max_output_tokens matches Some(most)
                ==> limit <= most || most == 0) && (limits.max_output_tokens is None ==> limit
                == COMPACTION_MAX_OUTPUT_TOKENS)
            &&& plan.limits == limits
            &&& plan.automatic == automatic
        },
{
    if let Some(plan) = compaction_plan(
        base,
        history,
        tools,
        limits,
        reserve_tokens,
        automatic,
        force,
    ) {
        let before = crate::agent::compaction::conversation_tokens(base, history, tools) as u64;
        let target = crate::agent::compaction::aimed_tokens(limits, reserve_tokens, before);
        lemma_compaction_keeps_the_current_request(history, base, tools, target as int, force);
        let cut = compaction_cut(history, base, tools, target as int, force)->0;
        let segments = segments_of(history.messages);
        let removed = joined_to(segments, cut);
        let instruction = seq![ModelMessageView::System { content: COMPACTION_SYSTEM_INSTRUCTION@ }];
        let front = match history.summary {
            Some(summary) => instruction.push(
                ModelMessageView::Developer {
                    content: COMPACTION_SUMMARY_START@ + summary + COMPACTION_SUMMARY_END@,
                },
            ),
            None => instruction,
        };
        assert(plan.request.messages =~= front + removed);
        lemma_retained_is_not_empty(history.messages, cut);
    }
}

proof fn lemma_retained_is_not_empty(messages: Seq<ModelMessageView>, cut: int)
    requires
        0 <= cut < segments_of(messages).len(),
    ensures
        joined_from(segments_of(messages), cut).len() > 0,
        joined_from(segments_of(messages), cut)[0] == split_at_users(messages)[cut][0],
{
    lemma_split_at_users(messages);
    assert(segments_of(messages)[cut].messages == split_at_users(messages)[cut]);
    assert(split_at_users(messages)[cut].len() > 0);
}

/// What is kept begins with a message of the user, and the last message of the user is kept with
/// all that follows it.
pub proof fn lemma_the_current_request_is_kept(
    base: Seq<ModelMessageView>,
    history: ConversationHistoryView,
    tools: Seq<ToolDefinitionView>,
    limits: ModelLimits,
    reserve_tokens: u64,
    automatic: bool,
    force: bool,
    last: int,
)
    requires
        0 <= last < history.messages.len(),
        history.messages[last] is User,
        forall|i: int| last < i < history.messages.len() ==> !((#[trigger] history.messages[i])
            is User),
    ensures
        compaction_plan(
            base,
            history,
            tools,
            limits,
            reserve_tokens,
            automatic,
            force,
        ) matches Some(plan) ==> {
            &&& plan.retained.len() > 0 && plan.retained[0] is User
            &&& plan.retained.len() >= history.messages.len() - last
            &&& plan.retained == history.messages.skip(history.messages.len() - plan.retained.len())
        },
{
    if let Some(plan) = compaction_plan(
        base,
        history,
        tools,
        limits,
        reserve_tokens,
        automatic,
        force,
    ) {
        let before = crate::agent::compaction::conversation_tokens(base, history, tools) as u64;
        let target = crate::agent::compaction::aimed_tokens(limits, reserve_tokens, before);
        lemma_compaction_keeps_the_current_request(history, base, tools, target as int, force);
        let cut = compaction_cut(history, base, tools, target as int, force)->0;
        let segments = segments_of(history.messages);
        lemma_split_at_users(history.messages);
        lemma_retained_is_not_empty(history.messages, cut);
        assert(split_at_users(history.messages)[cut][0] is User);
        let removed = joined_to(segments, cut);
        assert(removed + plan.retained == history.messages);
        assert(plan.retained =~= history.messages.skip(removed.len() as int));
        let current = crate::agent::compaction::current_segment(segments);
        if removed.len() > last {
            // The last message of the user would be before the part that begins with one.
            assert(history.messages[removed.len() as int] == plan.retained[0]);
            assert(history.messages[removed.len() as int] is User);
        }
    }
}

/// Where there is nothing before the last message of the user, nothing is compacted; where that is
/// so in an automatic compaction it is not even reported, in one that the user asked for it is.
pub proof fn lemma_nothing_is_reported_where_none_was_asked_for(automatic: bool)
    ensures
        nothing_to_compact(automatic).error is NoHistory,
        nothing_to_compact(automatic).report is None <==> automatic,
        !automatic ==> nothing_to_compact(automatic).report->0 is CompactionFailed,
{
}

/// An unforced compaction leaves a conversation alone that takes no more than half of the window
/// but for the reserve, and keeps the last two exchanges; a forced one keeps the last.
pub proof fn lemma_short_conversations_stay(
    base: Seq<ModelMessageView>,
    history: ConversationHistoryView,
    tools: Seq<ToolDefinitionView>,
    limits: ModelLimits,
    reserve_tokens: u64,
    automatic: bool,
)
    ensures
        compaction_plan(
            base,
            history,
            tools,
            limits,
            reserve_tokens,
            automatic,
            false,
        ) matches Some(plan) ==> {
            &&& users(plan.retained) >= 2
            &&& limits.context_window matches Some(window) ==> (window <= u64::MAX / 50
                ==> plan.before_tokens as int * 2 > window - reserve_tokens)
        },
        compaction_plan(
            base,
            history,
            tools,
            limits,
            reserve_tokens,
            automatic,
            true,
        ) matches Some(plan) ==> users(plan.retained) >= 1 || users(history.messages) == 0,
{
    lemma_users_are_kept(base, history, tools, limits, reserve_tokens, automatic, false);
    lemma_users_are_kept(base, history, tools, limits, reserve_tokens, automatic, true);
    if let Some(plan) = compaction_plan(
        base,
        history,
        tools,
        limits,
        reserve_tokens,
        automatic,
        false,
    ) {
        crate::context::accounting::lemma_messages_tokens(
            request_of(base, history, tools, None).messages,
        );
        crate::context::accounting::lemma_tools_tokens(tools);
    }
}

/// How many messages are of the user.
pub open spec fn users(messages: Seq<ModelMessageView>) -> nat {
    messages.filter(|message: ModelMessageView| message is User).len()
}

proof fn lemma_users_concat(a: Seq<ModelMessageView>, b: Seq<ModelMessageView>)
    ensures
        users(a + b) == users(a) + users(b),
    decreases b.len(),
{
    reveal(Seq::filter);
    if b.len() == 0 {
        assert(a + b =~= a);
    } else {
        assert((a + b).drop_last() =~= a + b.drop_last());
        lemma_users_concat(a, b.drop_last());
    }
}

proof fn lemma_users_of_segment(messages: Seq<ModelMessageView>, i: int)
    requires
        0 <= i < segments_of(messages).len(),
    ensures
        users(segments_of(messages)[i].messages) == if segments_of(messages)[i].has_user_message {
            1nat
        } else {
            0
        },
{
    lemma_split_at_users(messages);
    let part = split_at_users(messages)[i];
    assert(segments_of(messages)[i].messages == part);
    assert(part.len() > 0);
    assert forall|j: int| 0 < j < part.len() implies !((#[trigger] part[j]) is User) by {
        assert(!(split_at_users(messages)[i][j] is User));
    }
    lemma_users_of_tail(part, part.len() as int);
    if has_user(part) {
        let k = choose|k: int| 0 <= k < part.len() && (#[trigger] part[k]) is User;
        assert(k == 0);
    } else {
        assert(!(part[0] is User));
    }
    assert(part.take(part.len() as int) =~= part);
}

proof fn lemma_users_of_tail(part: Seq<ModelMessageView>, n: int)
    requires
        1 <= n <= part.len(),
        forall|j: int| 0 < j < part.len() ==> !((#[trigger] part[j]) is User),
    ensures
        users(part.take(n)) == if part[0] is User {
            1nat
        } else {
            0
        },
    decreases n,
{
    reveal(Seq::filter);
    assert(part.take(n).drop_last() =~= part.take(n - 1));
    if n > 1 {
        lemma_users_of_tail(part, n - 1);
    } else {
        assert(part.take(0) =~= Seq::<ModelMessageView>::empty());
        assert(users(part.take(0)) == 0);
    }
}

proof fn lemma_users_from(messages: Seq<ModelMessageView>, start: int)
    requires
        0 <= start <= segments_of(messages).len(),
    ensures
        users(joined_from(segments_of(messages), start)) == user_segments(
            segments_of(messages),
            segments_of(messages).len() as int,
        ) - user_segments(segments_of(messages), start),
    decreases segments_of(messages).len() - start,
{
    let segments = segments_of(messages);
    reveal(Seq::filter);
    if start < segments.len() {
        lemma_users_from(messages, start + 1);
        lemma_users_concat(segments[start].messages, joined_from(segments, start + 1));
        lemma_users_of_segment(messages, start);
    }
}

proof fn lemma_user_segments_before(segments: Seq<HistorySegmentView>, a: int, b: int)
    requires
        0 <= a <= b <= segments.len(),
    ensures
        user_segments(segments, a) <= user_segments(segments, b),
        last_user_segment(segments, b) matches Some(at) ==> 0 <= at < b
            && segments[at].has_user_message && user_segments(segments, b) == user_segments(
            segments,
            at,
        ) + 1,
        last_user_segment(segments, b) is None ==> user_segments(segments, b) == 0,
    decreases b,
{
    if b > 0 {
        lemma_user_segments_before(segments, if a < b {
            a
        } else {
            b - 1
        }, b - 1);
    }
}

proof fn lemma_users_are_kept(
    base: Seq<ModelMessageView>,
    history: ConversationHistoryView,
    tools: Seq<ToolDefinitionView>,
    limits: ModelLimits,
    reserve_tokens: u64,
    automatic: bool,
    force: bool,
)
    ensures
        compaction_plan(
            base,
            history,
            tools,
            limits,
            reserve_tokens,
            automatic,
            force,
        ) matches Some(plan) ==> {
            &&& !force ==> users(plan.retained) >= 2
            &&& users(history.messages) > 0 ==> users(plan.retained) >= 1
        },
{
    if let Some(plan) = compaction_plan(
        base,
        history,
        tools,
        limits,
        reserve_tokens,
        automatic,
        force,
    ) {
        let before = crate::agent::compaction::conversation_tokens(base, history, tools) as u64;
        let target = crate::agent::compaction::aimed_tokens(limits, reserve_tokens, before);
        lemma_compaction_keeps_the_current_request(history, base, tools, target as int, force);
        let segments = segments_of(history.messages);
        let cut = compaction_cut(history, base, tools, target as int, force)->0;
        let all = segments.len() as int;
        let current = crate::agent::compaction::current_segment(segments);
        lemma_cut_ends(segments, base, tools, target as int, eligible_end(segments, force), 0);
        lemma_users_from(history.messages, cut);
        lemma_users_from(history.messages, 0);
        lemma_segments_hold_all_messages(history.messages);
        lemma_user_segments_before(segments, cut, all);
        lemma_user_segments_before(segments, 0, current);
        lemma_user_segments_before(segments, cut, current);
        if !force {
            let end = eligible_end(segments, force);
            lemma_user_segments_before(segments, cut, end);
        }
    }
}

proof fn lemma_cut_ends(
    segments: Seq<HistorySegmentView>,
    base: Seq<ModelMessageView>,
    tools: Seq<ToolDefinitionView>,
    target: int,
    end: int,
    at: int,
)
    ensures
        at <= cut_from(segments, base, tools, target, end, at),
        cut_from(segments, base, tools, target, end, at) <= end || cut_from(
            segments,
            base,
            tools,
            target,
            end,
            at,
        ) == at,
    decreases end - at,
{
    if at < end && segments[at].safe_to_compact {
        lemma_cut_ends(segments, base, tools, target, end, at + 1);
    }
}

/// The text of a reply.
pub open spec fn reply_text(items: Seq<ModelAssistantItemView>) -> Seq<char>
    decreases items.len(),
{
    if items.len() == 0 {
        Seq::empty()
    } else {
        match items[0] {
            ModelAssistantItemView::Text { content } => content + reply_text(items.drop_first()),
            _ => reply_text(items.drop_first()),
        }
    }
}

proof fn lemma_reply_text(items: Seq<ModelAssistantItemView>, item: ModelAssistantItemView)
    ensures
        reply_text(items.push(item)) == reply_text(items) + (match item {
            ModelAssistantItemView::Text { content } => content,
            _ => Seq::empty(),
        }),
    decreases items.len(),
{
    let more = items.push(item);
    if items.len() == 0 {
        assert(more.drop_first() =~= Seq::<ModelAssistantItemView>::empty());
        assert(reply_text(more.drop_first()) =~= Seq::<char>::empty());
        assert(reply_text(more) =~= reply_text(items) + (match item {
            ModelAssistantItemView::Text { content } => content,
            _ => Seq::empty(),
        }));
    } else {
        assert(more.drop_first() =~= items.drop_first().push(item));
        lemma_reply_text(items.drop_first(), item);
        assert(reply_text(more) =~= reply_text(items) + (match item {
            ModelAssistantItemView::Text { content } => content,
            _ => Seq::empty(),
        }));
    }
}

proof fn lemma_texts_agree(items: Seq<ModelAssistantItemView>)
    ensures
        crate::model::requests::joined_texts(items, false) == reply_text(items),
    decreases items.len(),
{
    if items.len() > 0 {
        lemma_texts_agree(items.drop_last());
        lemma_reply_text(items.drop_last(), items.last());
        assert(items.drop_last().push(items.last()) =~= items);
        assert(crate::model::requests::joined_texts(items, false) =~= reply_text(items));
    }
}

/// A summary is the whole text of a reply that came to its end, called no tool and is not blank; no
/// other reply is one.
pub proof fn lemma_summaries_are_whole_replies(response: ModelResponseView)
    ensures
        summary_of(response) is Ok <==> {
            &&& response.stop_reason == StopReason::Stop
            &&& forall|i: int|
                0 <= i < response.items.len() ==> !((#[trigger] response.items[i]) is ToolCall)
            &&& !is_blank_text(reply_text(response.items))
        },
        summary_of(response) matches Ok(summary) ==> summary == reply_text(response.items),
{
    lemma_texts_agree(response.items);
}

/// The tokens of a conversation with what stands before it.
pub open spec fn is_request(
    request: ModelRequestView,
    base: Seq<ModelMessageView>,
    history: ConversationHistoryView,
    tools: Seq<ToolDefinitionView>,
) -> bool {
    &&& request.tools == tools
    &&& history.summary is None ==> request.messages =~= base + history.messages
    &&& history.summary matches Some(summary) ==> request.messages =~= base + seq![
        ModelMessageView::Developer {
            content: COMPACTION_SUMMARY_START@ + summary + COMPACTION_SUMMARY_END@,
        },
    ] + history.messages
}

/// A compaction comes about exactly where the answer is a summary, nothing was cancelled, and the
/// conversation with the summary in the place of what was removed is shorter than before; it is then
/// that conversation. Whatever else happens is reported, and the conversation stays as it is.
pub proof fn lemma_summaries_take_the_place_of_what_was_removed(
    plan: CompactionPlanView,
    base: Seq<ModelMessageView>,
    tools: Seq<ToolDefinitionView>,
    response: ModelResponseView,
    cancelled: bool,
    request: ModelRequestView,
)
    requires
        is_request(
            request,
            base,
            ConversationHistoryView {
                summary: Some(reply_text(response.items)),
                messages: plan.retained,
            },
            tools,
        ),
    ensures
        concluded(plan, base, tools, Ok(response), cancelled) is Ok <==> !cancelled && summary_of(
            response,
        ) is Ok && request_tokens(request) < plan.before_tokens,
        concluded(plan, base, tools, Ok(response), cancelled) matches Ok(compacted) ==> {
            let history = compacted_history(compacted);
            &&& history.summary == Some(reply_text(response.items))
            &&& history.messages == plan.retained
            &&& compacted.after_tokens == request_tokens(request)
        },
        concluded(plan, base, tools, Ok(response), cancelled) matches Err(stop) ==> {
            &&& stop.report matches Some(AgentEventView::CompactionFailed { message })
            &&& cancelled ==> stop.error is Cancelled
            &&& !cancelled ==> (stop.error matches CompactionErrorView::Failed(error) && message
                == error)
        },
{
    lemma_summaries_are_whole_replies(response);
    let history = ConversationHistoryView {
        summary: Some(reply_text(response.items)),
        messages: plan.retained,
    };
    let asked = request_of(base, history, tools, None);
    assert(asked.messages =~= request.messages);
    crate::context::accounting::lemma_messages_tokens(request.messages);
    crate::context::accounting::lemma_tools_tokens(tools);
}

/// A provider that gives no answer leaves the conversation as it is: a cancellation is one, any
/// other error is reported with its text.
pub proof fn lemma_failed_compactions_are_reported(
    plan: CompactionPlanView,
    base: Seq<ModelMessageView>,
    tools: Seq<ToolDefinitionView>,
    error: ProviderErrorView,
    cancelled: bool,
)
    ensures
        concluded(plan, base, tools, Err(error), cancelled) matches Err(stop) && stop.report is Some
            && (error is Cancelled <==> stop.error is Cancelled) && (!(error is Cancelled)
            ==> stop.error == CompactionErrorView::Failed(
            "compaction failed: "@ + provider_error_text(error),
        )),
{
}

/// What was measured before a compaction is the conversation as it went to a model.
pub proof fn lemma_the_conversation_is_measured(
    base: Seq<ModelMessageView>,
    history: ConversationHistoryView,
    tools: Seq<ToolDefinitionView>,
    limits: ModelLimits,
    reserve_tokens: u64,
    automatic: bool,
    force: bool,
    request: ModelRequestView,
)
    requires
        is_request(request, base, history, tools),
    ensures
        compaction_plan(
            base,
            history,
            tools,
            limits,
            reserve_tokens,
            automatic,
            force,
        ) matches Some(plan) ==> plan.before_tokens == request_tokens(request),
{
    let asked = request_of(base, history, tools, None);
    assert(asked.messages =~= request.messages);
    crate::context::accounting::lemma_messages_tokens(request.messages);
    crate::context::accounting::lemma_tools_tokens(tools);
}

/// A compaction that came about is reported: the session's change where there is one, the usage
/// after it, and how many tokens there were before and are now.
pub proof fn lemma_compactions_are_reported(
    plan: CompactionPlanView,
    after_tokens: u64,
    info: Option<SessionInfoView>,
)
    ensures
        ({
            let reports = finished_reports(plan, after_tokens, info);
            let n = if info is Some {
                1int
            } else {
                0
            };
            &&& reports.len() == 2 + n
            &&& info matches Some(info) ==> reports[0] == (AgentEventView::SessionChanged { info })
            &&& reports[n] matches AgentEventView::ContextUsageUpdated(usage)
                && usage.estimated_input_tokens == after_tokens && usage.context_window
                == plan.limits.context_window && usage.max_output_tokens
                == plan.limits.max_output_tokens && usage.input_tokens is None && usage.source
                == UsageSource::Estimated
            &&& reports[n + 1] == (AgentEventView::CompactionFinished {
                automatic: plan.automatic,
                before_tokens: plan.before_tokens,
                after_tokens,
            })
        }),
{
}

/// No part is removed in which a call of a tool is still without its result.
pub proof fn lemma_calls_leave_with_their_results(
    base: Seq<ModelMessageView>,
    history: ConversationHistoryView,
    tools: Seq<ToolDefinitionView>,
    target: int,
    force: bool,
)
    ensures
        compaction_cut(history, base, tools, target, force) matches Some(cut) ==> forall|i: int|
            0 <= i < cut ==> is_resolved(#[trigger] split_at_users(history.messages)[i]),
{
    lemma_compaction_keeps_the_current_request(history, base, tools, target, force);
    if let Some(cut) = compaction_cut(history, base, tools, target, force) {
        assert forall|i: int| 0 <= i < cut implies is_resolved(
            #[trigger] split_at_users(history.messages)[i],
        ) by {
            assert(segments_of(history.messages)[i].safe_to_compact);
        }
    }
}

/// No more is removed than brings the conversation, with a placeholder for the summary, within the
/// target, and less only where the last exchanges are reached, or a part that cannot be removed.
pub proof fn lemma_no_more_is_removed_than_needed(
    base: Seq<ModelMessageView>,
    history: ConversationHistoryView,
    tools: Seq<ToolDefinitionView>,
    target: int,
    force: bool,
    part: int,
    request: ModelRequestView,
)
    requires
        0 < part <= segments_of(history.messages).len(),
        is_request(
            request,
            base,
            ConversationHistoryView {
                summary: Some(SUMMARY_PLACEHOLDER@),
                messages: joined_from(segments_of(history.messages), part),
            },
            tools,
        ),
    ensures
        compaction_cut(history, base, tools, target, force) matches Some(cut) ==> {
            let segments = segments_of(history.messages);
            &&& part < cut ==> request_tokens(request) > target
            &&& part == cut && request_tokens(request) > target ==> cut >= eligible_end(
                segments,
                force,
            ) || !is_resolved(split_at_users(history.messages)[cut])
        },
{
    let segments = segments_of(history.messages);
    let asked = request_of(
        base,
        ConversationHistoryView {
            summary: Some(SUMMARY_PLACEHOLDER@),
            messages: joined_from(segments, part),
        },
        tools,
        None,
    );
    assert(asked.messages =~= request.messages);
    lemma_cut_is_first(segments, base, tools, target, eligible_end(segments, force), 0, part);
    if let Some(cut) = compaction_cut(history, base, tools, target, force) {
        lemma_compaction_keeps_the_current_request(history, base, tools, target, force);
        if cut < segments.len() {
            assert(segments[cut].safe_to_compact == is_resolved(
                split_at_users(history.messages)[cut],
            ));
        }
    }
}

proof fn lemma_cut_is_first(
    segments: Seq<HistorySegmentView>,
    base: Seq<ModelMessageView>,
    tools: Seq<ToolDefinitionView>,
    target: int,
    end: int,
    at: int,
    part: int,
)
    requires
        at < part,
    ensures
        ({
            let cut = cut_from(segments, base, tools, target, end, at);
            let tokens = crate::agent::compaction::projected(
                base,
                tools,
                joined_from(segments, part),
            );
            &&& part < cut ==> tokens > target
            &&& part == cut && tokens > target ==> cut >= end || !segments[cut].safe_to_compact
        }),
    decreases end - at,
{
    if at < end && segments[at].safe_to_compact && part > at + 1 {
        lemma_cut_is_first(segments, base, tools, target, end, at + 1, part);
    }
    if part == at + 1 && at < end && segments[at].safe_to_compact {
        reveal_with_fuel(cut_from, 2);
        lemma_cut_ends(segments, base, tools, target, end, at + 1);
        lemma_cut_ends(segments, base, tools, target, end, at + 2);
    }
}

/// A compaction aims at half of what is left of the window beside the reserve; where the window is
/// not known, at half of what there is. A summary may be as long as the model allows, but no longer
/// than a summary should be, and never has no room at all.
pub proof fn lemma_compactions_aim_at_half(limits: ModelLimits, reserve_tokens: u64, before: u64)
    ensures
        ({
            let aim = crate::agent::compaction::aimed_tokens(limits, reserve_tokens, before);
            &&& limits.context_window matches Some(window) ==> reserve_tokens <= window && window
                <= u64::MAX / 50 ==> 2 * aim <= window - reserve_tokens < 2 * aim + 2
            &&& limits.context_window matches Some(window) ==> reserve_tokens > window ==> aim == 0
            &&& limits.context_window is None && before >= 2 ==> 2 * aim <= before < 2 * aim + 2
            &&& limits.context_window is None && before < 2 ==> aim == 1
        }),
        ({
            let longest = crate::agent::compaction::summary_limit(limits);
            &&& 1 <= longest <= 4_096
            &&& limits.max_output_tokens matches Some(limit) ==> 1 <= limit <= 4_096 ==> longest
                == limit
            &&& limits.max_output_tokens matches Some(limit) ==> limit > 4_096 ==> longest == 4_096
            &&& limits.max_output_tokens is None ==> longest == 4_096
        }),
{
}

} // verus!
