//! The history of a conversation: its summary, its messages, and its segments.

use crate::model::message::{
    ModelAssistantItem, ModelAssistantItemView, ModelMessage, ModelMessageView,
};
use crate::text::{chars_of, concat3, same_text, stands_at, text_of_range};
use vstd::prelude::*;

verus! {

/// What stands before a summary.
pub const COMPACTION_SUMMARY_START: &'static str = "The following is an automatically generated summary of earlier conversation history. Treat it as prior working context, not as a new user request.\n\n<conversation-summary>\n";

/// What stands behind a summary.
pub const COMPACTION_SUMMARY_END: &'static str = "\n</conversation-summary>";

/// What stands for the part of a conversation that was compacted.
#[derive(Debug, PartialEq, Eq)]
pub struct CompactionSummary {
    pub content: String,
}

impl DeepView for CompactionSummary {
    type V = Seq<char>;

    open spec fn deep_view(&self) -> Seq<char> {
        self.content@
    }
}

impl Clone for CompactionSummary {
    fn clone(&self) -> (res: Self)
        ensures
            res == *self,
    {
        CompactionSummary { content: self.content.clone() }
    }
}

/// A summary as a model reads it.
pub open spec fn summary_prompt(content: Seq<char>) -> Seq<char> {
    COMPACTION_SUMMARY_START@ + content + COMPACTION_SUMMARY_END@
}

/// A summary as a message.
pub open spec fn summary_message(content: Seq<char>) -> ModelMessageView {
    ModelMessageView::Developer { content: summary_prompt(content) }
}

/// `text` is framed like a summary: it begins and ends with the two marks.
pub open spec fn is_summary_prompt(text: Seq<char>) -> bool {
    &&& COMPACTION_SUMMARY_START@.is_prefix_of(text)
    &&& COMPACTION_SUMMARY_END@.is_suffix_of(text)
}

/// What a framed summary holds; nothing where the two marks overlap.
pub open spec fn summary_content(text: Seq<char>) -> Seq<char> {
    let start = COMPACTION_SUMMARY_START@.len() as int;
    let end = text.len() - COMPACTION_SUMMARY_END@.len();
    if start <= end {
        text.subrange(start, end)
    } else {
        Seq::empty()
    }
}

impl CompactionSummary {
    /// A summary with this content.
    pub fn new(content: &str) -> (res: Self)
        ensures
            res.deep_view() == content@,
    {
        CompactionSummary { content: content.to_owned() }
    }

    /// The summary as a message.
    pub fn as_message(&self) -> (res: ModelMessage)
        ensures
            res.deep_view() == summary_message(self.deep_view()),
    {
        ModelMessage::Developer { content: self.as_prompt_content() }
    }

    /// The summary as a model reads it.
    pub fn as_prompt_content(&self) -> (res: String)
        ensures
            res@ == summary_prompt(self.deep_view()),
    {
        concat3(COMPACTION_SUMMARY_START, &self.content, COMPACTION_SUMMARY_END)
    }
}

/// A conversation: a summary of what was compacted, and the messages since.
#[derive(Debug, PartialEq, Eq)]
pub struct ConversationHistory {
    summary: Option<CompactionSummary>,
    messages: Vec<ModelMessage>,
}

/// What a [`ConversationHistory`] holds.
#[verifier::ext_equal]
pub struct ConversationHistoryView {
    pub summary: Option<Seq<char>>,
    pub messages: Seq<ModelMessageView>,
}

impl DeepView for ConversationHistory {
    type V = ConversationHistoryView;

    closed spec fn deep_view(&self) -> ConversationHistoryView {
        ConversationHistoryView {
            summary: self.summary.deep_view(),
            messages: self.messages.deep_view(),
        }
    }
}

impl Clone for ConversationHistory {
    fn clone(&self) -> (res: Self)
        ensures
            res.deep_view() == self.deep_view(),
    {
        let res = ConversationHistory {
            summary: self.summary.clone(),
            messages: self.messages.clone(),
        };
        assert(res.deep_view() =~~= self.deep_view());
        res
    }
}

impl Default for ConversationHistory {
    fn default() -> (res: Self)
        ensures
            res.deep_view() == (ConversationHistoryView { summary: None, messages: Seq::empty() }),
    {
        let res = ConversationHistory { summary: None, messages: Vec::new() };
        assert(res.messages.deep_view() =~= Seq::<ModelMessageView>::empty());
        res
    }
}

/// The messages that a conversation puts before a model: its summary, then its messages.
pub open spec fn provider_projection(history: ConversationHistoryView) -> Seq<ModelMessageView> {
    match history.summary {
        Some(content) => seq![summary_message(content)] + history.messages,
        None => history.messages,
    }
}

/// The first message is a framed summary.
pub open spec fn begins_with_summary(messages: Seq<ModelMessageView>) -> bool {
    messages.len() > 0 && match messages[0] {
        ModelMessageView::Developer { content } => is_summary_prompt(content),
        _ => false,
    }
}

/// The conversation that `messages` stand for: a framed summary at the front is taken out.
pub open spec fn history_of(messages: Seq<ModelMessageView>) -> ConversationHistoryView {
    if begins_with_summary(messages) {
        ConversationHistoryView {
            summary: Some(summary_content(messages[0]->Developer_content)),
            messages: messages.skip(1),
        }
    } else {
        ConversationHistoryView { summary: None, messages }
    }
}

/// A conversation is the same after it was put before a model and read back, unless it has no
/// summary and its first message is framed like one.
pub proof fn lemma_projection_round_trips(history: ConversationHistoryView)
    requires
        history.summary is Some || !begins_with_summary(history.messages),
    ensures
        history_of(provider_projection(history)) == history,
{
    if let Some(content) = history.summary {
        let text = summary_prompt(content);
        let messages = provider_projection(history);
        assert(text.take(COMPACTION_SUMMARY_START@.len() as int) =~= COMPACTION_SUMMARY_START@);
        assert(text.skip(text.len() - COMPACTION_SUMMARY_END@.len()) =~= COMPACTION_SUMMARY_END@);
        assert(is_summary_prompt(text));
        assert(messages[0] == summary_message(content));
        assert(summary_content(text) =~= content);
        assert(messages.skip(1) =~= history.messages);
    }
}

/// What is read back projects to the messages that were read, unless the marks of the summary at
/// their front overlap.
pub proof fn lemma_history_projects_back(messages: Seq<ModelMessageView>)
    requires
        begins_with_summary(messages) ==> messages[0]->Developer_content.len()
            >= COMPACTION_SUMMARY_START@.len() + COMPACTION_SUMMARY_END@.len(),
    ensures
        provider_projection(history_of(messages)) == messages,
{
    if begins_with_summary(messages) {
        let text = messages[0]->Developer_content;
        let start = COMPACTION_SUMMARY_START@.len() as int;
        let end = text.len() - COMPACTION_SUMMARY_END@.len();
        assert(text.subrange(end, text.len() as int) =~= COMPACTION_SUMMARY_END@);
        assert(text.subrange(0, start) =~= COMPACTION_SUMMARY_START@);
        assert(summary_prompt(summary_content(text)) =~= text);
        assert(provider_projection(history_of(messages)) =~= messages);
    }
}

/// The content of a text that is framed like a summary.
fn unframed(text: &str) -> (res: Option<String>)
    ensures
        match res {
            Some(content) => is_summary_prompt(text@) && content@ == summary_content(text@),
            None => !is_summary_prompt(text@),
        },
{
    let chars = chars_of(text);
    let start = chars_of(COMPACTION_SUMMARY_START);
    let end = chars_of(COMPACTION_SUMMARY_END);
    if start.len() > chars.len() || end.len() > chars.len() {
        return None;
    }
    let tail: usize = chars.len() - end.len();
    if !stands_at(&chars, &start, 0) || !stands_at(&chars, &end, tail) {
        return None;
    }
    assert(text@.subrange(0, start@.len() as int) =~= text@.take(start@.len() as int));
    assert(text@.subrange(tail as int, text@.len() as int) =~= text@.skip(tail as int));
    if start.len() <= tail {
        Some(text_of_range(&chars, start.len(), tail))
    } else {
        Some(String::new())
    }
}

impl ConversationHistory {
    /// A history with this summary and these messages.
    pub fn new(summary: Option<CompactionSummary>, messages: Vec<ModelMessage>) -> (res: Self)
        ensures
            res.deep_view() == (ConversationHistoryView {
                summary: summary.deep_view(),
                messages: messages.deep_view(),
            }),
    {
        ConversationHistory { summary, messages }
    }

    /// Reads a conversation back from the messages that were put before a model.
    pub fn from_provider_messages(messages: Vec<ModelMessage>) -> (res: Self)
        ensures
            res.deep_view() == history_of(messages.deep_view()),
    {
        let mut messages = messages;
        let ghost all = messages.deep_view();
        let mut summary: Option<CompactionSummary> = None;
        if messages.len() > 0 {
            assert(all[0] == messages@[0].deep_view());
            if let ModelMessage::Developer { content } = &messages[0] {
                if let Some(content) = unframed(content) {
                    summary = Some(CompactionSummary { content });
                }
            }
        }
        if summary.is_some() {
            messages.remove(0);
            assert(messages.deep_view() =~= all.skip(1));
        }
        ConversationHistory { summary, messages }
    }

    /// The summary, where there is one.
    pub fn summary(&self) -> (res: Option<&CompactionSummary>)
        ensures
            res.deep_view() == self.deep_view().summary,
    {
        self.summary.as_ref()
    }

    /// The messages behind the summary.
    pub fn messages(&self) -> (res: &[ModelMessage])
        ensures
            res.deep_view() == self.deep_view().messages,
    {
        let res = self.messages.as_slice();
        assert(res.deep_view() =~= self.messages.deep_view());
        res
    }

    /// The messages behind the summary.
    pub fn into_messages(self) -> (res: Vec<ModelMessage>)
        ensures
            res.deep_view() == self.deep_view().messages,
    {
        self.messages
    }

    /// The messages to put before a model: the summary, then the messages.
    pub fn provider_messages(&self) -> (res: Vec<ModelMessage>)
        ensures
            res.deep_view() == provider_projection(self.deep_view()),
    {
        let mut messages: Vec<ModelMessage> = Vec::new();
        if let Some(summary) = &self.summary {
            messages.push(summary.as_message());
        }
        let ghost front = messages.deep_view();
        let mut rest = self.messages.clone();
        assert(rest.deep_view() =~= self.messages.deep_view());
        messages.append(&mut rest);
        assert(messages.deep_view() =~= front + self.messages.deep_view());
        assert(messages.deep_view() =~= provider_projection(self.deep_view()));
        messages
    }

    /// Adds a message at the end.
    pub fn push(&mut self, message: ModelMessage)
        ensures
            final(self).deep_view() == (ConversationHistoryView {
                summary: old(self).deep_view().summary,
                messages: old(self).deep_view().messages.push(message.deep_view()),
            }),
    {
        self.messages.push(message);
        assert(self.messages.deep_view() =~= old(self).messages.deep_view().push(
            message.deep_view(),
        ));
    }

    /// Puts a summary and messages in the place of what there is.
    pub fn replace(&mut self, summary: CompactionSummary, messages: Vec<ModelMessage>)
        ensures
            final(self).deep_view() == (ConversationHistoryView {
                summary: Some(summary.deep_view()),
                messages: messages.deep_view(),
            }),
    {
        self.summary = Some(summary);
        self.messages = messages;
    }

    /// Forgets the summary and all messages.
    pub fn clear(&mut self)
        ensures
            final(self).deep_view() == (ConversationHistoryView {
                summary: None,
                messages: Seq::empty(),
            }),
    {
        self.summary = None;
        self.messages.clear();
        assert(self.messages.deep_view() =~= Seq::<ModelMessageView>::empty());
    }
}

/// A turn of the user with what followed it, or what stood before the first turn.
#[derive(Debug, PartialEq, Eq)]
pub struct HistorySegment {
    pub messages: Vec<ModelMessage>,
    pub has_user_message: bool,
    pub safe_to_compact: bool,
}

/// What a [`HistorySegment`] holds.
#[verifier::ext_equal]
pub struct HistorySegmentView {
    pub messages: Seq<ModelMessageView>,
    pub has_user_message: bool,
    pub safe_to_compact: bool,
}

impl Clone for HistorySegment {
    fn clone(&self) -> (res: Self)
        ensures
            res.deep_view() == self.deep_view(),
    {
        let res = HistorySegment {
            messages: self.messages.clone(),
            has_user_message: self.has_user_message,
            safe_to_compact: self.safe_to_compact,
        };
        assert(res.deep_view() =~~= self.deep_view());
        res
    }
}

impl DeepView for HistorySegment {
    type V = HistorySegmentView;

    open spec fn deep_view(&self) -> HistorySegmentView {
        HistorySegmentView {
            messages: self.messages.deep_view(),
            has_user_message: self.has_user_message,
            safe_to_compact: self.safe_to_compact,
        }
    }
}

/// `messages` cut before each message of the user.
pub open spec fn split_at_users(messages: Seq<ModelMessageView>) -> Seq<Seq<ModelMessageView>>
    decreases messages.len(),
{
    if messages.len() == 0 {
        Seq::empty()
    } else {
        let before = split_at_users(messages.drop_last());
        let message = messages.last();
        if before.len() == 0 || message is User {
            before.push(seq![message])
        } else {
            before.drop_last().push(before.last().push(message))
        }
    }
}

/// Some message is one of the user.
pub open spec fn has_user(messages: Seq<ModelMessageView>) -> bool {
    exists|i: int| 0 <= i < messages.len() && (#[trigger] messages[i]) is User
}

/// The calls that wait for a result after the calls of `items` were added to `pending`; none
/// where a call has no identifier, or one that already waits.
pub open spec fn pending_after_items(
    pending: Set<Seq<char>>,
    items: Seq<ModelAssistantItemView>,
) -> Option<Set<Seq<char>>>
    decreases items.len(),
{
    if items.len() == 0 {
        Some(pending)
    } else {
        match pending_after_items(pending, items.drop_last()) {
            None => None,
            Some(earlier) => match items.last() {
                ModelAssistantItemView::ToolCall(call) => match call.call_id {
                    Some(id) => if earlier.contains(id) {
                        None
                    } else {
                        Some(earlier.insert(id))
                    },
                    None => None,
                },
                _ => Some(earlier),
            },
        }
    }
}

/// The calls that wait for a result after `messages`; none where the exchange with the tools is
/// out of order: a message of the user or the assistant while a call waits, a result without its
/// call, or a call without an identifier of its own.
pub open spec fn pending_after(messages: Seq<ModelMessageView>) -> Option<Set<Seq<char>>>
    decreases messages.len(),
{
    if messages.len() == 0 {
        Some(Set::empty())
    } else {
        match pending_after(messages.drop_last()) {
            None => None,
            Some(pending) => match messages.last() {
                ModelMessageView::Assistant { items } => if pending == Set::<Seq<char>>::empty() {
                    pending_after_items(pending, items)
                } else {
                    None
                },
                ModelMessageView::ToolResult { tool_call_id, .. } => if pending.contains(
                    tool_call_id,
                ) {
                    Some(pending.remove(tool_call_id))
                } else {
                    None
                },
                ModelMessageView::User { .. } => if pending == Set::<Seq<char>>::empty() {
                    Some(pending)
                } else {
                    None
                },
                _ => Some(pending),
            },
        }
    }
}

/// Every call of a tool in `messages` has its result.
pub open spec fn is_resolved(messages: Seq<ModelMessageView>) -> bool {
    pending_after(messages) == Some(Set::<Seq<char>>::empty())
}

/// The segment that `messages` make.
pub open spec fn segment_of(messages: Seq<ModelMessageView>) -> HistorySegmentView {
    HistorySegmentView {
        messages,
        has_user_message: has_user(messages),
        safe_to_compact: is_resolved(messages),
    }
}

/// The segments of a conversation.
pub open spec fn segments_of(messages: Seq<ModelMessageView>) -> Seq<HistorySegmentView> {
    split_at_users(messages).map_values(|part: Seq<ModelMessageView>| segment_of(part))
}

/// The messages of all segments from index `start` on, in order.
pub open spec fn joined_from(
    segments: Seq<HistorySegmentView>,
    start: int,
) -> Seq<ModelMessageView>
    decreases segments.len() - start,
{
    if start >= segments.len() {
        Seq::empty()
    } else {
        segments[start].messages + joined_from(segments, start + 1)
    }
}

/// The messages of the first `end` segments, in order.
pub open spec fn joined_to(segments: Seq<HistorySegmentView>, end: int) -> Seq<ModelMessageView>
    decreases end,
{
    if end <= 0 {
        Seq::empty()
    } else {
        joined_to(segments, end - 1) + segments[end - 1].messages
    }
}

/// No segment is empty, and a message of the user stands only at the front of its segment.
pub proof fn lemma_split_at_users(messages: Seq<ModelMessageView>)
    ensures
        messages.len() > 0 ==> split_at_users(messages).len() > 0,
        forall|i: int|
            0 <= i < split_at_users(messages).len() ==> (#[trigger] split_at_users(
                messages,
            )[i]).len() > 0,
        forall|i: int|
            0 < i < split_at_users(messages).len() ==> (#[trigger] split_at_users(
                messages,
            )[i])[0] is User,
        forall|i: int, j: int|
            0 <= i < split_at_users(messages).len() && 0 < j < split_at_users(messages)[i].len()
                ==> !((#[trigger] split_at_users(messages)[i][j]) is User),
    decreases messages.len(),
{
    if messages.len() > 0 {
        lemma_split_at_users(messages.drop_last());
    }
}

/// The two parts of a list of segments hold all of its messages.
pub proof fn lemma_joined_parts(segments: Seq<HistorySegmentView>, at: int)
    requires
        0 <= at <= segments.len(),
    ensures
        joined_to(segments, at) + joined_from(segments, at) == joined_from(segments, 0),
    decreases at,
{
    if at > 0 {
        lemma_joined_parts(segments, at - 1);
        assert(joined_from(segments, at - 1) == segments[at - 1].messages + joined_from(
            segments,
            at,
        ));
        assert(joined_to(segments, at) + joined_from(segments, at) =~= joined_to(segments, at - 1)
            + joined_from(segments, at - 1));
    } else {
        assert(joined_to(segments, at) + joined_from(segments, at) =~= joined_from(segments, 0));
    }
}

proof fn lemma_joined_to_agrees(
    a: Seq<HistorySegmentView>,
    b: Seq<HistorySegmentView>,
    end: int,
)
    requires
        0 <= end <= a.len(),
        end <= b.len(),
        forall|i: int| 0 <= i < end ==> a[i] == b[i],
    ensures
        joined_to(a, end) == joined_to(b, end),
    decreases end,
{
    if end > 0 {
        lemma_joined_to_agrees(a, b, end - 1);
    }
}

/// Segmentation loses nothing: the segments of a conversation, one after the other, are its
/// messages.
pub proof fn lemma_segments_hold_all_messages(messages: Seq<ModelMessageView>)
    ensures
        joined_from(segments_of(messages), 0) == messages,
    decreases messages.len(),
{
    let segments = segments_of(messages);
    lemma_joined_parts(segments, segments.len() as int);
    assert(joined_from(segments, segments.len() as int) =~= Seq::<ModelMessageView>::empty());
    lemma_joined_to_all(messages);
    assert(joined_from(segments, 0) =~= messages);
}

proof fn lemma_joined_to_all(messages: Seq<ModelMessageView>)
    ensures
        joined_to(segments_of(messages), segments_of(messages).len() as int) == messages,
    decreases messages.len(),
{
    let segments = segments_of(messages);
    if messages.len() > 0 {
        let earlier = segments_of(messages.drop_last());
        lemma_joined_to_all(messages.drop_last());
        let message = messages.last();
        let before = split_at_users(messages.drop_last());
        if before.len() == 0 || message is User {
            lemma_joined_to_agrees(segments, earlier, earlier.len() as int);
        } else {
            lemma_joined_to_agrees(segments, earlier, earlier.len() - 1);
        }
        assert(joined_to(segments, segments.len() as int) =~= messages.drop_last().push(message));
        assert(messages.drop_last().push(message) =~= messages);
    } else {
        assert(joined_to(segments, segments.len() as int) =~= messages);
    }
}

/// Whether `id` is among `ids`; where it stands.
fn position_of(ids: &Vec<String>, id: &str) -> (res: Option<usize>)
    ensures
        match res {
            Some(at) => at < ids.len() && ids@[at as int]@ == id@,
            None => forall|i: int| 0 <= i < ids.len() ==> ids@[i]@ != id@,
        },
{
    let mut i: usize = 0;
    while i < ids.len()
        invariant
            i <= ids.len(),
            forall|j: int| 0 <= j < i ==> ids@[j]@ != id@,
        decreases ids.len() - i,
    {
        if same_text(&ids[i], id) {
            return Some(i);
        }
        i += 1;
    }
    None
}

/// `ids` lists the members of `set`, each once.
spec fn lists(ids: Seq<String>, set: Set<Seq<char>>) -> bool {
    &&& forall|i: int| 0 <= i < ids.len() ==> set.contains(#[trigger] ids[i]@)
    &&& forall|x: Seq<char>|
        #[trigger] set.contains(x) ==> exists|i: int| 0 <= i < ids.len() && ids[i]@ == x
    &&& forall|i: int, j: int| 0 <= i < j < ids.len() ==> ids[i]@ != ids[j]@
}

proof fn lemma_lists_empty(ids: Seq<String>, set: Set<Seq<char>>)
    requires
        lists(ids, set),
    ensures
        ids.len() == 0 <==> set == Set::<Seq<char>>::empty(),
{
    if ids.len() == 0 {
        assert(set =~= Set::<Seq<char>>::empty());
    } else {
        assert(set.contains(ids[0]@));
    }
}

proof fn lemma_lists_insert(ids: Seq<String>, set: Set<Seq<char>>, id: String)
    requires
        lists(ids, set),
        !set.contains(id@),
    ensures
        lists(ids.push(id), set.insert(id@)),
{
    let more = ids.push(id);
    assert forall|x: Seq<char>| #[trigger] set.insert(id@).contains(x) implies exists|i: int|
        0 <= i < more.len() && more[i]@ == x by {
        if x == id@ {
            assert(more[ids.len() as int]@ == x);
        } else {
            let i = choose|i: int| 0 <= i < ids.len() && ids[i]@ == x;
            assert(more[i]@ == x);
        }
    }
    assert forall|i: int, j: int| 0 <= i < j < more.len() implies more[i]@ != more[j]@ by {
        if j == ids.len() {
            assert(set.contains(ids[i]@));
        }
    }
}

proof fn lemma_lists_remove(ids: Seq<String>, set: Set<Seq<char>>, at: int)
    requires
        lists(ids, set),
        0 <= at < ids.len(),
    ensures
        lists(ids.remove(at), set.remove(ids[at]@)),
{
    let fewer = ids.remove(at);
    assert forall|i: int| 0 <= i < fewer.len() implies set.remove(ids[at]@).contains(
        #[trigger] fewer[i]@,
    ) by {
        let j = if i < at {
            i
        } else {
            i + 1
        };
        assert(fewer[i] == ids[j]);
    }
    assert forall|x: Seq<char>| #[trigger] set.remove(ids[at]@).contains(x) implies exists|i: int|
        0 <= i < fewer.len() && fewer[i]@ == x by {
        assert(set.contains(x));
        let j = choose|j: int| 0 <= j < ids.len() && ids[j]@ == x;
        let i = if j < at {
            j
        } else {
            j - 1
        };
        assert(fewer[i]@ == x);
    }
}

/// Adds the calls of `items` to the calls that wait; whether that was in order.
fn add_calls(pending: &mut Vec<String>, items: &Vec<ModelAssistantItem>) -> (res: bool)
    requires
        exists|set: Set<Seq<char>>| lists(old(pending)@, set),
    ensures
        forall|set: Set<Seq<char>>|
            lists(old(pending)@, set) ==> match pending_after_items(set, items.deep_view()) {
                Some(after) => res && lists(final(pending)@, after),
                None => !res,
            },
{
    let ghost all = items.deep_view();
    let ghost set = choose|set: Set<Seq<char>>| lists(old(pending)@, set);
    proof {
        assert forall|other: Set<Seq<char>>| lists(old(pending)@, other) implies other == set by {
            assert(other =~= set);
        }
    }
    let mut i: usize = 0;
    while i < items.len()
        invariant
            i <= items.len(),
            all == items.deep_view(),
            pending_after_items(set, all.take(i as int)) is Some,
            lists(pending@, pending_after_items(set, all.take(i as int))->0),
            forall|other: Set<Seq<char>>| lists(old(pending)@, other) ==> other == set,
            forall|n: int|
                0 <= n <= i ==> pending_after_items(set, #[trigger] all.take(n)) is Some,
        decreases items.len() - i,
    {
        let ghost earlier = pending_after_items(set, all.take(i as int))->0;
        proof {
            assert(all.take(i + 1).drop_last() =~= all.take(i as int));
            assert(all.take(i + 1).last() == items@[i as int].deep_view());
        }
        if let ModelAssistantItem::ToolCall(call) = &items[i] {
            match &call.call_id {
                None => {
                    proof {
                        lemma_pending_stays_broken(set, all, i + 1);
                    }
                    return false;
                },
                Some(id) => {
                    if position_of(pending, id).is_some() {
                        proof {
                            assert(earlier.contains(id@));
                            lemma_pending_stays_broken(set, all, i + 1);
                        }
                        return false;
                    }
                    proof {
                        if earlier.contains(id@) {
                            let j = choose|j: int| 0 <= j < pending@.len() && pending@[j]@ == id@;
                            assert(false);
                        }
                        lemma_lists_insert(pending@, earlier, *id);
                    }
                    pending.push(id.clone());
                },
            }
        }
        i += 1;
    }
    assert(all.take(i as int) =~= all);
    true
}

proof fn lemma_pending_stays_broken(
    set: Set<Seq<char>>,
    items: Seq<ModelAssistantItemView>,
    at: int,
)
    requires
        0 <= at <= items.len(),
        pending_after_items(set, items.take(at)) is None,
    ensures
        pending_after_items(set, items) is None,
    decreases items.len() - at,
{
    if at == items.len() {
        assert(items.take(at) =~= items);
    } else {
        assert(items.take(at + 1).drop_last() =~= items.take(at));
        lemma_pending_stays_broken(set, items, at + 1);
    }
}

proof fn lemma_unresolved_stays(messages: Seq<ModelMessageView>, at: int)
    requires
        0 <= at <= messages.len(),
        pending_after(messages.take(at)) is None,
    ensures
        !is_resolved(messages),
    decreases messages.len() - at,
{
    if at == messages.len() {
        assert(messages.take(at) =~= messages);
    } else {
        assert(messages.take(at + 1).drop_last() =~= messages.take(at));
        lemma_unresolved_stays(messages, at + 1);
    }
}

/// Whether every call of a tool in `messages` has its result.
fn resolved_tool_interactions(messages: &Vec<ModelMessage>) -> (res: bool)
    ensures
        res == is_resolved(messages.deep_view()),
{
    let ghost all = messages.deep_view();
    let mut pending: Vec<String> = Vec::new();
    let mut i: usize = 0;
    assert(lists(pending@, Set::empty()));
    assert(all.take(0) =~= Seq::<ModelMessageView>::empty());
    while i < messages.len()
        invariant
            i <= messages.len(),
            all == messages.deep_view(),
            pending_after(all.take(i as int)) is Some,
            lists(pending@, pending_after(all.take(i as int))->0),
        decreases messages.len() - i,
    {
        let ghost waiting = pending_after(all.take(i as int))->0;
        proof {
            assert(all.take(i + 1).drop_last() =~= all.take(i as int));
            assert(all.take(i + 1).last() == messages@[i as int].deep_view());
            lemma_lists_empty(pending@, waiting);
        }
        match &messages[i] {
            ModelMessage::Assistant { items } => {
                if pending.len() > 0 || !add_calls(&mut pending, items) {
                    proof {
                        lemma_unresolved_stays(all, i + 1);
                    }
                    return false;
                }
            },
            ModelMessage::ToolResult { tool_call_id, .. } => {
                match position_of(&pending, tool_call_id) {
                    None => {
                        proof {
                            if waiting.contains(tool_call_id@) {
                                let j = choose|j: int|
                                    0 <= j < pending@.len() && pending@[j]@ == tool_call_id@;
                                assert(false);
                            }
                            lemma_unresolved_stays(all, i + 1);
                        }
                        return false;
                    },
                    Some(at) => {
                        proof {
                            assert(waiting.contains(pending@[at as int]@));
                            lemma_lists_remove(pending@, waiting, at as int);
                        }
                        pending.remove(at);
                    },
                }
            },
            ModelMessage::User { .. } => {
                if pending.len() > 0 {
                    proof {
                        lemma_unresolved_stays(all, i + 1);
                    }
                    return false;
                }
            },
            _ => {},
        }
        i += 1;
    }
    proof {
        assert(all.take(i as int) =~= all);
        lemma_lists_empty(pending@, pending_after(all)->0);
    }
    pending.len() == 0
}

/// The segment that `messages` make.
fn make_segment(messages: Vec<ModelMessage>) -> (res: HistorySegment)
    ensures
        res.deep_view() == segment_of(messages.deep_view()),
{
    let ghost all = messages.deep_view();
    let mut has_user_message = false;
    let mut i: usize = 0;
    while i < messages.len()
        invariant
            i <= messages.len(),
            all == messages.deep_view(),
            has_user_message <==> exists|j: int| 0 <= j < i && (#[trigger] all[j]) is User,
        decreases messages.len() - i,
    {
        assert(all[i as int] == messages@[i as int].deep_view());
        if let ModelMessage::User { .. } = &messages[i] {
            has_user_message = true;
            assert(all[i as int] is User);
        }
        i += 1;
    }
    let safe_to_compact = resolved_tool_interactions(&messages);
    HistorySegment { messages, has_user_message, safe_to_compact }
}

/// Groups a conversation at user-turn boundaries. A complete assistant tool batch and all of its
/// results stay in the same segment as their user turn.
pub fn segment_history(messages: &[ModelMessage]) -> (res: Vec<HistorySegment>)
    ensures
        res.deep_view() == segments_of(messages.deep_view()),
{
    let ghost all = messages.deep_view();
    let mut segments: Vec<HistorySegment> = Vec::new();
    let mut current: Vec<ModelMessage> = Vec::new();
    let mut i: usize = 0;
    assert(current.deep_view() =~= all.take(0));
    assert(segments.deep_view() =~= segments_of(all.take(0)));
    while i < messages.len()
        invariant
            i <= messages.len(),
            all == messages.deep_view(),
            i == 0 ==> current@.len() == 0 && segments@.len() == 0,
            i > 0 ==> current@.len() > 0 && split_at_users(all.take(i as int)).len()
                == segments@.len() + 1 && split_at_users(all.take(i as int)).last()
                == current.deep_view(),
            forall|k: int|
                0 <= k < segments@.len() ==> (#[trigger] segments@[k]).deep_view() == segment_of(
                    split_at_users(all.take(i as int))[k],
                ),
        decreases messages.len() - i,
    {
        proof {
            assert(all.take(i + 1).drop_last() =~= all.take(i as int));
            assert(all.take(i + 1).last() == messages@[i as int].deep_view());
            lemma_split_at_users(all.take(i as int));
        }
        let ghost before = split_at_users(all.take(i as int));
        let starts_turn = if let ModelMessage::User { .. } = &messages[i] {
            true
        } else {
            false
        };
        if starts_turn && current.len() > 0 {
            let mut finished: Vec<ModelMessage> = Vec::new();
            finished.append(&mut current);
            assert(finished.deep_view() =~= before.last());
            segments.push(make_segment(finished));
        }
        let ghost so_far = current.deep_view();
        current.push(messages[i].clone());
        assert(current.deep_view() =~= so_far.push(all[i as int]));
        i += 1;
        proof {
            let after = split_at_users(all.take(i as int));
            if so_far.len() == 0 {
                assert(current.deep_view() =~= seq![all[i - 1]]);
            }
            assert(after.last() == current.deep_view());
            assert forall|k: int| 0 <= k < segments@.len() implies (
            #[trigger] segments@[k]).deep_view() == segment_of(after[k]) by {
                assert(after[k] == before[k]);
            }
        }
    }
    assert(all.take(i as int) =~= all);
    if current.len() > 0 {
        segments.push(make_segment(current));
    }
    assert(segments.deep_view() =~= segments_of(all));
    segments
}

} // verus!
