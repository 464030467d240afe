//! The entries of a transcript.

use crate::app::output::{ToolTranscriptEntry, ToolTranscriptEntryView};
use vstd::prelude::*;

verus! {

/// Who speaks in a message.
#[derive(Clone, Copy, Debug, PartialEq, Eq, Structural)]
pub enum MessageRole {
    System,
    User,
    Assistant,
}

/// What became of a message of the user.
#[derive(Clone, Copy, Debug, PartialEq, Eq, Structural)]
pub enum UserMessageStatus {
    Delivered,
    Queued,
    Recovered,
}

/// The identity of an entry.
#[derive(Clone, Copy, Debug, PartialEq, Eq, Hash, Structural)]
pub struct TranscriptEntryId(u64);

/// The identity with this number.
pub closed spec fn entry_id(number: u64) -> TranscriptEntryId {
    TranscriptEntryId(number)
}

/// An identity has the number that it was made with, and two of one number are one.
pub proof fn lemma_entry_id(number: u64, id: TranscriptEntryId)
    ensures
        entry_id(number).number() == number,
        entry_id(id.number()) == id,
{
}

impl TranscriptEntryId {
    /// The number that stands for the identity.
    pub closed spec fn number(self) -> u64 {
        self.0
    }

    pub(crate) fn new(number: u64) -> (res: Self)
        ensures
            res == entry_id(number),
    {
        TranscriptEntryId(number)
    }

    /// The number of the entry.
    pub fn get(self) -> (res: u64)
        ensures
            res == self.number(),
    {
        self.0
    }
}

/// A message in the transcript.
#[derive(Debug, PartialEq, Eq)]
pub struct TranscriptMessage {
    pub role: MessageRole,
    pub content: String,
    pub thinking: Option<String>,
    pub user_status: UserMessageStatus,
}

/// What a [`TranscriptMessage`] holds.
#[verifier::ext_equal]
pub struct TranscriptMessageView {
    pub role: MessageRole,
    pub content: Seq<char>,
    pub thinking: Option<Seq<char>>,
    pub user_status: UserMessageStatus,
}

impl DeepView for TranscriptMessage {
    type V = TranscriptMessageView;

    open spec fn deep_view(&self) -> TranscriptMessageView {
        TranscriptMessageView {
            role: self.role,
            content: self.content.deep_view(),
            thinking: self.thinking.deep_view(),
            user_status: self.user_status,
        }
    }
}

impl Clone for TranscriptMessage {
    fn clone(&self) -> (res: Self)
        ensures
            res.deep_view() == self.deep_view(),
    {
        let res = TranscriptMessage {
            role: self.role,
            content: self.content.clone(),
            thinking: self.thinking.clone(),
            user_status: self.user_status,
        };
        assert(res.deep_view() =~~= self.deep_view());
        res
    }
}

/// An entry of the transcript.
#[derive(Debug, PartialEq, Eq)]
pub enum TranscriptEntry {
    Message(TranscriptMessage),
    Tool(ToolTranscriptEntry),
}

/// What a [`TranscriptEntry`] holds.
#[verifier::ext_equal]
pub enum TranscriptEntryView {
    Message(TranscriptMessageView),
    Tool(ToolTranscriptEntryView),
}

impl DeepView for TranscriptEntry {
    type V = TranscriptEntryView;

    open spec fn deep_view(&self) -> TranscriptEntryView {
        match self {
            TranscriptEntry::Message(value) => TranscriptEntryView::Message(value.deep_view()),
            TranscriptEntry::Tool(value) => TranscriptEntryView::Tool(value.deep_view()),
        }
    }
}

impl Clone for TranscriptEntry {
    fn clone(&self) -> (res: Self)
        ensures
            res.deep_view() == self.deep_view(),
    {
        let res = match self {
            TranscriptEntry::Message(value) => TranscriptEntry::Message(value.clone()),
            TranscriptEntry::Tool(value) => TranscriptEntry::Tool(value.clone()),
        };
        assert(res.deep_view() =~~= self.deep_view());
        res
    }
}

/// An entry with its identity, and how often it was changed.
#[derive(Debug, PartialEq, Eq)]
pub struct TranscriptEntryState {
    pub id: TranscriptEntryId,
    pub revision: u64,
    pub entry: TranscriptEntry,
}

/// What a [`TranscriptEntryState`] holds.
#[verifier::ext_equal]
pub struct TranscriptEntryStateView {
    pub id: TranscriptEntryId,
    pub revision: u64,
    pub entry: TranscriptEntryView,
}

impl DeepView for TranscriptEntryState {
    type V = TranscriptEntryStateView;

    open spec fn deep_view(&self) -> TranscriptEntryStateView {
        TranscriptEntryStateView {
            id: self.id,
            revision: self.revision,
            entry: self.entry.deep_view(),
        }
    }
}

impl Clone for TranscriptEntryState {
    fn clone(&self) -> (res: Self)
        ensures
            res.deep_view() == self.deep_view(),
    {
        let res = TranscriptEntryState {
            id: self.id,
            revision: self.revision,
            entry: self.entry.clone(),
        };
        assert(res.deep_view() =~~= self.deep_view());
        res
    }
}

/// The message of the assistant that is coming in.
#[derive(Debug, PartialEq, Eq)]
pub struct StreamingAssistantState {
    pub id: TranscriptEntryId,
    pub revision: u64,
    pub content: String,
    pub thinking: String,
}

/// What a [`StreamingAssistantState`] holds.
#[verifier::ext_equal]
pub struct StreamingAssistantStateView {
    pub id: TranscriptEntryId,
    pub revision: u64,
    pub content: Seq<char>,
    pub thinking: Seq<char>,
}

impl DeepView for StreamingAssistantState {
    type V = StreamingAssistantStateView;

    open spec fn deep_view(&self) -> StreamingAssistantStateView {
        StreamingAssistantStateView {
            id: self.id,
            revision: self.revision,
            content: self.content.deep_view(),
            thinking: self.thinking.deep_view(),
        }
    }
}

impl Clone for StreamingAssistantState {
    fn clone(&self) -> (res: Self)
        ensures
            res.deep_view() == self.deep_view(),
    {
        let res = StreamingAssistantState {
            id: self.id,
            revision: self.revision,
            content: self.content.clone(),
            thinking: self.thinking.clone(),
        };
        assert(res.deep_view() =~~= self.deep_view());
        res
    }
}

/// The indices of the messages among the entries, in order.
pub open spec fn message_indices(entries: Seq<TranscriptEntryStateView>) -> Seq<int>
    decreases entries.len(),
{
    if entries.len() == 0 {
        Seq::empty()
    } else {
        let before = message_indices(entries.drop_last());
        if entries.last().entry is Message {
            before.push(entries.len() - 1)
        } else {
            before
        }
    }
}

/// The messages among the entries, in order.
pub open spec fn messages_of(entries: Seq<TranscriptEntryStateView>) -> Seq<
    TranscriptMessageView,
> {
    message_indices(entries).map_values(|i: int| entries[i].entry->Message_0)
}

/// What is listed as a message of the transcript is one.
pub proof fn lemma_message_indices(entries: Seq<TranscriptEntryStateView>)
    ensures
        forall|k: int|
            0 <= k < message_indices(entries).len() ==> 0 <= #[trigger] message_indices(entries)[k]
                < entries.len() && entries[message_indices(entries)[k]].entry is Message,
    decreases entries.len(),
{
    if entries.len() > 0 {
        let before = entries.drop_last();
        lemma_message_indices(before);
        assert forall|k: int| 0 <= k < message_indices(entries).len() implies 0
            <= #[trigger] message_indices(entries)[k] < entries.len() && entries[message_indices(
            entries,
        )[k]].entry is Message by {
            if k < message_indices(before).len() {
                let i = message_indices(before)[k];
                assert(before[i] == entries[i]);
            }
        }
    }
}

/// Entries that stay messages or tools keep the indices of the messages.
pub proof fn lemma_message_indices_agree(
    a: Seq<TranscriptEntryStateView>,
    b: Seq<TranscriptEntryStateView>,
)
    requires
        a.len() == b.len(),
        forall|i: int| 0 <= i < a.len() ==> (a[i].entry is Message <==> b[i].entry is Message),
    ensures
        message_indices(a) == message_indices(b),
    decreases a.len(),
{
    if a.len() > 0 {
        lemma_message_indices_agree(a.drop_last(), b.drop_last());
    }
}

/// The messages of a transcript, without the calls of tools between them.
pub struct TranscriptMessages<'a> {
    entries: &'a [TranscriptEntryState],
    indices: &'a [usize],
}

impl<'a> TranscriptMessages<'a> {
    /// The indices are those of the messages.
    pub closed spec fn wf(&self) -> bool {
        self.indices@.map_values(|i: usize| i as int) == message_indices(self.entries.deep_view())
    }

    /// The messages, in order.
    pub closed spec fn messages(&self) -> Seq<TranscriptMessageView> {
        messages_of(self.entries.deep_view())
    }

    pub(crate) fn new(entries: &'a [TranscriptEntryState], indices: &'a [usize]) -> (res: Self)
        requires
            indices@.map_values(|i: usize| i as int) == message_indices(entries.deep_view()),
        ensures
            res.wf(),
            res.messages() == messages_of(entries.deep_view()),
    {
        TranscriptMessages { entries, indices }
    }

    /// How many messages there are.
    pub fn len(&self) -> (res: usize)
        requires
            self.wf(),
        ensures
            res == self.messages().len(),
    {
        assert(self.indices@.map_values(|i: usize| i as int).len() == self.indices@.len());
        self.indices.len()
    }

    /// Whether there are no messages.
    pub fn is_empty(&self) -> (res: bool)
        requires
            self.wf(),
        ensures
            res == (self.messages().len() == 0),
    {
        assert(self.indices@.map_values(|i: usize| i as int).len() == self.indices@.len());
        self.indices.len() == 0
    }

    /// The message at `index`.
    pub fn get(&self, index: usize) -> (res: &'a TranscriptMessage)
        requires
            self.wf(),
            index < self.messages().len(),
        ensures
            res.deep_view() == self.messages()[index as int],
    {
        let ghost all = self.entries.deep_view();
        proof {
            lemma_message_indices(all);
            let indices = self.indices@.map_values(|i: usize| i as int);
            assert(indices[index as int] == self.indices@[index as int]);
        }
        let at = self.indices[index];
        assert(all[at as int] == self.entries@[at as int].deep_view());
        match &self.entries[at].entry {
            TranscriptEntry::Message(message) => message,
            TranscriptEntry::Tool(_) => {
                assert(false);
                vstd::pervasive::unreached()
            },
        }
    }

    /// The messages, in order.
    pub fn iter(&self) -> (res: Vec<&'a TranscriptMessage>)
        requires
            self.wf(),
        ensures
            res.deep_view() == self.messages(),
    {
        let mut res: Vec<&'a TranscriptMessage> = Vec::new();
        let count = self.len();
        let mut i: usize = 0;
        while i < count
            invariant
                self.wf(),
                i <= count == self.messages().len(),
                res@.len() == i,
                forall|k: int|
                    0 <= k < i ==> (#[trigger] res@[k]).deep_view() == self.messages()[k],
            decreases count - i,
        {
            res.push(self.get(i));
            i += 1;
        }
        assert(res.deep_view() =~= self.messages());
        res
    }
}

} // verus!
