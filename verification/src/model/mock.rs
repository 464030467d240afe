//! A provider that answers by itself, in chunks.

use crate::model::message::{
    last_user_text, ModelAssistantItem, ModelAssistantItemView, ModelEvent, ModelEventView,
    ModelRequest, ModelRequestView, ModelResponse, ModelResponseView, StopReason,
};
use crate::text::{chars_of, concat, text_of_range};
use std::time::Duration;
use vstd::prelude::*;

verus! {

/// Names the time that std makes of a number of milliseconds.
pub uninterp spec fn duration_of_millis(millis: u64) -> Duration;

/// `Duration::from_millis`, under its name.
pub assume_specification[ std::time::Duration::from_millis ](millis: u64) -> (res:
    std::time::Duration)
    ensures
        res == duration_of_millis(millis),
;

/// Answers every request with one text: a given one, or one that repeats the last user message.
#[derive(Debug, PartialEq, Eq)]
pub struct MockProvider {
    response: Option<String>,
    chunk_size: usize,
    delay: Duration,
}

/// What a [`MockProvider`] holds.
pub struct MockProviderView {
    pub response: Option<Seq<char>>,
    pub chunk_size: usize,
    pub delay: Duration,
}

impl DeepView for MockProvider {
    type V = MockProviderView;

    closed spec fn deep_view(&self) -> MockProviderView {
        MockProviderView {
            response: self.response.deep_view(),
            chunk_size: self.chunk_size,
            delay: self.delay,
        }
    }
}

/// A text in pieces of `size` characters, the last perhaps shorter.
pub open spec fn chunks_of(text: Seq<char>, size: int) -> Seq<Seq<char>>
    decreases text.len(),
{
    if text.len() == 0 || size <= 0 {
        Seq::empty()
    } else if text.len() <= size {
        seq![text]
    } else {
        seq![text.take(size)] + chunks_of(text.skip(size), size)
    }
}

/// All pieces in a row.
pub open spec fn joined_chunks(chunks: Seq<Seq<char>>) -> Seq<char>
    decreases chunks.len(),
{
    if chunks.len() == 0 {
        Seq::empty()
    } else {
        chunks[0] + joined_chunks(chunks.drop_first())
    }
}

/// The pieces of a text are the text.
pub proof fn lemma_chunks_are_the_text(text: Seq<char>, size: int)
    requires
        0 < size,
    ensures
        joined_chunks(chunks_of(text, size)) == text,
    decreases text.len(),
{
    if text.len() == 0 {
        assert(text =~= Seq::<char>::empty());
    } else if text.len() <= size {
        assert(seq![text].drop_first() =~= Seq::<Seq<char>>::empty());
        assert(joined_chunks(seq![text].drop_first()) =~= Seq::<char>::empty());
        assert(text + Seq::<char>::empty() =~= text);
    } else {
        let rest = chunks_of(text.skip(size), size);
        lemma_chunks_are_the_text(text.skip(size), size);
        assert((seq![text.take(size)] + rest).drop_first() =~= rest);
        assert(text.take(size) + text.skip(size) =~= text);
    }
}

/// The text that answers a request.
pub open spec fn mock_response(provider: MockProviderView, request: ModelRequestView) -> Seq<char> {
    match provider.response {
        Some(response) => response,
        None => "Mock response to: "@ + last_user_text(request.messages),
    }
}

/// The event of a piece.
pub open spec fn chunk_event(chunk: Seq<char>) -> ModelEventView {
    ModelEventView::AssistantTextDelta { index: None, text: chunk }
}

/// The events of a response.
pub open spec fn mock_events(provider: MockProviderView, request: ModelRequestView) -> Seq<
    ModelEventView,
> {
    chunks_of(mock_response(provider, request), provider.chunk_size as int).map_values(
        |chunk: Seq<char>| chunk_event(chunk),
    )
}

impl Clone for MockProvider {
    fn clone(&self) -> (res: Self)
        ensures
            res.deep_view() == self.deep_view(),
            self.wf() ==> res.wf(),
    {
        let res = MockProvider {
            response: self.response.clone(),
            chunk_size: self.chunk_size,
            delay: self.delay,
        };
        assert(res.response.deep_view() =~~= self.response.deep_view());
        res
    }
}

impl Default for MockProvider {
    fn default() -> (res: Self)
        ensures
            res.wf(),
            res.deep_view() == (MockProviderView {
                response: None,
                chunk_size: 8,
                delay: duration_of_millis(20),
            }),
    {
        MockProvider { response: None, chunk_size: 8, delay: Duration::from_millis(20) }
    }
}

impl MockProvider {
    /// Pieces hold at least one character.
    pub closed spec fn wf(&self) -> bool {
        self.chunk_size >= 1
    }

    /// A provider that repeats what the user said.
    pub fn new() -> (res: Self)
        ensures
            res.wf(),
            res.deep_view() == (MockProviderView {
                response: None,
                chunk_size: 8,
                delay: duration_of_millis(20),
            }),
    {
        MockProvider::default()
    }

    /// One that gives this answer.
    pub fn with_response(response: &str) -> (res: Self)
        ensures
            res.wf(),
            res.deep_view() == (MockProviderView {
                response: Some(response@),
                chunk_size: 8,
                delay: duration_of_millis(20),
            }),
    {
        let mut provider = MockProvider::default();
        provider.response = Some(response.to_owned());
        provider
    }

    /// The same with pieces of `chunk_size` characters, and of 1 at least.
    pub fn with_chunk_size(self, chunk_size: usize) -> (res: Self)
        ensures
            res.wf(),
            res.deep_view() == (MockProviderView {
                chunk_size: if chunk_size == 0 {
                    1
                } else {
                    chunk_size
                },
                ..self.deep_view()
            }),
    {
        let mut provider = self;
        provider.chunk_size = if chunk_size == 0 {
            1
        } else {
            chunk_size
        };
        provider
    }

    /// The same with this much time before each piece.
    pub fn with_delay(self, delay: Duration) -> (res: Self)
        ensures
            self.wf() ==> res.wf(),
            res.deep_view() == (MockProviderView { delay, ..self.deep_view() }),
    {
        let mut provider = self;
        provider.delay = delay;
        provider
    }

    /// The time before each piece.
    pub fn delay(&self) -> (res: Duration)
        ensures
            res == self.deep_view().delay,
    {
        self.delay
    }

    /// The text that answers a request.
    pub fn response_for(&self, request: &ModelRequest) -> (res: String)
        ensures
            res@ == mock_response(self.deep_view(), request.deep_view()),
    {
        match &self.response {
            Some(response) => response.clone(),
            None => concat("Mock response to: ", request.last_user_message()),
        }
    }

    /// The events that answer a request.
    pub fn events_for(&self, request: &ModelRequest) -> (res: Vec<ModelEvent>)
        requires
            self.wf(),
        ensures
            res.deep_view() == mock_events(self.deep_view(), request.deep_view()),
    {
        let response = self.response_for(request);
        let ghost size = self.chunk_size as int;
        let ghost all = mock_events(self.deep_view(), request.deep_view());
        let chars = chars_of(&response);
        let mut events: Vec<ModelEvent> = Vec::new();
        let mut at: usize = 0;
        proof {
            assert(response@.skip(0) =~= response@);
            assert(events.deep_view() + all =~= all);
        }
        while at < chars.len()
            invariant
                at <= chars.len(),
                chars@ == response@,
                size == self.chunk_size >= 1,
                all == events.deep_view() + chunks_of(response@.skip(at as int), size).map_values(
                    |chunk: Seq<char>| chunk_event(chunk),
                ),
            decreases chars.len() - at,
        {
            let ghost rest = response@.skip(at as int);
            let ghost before = events.deep_view();
            let end: usize = if chars.len() - at <= self.chunk_size {
                chars.len()
            } else {
                at + self.chunk_size
            };
            let text = text_of_range(&chars, at, end);
            events.push(ModelEvent::AssistantTextDelta { index: None, text });
            proof {
                assert(events.deep_view() =~= before.push(chunk_event(text@)));
                assert(rest.skip(end - at) =~= response@.skip(end as int));
                assert(text@ =~= rest.take(end - at));
                let later = chunks_of(response@.skip(end as int), size);
                assert(chunks_of(rest, size) =~= seq![text@] + later);
                assert(all =~= events.deep_view() + later.map_values(
                    |chunk: Seq<char>| chunk_event(chunk),
                ));
            }
            at = end;
        }
        assert(events.deep_view() =~= all);
        events
    }

    /// The response to a request.
    pub fn response(&self, request: &ModelRequest) -> (res: ModelResponse)
        ensures
            res.deep_view() == (ModelResponseView {
                items: seq![
                    ModelAssistantItemView::Text {
                        content: mock_response(self.deep_view(), request.deep_view()),
                    },
                ],
                stop_reason: StopReason::Stop,
                usage: None,
            }),
    {
        let mut items: Vec<ModelAssistantItem> = Vec::new();
        items.push(ModelAssistantItem::Text { content: self.response_for(request) });
        assert(items.deep_view() =~= seq![items@[0].deep_view()]);
        ModelResponse { items, stop_reason: StopReason::Stop, usage: None }
    }
}

} // verus!
