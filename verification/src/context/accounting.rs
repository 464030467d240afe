//! Estimates of how many tokens a request takes, and the limits that follow from them.

use crate::json::json_text;
use crate::model::message::{
    ModelAssistantItem, ModelAssistantItemView, ModelLimits, ModelMessage, ModelMessageView,
    ModelRequest, ModelRequestView, ModelToolCall, ModelToolCallView, ToolDefinition,
    ToolDefinitionView,
};
use crate::text::{byte_len, lemma_utf8_len_bounds, utf8_len};
use vstd::prelude::*;

verus! {

/// How many tokens of the context are kept free, where nothing else is configured.
pub const DEFAULT_COMPACTION_RESERVE_TOKENS: u64 = 16_384;

/// How much of its budget a conversation takes after a compaction, in percent.
pub const AUTO_COMPACTION_TARGET_PERCENT: u64 = 50;

/// How many tokens of the context no request counts on.
pub const CONTEXT_SAFETY_TOKENS: u64 = 4_096;

/// How many tokens a summary may have.
pub const COMPACTION_MAX_OUTPUT_TOKENS: u64 = 4_096;

/// Where the count of tokens in use comes from.
#[derive(Clone, Copy, Debug, PartialEq, Eq, Structural)]
pub enum UsageSource {
    Estimated,
    Provider,
}

impl Default for UsageSource {
    fn default() -> (res: Self)
        ensures
            res == UsageSource::Estimated,
    {
        UsageSource::Estimated
    }
}

/// How much of a model's context is in use.
#[derive(Clone, Copy, Debug, PartialEq, Eq)]
pub struct ContextUsage {
    pub input_tokens: Option<u64>,
    pub estimated_input_tokens: u64,
    pub context_window: Option<u64>,
    pub max_output_tokens: Option<u64>,
    pub source: UsageSource,
}

impl Default for ContextUsage {
    fn default() -> (res: Self)
        ensures
            res == (ContextUsage {
                input_tokens: None,
                estimated_input_tokens: 0,
                context_window: None,
                max_output_tokens: None,
                source: UsageSource::Estimated,
            }),
    {
        ContextUsage {
            input_tokens: None,
            estimated_input_tokens: 0,
            context_window: None,
            max_output_tokens: None,
            source: UsageSource::Estimated,
        }
    }
}

/// The usage of an estimate, before a provider has counted.
pub open spec fn estimated_usage(tokens: u64, limits: ModelLimits) -> ContextUsage {
    ContextUsage {
        input_tokens: None,
        estimated_input_tokens: tokens,
        context_window: limits.context_window,
        max_output_tokens: limits.max_output_tokens,
        source: UsageSource::Estimated,
    }
}

/// The tokens that are in use: what the provider counted, else the estimate.
pub open spec fn tokens_in_use(usage: ContextUsage) -> u64 {
    match usage.input_tokens {
        Some(tokens) => tokens,
        None => usage.estimated_input_tokens,
    }
}

impl ContextUsage {
    /// The usage of an estimate, before a provider has counted.
    pub fn estimated(tokens: u64, limits: ModelLimits) -> (res: Self)
        ensures
            res == estimated_usage(tokens, limits),
    {
        ContextUsage {
            input_tokens: None,
            estimated_input_tokens: tokens,
            context_window: limits.context_window,
            max_output_tokens: limits.max_output_tokens,
            source: UsageSource::Estimated,
        }
    }

    /// What the provider counted, else the estimate.
    pub fn current_tokens(self) -> (res: u64)
        ensures
            res == (match self.input_tokens {
                Some(tokens) => tokens,
                None => self.estimated_input_tokens,
            }),
            res == tokens_in_use(self),
    {
        match self.input_tokens {
            Some(tokens) => tokens,
            None => self.estimated_input_tokens,
        }
    }
}

/// `n`, or the largest count there is.
pub open spec fn saturated(n: int) -> int {
    if n > u64::MAX {
        u64::MAX as int
    } else {
        n
    }
}

/// A text costs its bytes and a small frame.
pub open spec fn text_bytes(text: Seq<char>) -> int {
    utf8_len(text) + 4
}

/// What a text costs that may be missing.
pub open spec fn optional_text_bytes(text: Option<Seq<char>>) -> int {
    match text {
        Some(text) => text_bytes(text),
        None => 0,
    }
}

/// Three UTF-8 bytes per token, rounded up: intentionally conservative for a provider-neutral
/// estimate.
pub open spec fn tokens_of_bytes(bytes: int) -> int {
    saturated(bytes + 2) / 3
}

/// What the call of a tool costs.
pub open spec fn tool_call_tokens(call: ModelToolCallView) -> int {
    tokens_of_bytes(
        12 + optional_text_bytes(call.call_id) + optional_text_bytes(call.item_id)
            + optional_text_bytes(call.name) + text_bytes(call.arguments),
    )
}

/// What an item adds to its message.
pub open spec fn item_bytes(item: ModelAssistantItemView) -> int {
    match item {
        ModelAssistantItemView::Text { content } => text_bytes(content),
        ModelAssistantItemView::Refusal { content } => text_bytes(content),
        ModelAssistantItemView::Reasoning(thinking) => text_bytes(thinking.summary) + text_bytes(
            thinking.content,
        ) + optional_text_bytes(thinking.item_id) + optional_text_bytes(
            thinking.encrypted_content,
        ),
        ModelAssistantItemView::ToolCall(call) => tool_call_tokens(call),
    }
}

/// What the items of a reply cost.
pub open spec fn items_bytes(items: Seq<ModelAssistantItemView>) -> int
    decreases items.len(),
{
    if items.len() == 0 {
        0
    } else {
        items_bytes(items.drop_last()) + item_bytes(items.last())
    }
}

/// What a message takes, with eight bytes of framing.
pub open spec fn message_bytes(message: ModelMessageView) -> int {
    8 + match message {
        ModelMessageView::System { content } => text_bytes(content),
        ModelMessageView::Developer { content } => text_bytes(content),
        ModelMessageView::User { content } => text_bytes(content),
        ModelMessageView::Assistant { items } => items_bytes(items),
        ModelMessageView::ToolResult { tool_call_id, tool_name, content } => text_bytes(
            tool_call_id,
        ) + text_bytes(tool_name) + text_bytes(content),
    }
}

/// The estimate of a message.
pub open spec fn message_tokens(message: ModelMessageView) -> int {
    tokens_of_bytes(message_bytes(message))
}

/// The estimate of messages.
pub open spec fn messages_tokens(messages: Seq<ModelMessageView>) -> int
    decreases messages.len(),
{
    if messages.len() == 0 {
        0
    } else {
        messages_tokens(messages.drop_last()) + message_tokens(messages.last())
    }
}

/// A tool takes its name, its description and its parameters as JSON text.
pub open spec fn tool_tokens(tool: ToolDefinitionView) -> int {
    tokens_of_bytes(
        16 + text_bytes(tool.name) + optional_text_bytes(tool.description) + text_bytes(
            json_text(tool.parameters),
        ),
    )
}

/// The estimate of tools.
pub open spec fn tools_tokens(tools: Seq<ToolDefinitionView>) -> int
    decreases tools.len(),
{
    if tools.len() == 0 {
        0
    } else {
        tools_tokens(tools.drop_last()) + tool_tokens(tools.last())
    }
}

/// The estimate of a request: its messages and its tools.
pub open spec fn request_tokens(request: ModelRequestView) -> int {
    saturated(saturated(messages_tokens(request.messages)) + saturated(tools_tokens(request.tools)))
}

/// Counts are never negative.
pub proof fn lemma_counts(message: ModelMessageView)
    ensures
        message_bytes(message) >= 8,
        message_tokens(message) >= 0,
{
    lemma_message_bytes(message);
}

proof fn lemma_text_bytes(text: Seq<char>)
    ensures
        text_bytes(text) >= 4,
{
    lemma_utf8_len_bounds(text);
}

proof fn lemma_item_bytes(item: ModelAssistantItemView)
    ensures
        item_bytes(item) >= 0,
{
    match item {
        ModelAssistantItemView::Text { content } => lemma_text_bytes(content),
        ModelAssistantItemView::Refusal { content } => lemma_text_bytes(content),
        ModelAssistantItemView::Reasoning(thinking) => {
            lemma_text_bytes(thinking.summary);
            lemma_text_bytes(thinking.content);
            if let Some(id) = thinking.item_id {
                lemma_text_bytes(id);
            }
            if let Some(state) = thinking.encrypted_content {
                lemma_text_bytes(state);
            }
        },
        ModelAssistantItemView::ToolCall(call) => {
            lemma_text_bytes(call.arguments);
            if let Some(id) = call.call_id {
                lemma_text_bytes(id);
            }
            if let Some(id) = call.item_id {
                lemma_text_bytes(id);
            }
            if let Some(name) = call.name {
                lemma_text_bytes(name);
            }
        },
    }
}

proof fn lemma_items_bytes(items: Seq<ModelAssistantItemView>)
    ensures
        items_bytes(items) >= 0,
    decreases items.len(),
{
    if items.len() > 0 {
        lemma_items_bytes(items.drop_last());
        lemma_item_bytes(items.last());
    }
}

proof fn lemma_message_bytes(message: ModelMessageView)
    ensures
        message_bytes(message) >= 8,
{
    match message {
        ModelMessageView::System { content } => lemma_text_bytes(content),
        ModelMessageView::Developer { content } => lemma_text_bytes(content),
        ModelMessageView::User { content } => lemma_text_bytes(content),
        ModelMessageView::Assistant { items } => lemma_items_bytes(items),
        ModelMessageView::ToolResult { tool_call_id, tool_name, content } => {
            lemma_text_bytes(tool_call_id);
            lemma_text_bytes(tool_name);
            lemma_text_bytes(content);
        },
    }
}

/// The estimate of messages is no less than nothing.
pub proof fn lemma_messages_tokens(messages: Seq<ModelMessageView>)
    ensures
        messages_tokens(messages) >= 0,
    decreases messages.len(),
{
    if messages.len() > 0 {
        lemma_messages_tokens(messages.drop_last());
        lemma_counts(messages.last());
    }
}

proof fn lemma_tool_tokens(tool: ToolDefinitionView)
    ensures
        tool_tokens(tool) >= 0,
{
    lemma_text_bytes(tool.name);
    lemma_text_bytes(json_text(tool.parameters));
    if let Some(description) = tool.description {
        lemma_text_bytes(description);
    }
}

/// The estimate of tools is no less than nothing.
pub proof fn lemma_tools_tokens(tools: Seq<ToolDefinitionView>)
    ensures
        tools_tokens(tools) >= 0,
    decreases tools.len(),
{
    if tools.len() > 0 {
        lemma_tools_tokens(tools.drop_last());
        lemma_tool_tokens(tools.last());
    }
}

/// The estimate grows with the content: a message of the user that takes no fewer bytes is not
/// estimated lower, and three more bytes are at least one more token.
pub proof fn lemma_estimates_grow_with_content(small: Seq<char>, large: Seq<char>)
    requires
        utf8_len(small) <= utf8_len(large),
        utf8_len(large) + 14 <= u64::MAX,
    ensures
        message_tokens(ModelMessageView::User { content: small }) <= message_tokens(
            ModelMessageView::User { content: large },
        ),
        utf8_len(small) + 3 <= utf8_len(large) ==> message_tokens(
            ModelMessageView::User { content: small },
        ) < message_tokens(ModelMessageView::User { content: large }),
{
}

/// One more message never lowers the estimate.
pub proof fn lemma_estimates_grow_with_messages(
    messages: Seq<ModelMessageView>,
    message: ModelMessageView,
)
    ensures
        messages_tokens(messages) <= messages_tokens(messages.push(message)),
{
    lemma_counts(message);
    assert(messages.push(message).drop_last() =~= messages);
}

/// `a + b`, or the largest count there is.
fn add_saturated(a: u64, b: u64) -> (res: u64)
    ensures
        res == saturated(a + b),
{
    a.saturating_add(b)
}

fn text_cost(value: &str) -> (res: u64)
    ensures
        res == saturated(text_bytes(value@)),
{
    add_saturated(byte_len(value) as u64, 4)
}

fn optional_text_cost(value: &Option<String>) -> (res: u64)
    ensures
        res == saturated(optional_text_bytes(value.deep_view())),
{
    match value {
        Some(value) => text_cost(value),
        None => 0,
    }
}

fn bytes_to_tokens(bytes: u64) -> (res: u64)
    ensures
        res == tokens_of_bytes(bytes as int),
{
    add_saturated(bytes, 2) / 3
}

fn estimate_tool_call(call: &ModelToolCall) -> (res: u64)
    ensures
        res == tool_call_tokens(call.deep_view()),
{
    proof {
        lemma_item_bytes(ModelAssistantItemView::ToolCall(call.deep_view()));
        lemma_text_bytes(call.arguments@);
        if let Some(id) = call.deep_view().call_id {
            lemma_text_bytes(id);
        }
        if let Some(id) = call.deep_view().item_id {
            lemma_text_bytes(id);
        }
        if let Some(name) = call.deep_view().name {
            lemma_text_bytes(name);
        }
    }
    let bytes = add_saturated(12, optional_text_cost(&call.call_id));
    let bytes = add_saturated(bytes, optional_text_cost(&call.item_id));
    let bytes = add_saturated(bytes, optional_text_cost(&call.name));
    let bytes = add_saturated(bytes, text_cost(&call.arguments));
    bytes_to_tokens(bytes)
}

fn item_cost(item: &ModelAssistantItem) -> (res: u64)
    ensures
        res == saturated(item_bytes(item.deep_view())),
{
    proof {
        lemma_item_bytes(item.deep_view());
    }
    match item {
        ModelAssistantItem::Text { content } => text_cost(content),
        ModelAssistantItem::Refusal { content } => text_cost(content),
        ModelAssistantItem::Reasoning(thinking) => {
            proof {
                lemma_text_bytes(thinking.summary@);
                lemma_text_bytes(thinking.content@);
                if let Some(id) = thinking.deep_view().item_id {
                    lemma_text_bytes(id);
                }
                if let Some(state) = thinking.deep_view().encrypted_content {
                    lemma_text_bytes(state);
                }
            }
            let bytes = add_saturated(text_cost(&thinking.summary), text_cost(&thinking.content));
            let bytes = add_saturated(bytes, optional_text_cost(&thinking.item_id));
            add_saturated(bytes, optional_text_cost(&thinking.encrypted_content))
        },
        ModelAssistantItem::ToolCall(call) => estimate_tool_call(call),
    }
}

/// The estimate of one message.
pub fn estimate_message(message: &ModelMessage) -> (res: u64)
    ensures
        res == message_tokens(message.deep_view()),
{
    proof {
        lemma_message_bytes(message.deep_view());
    }
    let bytes: u64 = match message {
        ModelMessage::System { content } => add_saturated(8, text_cost(content)),
        ModelMessage::Developer { content } => add_saturated(8, text_cost(content)),
        ModelMessage::User { content } => add_saturated(8, text_cost(content)),
        ModelMessage::Assistant { items } => {
            let ghost all = items.deep_view();
            let mut bytes: u64 = 8;
            let mut i: usize = 0;
            assert(all.take(0) =~= Seq::<ModelAssistantItemView>::empty());
            while i < items.len()
                invariant
                    i <= items.len(),
                    all == items.deep_view(),
                    bytes == saturated(8 + items_bytes(all.take(i as int))),
                decreases items.len() - i,
            {
                proof {
                    assert(all.take(i + 1).drop_last() =~= all.take(i as int));
                    assert(all.take(i + 1).last() == items@[i as int].deep_view());
                    lemma_items_bytes(all.take(i as int));
                    lemma_item_bytes(items@[i as int].deep_view());
                }
                bytes = add_saturated(bytes, item_cost(&items[i]));
                i += 1;
            }
            assert(all.take(i as int) =~= all);
            bytes
        },
        ModelMessage::ToolResult { tool_call_id, tool_name, content } => {
            proof {
                lemma_text_bytes(tool_call_id@);
                lemma_text_bytes(tool_name@);
                lemma_text_bytes(content@);
            }
            let bytes = add_saturated(text_cost(tool_call_id), text_cost(tool_name));
            add_saturated(8, add_saturated(bytes, text_cost(content)))
        },
    };
    bytes_to_tokens(bytes)
}

/// The estimate of one tool.
pub fn estimate_tool(tool: &ToolDefinition) -> (res: u64)
    ensures
        res == tool_tokens(tool.deep_view()),
{
    proof {
        lemma_text_bytes(tool.name@);
        lemma_text_bytes(json_text(tool.parameters.deep_view()));
        if let Some(description) = tool.deep_view().description {
            lemma_text_bytes(description);
        }
    }
    let parameters = tool.parameters.to_text();
    let bytes = add_saturated(16, text_cost(&tool.name));
    let bytes = add_saturated(bytes, optional_text_cost(&tool.description));
    let bytes = add_saturated(bytes, text_cost(&parameters));
    bytes_to_tokens(bytes)
}

/// The estimate of tools that an estimator without one of its own gives: that of each, together.
pub fn estimate_each_tool(tools: &[ToolDefinition]) -> (res: u64)
    ensures
        res == saturated(tools_tokens(tools.deep_view())),
{
    let ghost all = tools.deep_view();
    let mut tokens: u64 = 0;
    let mut i: usize = 0;
    assert(all.take(0) =~= Seq::<ToolDefinitionView>::empty());
    while i < tools.len()
        invariant
            i <= tools.len(),
            all == tools.deep_view(),
            tokens == saturated(tools_tokens(all.take(i as int))),
        decreases tools.len() - i,
    {
        proof {
            assert(all.take(i + 1).drop_last() =~= all.take(i as int));
            assert(all.take(i + 1).last() == tools@[i as int].deep_view());
            lemma_tools_tokens(all.take(i as int));
            lemma_tool_tokens(tools@[i as int].deep_view());
        }
        tokens = add_saturated(tokens, estimate_tool(&tools[i]));
        i += 1;
    }
    assert(all.take(i as int) =~= all);
    tokens
}

/// Estimates how many tokens messages, tools and requests take.
pub trait TokenEstimator {
    /// The estimate that this estimator gives of `messages`.
    spec fn estimate_of(&self, messages: Seq<ModelMessageView>) -> u64;

    fn estimate_messages(&self, messages: &[ModelMessage]) -> (res: u64)
        ensures
            res == self.estimate_of(messages.deep_view()),
    ;

    /// The estimate that this estimator gives of `tools`.
    spec fn estimate_of_tools(&self, tools: Seq<ToolDefinitionView>) -> u64;

    fn estimate_tools(&self, tools: &[ToolDefinition]) -> (res: u64)
        ensures
            res == self.estimate_of_tools(tools.deep_view()),
    ;

    fn estimate_request(&self, request: &ModelRequest) -> (res: u64)
        ensures
            res == saturated(
                self.estimate_of(request.deep_view().messages) + self.estimate_of_tools(
                    request.deep_view().tools,
                ),
            ),
    {
        let messages = request.messages.as_slice();
        let tools = request.tools.as_slice();
        assert(messages.deep_view() =~= request.messages.deep_view());
        assert(tools.deep_view() =~= request.tools.deep_view());
        add_saturated(self.estimate_messages(messages), self.estimate_tools(tools))
    }
}

/// Counts three UTF-8 bytes as a token.
#[derive(Clone, Copy, Debug)]
pub struct ConservativeTokenEstimator;

impl Default for ConservativeTokenEstimator {
    fn default() -> (res: Self)
        ensures
            res == ConservativeTokenEstimator,
    {
        ConservativeTokenEstimator
    }
}

impl TokenEstimator for ConservativeTokenEstimator {
    open spec fn estimate_of(&self, messages: Seq<ModelMessageView>) -> u64 {
        saturated(messages_tokens(messages)) as u64
    }

    open spec fn estimate_of_tools(&self, tools: Seq<ToolDefinitionView>) -> u64 {
        saturated(tools_tokens(tools)) as u64
    }

    fn estimate_tools(&self, tools: &[ToolDefinition]) -> (res: u64) {
        estimate_each_tool(tools)
    }

    fn estimate_messages(&self, messages: &[ModelMessage]) -> (res: u64) {
        let ghost all = messages.deep_view();
        let mut tokens: u64 = 0;
        let mut i: usize = 0;
        assert(all.take(0) =~= Seq::<ModelMessageView>::empty());
        while i < messages.len()
            invariant
                i <= messages.len(),
                all == messages.deep_view(),
                tokens == saturated(messages_tokens(all.take(i as int))),
            decreases messages.len() - i,
        {
            proof {
                assert(all.take(i + 1).drop_last() =~= all.take(i as int));
                assert(all.take(i + 1).last() == messages@[i as int].deep_view());
                lemma_messages_tokens(all.take(i as int));
                lemma_counts(messages@[i as int].deep_view());
            }
            tokens = add_saturated(tokens, estimate_message(&messages[i]));
            i += 1;
        }
        assert(all.take(i as int) =~= all);
        tokens
    }
}

/// The estimator that goes by no tokenizer of a model.
pub type GenericTokenEstimator = ConservativeTokenEstimator;

/// The estimate of a request.
pub fn estimate_request_tokens(request: &ModelRequest) -> (res: u64)
    ensures
        res == request_tokens(request.deep_view()),
{
    proof {
        lemma_messages_tokens(request.deep_view().messages);
        lemma_tools_tokens(request.deep_view().tools);
    }
    ConservativeTokenEstimator.estimate_request(request)
}

/// `a - b`, at least 0.
pub open spec fn less_saturated(a: u64, b: u64) -> u64 {
    if a < b {
        0
    } else {
        (a - b) as u64
    }
}

/// The estimate above which a conversation is compacted by itself.
pub open spec fn compaction_threshold(limits: ModelLimits, reserve_tokens: u64) -> Option<u64> {
    match limits.context_window {
        Some(window) => Some(less_saturated(window, reserve_tokens)),
        None => None,
    }
}

/// The estimate above which a conversation is compacted by itself: the window but for a reserve.
pub fn automatic_compaction_threshold(limits: ModelLimits, reserve_tokens: u64) -> (res: Option<
    u64,
>)
    ensures
        res == compaction_threshold(limits, reserve_tokens),
{
    match limits.context_window {
        Some(window) => Some(window.saturating_sub(reserve_tokens)),
        None => None,
    }
}

/// The room that a window leaves for input beside `output_tokens` and a margin.
pub open spec fn input_room(context_window: Option<u64>, output_tokens: u64) -> Option<u64> {
    match context_window {
        Some(window) => Some(
            less_saturated(less_saturated(window, output_tokens), CONTEXT_SAFETY_TOKENS),
        ),
        None => None,
    }
}

/// The room that a window leaves for input beside `output_tokens` and a margin.
pub fn request_input_budget(context_window: Option<u64>, output_tokens: u64) -> (res: Option<u64>)
    ensures
        res == input_room(context_window, output_tokens),
{
    match context_window {
        Some(window) => Some(
            window.saturating_sub(output_tokens).saturating_sub(CONTEXT_SAFETY_TOKENS),
        ),
        None => None,
    }
}

/// How many output tokens a request may ask for.
pub open spec fn clamped_output(limits: ModelLimits, estimated_input_tokens: u64) -> Option<u64> {
    match (
        limits.max_output_tokens,
        input_room(limits.context_window, estimated_input_tokens),
    ) {
        (Some(maximum), Some(room)) => Some(
            if maximum <= room {
                maximum
            } else {
                room
            },
        ),
        _ => None,
    }
}

/// How many output tokens a request may ask for: the model's maximum, or what its input leaves.
pub fn clamp_request_output_tokens(limits: ModelLimits, estimated_input_tokens: u64) -> (res:
    Option<u64>)
    ensures
        res == (match (
            limits.max_output_tokens,
            input_room(limits.context_window, estimated_input_tokens),
        ) {
            (Some(maximum), Some(room)) => Some(
                if maximum <= room {
                    maximum
                } else {
                    room
                },
            ),
            _ => None::<u64>,
        }),
        res == clamped_output(limits, estimated_input_tokens),
{
    match limits.max_output_tokens {
        Some(maximum) => match request_input_budget(limits.context_window, estimated_input_tokens) {
            Some(room) => Some(
                if maximum <= room {
                    maximum
                } else {
                    room
                },
            ),
            None => None,
        },
        None => None,
    }
}

/// The input and the clamped output of a request stay within the window, if they leave its
/// margin.
pub proof fn lemma_clamped_output_fits(window: u64, maximum: u64, estimated_input_tokens: u64)
    requires
        estimated_input_tokens + CONTEXT_SAFETY_TOKENS <= window,
    ensures
        ({
            let room = input_room(Some(window), estimated_input_tokens)->0;
            let clamped = if maximum <= room {
                maximum
            } else {
                room
            };
            estimated_input_tokens + clamped + CONTEXT_SAFETY_TOKENS <= window
        }),
{
}

/// Half of a budget, as far as the product fits.
pub open spec fn target_tokens(budget: u64) -> u64 {
    (saturated(budget * AUTO_COMPACTION_TARGET_PERCENT) / 100) as u64
}

/// What a compaction aims at: half of the budget.
pub fn compaction_target(budget: u64) -> (res: u64)
    ensures
        res == target_tokens(budget),
{
    match budget.checked_mul(AUTO_COMPACTION_TARGET_PERCENT) {
        Some(product) => product / 100,
        None => u64::MAX / 100,
    }
}

} // verus!
