//! What is said of a refusal, what is kept out of it, and what the mock provider answers.

use crate::config::model::ResolvedModelView;
use crate::json::{json_parsed, json_text, Json};
use crate::model::diagnostics::{
    descriptions, diagnostic_of, escaped_text, header_values, is_sensitive, item_fragments,
    items_fragments, longest_at, members_redacted, message_fragments, messages_fragments,
    model_secrets, non_empty, plain_name, redacted_fragments, redacted_text, refusal_of,
    request_fragments, strings_redacted, tools_fragments, truncated_diagnostic,
    ProviderErrorBodyView,
};
use crate::model::message::{
    last_user_text, ModelAssistantItemView, ModelEventView, ModelMessageView, ModelRequestView,
    ProviderErrorView,
};
use crate::model::mock::{chunks_of, mock_events, mock_response, MockProviderView};
use crate::text::{
    ascii_lowered, decimal_text, has_infix, lemma_prefix_within, occurs_at, prefix_within, utf8_len,
};
use vstd::prelude::*;

verus! {

/// A refusal is one of a conversation that is too long where its status says so, or where a bad
/// request is answered in words that say so, in capitals or not.
pub open spec fn says_too_long(status: u16, text: Seq<char>) -> bool {
    status == 413 || (status == 400 && (has_infix(ascii_lowered(text), "context length"@)
        || has_infix(ascii_lowered(text), "context window"@) || has_infix(
        ascii_lowered(text),
        "maximum context"@,
    ) || has_infix(ascii_lowered(text), "too many tokens"@) || has_infix(
        ascii_lowered(text),
        "max context"@,
    )))
}

/// A refusal is told with its status and what the provider wrote; a text that was cut off is
/// marked as such.
pub proof fn lemma_refusals_are_told(status: u16, content: Seq<char>)
    ensures
        says_too_long(status, content) ==> refusal_of(
            status,
            ProviderErrorBodyView { content, truncated: false },
        ) == (ProviderErrorView::ContextOverflow { message: content }),
        !says_too_long(status, content) ==> refusal_of(
            status,
            ProviderErrorBodyView { content, truncated: false },
        ) == (ProviderErrorView::Http { status, message: content }),
        refusal_of(status, ProviderErrorBodyView { content, truncated: true }) is ContextOverflow
            <==> says_too_long(status, content),
        refusal_of(
            status,
            ProviderErrorBodyView { content, truncated: true },
        ) matches ProviderErrorView::Http { status: told, message } ==> told == status
            && content.is_prefix_of(message) && message != content,
        refusal_of(
            status,
            ProviderErrorBodyView { content, truncated: true },
        ) matches ProviderErrorView::ContextOverflow { message } ==> content.is_prefix_of(message)
            && message != content,
{
    let marked = content + "\n[… provider error body truncated …]"@;
    reveal_strlit("\n[… provider error body truncated …]");
    assert(marked.subrange(0, content.len() as int) =~= content);
    assert(marked.len() > content.len());
}

/// Where a fragment begins, the longest one that begins there is replaced, and the rest goes on
/// behind it; where none begins, the character is kept.
pub proof fn lemma_fragments_are_replaced_where_they_stand(
    s: Seq<char>,
    fragments: Seq<Seq<char>>,
    at: int,
    k: int,
)
    requires
        0 <= at < s.len(),
        0 <= k < fragments.len(),
    ensures
        redacted_text(s, fragments, s.len() as int).len() == 0,
        fragments[k].len() > 0 && occurs_at(s, fragments[k], at) && (forall|i: int|
            0 <= i < fragments.len() && occurs_at(s, #[trigger] fragments[i], at)
                ==> fragments[i].len() <= fragments[k].len()) ==> redacted_text(s, fragments, at)
            == "<redacted>"@ + redacted_text(s, fragments, at + fragments[k].len()),
        (forall|i: int|
            0 <= i < fragments.len() && (#[trigger] fragments[i]).len() > 0 ==> !occurs_at(
                s,
                fragments[i],
                at,
            )) ==> redacted_text(s, fragments, at) == seq![s[at]] + redacted_text(
            s,
            fragments,
            at + 1,
        ),
{
    lemma_longest_is_the_longest(s, fragments, at, k);
}

proof fn lemma_longest_is_the_longest(s: Seq<char>, fragments: Seq<Seq<char>>, at: int, k: int)
    ensures
        longest_at(s, fragments, at) >= 0,
        0 <= k < fragments.len() && occurs_at(s, fragments[k], at) ==> longest_at(s, fragments, at)
            >= fragments[k].len(),
        longest_at(s, fragments, at) > 0 ==> exists|i: int|
            0 <= i < fragments.len() && occurs_at(s, #[trigger] fragments[i], at)
                && fragments[i].len() == longest_at(s, fragments, at),
    decreases fragments.len(),
{
    if fragments.len() > 0 {
        let rest = fragments.drop_last();
        lemma_longest_is_the_longest(s, rest, at, k);
        if 0 <= k < rest.len() {
            assert(rest[k] == fragments[k]);
        }
        if longest_at(s, fragments, at) > 0 {
            if longest_at(s, fragments, at) == longest_at(s, rest, at) {
                let i: int = choose|i: int|
                    0 <= i < rest.len() && occurs_at(s, #[trigger] rest[i], at) && rest[i].len()
                        == longest_at(s, rest, at);
                assert(occurs_at(s, fragments[i], at));
            } else {
                assert(occurs_at(s, fragments[fragments.len() - 1], at));
            }
        }
    }
}

/// Fragments are replaced in every string of a value, however deep it lies; all else stays.
pub proof fn lemma_fragments_are_replaced_in_values(
    json: Json,
    fragments: Seq<Seq<char>>,
    name: Seq<char>,
    i: int,
)
    ensures
        json matches Json::Text(text) ==> strings_redacted(json, fragments) == Json::Text(
            redacted_text(text, fragments, 0),
        ),
        json matches Json::Array(items) ==> (strings_redacted(json, fragments) matches Json::Array(
            redacted,
        ) && redacted.len() == items.len() && (0 <= i < items.len() ==> redacted[i]
            == strings_redacted(items[i], fragments))),
        json matches Json::Object(members) ==> (strings_redacted(
            json,
            fragments,
        ) matches Json::Object(redacted) && redacted.contains_key(name) == members.contains_key(
            name,
        ) && (members.contains_key(name) ==> redacted[name] == strings_redacted(
            members[name],
            fragments,
        ))),
        json is Null || json is Bool || json is Number ==> strings_redacted(json, fragments)
            == json,
{
}

/// Members of sensitive names are replaced whole, however deep they lie; all else stays.
pub proof fn lemma_sensitive_members_are_replaced(json: Json, name: Seq<char>, i: int)
    ensures
        json matches Json::Array(items) ==> (members_redacted(json) matches Json::Array(redacted)
            && redacted.len() == items.len() && (0 <= i < items.len() ==> redacted[i]
            == members_redacted(items[i]))),
        json matches Json::Object(members) ==> (members_redacted(json) matches Json::Object(
            redacted,
        ) && redacted.contains_key(name) == members.contains_key(name) && (members.contains_key(
            name,
        ) ==> redacted[name] == if is_sensitive(name) {
            Json::Text("<redacted>"@)
        } else {
            members_redacted(members[name])
        })),
        !(json is Array) && !(json is Object) ==> members_redacted(json) == json,
{
}

/// A name is sensitive where a word for a secret stands in it, in capitals or not, with hyphens or
/// underscores, and where it is the name of what was said to the model.
pub proof fn lemma_secrets_are_sensitive(name: Seq<char>, word: Seq<char>)
    requires
        word == "apikey"@ || word == "authorization"@ || word == "secret"@ || word == "password"@
            || word == "credential"@ || word == "api_key"@ || word == "access_token"@ || word
            == "refresh_token"@,
        has_infix(ascii_lowered(name), word),
    ensures
        is_sensitive(name),
{
    reveal_strlit("apikey");
    reveal_strlit("authorization");
    reveal_strlit("secret");
    reveal_strlit("password");
    reveal_strlit("credential");
    reveal_strlit("api_key");
    reveal_strlit("access_token");
    reveal_strlit("refresh_token");
    assert(!word.contains('-')) by {
        assert forall|i: int| 0 <= i < word.len() implies #[trigger] word[i] != '-' by {}
    }
    lemma_words_without_hyphens_stay(name, word);
}

/// What was said to the model is sensitive under any of its names.
pub proof fn lemma_conversations_are_sensitive(name: Seq<char>)
    requires
        ascii_lowered(name) == "prompt"@ || ascii_lowered(name) == "prompts"@ || ascii_lowered(name)
            == "messages"@ || ascii_lowered(name) == "input"@ || ascii_lowered(name)
            == "tool_output"@ || ascii_lowered(name) == "tool_outputs"@,
    ensures
        is_sensitive(name),
{
    reveal_strlit("prompt");
    reveal_strlit("prompts");
    reveal_strlit("messages");
    reveal_strlit("input");
    reveal_strlit("tool_output");
    reveal_strlit("tool_outputs");
    let word = ascii_lowered(name);
    assert forall|i: int| 0 <= i < word.len() implies #[trigger] word[i] != '-' by {}
    assert(plain_name(name) =~= word);
}

proof fn lemma_words_without_hyphens_stay(name: Seq<char>, word: Seq<char>)
    requires
        has_infix(ascii_lowered(name), word),
        !word.contains('-'),
    ensures
        has_infix(plain_name(name), word),
{
    let lowered = ascii_lowered(name);
    let at: int = choose|at: int| occurs_at(lowered, word, at);
    let part = plain_name(name).subrange(at, at + word.len());
    assert forall|i: int| 0 <= i < word.len() implies #[trigger] part[i] == word[i] by {
        assert(lowered.subrange(at, at + word.len())[i] == word[i]);
        assert(word.contains(word[i]));
    }
    assert(part =~= word);
    assert(occurs_at(plain_name(name), word, at));
}

/// The key of a model and the values of its headers are kept out of what is logged, and so is all
/// that was said: every text of every message, and what the tools are described as.
pub proof fn lemma_secrets_are_kept_out(
    model: ResolvedModelView,
    request: ModelRequestView,
    secret: Seq<char>,
    i: int,
    j: int,
)
    requires
        secret.len() > 0,
    ensures
        model.api_key == Some(secret) ==> redacted_fragments(model, request).contains(secret),
        0 <= i < model.headers.len() && model.headers[i].value == secret ==> redacted_fragments(
            model,
            request,
        ).contains(secret),
        0 <= i < request.tools.len() && request.tools[i].description == Some(secret)
            ==> redacted_fragments(model, request).contains(secret),
        0 <= i < request.messages.len() && (request.messages[i] == (ModelMessageView::User {
            content: secret,
        }) || request.messages[i] == (ModelMessageView::System { content: secret })
            || request.messages[i] == (ModelMessageView::Developer { content: secret }))
            ==> redacted_fragments(model, request).contains(secret),
        0 <= i < request.messages.len() ==> (request.messages[i] matches
            ModelMessageView::ToolResult { content, .. } ==> content == secret
            ==> redacted_fragments(model, request).contains(secret)),
        0 <= i < request.messages.len() ==> (request.messages[i] matches
            ModelMessageView::Assistant { items } ==> 0 <= j < items.len() && tells(
            items[j],
            secret,
        ) ==> redacted_fragments(model, request).contains(secret)),
        !redacted_fragments(model, request).contains(Seq::<char>::empty()),
{
    let said = request_fragments(request);
    let kept = model_secrets(model);
    lemma_only_empty_ones_leave(said + kept, secret);
    lemma_only_empty_ones_leave(
        messages_fragments(request.messages) + tools_fragments(descriptions(request)),
        secret,
    );
    lemma_joined_contains(said, kept, secret);
    lemma_joined_contains(
        messages_fragments(request.messages),
        tools_fragments(descriptions(request)),
        secret,
    );
    if let Some(key) = model.api_key {
        assert(kept[0] == key);
        lemma_joined_contains(seq![key], header_values(model.headers), secret);
    }
    if 0 <= i < model.headers.len() && model.headers[i].value == secret {
        assert(header_values(model.headers)[i] == secret);
        assert(header_values(model.headers).contains(secret));
        assert(kept.contains(secret));
    }
    if 0 <= i < request.tools.len() && request.tools[i].description == Some(secret) {
        assert(descriptions(request)[i] == Some(secret));
        lemma_descriptions_are_fragments(descriptions(request), i, secret);
    }
    if 0 <= i < request.messages.len() {
        lemma_messages_are_fragments(request.messages, i, secret);
        let message = request.messages[i];
        if let ModelMessageView::Assistant { items } = message {
            if 0 <= j < items.len() && tells(items[j], secret) {
                lemma_items_are_fragments(items, j, secret);
            }
        } else if let ModelMessageView::ToolResult { content, .. } = message {
            assert(message_fragments(message)[0] == content);
        } else if message_fragments(message) == seq![secret] {
            assert(message_fragments(message)[0] == secret);
        }
    }
}

/// Whether the text is one of those that an item of a reply tells.
pub open spec fn tells(item: ModelAssistantItemView, text: Seq<char>) -> bool {
    match item {
        ModelAssistantItemView::Text { content } => content == text,
        ModelAssistantItemView::Refusal { content } => content == text,
        ModelAssistantItemView::Reasoning(thinking) => thinking.summary == text || thinking.content
            == text || thinking.encrypted_content == Some(text),
        ModelAssistantItemView::ToolCall(call) => call.arguments == text,
    }
}

proof fn lemma_joined_contains(a: Seq<Seq<char>>, b: Seq<Seq<char>>, text: Seq<char>)
    ensures
        (a + b).contains(text) <==> a.contains(text) || b.contains(text),
{
    if a.contains(text) {
        let i: int = choose|i: int| 0 <= i < a.len() && a[i] == text;
        assert((a + b)[i] == text);
    }
    if b.contains(text) {
        let i: int = choose|i: int| 0 <= i < b.len() && b[i] == text;
        assert((a + b)[a.len() + i] == text);
    }
}

proof fn lemma_only_empty_ones_leave(texts: Seq<Seq<char>>, text: Seq<char>)
    requires
        text.len() > 0,
    ensures
        texts.contains(text) ==> non_empty(texts).contains(text),
        forall|i: int| 0 <= i < non_empty(texts).len() ==> (#[trigger] non_empty(texts)[i]).len() > 0,
    decreases texts.len(),
{
    if texts.len() > 0 {
        let rest = texts.drop_last();
        lemma_only_empty_ones_leave(rest, text);
        assert(rest.push(texts.last()) =~= texts);
        if texts.contains(text) {
            let i: int = choose|i: int| 0 <= i < texts.len() && texts[i] == text;
            if i < rest.len() {
                assert(rest[i] == text);
                let j: int = choose|j: int|
                    0 <= j < non_empty(rest).len() && non_empty(rest)[j] == text;
                assert(non_empty(texts)[j] == text);
            } else {
                assert(non_empty(texts)[non_empty(rest).len() as int] == text);
            }
        }
    }
}

proof fn lemma_descriptions_are_fragments(tools: Seq<Option<Seq<char>>>, i: int, text: Seq<char>)
    requires
        0 <= i < tools.len(),
        tools[i] == Some(text),
    ensures
        tools_fragments(tools).contains(text),
    decreases tools.len(),
{
    let rest = tools.drop_last();
    if i < rest.len() {
        lemma_descriptions_are_fragments(rest, i, text);
        let j: int = choose|j: int|
            0 <= j < tools_fragments(rest).len() && tools_fragments(rest)[j] == text;
        assert(tools_fragments(tools)[j] == text);
    } else {
        assert(tools_fragments(tools)[tools_fragments(rest).len() as int] == text);
    }
}

proof fn lemma_messages_are_fragments(messages: Seq<ModelMessageView>, i: int, text: Seq<char>)
    requires
        0 <= i < messages.len(),
    ensures
        message_fragments(messages[i]).contains(text) ==> messages_fragments(messages).contains(
            text,
        ),
    decreases messages.len(),
{
    let rest = messages.drop_last();
    lemma_joined_contains(messages_fragments(rest), message_fragments(messages.last()), text);
    if i < rest.len() {
        lemma_messages_are_fragments(rest, i, text);
    }
}

proof fn lemma_items_are_fragments(items: Seq<ModelAssistantItemView>, j: int, text: Seq<char>)
    requires
        0 <= j < items.len(),
        tells(items[j], text),
    ensures
        items_fragments(items).contains(text),
    decreases items.len(),
{
    let rest = items.drop_last();
    lemma_joined_contains(items_fragments(rest), item_fragments(items.last()), text);
    if j < rest.len() {
        lemma_items_are_fragments(rest, j, text);
    } else {
        let told = item_fragments(items.last());
        assert(told.contains(text)) by {
            if let ModelAssistantItemView::Reasoning(thinking) = items.last() {
                assert(told[0] == thinking.summary);
                assert(told[1] == thinking.content);
                if thinking.encrypted_content == Some(text) {
                    assert(told[2] == text);
                }
            } else {
                assert(told[0] == text);
            }
        }
    }
}

/// Whether what is logged is the beginning of the text, followed by how long the response was.
pub open spec fn is_cut(text: Seq<char>, logged: Seq<char>, bytes: usize) -> bool {
    exists|n: int|
        0 <= n < text.len() && logged == #[trigger] text.take(n) + (
        "… [diagnostic truncated; response "@ + decimal_text(bytes as nat) + " bytes]"@)
}

/// What is logged of a refusal has its fragments and its sensitive members replaced where it is
/// JSON, and its fragments where it is not; there it also stands in one line.
pub proof fn lemma_logs_are_redacted(
    body: ProviderErrorBodyView,
    model: ResolvedModelView,
    request: ModelRequestView,
)
    ensures
        ({
            let fragments = redacted_fragments(model, request);
            let shown = match json_parsed(body.content) {
                Ok(json) => json_text(members_redacted(strings_redacted(json, fragments))),
                Err(_) => escaped_text(redacted_text(body.content, fragments, 0)),
            };
            let logged = diagnostic_of(body, model, request);
            &&& utf8_len(shown) <= 2_048 ==> logged == shown
            &&& utf8_len(shown) > 2_048 ==> is_cut(
                shown,
                logged,
                utf8_len(body.content) as usize,
            )
        }),
{
    let fragments = redacted_fragments(model, request);
    let shown = match json_parsed(body.content) {
        Ok(json) => json_text(members_redacted(strings_redacted(json, fragments))),
        Err(_) => escaped_text(redacted_text(body.content, fragments, 0)),
    };
    let logged = diagnostic_of(body, model, request);
    let bytes = utf8_len(body.content) as usize;
    assert(logged == truncated_diagnostic(shown, bytes));
    if utf8_len(shown) > 2_048 {
        crate::model::diagnostics::lemma_logged_text_is_bounded(shown, bytes);
        let marker = crate::model::diagnostics::diagnostic_marker(bytes);
        let room = 2_048 - utf8_len(marker);
        let kept = prefix_within(shown, room);
        lemma_kept_is_a_prefix(shown, room);
        let n: int = kept.len() as int;
        assert(logged == shown.take(n) + marker);
        if n == shown.len() {
            assert(shown.take(n) =~= shown);
        }
    }
}

proof fn lemma_kept_is_a_prefix(s: Seq<char>, limit: int)
    ensures
        prefix_within(s, limit).len() <= s.len(),
        prefix_within(s, limit) == s.take(prefix_within(s, limit).len() as int),
        limit >= 0 ==> utf8_len(prefix_within(s, limit)) <= limit,
        limit < 0 ==> prefix_within(s, limit).len() == 0,
{
    if limit >= 0 {
        lemma_prefix_within(s, limit);
    } else {
        if s.len() > 0 {
            crate::text::lemma_char_width(s[0]);
        }
        assert(s.take(0) =~= Seq::<char>::empty());
    }
}

/// Newlines and carriage returns are written out, other control characters become spaces, and all
/// else stays.
pub proof fn lemma_controls_are_written_out(s: Seq<char>, c: char)
    ensures
        escaped_text(Seq::<char>::empty()).len() == 0,
        c == '\n' ==> escaped_text(s.push(c)) == escaped_text(s) + seq!['\\', 'n'],
        c == '\r' ==> escaped_text(s.push(c)) == escaped_text(s) + seq!['\\', 'r'],
        c != '\n' && c != '\r' && (c < ' ' || '\u{7f}' <= c <= '\u{9f}') ==> escaped_text(s.push(c))
            == escaped_text(s).push(' '),
        c >= ' ' && !('\u{7f}' <= c <= '\u{9f}') ==> escaped_text(s.push(c)) == escaped_text(
            s,
        ).push(c),
{
    assert(s.push(c).drop_last() =~= s);
    assert(escaped_text(s) + seq![c] =~= escaped_text(s).push(c));
    assert(escaped_text(s) + seq![' '] =~= escaped_text(s).push(' '));
}

/// The last thing that the user said is the content of their last message.
pub proof fn lemma_the_last_request_is_the_newest(
    messages: Seq<ModelMessageView>,
    message: ModelMessageView,
)
    ensures
        message matches ModelMessageView::User { content } ==> last_user_text(messages.push(message))
            == content,
        !(message is User) ==> last_user_text(messages.push(message)) == last_user_text(messages),
        last_user_text(Seq::<ModelMessageView>::empty()).len() == 0,
{
    assert(messages.push(message).drop_last() =~= messages);
}

/// The mock provider answers with the text it was given, or with what the user said last, in
/// pieces of one size.
pub proof fn lemma_the_mock_answers(
    provider: MockProviderView,
    request: ModelRequestView,
    i: int,
)
    requires
        provider.chunk_size > 0,
    ensures
        provider.response matches Some(text) ==> mock_response(provider, request) == text,
        provider.response is None ==> mock_response(provider, request) == "Mock response to: "@
            + last_user_text(request.messages),
        0 <= i < mock_events(provider, request).len() ==> {
            let size = provider.chunk_size as int;
            let text = mock_response(provider, request);
            let end = if (i + 1) * size <= text.len() {
                (i + 1) * size
            } else {
                text.len() as int
            };
            &&& 0 <= i * size < text.len()
            &&& mock_events(provider, request)[i] == (ModelEventView::AssistantTextDelta {
                index: None,
                text: text.subrange(i * size, end),
            })
        },
{
    lemma_pieces(mock_response(provider, request), provider.chunk_size as int, i);
}

proof fn lemma_pieces(text: Seq<char>, size: int, i: int)
    requires
        size > 0,
    ensures
        0 <= i < chunks_of(text, size).len() ==> {
            let end = if (i + 1) * size <= text.len() {
                (i + 1) * size
            } else {
                text.len() as int
            };
            0 <= i * size < text.len() && chunks_of(text, size)[i] == text.subrange(i * size, end)
        },
    decreases text.len(),
{
    if 0 <= i < chunks_of(text, size).len() {
        if i == 0 {
            assert(0 * size == 0 && (0 + 1) * size == size) by (nonlinear_arith);
            if text.len() <= size {
                assert(text.subrange(0, text.len() as int) =~= text);
            } else {
                assert(text.subrange(0, size) =~= text.take(size));
            }
        } else {
            let rest = text.skip(size);
            lemma_pieces(rest, size, i - 1);
            assert(i * size == (i - 1) * size + size && (i + 1) * size == i * size + size)
                by (nonlinear_arith);
            let end = if i * size <= rest.len() {
                i * size
            } else {
                rest.len() as int
            };
            assert((i - 1 + 1) * size == i * size);
            assert(0 <= (i - 1) * size) by (nonlinear_arith)
                requires
                    i >= 1,
                    size > 0,
            ;
            assert(rest.subrange((i - 1) * size, end) =~= text.subrange(i * size, end + size));
        }
    }
}

} // verus!
