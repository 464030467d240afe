//! What is said of a request that a provider refused: its answer, and what may be logged of it.

use crate::config::model::{HeaderView, ResolvedModel, ResolvedModelView};
use crate::json::{array_of, json_parsed, json_text, object_of, Json, JsonMember, JsonValue};
use crate::model::message::{
    ModelAssistantItem, ModelAssistantItemView, ModelMessage, ModelMessageView, ModelRequest,
    ModelRequestView, ProviderError, ProviderErrorView, ToolDefinitionView,
};
use crate::text::{
    ascii_lowered, byte_len, chars_of, concat, concat3, contains_text, decimal, decimal_text,
    has_infix, lemma_decimal_len_u64, lemma_prefix_within, lemma_utf8_len_bounds,
    lemma_utf8_len_concat, occurs_at, prefix_at_boundary, prefix_within, same_text, stands_at,
    to_ascii_lowercase, trim, trimmed, utf8_len,
};
use vstd::prelude::*;
use vstd::utf8::{decode_utf8, valid_utf8};

verus! {

/// The most bytes of a refusal that are read.
pub const MAX_ERROR_RESPONSE_BYTES: usize = 65_536;

/// The most bytes of a refusal that are logged.
pub const MAX_ERROR_LOG_BYTES: usize = 2_048;

/// What follows a refusal that was not read to its end.
pub const ERROR_RESPONSE_TRUNCATED_MARKER: &'static str = "\n[… provider error body truncated …]";

/// What stands for content that is not logged.
pub const REDACTED_DIAGNOSTIC_CONTENT: &'static str = "<redacted>";

// ---- the answer ----

/// What a provider answered to a request that it refused.
#[derive(Debug, PartialEq, Eq)]
pub struct ProviderErrorBody {
    pub content: String,
    pub truncated: bool,
}

/// What a [`ProviderErrorBody`] holds.
#[verifier::ext_equal]
pub struct ProviderErrorBodyView {
    pub content: Seq<char>,
    pub truncated: bool,
}

impl DeepView for ProviderErrorBody {
    type V = ProviderErrorBodyView;

    open spec fn deep_view(&self) -> ProviderErrorBodyView {
        ProviderErrorBodyView { content: self.content@, truncated: self.truncated }
    }
}

/// What the user is told of a refusal.
pub open spec fn refusal_message(body: ProviderErrorBodyView) -> Seq<char> {
    if body.truncated {
        body.content + ERROR_RESPONSE_TRUNCATED_MARKER@
    } else {
        body.content
    }
}

impl ProviderErrorBody {
    /// What the user is told of the refusal.
    pub fn user_message(&self) -> (res: String)
        ensures
            res@ == refusal_message(self.deep_view()),
    {
        if self.truncated {
            concat(&self.content, ERROR_RESPONSE_TRUNCATED_MARKER)
        } else {
            self.content.clone()
        }
    }
}

/// The part of an answer that was read so far.
#[derive(Debug, PartialEq, Eq)]
pub struct ErrorBodyReader {
    pub bytes: Vec<u8>,
    pub truncated: bool,
}

/// What a chunk adds to an answer: as much as there is room for.
pub open spec fn read_chunk(bytes: Seq<u8>, chunk: Seq<u8>) -> (Seq<u8>, bool) {
    let room = if bytes.len() <= MAX_ERROR_RESPONSE_BYTES {
        MAX_ERROR_RESPONSE_BYTES - bytes.len()
    } else {
        0
    };
    if chunk.len() > room {
        (bytes + chunk.take(room), true)
    } else {
        (bytes + chunk, false)
    }
}

/// What is read of an answer that comes in chunks: nothing more once one did not fit.
pub open spec fn read_chunks(chunks: Seq<Seq<u8>>) -> (Seq<u8>, bool)
    decreases chunks.len(),
{
    if chunks.len() == 0 {
        (Seq::empty(), false)
    } else {
        let before = read_chunks(chunks.drop_last());
        if before.1 {
            before
        } else {
            read_chunk(before.0, chunks.last())
        }
    }
}

/// Names what std makes of bytes with `String::from_utf8_lossy`.
pub uninterp spec fn lossy_text(bytes: Seq<u8>) -> Seq<char>;

/// `String::from_utf8_lossy`: bytes that are UTF-8 are that text; what stands for others is left
/// to std.
#[verifier::external_body]
pub(crate) fn read_lossy(bytes: &[u8]) -> (res: String)
    ensures
        res@ == lossy_text(bytes@),
        valid_utf8(bytes@) ==> res@ == decode_utf8(bytes@),
{
    String::from_utf8_lossy(bytes).into_owned()
}

impl ErrorBodyReader {
    /// Nothing has been read yet.
    pub fn new() -> (res: Self)
        ensures
            (res.bytes@, res.truncated) == read_chunks(Seq::empty()),
    {
        ErrorBodyReader { bytes: Vec::new(), truncated: false }
    }

    /// Takes a chunk, and says whether it came to its end: where it did not, no more is read.
    pub fn feed(&mut self, chunk: &[u8]) -> (res: bool)
        ensures
            (final(self).bytes@, !res) == read_chunk(old(self).bytes@, chunk@),
            final(self).truncated == (old(self).truncated || !res),
    {
        let room: usize = if self.bytes.len() <= MAX_ERROR_RESPONSE_BYTES {
            MAX_ERROR_RESPONSE_BYTES - self.bytes.len()
        } else {
            0
        };
        let taken: usize = if chunk.len() > room {
            room
        } else {
            chunk.len()
        };
        let ghost before = self.bytes@;
        let mut i: usize = 0;
        while i < taken
            invariant
                i <= taken <= chunk.len(),
                self.bytes@ == before + chunk@.take(i as int),
                self.truncated == old(self).truncated,
            decreases taken - i,
        {
            self.bytes.push(chunk[i]);
            assert(self.bytes@ =~= before + chunk@.take(i + 1));
            i += 1;
        }
        if chunk.len() > room {
            self.truncated = true;
            false
        } else {
            assert(chunk@.take(i as int) =~= chunk@);
            true
        }
    }

    /// What was read, as text.
    pub fn finish(&self) -> (res: ProviderErrorBody)
        ensures
            res.deep_view() == (ProviderErrorBodyView {
                content: trimmed(lossy_text(self.bytes@)),
                truncated: self.truncated,
            }),
    {
        let text = read_lossy(self.bytes.as_slice());
        ProviderErrorBody { content: trim(&text), truncated: self.truncated }
    }
}

/// All bytes of the chunks, in order.
pub open spec fn all_bytes(chunks: Seq<Seq<u8>>) -> Seq<u8>
    decreases chunks.len(),
{
    if chunks.len() == 0 {
        Seq::empty()
    } else {
        all_bytes(chunks.drop_last()) + chunks.last()
    }
}

/// However an answer is cut into chunks, its leading bytes are read up to the limit, and it counts
/// as truncated exactly if there were more.
pub proof fn lemma_error_body_is_bounded(chunks: Seq<Seq<u8>>)
    ensures
        ({
            let all = all_bytes(chunks);
            let read = read_chunks(chunks);
            &&& read.1 == (all.len() > MAX_ERROR_RESPONSE_BYTES)
            &&& read.0 == if read.1 {
                all.take(MAX_ERROR_RESPONSE_BYTES as int)
            } else {
                all
            }
        }),
    decreases chunks.len(),
{
    if chunks.len() > 0 {
        lemma_error_body_is_bounded(chunks.drop_last());
        let before = read_chunks(chunks.drop_last());
        let all_before = all_bytes(chunks.drop_last());
        let all = all_bytes(chunks);
        if before.1 {
            assert(all.take(MAX_ERROR_RESPONSE_BYTES as int) =~= all_before.take(
                MAX_ERROR_RESPONSE_BYTES as int,
            ));
        } else {
            let read = read_chunk(before.0, chunks.last());
            if read.1 {
                assert(read.0 =~= all.take(MAX_ERROR_RESPONSE_BYTES as int));
            }
        }
    }
}

/// One of these is said in a refusal of a request that is too long.
pub open spec fn speaks_of_context(message: Seq<char>) -> bool {
    ||| has_infix(message, "context length"@)
    ||| has_infix(message, "context window"@)
    ||| has_infix(message, "maximum context"@)
    ||| has_infix(message, "too many tokens"@)
    ||| has_infix(message, "max context"@)
}

/// The request was too long for the model.
pub open spec fn context_overflow(status: u16, message: Seq<char>) -> bool {
    status == 413 || (status == 400 && speaks_of_context(ascii_lowered(message)))
}

/// Whether the request was too long for the model.
pub fn is_context_overflow(status: u16, message: &str) -> (res: bool)
    ensures
        res == context_overflow(status, message@),
{
    if status == 413 {
        return true;
    }
    if status != 400 {
        return false;
    }
    let message = to_ascii_lowercase(message);
    contains_text(&message, "context length") || contains_text(&message, "context window")
        || contains_text(&message, "maximum context") || contains_text(&message, "too many tokens")
        || contains_text(&message, "max context")
}

/// The error that a refusal is.
pub open spec fn refusal_of(status: u16, body: ProviderErrorBodyView) -> ProviderErrorView {
    let message = refusal_message(body);
    if context_overflow(status, body.content) {
        ProviderErrorView::ContextOverflow { message }
    } else {
        ProviderErrorView::Http { status, message }
    }
}

/// The error that an answer with a status other than success is.
pub fn refusal(status: u16, body: &ProviderErrorBody) -> (res: ProviderError)
    ensures
        res.deep_view() == refusal_of(status, body.deep_view()),
{
    let message = body.user_message();
    if is_context_overflow(status, &body.content) {
        ProviderError::ContextOverflow { message }
    } else {
        ProviderError::Http { status, message }
    }
}

/// The kind of an error, as it is logged.
pub open spec fn error_kind(error: ProviderErrorView) -> Seq<char> {
    match error {
        ProviderErrorView::Cancelled => "cancelled"@,
        ProviderErrorView::Failed { .. } => "failed"@,
        ProviderErrorView::ContextOverflow { .. } => "context_overflow"@,
        ProviderErrorView::Http { .. } => "http"@,
        ProviderErrorView::Malformed { .. } => "malformed"@,
    }
}

/// The kind of an error, as it is logged.
pub fn provider_error_kind(error: &ProviderError) -> (res: &'static str)
    ensures
        res@ == error_kind(error.deep_view()),
{
    match error {
        ProviderError::Cancelled => "cancelled",
        ProviderError::Failed { .. } => "failed",
        ProviderError::ContextOverflow { .. } => "context_overflow",
        ProviderError::Http { .. } => "http",
        ProviderError::Malformed { .. } => "malformed",
    }
}

// ---- redaction ----

/// The length of the longest of `fragments` that stands in `s` at `at`; 0 where none does.
pub open spec fn longest_at(s: Seq<char>, fragments: Seq<Seq<char>>, at: int) -> int
    decreases fragments.len(),
{
    if fragments.len() == 0 {
        0
    } else {
        let before = longest_at(s, fragments.drop_last(), at);
        let last = fragments.last();
        if occurs_at(s, last, at) && last.len() > before {
            last.len() as int
        } else {
            before
        }
    }
}

/// `s` from `at` on with the fragments in it redacted: the first to begin goes first, and of those
/// that begin together the longest.
pub open spec fn redacted_text(s: Seq<char>, fragments: Seq<Seq<char>>, at: int) -> Seq<char>
    decreases s.len() - at,
{
    if at < 0 || at >= s.len() {
        Seq::empty()
    } else {
        proof {
            lemma_longest_at(s, fragments, at);
        }
        let length = longest_at(s, fragments, at);
        if length > 0 {
            REDACTED_DIAGNOSTIC_CONTENT@ + redacted_text(s, fragments, at + length)
        } else {
            seq![s[at]] + redacted_text(s, fragments, at + 1)
        }
    }
}

/// No fragment reaches beyond the end of the text.
pub proof fn lemma_longest_at(s: Seq<char>, fragments: Seq<Seq<char>>, at: int)
    requires
        0 <= at <= s.len(),
    ensures
        0 <= longest_at(s, fragments, at) <= s.len() - at,
    decreases fragments.len(),
{
    if fragments.len() > 0 {
        lemma_longest_at(s, fragments.drop_last(), at);
    }
}

fn find_longest_at(chars: &Vec<char>, fragments: &Vec<Vec<char>>, at: usize) -> (res: usize)
    requires
        at <= chars.len(),
    ensures
        res == longest_at(chars@, fragments.deep_view(), at as int),
        res <= chars.len() - at,
{
    let ghost all = fragments.deep_view();
    let mut longest: usize = 0;
    let mut i: usize = 0;
    assert(all.take(0) =~= Seq::<Seq<char>>::empty());
    while i < fragments.len()
        invariant
            at <= chars.len(),
            i <= fragments.len(),
            all == fragments.deep_view(),
            longest == longest_at(chars@, all.take(i as int), at as int),
            longest <= chars.len() - at,
        decreases fragments.len() - i,
    {
        proof {
            assert(all.take(i + 1).drop_last() =~= all.take(i as int));
            assert(all[i as int] =~= fragments@[i as int]@);
        }
        if fragments[i].len() > longest && stands_at(chars, &fragments[i], at) {
            longest = fragments[i].len();
        }
        i += 1;
    }
    assert(all.take(i as int) =~= all);
    longest
}

fn fragment_chars(fragments: &Vec<String>) -> (res: Vec<Vec<char>>)
    ensures
        res.deep_view() == fragments.deep_view(),
{
    let ghost all = fragments.deep_view();
    let mut res: Vec<Vec<char>> = Vec::new();
    let mut i: usize = 0;
    while i < fragments.len()
        invariant
            i <= fragments.len(),
            all == fragments.deep_view(),
            res.deep_view() == all.take(i as int),
        decreases fragments.len() - i,
    {
        let ghost before = res.deep_view();
        let chars = chars_of(&fragments[i]);
        proof {
            assert(chars.deep_view() =~= all[i as int]);
        }
        res.push(chars);
        assert(res.deep_view() =~= before.push(all[i as int]));
        assert(res.deep_view() =~= all.take(i + 1));
        i += 1;
    }
    assert(all.take(i as int) =~= all);
    res
}

/// `text` with the fragments in it redacted.
pub fn redact_fragments(text: &str, fragments: &Vec<String>) -> (res: String)
    ensures
        res@ == redacted_text(text@, fragments.deep_view(), 0),
{
    let ghost all = fragments.deep_view();
    let chars = chars_of(text);
    let wanted = fragment_chars(fragments);
    let mut res = String::new();
    let mut at: usize = 0;
    assert(res@ + redacted_text(text@, all, 0) =~= redacted_text(text@, all, 0));
    while at < chars.len()
        invariant
            at <= chars.len(),
            chars@ == text@,
            wanted.deep_view() == all,
            res@ + redacted_text(text@, all, at as int) == redacted_text(text@, all, 0),
        decreases chars.len() - at,
    {
        let length = find_longest_at(&chars, &wanted, at);
        let ghost before = res@;
        if length > 0 {
            res = concat(&res, REDACTED_DIAGNOSTIC_CONTENT);
            proof {
                let rest = redacted_text(text@, all, at + length);
                assert(before + (REDACTED_DIAGNOSTIC_CONTENT@ + rest) =~= res@ + rest);
            }
            at += length;
        } else {
            res.push(chars[at]);
            proof {
                let rest = redacted_text(text@, all, at + 1);
                assert(before + (seq![text@[at as int]] + rest) =~= res@ + rest);
            }
            at += 1;
        }
    }
    assert(res@ + Seq::<char>::empty() =~= res@);
    res
}

/// Where none of the fragments stands in a text, nothing of it is redacted.
pub proof fn lemma_nothing_to_redact(s: Seq<char>, fragments: Seq<Seq<char>>, at: int)
    requires
        0 <= at <= s.len(),
        forall|i: int|
            0 <= i < fragments.len() ==> (#[trigger] fragments[i]).len() > 0 && !has_infix(
                s,
                fragments[i],
            ),
    ensures
        redacted_text(s, fragments, at) == s.skip(at),
    decreases s.len() - at,
{
    if at < s.len() {
        lemma_none_at(s, fragments, at);
        lemma_nothing_to_redact(s, fragments, at + 1);
        assert(s.skip(at) =~= seq![s[at]] + s.skip(at + 1));
    } else {
        assert(s.skip(at) =~= Seq::<char>::empty());
    }
}

proof fn lemma_none_at(s: Seq<char>, fragments: Seq<Seq<char>>, at: int)
    requires
        forall|i: int| 0 <= i < fragments.len() ==> !has_infix(s, #[trigger] fragments[i]),
    ensures
        longest_at(s, fragments, at) == 0,
    decreases fragments.len(),
{
    if fragments.len() > 0 {
        assert forall|i: int| 0 <= i < fragments.drop_last().len() implies !has_infix(
            s,
            #[trigger] fragments.drop_last()[i],
        ) by {
            assert(fragments.drop_last()[i] == fragments[i]);
        }
        lemma_none_at(s, fragments.drop_last(), at);
        assert(!has_infix(s, fragments[fragments.len() - 1]));
    }
}

/// A text that is one of the fragments is redacted as a whole.
pub proof fn lemma_fragments_are_redacted(fragments: Seq<Seq<char>>, k: int)
    requires
        0 <= k < fragments.len(),
        fragments[k].len() > 0,
    ensures
        redacted_text(fragments[k], fragments, 0) == REDACTED_DIAGNOSTIC_CONTENT@,
{
    let s = fragments[k];
    assert(s.subrange(0, s.len() as int) =~= s);
    lemma_longest_of(s, fragments, k);
    lemma_longest_at(s, fragments, 0);
    assert(redacted_text(s, fragments, s.len() as int) =~= Seq::<char>::empty());
    assert(REDACTED_DIAGNOSTIC_CONTENT@ + Seq::<char>::empty() =~= REDACTED_DIAGNOSTIC_CONTENT@);
}

proof fn lemma_longest_of(s: Seq<char>, fragments: Seq<Seq<char>>, k: int)
    requires
        0 <= k < fragments.len(),
        fragments[k] == s,
    ensures
        longest_at(s, fragments, 0) >= s.len(),
    decreases fragments.len(),
{
    assert(s.subrange(0, s.len() as int) =~= s);
    if k < fragments.len() - 1 {
        lemma_longest_of(s, fragments.drop_last(), k);
    }
}

/// `json` with every string in it redacted.
pub open spec fn strings_redacted(json: Json, fragments: Seq<Seq<char>>) -> Json
    decreases json,
{
    match json {
        Json::Text(text) => Json::Text(redacted_text(text, fragments, 0)),
        Json::Array(items) => Json::Array(
            Seq::new(
                items.len(),
                |i: int|
                    if 0 <= i < items.len() {
                        strings_redacted(items[i], fragments)
                    } else {
                        arbitrary()
                    },
            ),
        ),
        Json::Object(members) => Json::Object(
            Map::new(
                |name: Seq<char>| members.contains_key(name),
                |name: Seq<char>|
                    if members.contains_key(name) {
                        strings_redacted(members[name], fragments)
                    } else {
                        arbitrary()
                    },
            ),
        ),
        _ => json,
    }
}

/// `json` with all that stands under a sensitive name redacted.
pub open spec fn members_redacted(json: Json) -> Json
    decreases json,
{
    match json {
        Json::Array(items) => Json::Array(
            Seq::new(
                items.len(),
                |i: int|
                    if 0 <= i < items.len() {
                        members_redacted(items[i])
                    } else {
                        arbitrary()
                    },
            ),
        ),
        Json::Object(members) => Json::Object(
            Map::new(
                |name: Seq<char>| members.contains_key(name),
                |name: Seq<char>|
                    if is_sensitive(name) {
                        Json::Text(REDACTED_DIAGNOSTIC_CONTENT@)
                    } else if members.contains_key(name) {
                        members_redacted(members[name])
                    } else {
                        arbitrary()
                    },
            ),
        ),
        _ => json,
    }
}

/// A name as it is compared: in small letters, with underscores for hyphens.
pub open spec fn plain_name(name: Seq<char>) -> Seq<char> {
    ascii_lowered(name).map_values(
        |c: char|
            if c == '-' {
                '_'
            } else {
                c
            },
    )
}

/// What stands under this name is not logged.
pub open spec fn is_sensitive(name: Seq<char>) -> bool {
    let name = plain_name(name);
    ||| has_infix(name, "api_key"@)
    ||| has_infix(name, "apikey"@)
    ||| has_infix(name, "authorization"@)
    ||| has_infix(name, "secret"@)
    ||| has_infix(name, "password"@)
    ||| has_infix(name, "credential"@)
    ||| has_infix(name, "access_token"@)
    ||| has_infix(name, "refresh_token"@)
    ||| name == "prompt"@
    ||| name == "prompts"@
    ||| name == "messages"@
    ||| name == "input"@
    ||| name == "tool_output"@
    ||| name == "tool_outputs"@
}

/// Whether what stands under this name is not logged.
pub fn is_sensitive_diagnostic_key(key: &str) -> (res: bool)
    ensures
        res == is_sensitive(key@),
{
    let lowered = to_ascii_lowercase(key);
    let chars = chars_of(&lowered);
    let mut name = String::new();
    let mut i: usize = 0;
    while i < chars.len()
        invariant
            i <= chars.len(),
            chars@ == ascii_lowered(key@),
            name@ == plain_name(key@).take(i as int),
        decreases chars.len() - i,
    {
        if chars[i] == '-' {
            name.push('_');
        } else {
            name.push(chars[i]);
        }
        i += 1;
        assert(name@ =~= plain_name(key@).take(i as int));
    }
    assert(name@ =~= plain_name(key@));
    contains_text(&name, "api_key") || contains_text(&name, "apikey") || contains_text(
        &name,
        "authorization",
    ) || contains_text(&name, "secret") || contains_text(&name, "password") || contains_text(
        &name,
        "credential",
    ) || contains_text(&name, "access_token") || contains_text(&name, "refresh_token")
        || same_text(&name, "prompt") || same_text(&name, "prompts") || same_text(
        &name,
        "messages",
    ) || same_text(&name, "input") || same_text(&name, "tool_output") || same_text(
        &name,
        "tool_outputs",
    )
}

/// `value` with every string in it redacted.
pub fn redact_json_strings(value: &JsonValue, fragments: &Vec<String>) -> (res: JsonValue)
    ensures
        res.deep_view() == strings_redacted(value.deep_view(), fragments.deep_view()),
    decreases value,
{
    let ghost all = fragments.deep_view();
    match value {
        JsonValue::Text(text) => JsonValue::Text(redact_fragments(text, fragments)),
        JsonValue::Array(items) => {
            let mut copies: Vec<JsonValue> = Vec::new();
            let mut i: usize = 0;
            assert(strings_redacted(Json::Array(array_of(items@.take(0))), all)->Array_0
                =~= Seq::<Json>::empty());
            while i < items.len()
                invariant
                    *value == JsonValue::Array(*items),
                    i <= items.len(),
                    all == fragments.deep_view(),
                    array_of(copies@) == strings_redacted(
                        Json::Array(array_of(items@.take(i as int))),
                        all,
                    )->Array_0,
                decreases items.len() - i,
            {
                assert(decreases_to!(*value => value->Array_0));
                assert(decreases_to!(value->Array_0 => value->Array_0@));
                assert(decreases_to!(items@ => items@[i as int]));
                let ghost before = copies@;
                let copy = redact_json_strings(&items[i], fragments);
                copies.push(copy);
                proof {
                    assert(copies@.drop_last() =~= before);
                    assert(items@.take(i + 1).drop_last() =~= items@.take(i as int));
                    assert(array_of(copies@) =~= strings_redacted(
                        Json::Array(array_of(items@.take(i + 1))),
                        all,
                    )->Array_0);
                }
                i += 1;
            }
            assert(items@.take(i as int) =~= items@);
            JsonValue::Array(copies)
        },
        JsonValue::Object(members) => {
            let mut copies: Vec<JsonMember> = Vec::new();
            let mut i: usize = 0;
            assert(strings_redacted(Json::Object(object_of(members@.take(0))), all)->Object_0
                =~= Map::<Seq<char>, Json>::empty());
            while i < members.len()
                invariant
                    *value == JsonValue::Object(*members),
                    i <= members.len(),
                    all == fragments.deep_view(),
                    object_of(copies@) == strings_redacted(
                        Json::Object(object_of(members@.take(i as int))),
                        all,
                    )->Object_0,
                decreases members.len() - i,
            {
                assert(decreases_to!(*value => value->Object_0));
                assert(decreases_to!(value->Object_0 => value->Object_0@));
                assert(decreases_to!(members@ => members@[i as int]));
                assert(decreases_to!(members@[i as int] => members@[i as int].value));
                let ghost before = copies@;
                let copy = redact_json_strings(&members[i].value, fragments);
                copies.push(JsonMember { name: members[i].name.clone(), value: copy });
                proof {
                    assert(copies@.drop_last() =~= before);
                    assert(members@.take(i + 1).drop_last() =~= members@.take(i as int));
                    assert(object_of(copies@) =~= strings_redacted(
                        Json::Object(object_of(members@.take(i + 1))),
                        all,
                    )->Object_0);
                }
                i += 1;
            }
            assert(members@.take(i as int) =~= members@);
            JsonValue::Object(copies)
        },
        other => other.clone(),
    }
}

/// `value` with all that stands under a sensitive name redacted.
pub fn redact_diagnostic_json(value: &JsonValue) -> (res: JsonValue)
    ensures
        res.deep_view() == members_redacted(value.deep_view()),
    decreases value,
{
    match value {
        JsonValue::Array(items) => {
            let mut copies: Vec<JsonValue> = Vec::new();
            let mut i: usize = 0;
            assert(members_redacted(Json::Array(array_of(items@.take(0))))->Array_0 =~= Seq::<
                Json,
            >::empty());
            while i < items.len()
                invariant
                    *value == JsonValue::Array(*items),
                    i <= items.len(),
                    array_of(copies@) == members_redacted(
                        Json::Array(array_of(items@.take(i as int))),
                    )->Array_0,
                decreases items.len() - i,
            {
                assert(decreases_to!(*value => value->Array_0));
                assert(decreases_to!(value->Array_0 => value->Array_0@));
                assert(decreases_to!(items@ => items@[i as int]));
                let ghost before = copies@;
                let copy = redact_diagnostic_json(&items[i]);
                copies.push(copy);
                proof {
                    assert(copies@.drop_last() =~= before);
                    assert(items@.take(i + 1).drop_last() =~= items@.take(i as int));
                    assert(array_of(copies@) =~= members_redacted(
                        Json::Array(array_of(items@.take(i + 1))),
                    )->Array_0);
                }
                i += 1;
            }
            assert(items@.take(i as int) =~= items@);
            JsonValue::Array(copies)
        },
        JsonValue::Object(members) => {
            let mut copies: Vec<JsonMember> = Vec::new();
            let mut i: usize = 0;
            assert(members_redacted(Json::Object(object_of(members@.take(0))))->Object_0 =~= Map::<
                Seq<char>,
                Json,
            >::empty());
            while i < members.len()
                invariant
                    *value == JsonValue::Object(*members),
                    i <= members.len(),
                    object_of(copies@) == members_redacted(
                        Json::Object(object_of(members@.take(i as int))),
                    )->Object_0,
                decreases members.len() - i,
            {
                assert(decreases_to!(*value => value->Object_0));
                assert(decreases_to!(value->Object_0 => value->Object_0@));
                assert(decreases_to!(members@ => members@[i as int]));
                assert(decreases_to!(members@[i as int] => members@[i as int].value));
                let ghost before = copies@;
                let copy = if is_sensitive_diagnostic_key(&members[i].name) {
                    JsonValue::string(REDACTED_DIAGNOSTIC_CONTENT)
                } else {
                    redact_diagnostic_json(&members[i].value)
                };
                copies.push(JsonMember { name: members[i].name.clone(), value: copy });
                proof {
                    assert(copies@.drop_last() =~= before);
                    assert(members@.take(i + 1).drop_last() =~= members@.take(i as int));
                    assert(object_of(copies@) =~= members_redacted(
                        Json::Object(object_of(members@.take(i + 1))),
                    )->Object_0);
                }
                i += 1;
            }
            assert(members@.take(i as int) =~= members@);
            JsonValue::Object(copies)
        },
        other => other.clone(),
    }
}

/// A control character.
pub open spec fn is_control(c: char) -> bool {
    c <= '\u{1f}' || '\u{7f}' <= c <= '\u{9f}'
}

/// How a character is logged: on one line.
pub open spec fn escaped_char(c: char) -> Seq<char> {
    if c == '\n' {
        seq!['\\', 'n']
    } else if c == '\r' {
        seq!['\\', 'r']
    } else if is_control(c) {
        seq![' ']
    } else {
        seq![c]
    }
}

/// How a text is logged: on one line.
pub open spec fn escaped_text(s: Seq<char>) -> Seq<char>
    decreases s.len(),
{
    if s.len() == 0 {
        Seq::empty()
    } else {
        escaped_text(s.drop_last()) + escaped_char(s.last())
    }
}

/// `text` on one line.
pub fn escape_diagnostic_text(text: &str) -> (res: String)
    ensures
        res@ == escaped_text(text@),
{
    let chars = chars_of(text);
    let mut res = String::new();
    let mut i: usize = 0;
    while i < chars.len()
        invariant
            i <= chars.len(),
            chars@ == text@,
            res@ == escaped_text(text@.take(i as int)),
        decreases chars.len() - i,
    {
        let c = chars[i];
        let ghost before = res@;
        if c == '\n' {
            res.push('\\');
            res.push('n');
        } else if c == '\r' {
            res.push('\\');
            res.push('r');
        } else if c <= '\u{1f}' || ('\u{7f}' <= c && c <= '\u{9f}') {
            res.push(' ');
        } else {
            res.push(c);
        }
        proof {
            assert(text@.take(i + 1).drop_last() =~= text@.take(i as int));
            assert(res@ =~= before + escaped_char(c));
        }
        i += 1;
    }
    assert(text@.take(i as int) =~= text@);
    res
}

/// A logged text is on one line, and holds no control characters.
pub proof fn lemma_escaped_text_is_plain(s: Seq<char>)
    ensures
        forall|i: int| 0 <= i < escaped_text(s).len() ==> !is_control(#[trigger] escaped_text(s)[i]),
    decreases s.len(),
{
    if s.len() > 0 {
        lemma_escaped_text_is_plain(s.drop_last());
        let before = escaped_text(s.drop_last());
        let last = escaped_char(s.last());
        assert(forall|j: int| 0 <= j < last.len() ==> !is_control(#[trigger] last[j]));
        assert forall|i: int| 0 <= i < escaped_text(s).len() implies !is_control(
            #[trigger] escaped_text(s)[i],
        ) by {
            if i >= before.len() {
                assert(escaped_text(s)[i] == last[i - before.len()]);
            } else {
                assert(escaped_text(s)[i] == before[i]);
            }
        }
    }
}

/// What follows a text that was cut before it was logged.
pub open spec fn diagnostic_marker(bytes: usize) -> Seq<char> {
    "… [diagnostic truncated; response "@ + decimal_text(bytes as nat) + " bytes]"@
}

/// What is logged of a text.
pub open spec fn truncated_diagnostic(text: Seq<char>, bytes: usize) -> Seq<char> {
    if utf8_len(text) <= MAX_ERROR_LOG_BYTES {
        text
    } else {
        let marker = diagnostic_marker(bytes);
        prefix_within(text, MAX_ERROR_LOG_BYTES - utf8_len(marker)) + marker
    }
}

proof fn lemma_marker_fits(bytes: usize)
    ensures
        utf8_len(diagnostic_marker(bytes)) <= MAX_ERROR_LOG_BYTES,
{
    reveal_strlit("… [diagnostic truncated; response ");
    reveal_strlit(" bytes]");
    assert("… [diagnostic truncated; response "@.len() == 34);
    assert(" bytes]"@.len() == 7);
    lemma_decimal_len_u64(bytes as nat);
    lemma_utf8_len_bounds(diagnostic_marker(bytes));
}

/// What is logged of an answer stays within the limit, however long it is.
pub proof fn lemma_logged_text_is_bounded(text: Seq<char>, bytes: usize)
    ensures
        utf8_len(truncated_diagnostic(text, bytes)) <= MAX_ERROR_LOG_BYTES,
{
    if utf8_len(text) > MAX_ERROR_LOG_BYTES {
        let marker = diagnostic_marker(bytes);
        let room = MAX_ERROR_LOG_BYTES - utf8_len(marker);
        lemma_marker_fits(bytes);
        lemma_prefix_within(text, room);
        lemma_utf8_len_concat(prefix_within(text, room), marker);
    }
}

/// What is logged of `diagnostic`.
pub fn truncate_diagnostic(diagnostic: &str, original_bytes: usize) -> (res: String)
    ensures
        res@ == truncated_diagnostic(diagnostic@, original_bytes),
        utf8_len(res@) <= MAX_ERROR_LOG_BYTES,
{
    proof {
        lemma_logged_text_is_bounded(diagnostic@, original_bytes);
        lemma_marker_fits(original_bytes);
    }
    if byte_len(diagnostic) <= MAX_ERROR_LOG_BYTES {
        return diagnostic.to_owned();
    }
    let marker = concat3(
        "… [diagnostic truncated; response ",
        &decimal(original_bytes as u64),
        " bytes]",
    );
    let length = byte_len(&marker);
    concat(prefix_at_boundary(diagnostic, MAX_ERROR_LOG_BYTES - length), &marker)
}

/// What the conversation holds of an assistant item.
pub open spec fn item_fragments(item: ModelAssistantItemView) -> Seq<Seq<char>> {
    match item {
        ModelAssistantItemView::Text { content } => seq![content],
        ModelAssistantItemView::Refusal { content } => seq![content],
        ModelAssistantItemView::Reasoning(thinking) => match thinking.encrypted_content {
            Some(encrypted) => seq![thinking.summary, thinking.content, encrypted],
            None => seq![thinking.summary, thinking.content],
        },
        ModelAssistantItemView::ToolCall(call) => seq![call.arguments],
    }
}

/// What the conversation holds of assistant items.
pub open spec fn items_fragments(items: Seq<ModelAssistantItemView>) -> Seq<Seq<char>>
    decreases items.len(),
{
    if items.len() == 0 {
        Seq::empty()
    } else {
        items_fragments(items.drop_last()) + item_fragments(items.last())
    }
}

/// What a message says.
pub open spec fn message_fragments(message: ModelMessageView) -> Seq<Seq<char>> {
    match message {
        ModelMessageView::System { content } => seq![content],
        ModelMessageView::Developer { content } => seq![content],
        ModelMessageView::User { content } => seq![content],
        ModelMessageView::ToolResult { content, .. } => seq![content],
        ModelMessageView::Assistant { items } => items_fragments(items),
    }
}

/// What the messages say.
pub open spec fn messages_fragments(messages: Seq<ModelMessageView>) -> Seq<Seq<char>>
    decreases messages.len(),
{
    if messages.len() == 0 {
        Seq::empty()
    } else {
        messages_fragments(messages.drop_last()) + message_fragments(messages.last())
    }
}

/// The descriptions of the tools, where they have one.
pub open spec fn tools_fragments(tools: Seq<Option<Seq<char>>>) -> Seq<Seq<char>>
    decreases tools.len(),
{
    if tools.len() == 0 {
        Seq::empty()
    } else {
        let before = tools_fragments(tools.drop_last());
        match tools.last() {
            Some(description) => before.push(description),
            None => before,
        }
    }
}

/// The texts that are not empty.
pub open spec fn non_empty(texts: Seq<Seq<char>>) -> Seq<Seq<char>>
    decreases texts.len(),
{
    if texts.len() == 0 {
        Seq::empty()
    } else {
        let before = non_empty(texts.drop_last());
        if texts.last().len() > 0 {
            before.push(texts.last())
        } else {
            before
        }
    }
}

/// The descriptions of the tools of a request.
pub open spec fn descriptions(request: ModelRequestView) -> Seq<Option<Seq<char>>> {
    request.tools.map_values(|tool: ToolDefinitionView| tool.description)
}

/// The content of a request that is not logged.
pub open spec fn request_fragments(request: ModelRequestView) -> Seq<Seq<char>> {
    non_empty(messages_fragments(request.messages) + tools_fragments(descriptions(request)))
}

/// The values of the headers.
pub open spec fn header_values(headers: Seq<HeaderView>) -> Seq<Seq<char>> {
    headers.map_values(|header: HeaderView| header.value)
}

/// The secrets of a model: its key and the values of its headers.
pub open spec fn model_secrets(model: ResolvedModelView) -> Seq<Seq<char>> {
    match model.api_key {
        Some(key) => seq![key] + header_values(model.headers),
        None => header_values(model.headers),
    }
}

/// All that is redacted in what is logged of a refusal.
pub open spec fn redacted_fragments(model: ResolvedModelView, request: ModelRequestView) -> Seq<
    Seq<char>,
> {
    non_empty(request_fragments(request) + model_secrets(model))
}

/// What is logged of a refusal: JSON with its strings and sensitive members redacted, other text
/// redacted and on one line.
pub open spec fn diagnostic_of(
    body: ProviderErrorBodyView,
    model: ResolvedModelView,
    request: ModelRequestView,
) -> Seq<char> {
    let fragments = redacted_fragments(model, request);
    let text = match json_parsed(body.content) {
        Ok(json) => json_text(members_redacted(strings_redacted(json, fragments))),
        Err(_) => escaped_text(redacted_text(body.content, fragments, 0)),
    };
    truncated_diagnostic(text, utf8_len(body.content) as usize)
}

fn push_text(fragments: &mut Vec<String>, text: &str)
    ensures
        final(fragments).deep_view() == old(fragments).deep_view().push(text@),
{
    let ghost before = fragments.deep_view();
    fragments.push(text.to_owned());
    assert(fragments.deep_view() =~= before.push(text@));
}

fn push_item(fragments: &mut Vec<String>, item: &ModelAssistantItem)
    ensures
        final(fragments).deep_view() == old(fragments).deep_view() + item_fragments(
            item.deep_view(),
        ),
{
    let ghost before = fragments.deep_view();
    match item {
        ModelAssistantItem::Text { content } => push_text(fragments, content),
        ModelAssistantItem::Refusal { content } => push_text(fragments, content),
        ModelAssistantItem::Reasoning(thinking) => {
            push_text(fragments, &thinking.summary);
            push_text(fragments, &thinking.content);
            if let Some(encrypted) = &thinking.encrypted_content {
                push_text(fragments, encrypted);
            }
        },
        ModelAssistantItem::ToolCall(call) => push_text(fragments, &call.arguments),
    }
    assert(fragments.deep_view() =~= before + item_fragments(item.deep_view()));
}

fn push_message(fragments: &mut Vec<String>, message: &ModelMessage)
    ensures
        final(fragments).deep_view() == old(fragments).deep_view() + message_fragments(
            message.deep_view(),
        ),
{
    let ghost before = fragments.deep_view();
    match message {
        ModelMessage::System { content } => push_text(fragments, content),
        ModelMessage::Developer { content } => push_text(fragments, content),
        ModelMessage::User { content } => push_text(fragments, content),
        ModelMessage::ToolResult { content, .. } => push_text(fragments, content),
        ModelMessage::Assistant { items } => {
            let ghost all = items.deep_view();
            let mut i: usize = 0;
            assert(all.take(0) =~= Seq::<ModelAssistantItemView>::empty());
            assert(before + items_fragments(all.take(0)) =~= before);
            while i < items.len()
                invariant
                    i <= items.len(),
                    all == items.deep_view(),
                    fragments.deep_view() == before + items_fragments(all.take(i as int)),
                decreases items.len() - i,
            {
                push_item(fragments, &items[i]);
                proof {
                    assert(all.take(i + 1).drop_last() =~= all.take(i as int));
                    assert(all.take(i + 1).last() == items@[i as int].deep_view());
                    assert(fragments.deep_view() =~= before + items_fragments(all.take(i + 1)));
                }
                i += 1;
            }
            assert(all.take(i as int) =~= all);
        },
    }
    assert(fragments.deep_view() =~= before + message_fragments(message.deep_view()));
}

fn keep_non_empty(texts: Vec<String>) -> (res: Vec<String>)
    ensures
        res.deep_view() == non_empty(texts.deep_view()),
{
    let ghost all = texts.deep_view();
    let mut res: Vec<String> = Vec::new();
    let mut i: usize = 0;
    assert(all.take(0) =~= Seq::<Seq<char>>::empty());
    assert(res.deep_view() =~= Seq::<Seq<char>>::empty());
    while i < texts.len()
        invariant
            i <= texts.len(),
            all == texts.deep_view(),
            res.deep_view() == non_empty(all.take(i as int)),
        decreases texts.len() - i,
    {
        proof {
            assert(all.take(i + 1).drop_last() =~= all.take(i as int));
            assert(all.take(i + 1).last() == texts@[i as int]@);
        }
        if !texts[i].as_str().is_empty() {
            push_text(&mut res, &texts[i]);
        }
        i += 1;
    }
    assert(all.take(i as int) =~= all);
    res
}

/// The content of a request that is not logged.
pub fn request_content_fragments(request: &ModelRequest) -> (res: Vec<String>)
    ensures
        res.deep_view() == request_fragments(request.deep_view()),
{
    let ghost all = request.messages.deep_view();
    let mut fragments: Vec<String> = Vec::new();
    let mut i: usize = 0;
    assert(all.take(0) =~= Seq::<ModelMessageView>::empty());
    assert(fragments.deep_view() =~= Seq::<Seq<char>>::empty());
    while i < request.messages.len()
        invariant
            i <= request.messages.len(),
            all == request.messages.deep_view(),
            fragments.deep_view() == messages_fragments(all.take(i as int)),
        decreases request.messages.len() - i,
    {
        push_message(&mut fragments, &request.messages[i]);
        proof {
            assert(all.take(i + 1).drop_last() =~= all.take(i as int));
            assert(all.take(i + 1).last() == request.messages@[i as int].deep_view());
        }
        i += 1;
    }
    assert(all.take(i as int) =~= all);
    let ghost said = fragments.deep_view();
    let ghost texts = descriptions(request.deep_view());
    let mut k: usize = 0;
    assert(texts.take(0) =~= Seq::<Option<Seq<char>>>::empty());
    assert(said + tools_fragments(texts.take(0)) =~= said);
    while k < request.tools.len()
        invariant
            k <= request.tools.len(),
            texts == descriptions(request.deep_view()),
            fragments.deep_view() == said + tools_fragments(texts.take(k as int)),
        decreases request.tools.len() - k,
    {
        proof {
            assert(texts.take(k + 1).drop_last() =~= texts.take(k as int));
            assert(texts.take(k + 1).last() == request.tools@[k as int].deep_view().description);
        }
        if let Some(description) = &request.tools[k].description {
            push_text(&mut fragments, description);
        }
        assert(fragments.deep_view() =~= said + tools_fragments(texts.take(k + 1)));
        k += 1;
    }
    assert(texts.take(k as int) =~= texts);
    keep_non_empty(fragments)
}

fn diagnostic_fragments(model: &ResolvedModel, request: &ModelRequest) -> (res: Vec<String>)
    ensures
        res.deep_view() == redacted_fragments(model.deep_view(), request.deep_view()),
{
    let mut fragments = request_content_fragments(request);
    let ghost said = fragments.deep_view();
    if let Some(key) = &model.api_key {
        push_text(&mut fragments, key);
    }
    let ghost before = fragments.deep_view();
    let ghost values = header_values(model.deep_view().headers);
    let mut i: usize = 0;
    assert(before + values.take(0) =~= before);
    while i < model.headers.len()
        invariant
            i <= model.headers.len(),
            values == header_values(model.deep_view().headers),
            fragments.deep_view() == before + values.take(i as int),
        decreases model.headers.len() - i,
    {
        push_text(&mut fragments, &model.headers[i].value);
        assert(fragments.deep_view() =~= before + values.take(i + 1));
        i += 1;
    }
    assert(fragments.deep_view() =~= said + model_secrets(model.deep_view()));
    keep_non_empty(fragments)
}

/// What is logged of a refusal.
pub fn provider_error_diagnostic(
    body: &ProviderErrorBody,
    model: &ResolvedModel,
    request: &ModelRequest,
) -> (res: String)
    ensures
        res@ == diagnostic_of(body.deep_view(), model.deep_view(), request.deep_view()),
        utf8_len(res@) <= MAX_ERROR_LOG_BYTES,
{
    let fragments = diagnostic_fragments(model, request);
    let diagnostic = match JsonValue::parse(&body.content) {
        Ok(value) => redact_diagnostic_json(&redact_json_strings(&value, &fragments)).to_text(),
        Err(_) => escape_diagnostic_text(&redact_fragments(&body.content, &fragments)),
    };
    truncate_diagnostic(&diagnostic, byte_len(&body.content))
}

} // verus!
