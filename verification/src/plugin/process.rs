//! The process of a plugin: what it writes, the requests to it, how it starts and how it ends.

use crate::config::paths::{join_path, joined_path};
use crate::json::{json_debug, json_parsed, Json, JsonValue};
use crate::model::diagnostics::{lossy_text, read_lossy};
use crate::plugin::manifest::{
    manifest_error_text, PluginManifest, PluginManifestError, PluginManifestErrorView,
    PluginManifestView,
};
use crate::plugin::protocol::{
    decode_plugin_message, encode_request, encoded_request, initialize_result_of,
    lemma_answers_have_one_outcome, line_message, protocol_error_text, request_line,
    InitializeResult, InitializeResultView, PluginCapabilities, PluginCapabilitiesView,
    PluginMessage, PluginMessageView, RpcErrorObject, RpcErrorObjectView, RpcNotification,
    RpcNotificationView, RpcResponseView, PLUGIN_PROTOCOL_VERSION,
};
use crate::text::{
    byte_len, concat, concat3, decimal, decimal_text, lemma_prefix_within, prefix_at_boundary,
    prefix_within, quoted, quoted_text, same_text, utf8_len,
};
use vstd::prelude::*;

verus! {

/// The seconds that a plugin has to end.
pub const PLUGIN_SHUTDOWN_TIMEOUT: u64 = 2;

/// The seconds that a plugin has to answer when it is started.
pub const PLUGIN_STARTUP_TIMEOUT: u64 = 5;

/// The most bytes that are kept of what a plugin writes.
pub const MAX_PLUGIN_STDERR_BYTES: usize = 65_536;

/// The most notifications that wait to be taken up.
pub const PLUGIN_NOTIFICATION_CHANNEL_CAPACITY: usize = 64;

/// The most requests that wait for an answer.
pub const MAX_PENDING_REQUESTS: usize = 64;

/// What a plugin wrote beside its messages.
#[derive(Debug, PartialEq, Eq)]
pub struct PluginDiagnostics {
    pub text: String,
    pub truncated: bool,
}

/// What a [`PluginDiagnostics`] holds.
#[verifier::ext_equal]
pub struct PluginDiagnosticsView {
    pub text: Seq<char>,
    pub truncated: bool,
}

impl DeepView for PluginDiagnostics {
    type V = PluginDiagnosticsView;

    open spec fn deep_view(&self) -> PluginDiagnosticsView {
        PluginDiagnosticsView {
            text: self.text.deep_view(),
            truncated: self.truncated,
        }
    }
}

impl Clone for PluginDiagnostics {
    fn clone(&self) -> (res: Self)
        ensures
            res.deep_view() == self.deep_view(),
    {
        let res = PluginDiagnostics {
            text: self.text.clone(),
            truncated: self.truncated,
        };
        assert(res.deep_view() =~~= self.deep_view());
        res
    }
}

/// What a [`PluginProcessError`] holds.
#[verifier::ext_equal]
pub enum PluginProcessErrorView {
    Manifest(PluginManifestErrorView),
    Spawn(Seq<char>),
    ShutdownTimeout,
    Exited(Seq<char>),
    StartupTimeout,
    ProtocolMismatch(Seq<char>),
    IdentityMismatch { field: Seq<char>, expected: Seq<char>, actual: Seq<char> },
    Diagnostics { source: Box<PluginProcessErrorView>, stderr: PluginDiagnosticsView },
    Reap(Seq<char>),
    Transport(Seq<char>),
    RemoteError(RpcErrorObjectView),
}

/// What went wrong with the process of a plugin.
#[derive(Debug, PartialEq, Eq)]
pub enum PluginProcessError {
    /// Its manifest says what cannot be.
    Manifest(PluginManifestError),
    /// It could not be started.
    Spawn(String),
    /// It did not end in time.
    ShutdownTimeout,
    /// It has ended, with this status.
    Exited(String),
    /// It did not answer in time when it was started.
    StartupTimeout,
    /// It speaks another protocol.
    ProtocolMismatch(String),
    /// It is not who its manifest says.
    IdentityMismatch { field: String, expected: String, actual: String },
    /// Something went wrong, and this is what it wrote.
    Diagnostics { source: Box<PluginProcessError>, stderr: PluginDiagnostics },
    /// Its end could not be awaited.
    Reap(String),
    /// It cannot be reached.
    Transport(String),
    /// It answered with an error.
    RemoteError(RpcErrorObject),
}

/// What an error holds.
pub open spec fn process_error_of(error: PluginProcessError) -> PluginProcessErrorView
    decreases error,
{
    match error {
        PluginProcessError::Manifest(error) => PluginProcessErrorView::Manifest(error.deep_view()),
        PluginProcessError::Spawn(message) => PluginProcessErrorView::Spawn(message@),
        PluginProcessError::ShutdownTimeout => PluginProcessErrorView::ShutdownTimeout,
        PluginProcessError::Exited(status) => PluginProcessErrorView::Exited(status@),
        PluginProcessError::StartupTimeout => PluginProcessErrorView::StartupTimeout,
        PluginProcessError::ProtocolMismatch(version) => PluginProcessErrorView::ProtocolMismatch(
            version@,
        ),
        PluginProcessError::IdentityMismatch {
            field,
            expected,
            actual,
        } => PluginProcessErrorView::IdentityMismatch {
            field: field@,
            expected: expected@,
            actual: actual@,
        },
        PluginProcessError::Diagnostics { source, stderr } => PluginProcessErrorView::Diagnostics {
            source: Box::new(process_error_of(*source)),
            stderr: stderr.deep_view(),
        },
        PluginProcessError::Reap(message) => PluginProcessErrorView::Reap(message@),
        PluginProcessError::Transport(message) => PluginProcessErrorView::Transport(message@),
        PluginProcessError::RemoteError(error) => PluginProcessErrorView::RemoteError(
            error.deep_view(),
        ),
    }
}

impl DeepView for PluginProcessError {
    type V = PluginProcessErrorView;

    open spec fn deep_view(&self) -> PluginProcessErrorView {
        process_error_of(*self)
    }
}

impl Clone for PluginProcessError {
    fn clone(&self) -> (res: Self)
        ensures
            res.deep_view() == self.deep_view(),
        decreases self,
    {
        match self {
            PluginProcessError::Manifest(error) => PluginProcessError::Manifest(error.clone()),
            PluginProcessError::Spawn(message) => PluginProcessError::Spawn(message.clone()),
            PluginProcessError::ShutdownTimeout => PluginProcessError::ShutdownTimeout,
            PluginProcessError::Exited(status) => PluginProcessError::Exited(status.clone()),
            PluginProcessError::StartupTimeout => PluginProcessError::StartupTimeout,
            PluginProcessError::ProtocolMismatch(version) => PluginProcessError::ProtocolMismatch(
                version.clone(),
            ),
            PluginProcessError::IdentityMismatch {
                field,
                expected,
                actual,
            } => PluginProcessError::IdentityMismatch {
                field: field.clone(),
                expected: expected.clone(),
                actual: actual.clone(),
            },
            PluginProcessError::Diagnostics { source, stderr } => PluginProcessError::Diagnostics {
                source: Box::new((&**source).clone()),
                stderr: stderr.clone(),
            },
            PluginProcessError::Reap(message) => PluginProcessError::Reap(message.clone()),
            PluginProcessError::Transport(message) => PluginProcessError::Transport(
                message.clone(),
            ),
            PluginProcessError::RemoteError(error) => PluginProcessError::RemoteError(
                error.clone(),
            ),
        }
    }
}

/// An integer in decimal digits, with its sign where it is negative.
pub open spec fn signed_text(n: int) -> Seq<char> {
    if n < 0 {
        "-"@ + decimal_text((-n) as nat)
    } else {
        decimal_text(n as nat)
    }
}

/// An integer in decimal digits, with its sign where it is negative.
pub fn signed_decimal(n: i64) -> (res: String)
    ensures
        res@ == signed_text(n as int),
{
    if n >= 0 {
        decimal(n as u64)
    } else if n == i64::MIN {
        concat("-", &decimal(9_223_372_036_854_775_808))
    } else {
        concat("-", &decimal((-n) as u64))
    }
}

/// What a plugin wrote, with quotes.
pub open spec fn diagnostics_text(stderr: PluginDiagnosticsView) -> Seq<char> {
    "PluginDiagnostics { text: "@ + quoted_text(stderr.text) + (if stderr.truncated {
        ", truncated: true }"@
    } else {
        ", truncated: false }"@
    })
}

/// An error of a plugin, with its parts by name.
pub open spec fn remote_error_text(error: RpcErrorObjectView) -> Seq<char> {
    "RpcErrorObject { code: "@ + signed_text(error.code as int) + (", message: "@ + quoted_text(
        error.message,
    ) + match error.data {
        Some(data) => ", data: Some("@ + json_debug(data) + ") }"@,
        None => ", data: None }"@,
    })
}

/// The message of an error.
pub open spec fn process_error_text(error: PluginProcessErrorView) -> Seq<char>
    decreases error,
{
    match error {
        PluginProcessErrorView::Manifest(error) => "invalid plugin manifest: "@
            + manifest_error_text(error),
        PluginProcessErrorView::Spawn(message) => "could not spawn plugin: "@ + message,
        PluginProcessErrorView::ShutdownTimeout => "plugin shutdown timed out"@,
        PluginProcessErrorView::Exited(status) => "plugin exited: "@ + status,
        PluginProcessErrorView::StartupTimeout => "plugin initialization timed out"@,
        PluginProcessErrorView::ProtocolMismatch(version) => "plugin protocol mismatch: "@
            + version,
        PluginProcessErrorView::IdentityMismatch { field, expected, actual } =>
        "plugin identity mismatch for "@ + field + (": expected "@ + quoted_text(expected) + (
        ", received "@ + quoted_text(actual))),
        PluginProcessErrorView::Diagnostics { source, stderr } => process_error_text(*source)
            + "; stderr: "@ + diagnostics_text(stderr),
        PluginProcessErrorView::Reap(message) => "could not reap plugin: "@ + message,
        PluginProcessErrorView::Transport(message) => "plugin transport: "@ + message,
        PluginProcessErrorView::RemoteError(error) => "plugin remote error: "@ + remote_error_text(
            error,
        ),
    }
}

impl PluginProcessError {
    /// The message of the error.
    pub fn to_text(&self) -> (res: String)
        ensures
            res@ == process_error_text(self.deep_view()),
        decreases self,
    {
        match self {
            PluginProcessError::Manifest(error) => concat(
                "invalid plugin manifest: ",
                &error.to_text(),
            ),
            PluginProcessError::Spawn(message) => concat("could not spawn plugin: ", message),
            PluginProcessError::ShutdownTimeout => "plugin shutdown timed out".to_owned(),
            PluginProcessError::Exited(status) => concat("plugin exited: ", status),
            PluginProcessError::StartupTimeout => "plugin initialization timed out".to_owned(),
            PluginProcessError::ProtocolMismatch(version) => concat(
                "plugin protocol mismatch: ",
                version,
            ),
            PluginProcessError::IdentityMismatch { field, expected, actual } => concat3(
                "plugin identity mismatch for ",
                field,
                &concat3(": expected ", &quoted(expected), &concat(", received ", &quoted(actual))),
            ),
            PluginProcessError::Diagnostics { source, stderr } => concat3(
                &source.to_text(),
                "; stderr: ",
                &stderr.to_text(),
            ),
            PluginProcessError::Reap(message) => concat("could not reap plugin: ", message),
            PluginProcessError::Transport(message) => concat("plugin transport: ", message),
            PluginProcessError::RemoteError(error) => concat(
                "plugin remote error: ",
                &error.describe(),
            ),
        }
    }
}

impl PluginDiagnostics {
    /// What the plugin wrote, with quotes.
    pub fn to_text(&self) -> (res: String)
        ensures
            res@ == diagnostics_text(self.deep_view()),
    {
        concat3(
            "PluginDiagnostics { text: ",
            &quoted(&self.text),
            if self.truncated {
                ", truncated: true }"
            } else {
                ", truncated: false }"
            },
        )
    }
}

impl Default for PluginDiagnostics {
    fn default() -> (res: Self)
        ensures
            res.deep_view() == (PluginDiagnosticsView { text: Seq::empty(), truncated: false }),
    {
        PluginDiagnostics { text: String::new(), truncated: false }
    }
}

impl RpcErrorObject {
    /// The error, with its parts by name.
    pub fn describe(&self) -> (res: String)
        ensures
            res@ == remote_error_text(self.deep_view()),
    {
        let data = match &self.data {
            Some(data) => concat3(", data: Some(", &data.to_debug_text(), ") }"),
            None => ", data: None }".to_owned(),
        };
        concat3(
            "RpcErrorObject { code: ",
            &signed_decimal(self.code),
            &concat3(", message: ", &quoted(&self.message), &data),
        )
    }
}

// ---- what a plugin writes ----

/// What a plugin wrote beside its messages, as far as it is kept.
#[derive(Debug, PartialEq, Eq)]
pub struct StderrCapture {
    bytes: Vec<u8>,
    truncated: bool,
}

/// What a [`StderrCapture`] holds.
#[verifier::ext_equal]
pub struct CaptureView {
    pub bytes: Seq<u8>,
    pub truncated: bool,
}

impl View for StderrCapture {
    type V = CaptureView;

    closed spec fn view(&self) -> CaptureView {
        CaptureView { bytes: self.bytes@, truncated: self.truncated }
    }
}

/// No more is held than is kept.
pub open spec fn is_capture(capture: CaptureView) -> bool {
    capture.bytes.len() <= MAX_PLUGIN_STDERR_BYTES
}

/// Nothing was written yet.
pub open spec fn nothing_captured() -> CaptureView {
    CaptureView { bytes: Seq::empty(), truncated: false }
}

/// More was written: it is kept up to the limit, and what lies beyond is noted.
pub open spec fn captured(capture: CaptureView, more: Seq<u8>) -> CaptureView {
    let all = capture.bytes + more;
    if all.len() <= MAX_PLUGIN_STDERR_BYTES {
        CaptureView { bytes: all, truncated: capture.truncated }
    } else {
        CaptureView { bytes: all.take(MAX_PLUGIN_STDERR_BYTES as int), truncated: true }
    }
}

/// What can be shown of what was kept, as text of at most as many bytes.
pub open spec fn shown(capture: CaptureView) -> PluginDiagnosticsView {
    let text = lossy_text(capture.bytes);
    PluginDiagnosticsView {
        text: prefix_within(text, MAX_PLUGIN_STDERR_BYTES as int),
        truncated: capture.truncated || utf8_len(text) > MAX_PLUGIN_STDERR_BYTES,
    }
}

/// What is kept does not depend on the pieces in which it was written.
pub proof fn lemma_captured_in_pieces(capture: CaptureView, first: Seq<u8>, second: Seq<u8>)
    requires
        is_capture(capture),
    ensures
        captured(captured(capture, first), second) == captured(capture, first + second),
{
    let all = capture.bytes + first;
    assert(capture.bytes + (first + second) =~= all + second);
    if all.len() > MAX_PLUGIN_STDERR_BYTES {
        let kept = all.take(MAX_PLUGIN_STDERR_BYTES as int);
        assert((kept + second).take(MAX_PLUGIN_STDERR_BYTES as int) =~= kept);
        assert((all + second).take(MAX_PLUGIN_STDERR_BYTES as int) =~= kept);
        if second.len() == 0 {
            assert(kept + second =~= kept);
        }
    }
}

/// However much a plugin writes, what is kept and what is shown of it stay within the limit; and
/// where something is missing, that is noted.
pub proof fn lemma_diagnostics_are_bounded(capture: CaptureView, more: Seq<u8>)
    requires
        is_capture(capture),
    ensures
        is_capture(captured(capture, more)),
        utf8_len(shown(captured(capture, more)).text) <= MAX_PLUGIN_STDERR_BYTES,
        capture.bytes.len() + more.len() > MAX_PLUGIN_STDERR_BYTES ==> shown(
            captured(capture, more),
        ).truncated,
{
    lemma_prefix_within(
        lossy_text(captured(capture, more).bytes),
        MAX_PLUGIN_STDERR_BYTES as int,
    );
}

impl Default for StderrCapture {
    fn default() -> (res: Self)
        ensures
            res@ == nothing_captured(),
            is_capture(res@),
    {
        StderrCapture { bytes: Vec::new(), truncated: false }
    }
}

impl StderrCapture {
    /// The bytes that are kept.
    pub fn bytes(&self) -> (res: &[u8])
        ensures
            res@ == self@.bytes,
    {
        self.bytes.as_slice()
    }

    /// Keeps what was written, up to the limit.
    pub fn append(&mut self, bytes: &[u8])
        requires
            is_capture(old(self)@),
        ensures
            final(self)@ == captured(old(self)@, bytes@),
            is_capture(final(self)@),
    {
        let ghost before = self.bytes@;
        let room = MAX_PLUGIN_STDERR_BYTES - self.bytes.len();
        let retained = if bytes.len() < room {
            bytes.len()
        } else {
            room
        };
        let mut i: usize = 0;
        while i < retained
            invariant
                i <= retained <= bytes@.len(),
                self.bytes@ == before + bytes@.take(i as int),
                self.truncated == old(self).truncated,
            decreases retained - i,
        {
            self.bytes.push(bytes[i]);
            assert(self.bytes@ =~= before + bytes@.take(i + 1));
            i += 1;
        }
        if retained < bytes.len() {
            self.truncated = true;
        }
        proof {
            let all = before + bytes@;
            if all.len() <= MAX_PLUGIN_STDERR_BYTES {
                assert(self.bytes@ =~= all);
            } else {
                assert(self.bytes@ =~= all.take(MAX_PLUGIN_STDERR_BYTES as int));
            }
        }
    }

    /// What can be shown of what was kept.
    pub fn snapshot(&self) -> (res: PluginDiagnostics)
        ensures
            res.deep_view() == shown(self@),
            utf8_len(res.deep_view().text) <= MAX_PLUGIN_STDERR_BYTES,
    {
        let text = read_lossy(self.bytes.as_slice());
        proof {
            lemma_prefix_within(text@, MAX_PLUGIN_STDERR_BYTES as int);
        }
        PluginDiagnostics {
            text: prefix_at_boundary(&text, MAX_PLUGIN_STDERR_BYTES).to_owned(),
            truncated: self.truncated || byte_len(&text) > MAX_PLUGIN_STDERR_BYTES,
        }
    }
}

// ---- requests that wait for an answer ----

/// The requests that wait for an answer, by identifier.
#[derive(Debug, PartialEq, Eq)]
pub struct Dispatch {
    pending: Vec<u64>,
    failure: Option<String>,
    next_id: u64,
}

/// What a [`Dispatch`] holds: the requests that wait, why no more can be made, and the identifier
/// of the next.
#[verifier::ext_equal]
pub struct DispatchView {
    pub pending: Set<u64>,
    pub failure: Option<Seq<char>>,
    pub next_id: u64,
}

/// All requests that wait were made before the next.
pub open spec fn is_dispatch(dispatch: DispatchView) -> bool {
    forall|id: u64| #[trigger] dispatch.pending.contains(id) ==> id < dispatch.next_id
}

/// No request was made yet.
pub open spec fn no_requests() -> DispatchView {
    DispatchView { pending: Set::empty(), failure: None, next_id: 1 }
}

/// A request is made: its identifier, or why it cannot be made.
pub open spec fn opened(dispatch: DispatchView) -> (Result<u64, Seq<char>>, DispatchView) {
    match dispatch.failure {
        Some(reason) => (Err(reason), dispatch),
        None => if dispatch.next_id == u64::MAX {
            (Err("request IDs exhausted"@), dispatch)
        } else {
            (
                Ok(dispatch.next_id),
                DispatchView {
                    pending: dispatch.pending.insert(dispatch.next_id),
                    next_id: (dispatch.next_id + 1) as u64,
                    ..dispatch
                },
            )
        },
    }
}

/// A request no longer waits.
pub open spec fn settled(dispatch: DispatchView, id: u64) -> DispatchView {
    DispatchView { pending: dispatch.pending.remove(id), ..dispatch }
}

/// No answer will come any more, and no request can be made; the first reason is kept.
pub open spec fn failed(dispatch: DispatchView, reason: Seq<char>) -> DispatchView {
    DispatchView {
        pending: Set::empty(),
        failure: match dispatch.failure {
            Some(first) => Some(first),
            None => Some(reason),
        },
        next_id: dispatch.next_id,
    }
}

/// What happens to the requests of a plugin.
#[verifier::ext_equal]
pub enum DispatchEvent {
    Open,
    Settle(u64),
    Fail(Seq<char>),
}

/// Something happens.
pub open spec fn dispatched(dispatch: DispatchView, event: DispatchEvent) -> DispatchView {
    match event {
        DispatchEvent::Open => opened(dispatch).1,
        DispatchEvent::Settle(id) => settled(dispatch, id),
        DispatchEvent::Fail(reason) => failed(dispatch, reason),
    }
}

/// Things happen one after the other.
pub open spec fn all_dispatched(dispatch: DispatchView, events: Seq<DispatchEvent>) -> DispatchView
    decreases events.len(),
{
    if events.len() == 0 {
        dispatch
    } else {
        dispatched(all_dispatched(dispatch, events.drop_last()), events.last())
    }
}

/// Whatever happens, an identifier that was given away is not given to another request; and a
/// request that no longer waits does not wait again.
pub proof fn lemma_identifiers_are_not_reused(dispatch: DispatchView, events: Seq<DispatchEvent>)
    requires
        is_dispatch(dispatch),
    ensures
        is_dispatch(all_dispatched(dispatch, events)),
        dispatch.next_id <= all_dispatched(dispatch, events).next_id,
        opened(all_dispatched(dispatch, events)).0 matches Ok(id) ==> id >= dispatch.next_id
            && !all_dispatched(dispatch, events).pending.contains(id),
        forall|id: u64|
            id < dispatch.next_id && !dispatch.pending.contains(id)
                ==> !#[trigger] all_dispatched(dispatch, events).pending.contains(id),
    decreases events.len(),
{
    if events.len() > 0 {
        lemma_identifiers_are_not_reused(dispatch, events.drop_last());
    }
}

/// Once there is a failure, its first reason stays, nothing waits, and no request can be made.
pub proof fn lemma_failures_are_final(
    dispatch: DispatchView,
    reason: Seq<char>,
    events: Seq<DispatchEvent>,
)
    ensures
        ({
            let after = all_dispatched(failed(dispatch, reason), events);
            &&& after.failure == failed(dispatch, reason).failure
            &&& after.failure is Some
            &&& after.pending == Set::<u64>::empty()
            &&& opened(after).0 == Err::<u64, Seq<char>>(after.failure->0)
        }),
    decreases events.len(),
{
    if events.len() > 0 {
        lemma_failures_are_final(dispatch, reason, events.drop_last());
        let before = all_dispatched(failed(dispatch, reason), events.drop_last());
        match events.last() {
            DispatchEvent::Open => {},
            DispatchEvent::Settle(id) => {
                assert(before.pending.remove(id) =~= Set::<u64>::empty());
            },
            DispatchEvent::Fail(_) => {},
        }
    }
}

impl View for Dispatch {
    type V = DispatchView;

    closed spec fn view(&self) -> DispatchView {
        DispatchView {
            pending: self.pending@.to_set(),
            failure: self.failure.deep_view(),
            next_id: self.next_id,
        }
    }
}

/// What a plugin sends, or why nothing more comes.
#[derive(Debug, PartialEq, Eq)]
pub enum Frame {
    /// A line.
    Line(String),
    /// What came is no line.
    Invalid(String),
    /// There is no more.
    Closed,
    /// Nothing can be sent to the plugin any more.
    WriterFailed,
}

/// What is done about a frame.
#[derive(Debug, PartialEq, Eq)]
pub enum Received {
    /// The request of this identifier is answered with a value.
    Answered(u64, JsonValue),
    /// The request of this identifier is answered with an error.
    Refused(u64, RpcErrorObject),
    /// Nobody waits for it.
    Ignored,
    /// It is passed on.
    Notified(RpcNotification),
    /// Nothing more is read, for this reason.
    Stopped(String),
}

/// What a [`Received`] holds.
#[verifier::ext_equal]
pub enum ReceivedView {
    Answered(u64, Json),
    Refused(u64, RpcErrorObjectView),
    Ignored,
    Notified(RpcNotificationView),
    Stopped(Seq<char>),
}

impl DeepView for Received {
    type V = ReceivedView;

    open spec fn deep_view(&self) -> ReceivedView {
        match self {
            Received::Answered(id, value) => ReceivedView::Answered(*id, value.deep_view()),
            Received::Refused(id, error) => ReceivedView::Refused(*id, error.deep_view()),
            Received::Ignored => ReceivedView::Ignored,
            Received::Notified(notification) => ReceivedView::Notified(notification.deep_view()),
            Received::Stopped(reason) => ReceivedView::Stopped(reason@),
        }
    }
}

/// What is done about a message.
pub open spec fn routed(dispatch: DispatchView, message: PluginMessageView) -> ReceivedView {
    match message {
        PluginMessageView::Notification(notification) => ReceivedView::Notified(notification),
        PluginMessageView::Response(response) => if !dispatch.pending.contains(response.id) {
            ReceivedView::Ignored
        } else {
            match response.error {
                Some(error) => ReceivedView::Refused(response.id, error),
                None => ReceivedView::Answered(response.id, response.result->0),
            }
        },
    }
}

/// The requests after a message: what it answers no longer waits.
pub open spec fn after_message(
    dispatch: DispatchView,
    message: PluginMessageView,
) -> DispatchView {
    match message {
        PluginMessageView::Notification(_) => dispatch,
        PluginMessageView::Response(response) => settled(dispatch, response.id),
    }
}

/// What comes of a frame: a message, or the reason to stop.
pub open spec fn frame_message(frame: Frame) -> Result<PluginMessageView, Seq<char>> {
    match frame {
        Frame::Line(line) => match line_message(line@) {
            Ok(message) => Ok(message),
            Err(error) => Err(protocol_error_text(error)),
        },
        Frame::Invalid(message) => Err(message@),
        Frame::Closed => Err("plugin stdout closed"@),
        Frame::WriterFailed => Err("plugin stdin writer failed"@),
    }
}

/// A request is answered once: the same answer again is ignored.
pub proof fn lemma_requests_are_answered_once(
    dispatch: DispatchView,
    response: RpcResponseView,
    again: RpcResponseView,
)
    requires
        again.id == response.id,
    ensures
        routed(
            after_message(dispatch, PluginMessageView::Response(response)),
            PluginMessageView::Response(again),
        ) == ReceivedView::Ignored,
{
}

proof fn lemma_removed_from_set(ids: Seq<u64>, at: int)
    requires
        0 <= at < ids.len(),
        ids.no_duplicates(),
    ensures
        ids.remove(at).to_set() == ids.to_set().remove(ids[at]),
        ids.remove(at).no_duplicates(),
{
    let rest = ids.remove(at);
    assert forall|id: u64| rest.to_set().contains(id) == #[trigger] ids.to_set().remove(
        ids[at],
    ).contains(id) by {
        if rest.contains(id) {
            let i = choose|i: int| 0 <= i < rest.len() && rest[i] == id;
            assert(ids[if i < at {
                i
            } else {
                i + 1
            }] == id);
        }
        if ids.contains(id) && id != ids[at] {
            let i = choose|i: int| 0 <= i < ids.len() && ids[i] == id;
            assert(rest[if i < at {
                i
            } else {
                i - 1
            }] == id);
        }
    }
    assert(rest.to_set() =~= ids.to_set().remove(ids[at]));
}

impl Dispatch {
    /// What the operations keep: no request waits twice, and all were made before the next.
    pub closed spec fn wf(&self) -> bool {
        &&& self.pending@.no_duplicates()
        &&& is_dispatch(self@)
    }

    /// No request was made yet.
    pub fn new() -> (res: Self)
        ensures
            res.wf(),
            res@ == no_requests(),
    {
        let res = Dispatch { pending: Vec::new(), failure: None, next_id: 1 };
        assert(res.pending@.to_set() =~= Set::<u64>::empty());
        res
    }

    /// Why no more requests can be made.
    pub fn failure(&self) -> (res: Option<String>)
        ensures
            res.deep_view() == self@.failure,
    {
        self.failure.clone()
    }

    /// The identifiers of the requests that wait.
    pub fn pending(&self) -> (res: &Vec<u64>)
        requires
            self.wf(),
        ensures
            res@.to_set() == self@.pending,
            res@.no_duplicates(),
    {
        &self.pending
    }

    /// The identifier of the next request.
    pub fn next_id(&self) -> (res: u64)
        ensures
            res == self@.next_id,
    {
        self.next_id
    }

    /// Makes a request that waits for its answer.
    pub fn open(&mut self) -> (res: Result<u64, String>)
        requires
            old(self).wf(),
        ensures
            final(self).wf(),
            final(self)@ == opened(old(self)@).1,
            match (res, opened(old(self)@).0) {
                (Ok(id), Ok(expected)) => id == expected,
                (Err(reason), Err(expected)) => reason@ == expected,
                _ => false,
            },
    {
        if let Some(reason) = &self.failure {
            return Err(reason.clone());
        }
        let id = self.next_id;
        match id.checked_add(1) {
            None => Err("request IDs exhausted".to_owned()),
            Some(next) => {
                let ghost before = self.pending@;
                self.next_id = next;
                self.pending.push(id);
                proof {
                    assert(!before.to_set().contains(id));
                    assert(self.pending@.to_set() =~= before.to_set().insert(id)) by {
                        assert forall|other: u64| self.pending@.to_set().contains(other)
                            == #[trigger] before.to_set().insert(id).contains(other) by {
                            if before.contains(other) {
                                let i = choose|i: int| 0 <= i < before.len() && before[i] == other;
                                assert(self.pending@[i] == other);
                            }
                            assert(self.pending@[before.len() as int] == id);
                        }
                    }
                    assert forall|i: int, j: int|
                        0 <= i < self.pending@.len() && 0 <= j < self.pending@.len() && i
                            != j implies self.pending@[i] != self.pending@[j] by {
                        if i == before.len() {
                            assert(before.to_set().contains(before[j]));
                        }
                        if j == before.len() {
                            assert(before.to_set().contains(before[i]));
                        }
                    }
                    assert(self@.pending =~= opened(old(self)@).1.pending);
                }
                Ok(id)
            },
        }
    }

    /// The request of this identifier no longer waits; says whether it did.
    pub fn settle(&mut self, id: u64) -> (res: bool)
        requires
            old(self).wf(),
        ensures
            final(self).wf(),
            final(self)@ == settled(old(self)@, id),
            res == old(self)@.pending.contains(id),
    {
        let ghost before = self.pending@;
        let mut i: usize = 0;
        while i < self.pending.len()
            invariant
                i <= self.pending.len(),
                *self == *old(self),
                old(self).wf(),
                before == old(self).pending@,
                forall|j: int| 0 <= j < i ==> before[j] != id,
            decreases self.pending.len() - i,
        {
            if self.pending[i] == id {
                self.pending.remove(i);
                proof {
                    lemma_removed_from_set(before, i as int);
                    assert(self.pending@ == before.remove(i as int));
                    assert(before.contains(id));
                }
                return true;
            }
            i += 1;
        }
        proof {
            assert(!before.contains(id));
            assert(before.to_set().remove(id) =~= before.to_set());
        }
        false
    }

    /// Nothing can be sent or received any more; gives the requests that now get no answer.
    pub fn fail(&mut self, reason: &str) -> (res: Vec<u64>)
        requires
            old(self).wf(),
        ensures
            final(self).wf(),
            final(self)@ == failed(old(self)@, reason@),
            res@.to_set() == old(self)@.pending,
            res@.no_duplicates(),
    {
        if self.failure.is_none() {
            self.failure = Some(reason.to_owned());
        }
        let mut lost: Vec<u64> = Vec::new();
        std::mem::swap(&mut lost, &mut self.pending);
        assert(self.pending@.to_set() =~= Set::<u64>::empty());
        lost
    }

    /// Makes a request: its identifier, and the line to send.
    pub fn request(&mut self, method: &str, params: &JsonValue) -> (res: Result<
        (u64, String),
        String,
    >)
        requires
            old(self).wf(),
        ensures
            final(self).wf(),
            match opened(old(self)@) {
                (Err(reason), after) => final(self)@ == after && res is Err && res->Err_0@
                    == reason,
                (Ok(id), after) => match encoded_request(
                    request_line(id, method@, params.deep_view()),
                ) {
                    Ok(line) => {
                        &&& final(self)@ == after
                        &&& res is Ok
                        &&& res->Ok_0.0 == id
                        &&& res->Ok_0.1@ == line + "\n"@
                    },
                    Err(error) => {
                        &&& final(self)@ == settled(after, id)
                        &&& res is Err
                        &&& res->Err_0@ == protocol_error_text(error)
                    },
                },
            },
    {
        let id = match self.open() {
            Ok(id) => id,
            Err(reason) => {
                return Err(reason);
            },
        };
        match encode_request(id, method, params) {
            Ok(line) => Ok((id, concat(&line, "\n"))),
            Err(error) => {
                self.settle(id);
                Err(error.to_text())
            },
        }
    }

    /// What is done about a message.
    pub fn route(&mut self, message: PluginMessage) -> (res: Received)
        requires
            old(self).wf(),
            message.deep_view() matches PluginMessageView::Response(response) ==> (
            response.result is Some || response.error is Some),
        ensures
            final(self).wf(),
            res.deep_view() == routed(old(self)@, message.deep_view()),
            final(self)@ == after_message(old(self)@, message.deep_view()),
    {
        match message {
            PluginMessage::Notification(notification) => Received::Notified(notification),
            PluginMessage::Response(response) => {
                let waited = self.settle(response.id);
                if !waited {
                    return Received::Ignored;
                }
                match response.error {
                    Some(error) => Received::Refused(response.id, error),
                    None => match response.result {
                        Some(value) => Received::Answered(response.id, value),
                        None => Received::Ignored,
                    },
                }
            },
        }
    }

    /// What is done about what a plugin sends.
    pub fn receive(&mut self, frame: Frame) -> (res: Received)
        requires
            old(self).wf(),
        ensures
            final(self).wf(),
            match frame_message(frame) {
                Ok(message) => res.deep_view() == routed(old(self)@, message) && final(self)@
                    == after_message(old(self)@, message),
                Err(reason) => res.deep_view() == ReceivedView::Stopped(reason) && final(self)@
                    == old(self)@,
            },
    {
        match frame {
            Frame::Line(line) => match decode_plugin_message(&line) {
                Ok(message) => {
                    proof {
                        lemma_answers_have_one_outcome(json_parsed(line@)->Ok_0);
                    }
                    self.route(message)
                },
                Err(error) => Received::Stopped(error.to_text()),
            },
            Frame::Invalid(message) => Received::Stopped(message),
            Frame::Closed => Received::Stopped("plugin stdout closed".to_owned()),
            Frame::WriterFailed => Received::Stopped("plugin stdin writer failed".to_owned()),
        }
    }
}

// ---- the start of a plugin ----

/// The program to run: a relative path of several parts is meant from the directory of the
/// manifest.
pub open spec fn program_path(
    command: Seq<char>,
    directory: Seq<char>,
    is_relative: bool,
    components: int,
) -> Seq<char> {
    if is_relative && components > 1 {
        joined_path(directory, command)
    } else {
        command
    }
}

/// The program to run for a command; `is_relative` and `components` say how std reads its path.
pub fn program_of(command: &str, directory: &str, is_relative: bool, components: usize) -> (res:
    String)
    ensures
        res@ == program_path(command@, directory@, is_relative, components as int),
{
    if is_relative && components > 1 {
        join_path(directory, command)
    } else {
        command.to_owned()
    }
}

/// What a plugin can do, or why it is not the one of the manifest.
pub open spec fn checked_initialize(
    manifest: PluginManifestView,
    result: InitializeResultView,
) -> Result<PluginCapabilitiesView, PluginProcessErrorView> {
    if result.protocol_version != PLUGIN_PROTOCOL_VERSION@ {
        Err(PluginProcessErrorView::ProtocolMismatch(result.protocol_version))
    } else if manifest.id != result.plugin.id {
        Err(
            PluginProcessErrorView::IdentityMismatch {
                field: "id"@,
                expected: manifest.id,
                actual: result.plugin.id,
            },
        )
    } else if manifest.name != result.plugin.name {
        Err(
            PluginProcessErrorView::IdentityMismatch {
                field: "name"@,
                expected: manifest.name,
                actual: result.plugin.name,
            },
        )
    } else if manifest.version != result.plugin.version {
        Err(
            PluginProcessErrorView::IdentityMismatch {
                field: "version"@,
                expected: manifest.version,
                actual: result.plugin.version,
            },
        )
    } else {
        Ok(result.capabilities)
    }
}

/// What an answer to the first request means.
pub open spec fn read_initialize(manifest: PluginManifestView, answer: Json) -> Result<
    PluginCapabilitiesView,
    PluginProcessErrorView,
> {
    match initialize_result_of(answer) {
        Some(result) => checked_initialize(manifest, result),
        None => Err(PluginProcessErrorView::Transport("invalid initialize result"@)),
    }
}

fn mismatch(field: &str, expected: &str, actual: String) -> (res: PluginProcessError)
    ensures
        res.deep_view() == (PluginProcessErrorView::IdentityMismatch {
            field: field@,
            expected: expected@,
            actual: actual@,
        }),
{
    PluginProcessError::IdentityMismatch {
        field: field.to_owned(),
        expected: expected.to_owned(),
        actual,
    }
}

/// What a plugin can do, or why it is not the one of the manifest.
pub fn check_initialize(manifest: &PluginManifest, result: InitializeResult) -> (res: Result<
    PluginCapabilities,
    PluginProcessError,
>)
    ensures
        match (res, checked_initialize(manifest.deep_view(), result.deep_view())) {
            (Ok(capabilities), Ok(expected)) => capabilities.deep_view() == expected,
            (Err(error), Err(expected)) => error.deep_view() == expected,
            _ => false,
        },
{
    if !same_text(&result.protocol_version, PLUGIN_PROTOCOL_VERSION) {
        return Err(PluginProcessError::ProtocolMismatch(result.protocol_version));
    }
    if !same_text(&manifest.id, &result.plugin.id) {
        return Err(mismatch("id", &manifest.id, result.plugin.id));
    }
    if !same_text(&manifest.name, &result.plugin.name) {
        return Err(mismatch("name", &manifest.name, result.plugin.name));
    }
    if !same_text(&manifest.version, &result.plugin.version) {
        return Err(mismatch("version", &manifest.version, result.plugin.version));
    }
    Ok(result.capabilities)
}

/// What an answer to the first request means.
pub fn initialized(manifest: &PluginManifest, answer: &JsonValue) -> (res: Result<
    PluginCapabilities,
    PluginProcessError,
>)
    ensures
        match (res, read_initialize(manifest.deep_view(), answer.deep_view())) {
            (Ok(capabilities), Ok(expected)) => capabilities.deep_view() == expected,
            (Err(error), Err(expected)) => error.deep_view() == expected,
            _ => false,
        },
{
    match InitializeResult::from_json(answer) {
        Some(result) => check_initialize(manifest, result),
        None => Err(PluginProcessError::Transport("invalid initialize result".to_owned())),
    }
}

// ---- the end of a plugin ----

/// What happens while a plugin is asked to end.
#[derive(Debug, PartialEq, Eq)]
pub enum ShutdownEvent {
    /// Whether it had ended before, with which status.
    Polled(Result<Option<String>, String>),
    /// It answered.
    Answered(Result<(), PluginProcessError>),
    /// It ended, with this status, as it should or not.
    Waited(Result<ExitReport, String>),
    /// It took too long.
    TimedOut,
}

/// How a process ended.
#[derive(Debug, PartialEq, Eq)]
pub struct ExitReport {
    pub success: bool,
    pub status: String,
}

/// What is done next.
#[derive(Debug, PartialEq, Eq)]
pub enum ShutdownAction {
    /// It is asked to end.
    Ask,
    /// Its input is closed, and its end awaited.
    CloseAndWait,
    /// It has ended as it should.
    Finish,
    /// It is ended by force, because of this.
    CleanUp(PluginProcessError),
}

/// What is to be done next, in what it holds.
#[verifier::ext_equal]
pub enum ShutdownActionView {
    Ask,
    CloseAndWait,
    Finish,
    CleanUp(PluginProcessErrorView),
}

impl DeepView for ShutdownAction {
    type V = ShutdownActionView;

    open spec fn deep_view(&self) -> ShutdownActionView {
        match self {
            ShutdownAction::Ask => ShutdownActionView::Ask,
            ShutdownAction::CloseAndWait => ShutdownActionView::CloseAndWait,
            ShutdownAction::Finish => ShutdownActionView::Finish,
            ShutdownAction::CleanUp(error) => ShutdownActionView::CleanUp(error.deep_view()),
        }
    }
}

/// What is done after something has happened.
pub open spec fn shutdown_step(event: ShutdownEvent) -> ShutdownActionView {
    match event {
        ShutdownEvent::Polled(Ok(None)) => ShutdownActionView::Ask,
        ShutdownEvent::Polled(Ok(Some(status))) => ShutdownActionView::CleanUp(
            PluginProcessErrorView::Exited(status@),
        ),
        ShutdownEvent::Polled(Err(message)) => ShutdownActionView::CleanUp(
            PluginProcessErrorView::Reap(message@),
        ),
        ShutdownEvent::Answered(Ok(_)) => ShutdownActionView::CloseAndWait,
        ShutdownEvent::Answered(Err(error)) => ShutdownActionView::CleanUp(error.deep_view()),
        ShutdownEvent::Waited(Ok(report)) => if report.success {
            ShutdownActionView::Finish
        } else {
            ShutdownActionView::CleanUp(PluginProcessErrorView::Exited(report.status@))
        },
        ShutdownEvent::Waited(Err(message)) => ShutdownActionView::CleanUp(
            PluginProcessErrorView::Reap(message@),
        ),
        ShutdownEvent::TimedOut => ShutdownActionView::CleanUp(
            PluginProcessErrorView::ShutdownTimeout,
        ),
    }
}

/// What is done after something has happened while a plugin is asked to end.
pub fn shutdown_next(event: ShutdownEvent) -> (res: ShutdownAction)
    ensures
        res.deep_view() == shutdown_step(event),
{
    match event {
        ShutdownEvent::Polled(Ok(None)) => ShutdownAction::Ask,
        ShutdownEvent::Polled(Ok(Some(status))) => ShutdownAction::CleanUp(
            PluginProcessError::Exited(status),
        ),
        ShutdownEvent::Polled(Err(message)) => ShutdownAction::CleanUp(
            PluginProcessError::Reap(message),
        ),
        ShutdownEvent::Answered(Ok(_)) => ShutdownAction::CloseAndWait,
        ShutdownEvent::Answered(Err(error)) => ShutdownAction::CleanUp(error),
        ShutdownEvent::Waited(Ok(report)) => if report.success {
            ShutdownAction::Finish
        } else {
            ShutdownAction::CleanUp(PluginProcessError::Exited(report.status))
        },
        ShutdownEvent::Waited(Err(message)) => ShutdownAction::CleanUp(
            PluginProcessError::Reap(message),
        ),
        ShutdownEvent::TimedOut => ShutdownAction::CleanUp(PluginProcessError::ShutdownTimeout),
    }
}

/// The error of a process that was ended by force: why, or that its end could not be awaited, with
/// what it wrote.
pub fn cleanup_error(
    error: PluginProcessError,
    wait: Result<(), String>,
    stderr: PluginDiagnostics,
) -> (res: PluginProcessError)
    ensures
        res.deep_view() == (PluginProcessErrorView::Diagnostics {
            source: Box::new(
                match wait {
                    Ok(_) => error.deep_view(),
                    Err(message) => PluginProcessErrorView::Reap(message@),
                },
            ),
            stderr: stderr.deep_view(),
        }),
{
    let source = match wait {
        Ok(_) => error,
        Err(message) => PluginProcessError::Reap(message),
    };
    proof {
        reveal_with_fuel(process_error_of, 2);
    }
    PluginProcessError::Diagnostics { source: Box::new(source), stderr }
}

} // verus!
