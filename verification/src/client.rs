//! Requests to the daemon of a profile, and its answers.

use vstd::prelude::*;

use crate::action::{action_json, ActionView, InputAction};
use crate::daemon::{is_random_id, random_id};
use crate::headless::{mode_name, ui_mode_name};
use crate::json::{
    empty_object, field, flag_field, number_field, opt_nat_view, opt_text_view, or_null, text_field,
    text_view, with_field, Json, JsonView,
};
use crate::json_text::{json_printed, print};
use crate::memory::{value_text, NO_HOME};
use crate::paths::{below, profile_directory, profile_socket_path};
use crate::text::{concat, ends_with, is_blank, opt_text, trimmed};
use crate::ui_state::UiMode;

verus! {

/// What is needed to reach the daemon of a profile.
#[derive(Clone, Debug, PartialEq, Eq)]
pub struct CuaClient {
    pub profile: String,
    pub token: String,
    pub socket_path: String,
}

impl CuaClient {
    /// The daemon of a profile, with its socket below the home directory.
    pub fn new(profile: &str, token: String, home: &Option<String>) -> (result: Result<
        CuaClient,
        String,
    >)
        ensures
            match (result, *home) {
                (Ok(client), Some(home)) => client.profile@ == profile@ && client.token == token
                    && client.socket_path@ == below(
                    profile_directory(home@, profile@),
                    "daemon.sock"@,
                ),
                (Err(message), None) => message@ == NO_HOME@,
                _ => false,
            },
    {
        match home {
            Some(home) => Ok(
                CuaClient {
                    profile: profile.to_owned(),
                    token,
                    socket_path: profile_socket_path(home.as_str(), profile),
                },
            ),
            None => Err(NO_HOME.to_owned()),
        }
    }

    pub fn profile(&self) -> (profile: &str)
        ensures
            profile@ == self.profile@,
    {
        self.profile.as_str()
    }

    /// A request of this client, with an identity of its own.
    pub fn request(&self, method: &str, params: Option<Json>) -> (request: Json)
        ensures
            exists|id: Seq<char>|
                is_random_id(id) && request@ == #[trigger] envelope(
                    id,
                    self.token@,
                    method@,
                    crate::json::opt_view(params),
                ),
    {
        let id = random_id();
        request_envelope(id.as_str(), self.token.as_str(), method, params)
    }
}

/// A request: its identity, the token, the method, and what goes with it.
pub open spec fn envelope(
    id: Seq<char>,
    token: Seq<char>,
    method: Seq<char>,
    params: Option<JsonView>,
) -> JsonView {
    with_field(
        with_field(
            with_field(
                with_field(empty_object(), "id"@, text_view(id)),
                "token"@,
                text_view(token),
            ),
            "method"@,
            text_view(method),
        ),
        "params"@,
        match params {
            Some(params) => params,
            None => empty_object(),
        },
    )
}

/// A request: its identity, the token, the method, and what goes with it; an
/// empty object where nothing does.
pub fn request_envelope(id: &str, token: &str, method: &str, params: Option<Json>) -> (request: Json)
    ensures
        request@ == envelope(id@, token@, method@, crate::json::opt_view(params)),
{
    let mut request = Json::object();
    request.set("id", Json::text(id));
    request.set("token", Json::text(token));
    request.set("method", Json::text(method));
    request.set(
        "params",
        match params {
            Some(params) => params,
            None => Json::object(),
        },
    );
    request
}

/// What goes with a request for a picture of the screen.
pub open spec fn capture_view(encoding: Seq<char>, with_bytes: bool) -> JsonView {
    with_field(
        with_field(
            with_field(
                with_field(empty_object(), "max_width"@, JsonView::Unsigned(1_280)),
                "encoding"@,
                text_view(encoding),
            ),
            "force_fresh"@,
            JsonView::Bool(true),
        ),
        "include_bytes"@,
        JsonView::Bool(with_bytes),
    )
}

/// What goes with a request for a picture of the screen.
pub fn capture_params(encoding: &str, with_bytes: bool) -> (params: Json)
    ensures
        params@ == capture_view(encoding@, with_bytes),
{
    let mut params = Json::object();
    params.set("max_width", Json::Unsigned(1_280));
    params.set("encoding", Json::text(encoding));
    params.set("force_fresh", Json::Bool(true));
    params.set("include_bytes", Json::Bool(with_bytes));
    params
}

/// What goes with a request for later events.
pub fn events_after_params(sequence: u64) -> (params: Json)
    ensures
        params@ == with_field(empty_object(), "after_sequence"@, JsonView::Unsigned(sequence)),
{
    let mut params = Json::object();
    params.set("after_sequence", Json::number(sequence));
    params
}

/// What goes with a request that waits for later events.
pub fn events_wait_params(sequence: u64, timeout_ms: u64) -> (params: Json)
    ensures
        params@ == with_field(
            with_field(empty_object(), "after_sequence"@, JsonView::Unsigned(sequence)),
            "timeout_ms"@,
            JsonView::Unsigned(timeout_ms),
        ),
{
    let mut params = Json::object();
    params.set("after_sequence", Json::number(sequence));
    params.set("timeout_ms", Json::number(timeout_ms));
    params
}

/// An action that goes through the input endpoint: any but those of the
/// clipboard.
pub open spec fn is_dispatchable(action: ActionView) -> bool {
    !(action is ClipboardRead) && !(action is ClipboardWrite)
}

/// Refuses the actions that have endpoints of their own.
pub fn ensure_dispatchable(action: &InputAction) -> (result: Result<(), String>)
    ensures
        match result {
            Ok(_) => is_dispatchable(action@),
            Err(message) => !is_dispatchable(action@) && message@
                == "clipboard actions require explicit clipboard endpoints"@,
        },
{
    match action {
        InputAction::ClipboardRead { .. } | InputAction::ClipboardWrite { .. } => Err(
            "clipboard actions require explicit clipboard endpoints".to_owned(),
        ),
        _ => Ok(()),
    }
}

/// A method of the daemon, and what goes with it.
#[derive(Debug)]
pub struct DaemonCall {
    pub method: &'static str,
    pub params: Option<Json>,
}

/// A method of the daemon, and what goes with it.
pub struct CallView {
    pub method: Seq<char>,
    pub params: Option<JsonView>,
}

impl View for DaemonCall {
    type V = CallView;

    open spec fn view(&self) -> CallView {
        CallView { method: self.method@, params: crate::json::opt_view(self.params) }
    }
}

/// A step that the island of the daemon shows.
#[derive(Clone, Debug, PartialEq, Eq)]
pub struct UiStep {
    pub label: String,
    pub source: Option<String>,
    pub task: Option<String>,
    pub tool: Option<String>,
    pub step_index: Option<u16>,
    pub step_total: Option<u16>,
    pub ttl_ms: Option<u64>,
}

fn opt_small(n: Option<u16>) -> (value: Json)
    ensures
        value@ == opt_small_view(n),
{
    match n {
        Some(n) => Json::number(n as u64),
        None => Json::Null,
    }
}

pub open spec fn opt_small_view(n: Option<u16>) -> JsonView {
    match n {
        Some(n) => JsonView::Unsigned(n as u64),
        None => JsonView::Null,
    }
}

/// An object of the protocol starts with its version.
pub open spec fn versioned(version: Seq<char>) -> JsonView {
    with_field(empty_object(), "schema_version"@, text_view(version))
}

fn versioned_json(version: &str) -> (value: Json)
    ensures
        value@ == versioned(version@),
{
    let mut value = Json::object();
    value.set("schema_version", Json::text(version));
    value
}

/// What goes with a step.
pub open spec fn step_view(version: Seq<char>, step: UiStep) -> JsonView {
    let named = with_field(versioned(version), "label"@, text_view(step.label@));
    let sourced = with_field(named, "source"@, opt_text_view(opt_text(step.source)));
    let tasked = with_field(sourced, "task"@, opt_text_view(opt_text(step.task)));
    let tooled = with_field(tasked, "tool"@, opt_text_view(opt_text(step.tool)));
    let placed = with_field(tooled, "step_index"@, opt_small_view(step.step_index));
    let counted = with_field(placed, "step_total"@, opt_small_view(step.step_total));
    with_field(counted, "ttl_ms"@, opt_nat_view(step.ttl_ms))
}

/// The calls of the daemon.
impl CuaClient {
    /// Asks for a picture of the screen.
    pub fn screenshot(&self, with_bytes: bool) -> (call: DaemonCall)
        ensures
            call@.method == "capture.screenshot"@,
            call@.params == Some(capture_view("png"@, with_bytes)),
    {
        DaemonCall {
            method: "capture.screenshot",
            params: Some(capture_params("png", with_bytes)),
        }
    }

    /// Asks what is on the desktop.
    pub fn observe(&self) -> (call: DaemonCall)
        ensures
            call@.method == "observe.desktop"@,
            call@.params is None,
    {
        DaemonCall { method: "observe.desktop", params: None }
    }

    /// Asks for a picture of the screen and what is on the desktop.
    pub fn context(&self, with_bytes: bool) -> (call: DaemonCall)
        ensures
            call@.method == "context.snapshot"@,
            call@.params == Some(capture_view("png"@, with_bytes)),
    {
        DaemonCall { method: "context.snapshot", params: Some(capture_params("png", with_bytes)) }
    }

    /// Asks for all the events so far.
    pub fn events(&self) -> (call: DaemonCall)
        ensures
            call@.method == "events.snapshot"@,
            call@.params is None,
    {
        DaemonCall { method: "events.snapshot", params: None }
    }

    /// Asks for the events after one.
    pub fn events_after(&self, sequence: u64) -> (call: DaemonCall)
        ensures
            call@.method == "events.after"@,
            call@.params == Some(
                with_field(empty_object(), "after_sequence"@, JsonView::Unsigned(sequence)),
            ),
    {
        DaemonCall { method: "events.after", params: Some(events_after_params(sequence)) }
    }

    /// Waits for events after one.
    pub fn events_wait(&self, sequence: u64, timeout_ms: u64) -> (call: DaemonCall)
        ensures
            call@.method == "events.wait"@,
            call@.params == Some(
                with_field(
                    with_field(empty_object(), "after_sequence"@, JsonView::Unsigned(sequence)),
                    "timeout_ms"@,
                    JsonView::Unsigned(timeout_ms),
                ),
            ),
    {
        DaemonCall { method: "events.wait", params: Some(events_wait_params(sequence, timeout_ms)) }
    }

    /// Shows a step on the island of the daemon.
    pub fn ui_step(&self, schema_version: &str, step: &UiStep) -> (call: DaemonCall)
        ensures
            call@.method == "ui.step"@,
            call@.params == Some(step_view(schema_version@, *step)),
    {
        let mut params = versioned_json(schema_version);
        params.set("label", Json::text(step.label.as_str()));
        params.set("source", Json::opt_text(&step.source));
        params.set("task", Json::opt_text(&step.task));
        params.set("tool", Json::opt_text(&step.tool));
        params.set("step_index", opt_small(step.step_index));
        params.set("step_total", opt_small(step.step_total));
        params.set("ttl_ms", Json::opt_number(step.ttl_ms));
        DaemonCall { method: "ui.step", params: Some(params) }
    }

    /// Shows a reply on the island of the daemon.
    pub fn ui_reply(
        &self,
        schema_version: &str,
        text: &str,
        source: &Option<String>,
        ttl_ms: Option<u64>,
    ) -> (call: DaemonCall)
        ensures
            call@.method == "ui.reply"@,
            call@.params == Some(
                with_field(
                    with_field(
                        with_field(versioned(schema_version@), "text"@, text_view(text@)),
                        "source"@,
                        opt_text_view(opt_text(*source)),
                    ),
                    "ttl_ms"@,
                    opt_nat_view(ttl_ms),
                ),
            ),
    {
        let mut params = versioned_json(schema_version);
        params.set("text", Json::text(text));
        params.set("source", Json::opt_text(source));
        params.set("ttl_ms", Json::opt_number(ttl_ms));
        DaemonCall { method: "ui.reply", params: Some(params) }
    }

    /// Tells the daemon whether an island is shown here.
    pub fn ui_mode(&self, schema_version: &str, mode: UiMode, source: &Option<String>) -> (call:
        DaemonCall)
        ensures
            call@.method == "ui.mode"@,
            call@.params == Some(
                with_field(
                    with_field(versioned(schema_version@), "mode"@, text_view(mode_name(mode))),
                    "source"@,
                    opt_text_view(opt_text(*source)),
                ),
            ),
    {
        let mut params = versioned_json(schema_version);
        params.set("mode", Json::text(ui_mode_name(mode)));
        params.set("source", Json::opt_text(source));
        DaemonCall { method: "ui.mode", params: Some(params) }
    }

    /// Carries an action out. Actions of the clipboard are refused before
    /// anything is sent.
    pub fn dispatch(&self, action: &InputAction) -> (result: Result<DaemonCall, String>)
        ensures
            match result {
                Ok(call) => {
                    &&& is_dispatchable(action@)
                    &&& call@.method == "input.dispatch"@
                    &&& call@.params == Some(action_json(action@))
                },
                Err(message) => !is_dispatchable(action@) && message@
                    == "clipboard actions require explicit clipboard endpoints"@,
            },
    {
        match ensure_dispatchable(action) {
            Ok(_) => Ok(DaemonCall { method: "input.dispatch", params: Some(action.to_json()) }),
            Err(message) => Err(message),
        }
    }

    /// Carries an action out that was planned on a picture of the screen.
    /// Actions of the clipboard are refused before anything is sent.
    pub fn dispatch_frame(&self, schema_version: &str, source_frame: Json, action: &InputAction) -> (
    result: Result<DaemonCall, String>)
        ensures
            match result {
                Ok(call) => {
                    &&& is_dispatchable(action@)
                    &&& call@.method == "input.dispatch_frame"@
                    &&& call@.params == Some(
                        with_field(
                            with_field(
                                versioned(schema_version@),
                                "source_frame"@,
                                source_frame@,
                            ),
                            "action"@,
                            action_json(action@),
                        ),
                    )
                },
                Err(message) => !is_dispatchable(action@) && message@
                    == "clipboard actions require explicit clipboard endpoints"@,
            },
    {
        match ensure_dispatchable(action) {
            Ok(_) => {
                let mut params = versioned_json(schema_version);
                params.set("source_frame", source_frame);
                params.set("action", action.to_json());
                Ok(DaemonCall { method: "input.dispatch_frame", params: Some(params) })
            },
            Err(message) => Err(message),
        }
    }
}

/// An answer of the daemon.
#[derive(Debug)]
pub struct UnixResponse {
    pub ok: bool,
    pub result: Option<Json>,
    pub error: Option<Json>,
}

/// An answer has to have something in it.
pub fn check_response_line(method: &str, line: &str) -> (result: Result<(), String>)
    ensures
        match result {
            Ok(_) => trimmed(line@).len() > 0,
            Err(message) => trimmed(line@).len() == 0 && message@ == "empty unix response for "@
                + method@,
        },
{
    if is_blank(line) {
        Err(concat("empty unix response for ", method))
    } else {
        Ok(())
    }
}

/// What is said of a request that failed; `error` is the error as text.
pub open spec fn failure_text(method: Seq<char>, error: Seq<char>) -> Seq<char> {
    "unix request "@ + method + " failed: "@ + error
}

/// What is said of a request that failed; `error` is the error as text.
pub fn request_failure(method: &str, error: &str) -> (message: String)
    ensures
        message@ == failure_text(method@, error@),
{
    let mut message = "unix request ".to_owned();
    message.append(method);
    message.append(" failed: ");
    message.append(error);
    message
}

/// The error of an answer; an empty object where it holds none.
pub open spec fn error_of(error: Option<JsonView>) -> JsonView {
    match error {
        Some(error) => error,
        None => empty_object(),
    }
}

/// What the daemon answered: the result, or what went wrong.
pub fn response_result(method: &str, response: UnixResponse) -> (result: Result<Json, String>)
    ensures
        match result {
            Ok(value) => response.ok && value@ == or_null(crate::json::opt_view(response.result)),
            Err(message) => !response.ok && message@ == failure_text(
                method@,
                value_text(json_printed(error_of(crate::json::opt_view(response.error)))),
            ),
        },
{
    if response.ok {
        return Ok(
            match response.result {
                Some(value) => value,
                None => Json::Null,
            },
        );
    }
    let error = match response.error {
        Some(error) => error,
        None => Json::object(),
    };
    let printed = match print(&error) {
        Some(text) => text,
        None => "null".to_owned(),
    };
    Err(request_failure(method, printed.as_str()))
}

/// A request has its identity, its token, its method and its parameters, an empty
/// object where there are none.
pub proof fn lemma_request_is_addressed(
    id: Seq<char>,
    token: Seq<char>,
    method: Seq<char>,
    params: Option<JsonView>,
)
    ensures
        text_field(envelope(id, token, method, params), "id"@) == Some(id),
        text_field(envelope(id, token, method, params), "token"@) == Some(token),
        text_field(envelope(id, token, method, params), "method"@) == Some(method),
        params is Some ==> field(envelope(id, token, method, params), "params"@) == params,
        params is None ==> field(envelope(id, token, method, params), "params"@) == Some(
            empty_object(),
        ),
{
    reveal_strlit("id");
    reveal_strlit("token");
    reveal_strlit("method");
    reveal_strlit("params");
    assert("method"@[0] != "params"@[0]);
    assert("id"@.len() == 2 && "token"@.len() == 5 && "method"@.len() == 6 && "params"@.len() == 6);
}

/// A step is sent with all that is known of it.
pub proof fn lemma_step_is_sent(version: Seq<char>, step: UiStep)
    ensures
        text_field(step_view(version, step), "schema_version"@) == Some(version),
        text_field(step_view(version, step), "label"@) == Some(step.label@),
        text_field(step_view(version, step), "source"@) == opt_text(step.source),
        text_field(step_view(version, step), "task"@) == opt_text(step.task),
        text_field(step_view(version, step), "tool"@) == opt_text(step.tool),
        step.step_index matches Some(n) ==> number_field(
            step_view(version, step),
            "step_index"@,
        ) == Some(n as u64),
        step.step_total matches Some(n) ==> number_field(
            step_view(version, step),
            "step_total"@,
        ) == Some(n as u64),
        number_field(step_view(version, step), "ttl_ms"@) == step.ttl_ms,
{
    reveal_strlit("schema_version");
    reveal_strlit("label");
    reveal_strlit("source");
    reveal_strlit("task");
    reveal_strlit("tool");
    reveal_strlit("step_index");
    reveal_strlit("step_total");
    reveal_strlit("ttl_ms");
    assert("source"@[0] != "ttl_ms"@[0]);
    assert("task"@[1] != "tool"@[1]);
    assert("step_index"@[5] != "step_total"@[5]);
    assert("schema_version"@.len() == 14 && "label"@.len() == 5 && "source"@.len() == 6 && "task"@.len() == 4 && "tool"@.len() == 4 && "step_index"@.len() == 10 && "step_total"@.len() == 10 && "ttl_ms"@.len() == 6);
}

/// A picture is asked for fresh and at a limited width, in the encoding and with
/// the bytes that are wanted.
pub proof fn lemma_picture_is_asked_for(encoding: Seq<char>, with_bytes: bool)
    ensures
        text_field(capture_view(encoding, with_bytes), "encoding"@) == Some(encoding),
        flag_field(capture_view(encoding, with_bytes), "include_bytes"@) == with_bytes,
        flag_field(capture_view(encoding, with_bytes), "force_fresh"@),
        number_field(capture_view(encoding, with_bytes), "max_width"@) == Some(1_280u64),
{
    reveal_strlit("max_width");
    reveal_strlit("encoding");
    reveal_strlit("force_fresh");
    reveal_strlit("include_bytes");
    assert("max_width"@.len() == 9 && "encoding"@.len() == 8 && "force_fresh"@.len() == 11 && "include_bytes"@.len() == 13);
}

/// Every action goes to the daemon as input, but for those of the clipboard.
pub proof fn lemma_clipboard_has_its_own_way(action: ActionView)
    ensures
        action is ClipboardRead || action is ClipboardWrite ==> !is_dispatchable(action),
        !(action is ClipboardRead) && !(action is ClipboardWrite) ==> is_dispatchable(action),
{
}

} // verus!
