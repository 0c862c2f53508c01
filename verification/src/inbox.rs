//! Messages that reach the agent through the daemon's inbox.

use vstd::prelude::*;

use crate::json::{field, or_null, text_field, Json, JsonView};
use crate::json_text::{json_printed, print};
use crate::text::{ends_with, has_text, is_digit, occurs_at, opt_text};

verus! {

/// A message for the agent.
#[derive(Debug)]
pub struct InboundHudMessage {
    pub message_id: String,
    pub source: String,
    pub text: String,
    pub payload: Json,
    pub delivery_method: String,
}

pub struct MessageView {
    pub message_id: Seq<char>,
    pub source: Seq<char>,
    pub text: Seq<char>,
    pub payload: JsonView,
    pub delivery_method: Seq<char>,
}

impl View for InboundHudMessage {
    type V = MessageView;

    open spec fn view(&self) -> MessageView {
        MessageView {
            message_id: self.message_id@,
            source: self.source@,
            text: self.text@,
            payload: self.payload@,
            delivery_method: self.delivery_method@,
        }
    }
}

/// A text of the data, or "inbox" where there is none.
pub open spec fn text_or_inbox(data: JsonView, key: Seq<char>) -> Seq<char> {
    match text_field(data, key) {
        Some(text) => text,
        None => "inbox"@,
    }
}

/// The message that an event of the daemon carries: one with an identity and a
/// text.
pub open spec fn message_in(event: JsonView) -> Option<MessageView> {
    if text_field(event, "kind"@) != Some("inbound_message"@) {
        None
    } else {
        match field(event, "data"@) {
            Some(data) => match (text_field(data, "message_id"@), text_field(data, "text"@)) {
                (Some(message_id), Some(text)) => Some(
                    MessageView {
                        message_id,
                        source: text_or_inbox(data, "source"@),
                        text,
                        payload: or_null(field(data, "payload"@)),
                        delivery_method: text_or_inbox(data, "delivery_method"@),
                    },
                ),
                _ => None,
            },
            None => None,
        }
    }
}

pub open spec fn opt_message(message: Option<InboundHudMessage>) -> Option<MessageView> {
    match message {
        Some(message) => Some(message@),
        None => None,
    }
}

fn text_or_default(data: &Json, key: &str) -> (text: String)
    ensures
        text@ == text_or_inbox(data@, key@),
{
    match data.get_text(key) {
        Some(text) => text.clone(),
        None => "inbox".to_owned(),
    }
}

/// The message that an event of the daemon carries.
pub fn inbound_message_from_daemon_event(event: &Json) -> (message: Option<InboundHudMessage>)
    ensures
        opt_message(message) == message_in(event@),
{
    if !event.text_is("kind", "inbound_message") {
        return None;
    }
    let Some(data) = event.get("data") else {
        return None;
    };
    let Some(message_id) = data.get_text("message_id") else {
        return None;
    };
    let Some(text) = data.get_text("text") else {
        return None;
    };
    let payload = match data.get("payload") {
        Some(payload) => payload.clone(),
        None => Json::Null,
    };
    Some(
        InboundHudMessage {
            message_id: message_id.clone(),
            source: text_or_default(data, "source"),
            text: text.clone(),
            payload,
            delivery_method: text_or_default(data, "delivery_method"),
        },
    )
}

/// The command that a message becomes; `payload` is the text of what it
/// carries.
pub open spec fn prompt_text(message: MessageView, received_at: Seq<char>, payload: Seq<char>) -> Seq<
    char,
> {
    "Inbound cua message received at "@ + received_at + " via "@ + message.delivery_method
        + " from source "@ + message.source
        + ".\nTreat this exactly like a user command. Check current desktop context when useful, use tools when needed, and verify visible effects before finishing.\nMessage: "@
        + message.text + "\nPayload JSON: "@ + payload
}

/// The text of what a message carries: an empty object where it carries
/// nothing, or where `printed` holds no text for it.
pub open spec fn payload_text(payload: JsonView, printed: Option<Seq<char>>) -> Seq<char> {
    match (payload, printed) {
        (JsonView::Null, _) => "{}"@,
        (_, Some(text)) => text,
        (_, None) => "{}"@,
    }
}

/// The command that a message becomes, given the time and the text of what it
/// carries.
pub fn inbound_prompt_at(
    message: &InboundHudMessage,
    received_at: &str,
    printed: &Option<String>,
) -> (prompt: String)
    ensures
        prompt@ == prompt_text(
            message@,
            received_at@,
            payload_text(message@.payload, opt_text(*printed)),
        ),
{
    let mut prompt = "Inbound cua message received at ".to_owned();
    prompt.append(received_at);
    prompt.append(" via ");
    prompt.append(message.delivery_method.as_str());
    prompt.append(" from source ");
    prompt.append(message.source.as_str());
    prompt.append(
        ".\nTreat this exactly like a user command. Check current desktop context when useful, use tools when needed, and verify visible effects before finishing.\nMessage: ",
    );
    prompt.append(message.text.as_str());
    prompt.append("\nPayload JSON: ");
    match (&message.payload, printed) {
        (Json::Null, _) => prompt.append("{}"),
        (_, Some(text)) => prompt.append(text.as_str()),
        (_, None) => prompt.append("{}"),
    }
    prompt
}

pub open spec fn digits_between(text: Seq<char>, from: int, to: int) -> bool {
    forall|i: int| from <= i < to ==> is_digit(#[trigger] text[i])
}

/// Two digits stand at `at`, and the number that they write is one of a range.
pub open spec fn two_digits(text: Seq<char>, at: int, least: int, most: int) -> bool {
    &&& is_digit(text[at]) && is_digit(text[at + 1])
    &&& least <= 10 * (text[at] as int - '0' as int) + (text[at + 1] as int - '0' as int) <= most
}

/// The text begins with a year, up to `to`: four digits, or a sign and at least
/// four.
pub open spec fn begins_with_year(text: Seq<char>, to: int) -> bool {
    ||| to == 4 && digits_between(text, 0, 4)
    ||| to >= 5 && (text[0] == '+' || text[0] == '-') && digits_between(text, 1, to)
}

/// Nothing, or a point with thousandths, millionths or milliardths behind it.
pub open spec fn is_second_fraction(text: Seq<char>, from: int, to: int) -> bool {
    ||| from == to
    ||| text[from] == '.' && digits_between(text, from + 1, to) && (to - from == 4 || to - from == 7
        || to - from == 10)
}

/// A time in UTC with its date, where the year ends at `at`: the month and the
/// day behind hyphens, a `T`, the hours, the minutes and the seconds with colons
/// between them, what there is of a fraction, and the offset of UTC.
pub open spec fn is_utc_time_at(text: Seq<char>, at: int) -> bool {
    &&& at + 21 <= text.len()
    &&& begins_with_year(text, at)
    &&& text[at] == '-' && two_digits(text, at + 1, 1, 12)
    &&& text[at + 3] == '-' && two_digits(text, at + 4, 1, 31)
    &&& text[at + 6] == 'T' && two_digits(text, at + 7, 0, 23)
    &&& text[at + 9] == ':' && two_digits(text, at + 10, 0, 59)
    &&& text[at + 12] == ':' && two_digits(text, at + 13, 0, 59)
    &&& is_second_fraction(text, at + 15, text.len() - 6)
    &&& ends_with(text, "+00:00"@)
}

/// A time in UTC with its date.
pub open spec fn is_utc_time(text: Seq<char>) -> bool {
    exists|at: int| #[trigger] is_utc_time_at(text, at)
}

/// `chrono::Utc::now`, as `to_rfc3339` writes it: a date and a time, each part
/// at its place, with the offset of UTC behind them. Which ones they are depends
/// on the clock, which is taken to stand after 1969 and in a year that `chrono`
/// can hold.
#[verifier::external_body]
fn current_time() -> (text: String)
    ensures
        is_utc_time(text@),
{
    chrono::Utc::now().to_rfc3339()
}

/// The command that a message becomes, at the time of the call.
pub fn inbound_prompt(message: &InboundHudMessage) -> (prompt: String)
    ensures
        exists|received_at: Seq<char>|
            is_utc_time(received_at) && prompt@ == #[trigger] prompt_text(
                message@,
                received_at,
                payload_text(message@.payload, json_printed(message@.payload)),
            ),
{
    let printed = print(&message.payload);
    let received_at = current_time();
    inbound_prompt_at(message, received_at.as_str(), &printed)
}

/// An event of the inbox with an identity and a text is a message with just
/// those; where it names no source and no way of delivery, the inbox is both.
/// Without one of the two, and of another kind, it is none.
pub proof fn lemma_message_is_read(event: JsonView, data: JsonView)
    requires
        field(event, "data"@) == Some(data),
    ensures
        text_field(event, "kind"@) != Some("inbound_message"@) ==> message_in(event) is None,
        text_field(data, "message_id"@) is None || text_field(data, "text"@) is None ==> message_in(
            event,
        ) is None,
        text_field(event, "kind"@) == Some("inbound_message"@) && text_field(data, "message_id"@)
            is Some && text_field(data, "text"@) is Some ==> (message_in(event) matches Some(message)
            && Some(message.message_id) == text_field(data, "message_id"@) && Some(message.text)
            == text_field(data, "text"@) && (text_field(data, "source"@) matches Some(source)
            ==> message.source == source) && (text_field(data, "source"@) is None ==> message.source
            == "inbox"@) && (text_field(data, "delivery_method"@) matches Some(way)
            ==> message.delivery_method == way) && (text_field(data, "delivery_method"@) is None
            ==> message.delivery_method == "inbox"@) && (field(data, "payload"@) matches Some(payload)
            ==> message.payload == payload) && (field(data, "payload"@) is None ==> message.payload
            == JsonView::Null)),
{
}

/// The command that a message becomes tells its text, its source, the way it came
/// and when, and ends with what it carries.
pub proof fn lemma_command_tells_the_message(
    message: MessageView,
    received_at: Seq<char>,
    payload: Seq<char>,
)
    ensures
        has_text(prompt_text(message, received_at, payload), "Message: "@ + message.text),
        has_text(prompt_text(message, received_at, payload), " from source "@ + message.source),
        has_text(prompt_text(message, received_at, payload), " via "@ + message.delivery_method),
        has_text(prompt_text(message, received_at, payload), " received at "@ + received_at),
        ends_with(prompt_text(message, received_at, payload), "Payload JSON: "@ + payload),
{
    let prompt = prompt_text(message, received_at, payload);
    let opening = "Inbound cua message received at "@;
    let asked = ".\nTreat this exactly like a user command. Check current desktop context when useful, use tools when needed, and verify visible effects before finishing.\nMessage: "@;
    let carried = "\nPayload JSON: "@;
    reveal_strlit("Inbound cua message received at ");
    reveal_strlit(" received at ");
    reveal_strlit(
        ".\nTreat this exactly like a user command. Check current desktop context when useful, use tools when needed, and verify visible effects before finishing.\nMessage: ",
    );
    reveal_strlit("Message: ");
    reveal_strlit("\nPayload JSON: ");
    reveal_strlit("Payload JSON: ");
    let via = (opening.len() + received_at.len()) as int;
    let from = via + " via "@.len() + message.delivery_method.len();
    let ask = from + " from source "@.len() + message.source.len();
    let text = ask + asked.len();
    let pay = text + message.text.len();
    let received = " received at "@ + received_at;
    assert(opening.len() == 32 && " received at "@.len() == 13);
    assert(opening.subrange(19, 32) =~= " received at "@);
    assert(prompt.subrange(19, 19int + received.len()) =~= received);
    assert(occurs_at(prompt, received, 19));
    let way = " via "@ + message.delivery_method;
    assert(prompt.subrange(via, via + way.len()) =~= way);
    assert(occurs_at(prompt, way, via));
    let source = " from source "@ + message.source;
    assert(prompt.subrange(from, from + source.len()) =~= source);
    assert(occurs_at(prompt, source, from));
    let said = "Message: "@ + message.text;
    let mark = "Message: "@.len() as int;
    assert(asked.subrange(asked.len() - mark, asked.len() as int) =~= "Message: "@);
    assert(prompt.subrange(text - mark, text - mark + said.len()) =~= said);
    assert(occurs_at(prompt, said, text - mark));
    let end = "Payload JSON: "@ + payload;
    assert(carried.subrange(1, carried.len() as int) =~= "Payload JSON: "@);
    assert(prompt.len() == pay + carried.len() + payload.len());
    assert(prompt.subrange(pay + 1, pay + 1 + end.len()) =~= end);
    assert(occurs_at(prompt, end, pay + 1));
}

/// A message that carries nothing carries an empty object.
pub proof fn lemma_nothing_is_an_empty_object(payload: JsonView, printed: Seq<char>)
    ensures
        payload_text(JsonView::Null, Some(printed)) == "{}"@,
        !(payload is Null) ==> payload_text(payload, Some(printed)) == printed,
{
}

} // verus!
