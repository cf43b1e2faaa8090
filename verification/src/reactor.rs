//! Register interest in events and wake futures when the event occurs
//!
//! ## Reactor
//! The Reactor stores a register of all the events that are currently being listened for.
//!
//! ## Events
//! An event is defined as an external message coming in notifying the engine that something
//! has occurred, such as the response to an activity.

use vstd::prelude::*;

use std::task::Waker;

use crate::registry::Registry;

verus! {

/// A sum type/algebraic data type containing all the different types of Event that could occur
#[derive(Debug)]
pub enum Event {
    /// Defines the fields needed to execute an activity
    Activity { node_id: String, activity_id: String, waker: Waker },
    /// The activity requested under `node_id` is no longer waited on: its job was cancelled
    Withdraw { node_id: String },
}

/// The register after an event is received: an activity's waker under its node id; a
/// withdrawal takes the node id's waker out.
pub open spec fn registered(events: Map<Seq<char>, Waker>, event: Event) -> Map<Seq<char>, Waker> {
    match event {
        Event::Activity { node_id, waker, .. } => events.insert(node_id@, waker),
        Event::Withdraw { node_id } => events.remove(node_id@),
    }
}

/// The node id an event is about.
pub open spec fn event_node_id(event: Event) -> Seq<char> {
    match event {
        Event::Activity { node_id, .. } => node_id@,
        Event::Withdraw { node_id } => node_id@,
    }
}

/// The waker that a response for `node_id` hands back: the one registered under it, if any.
pub open spec fn woken(events: Map<Seq<char>, Waker>, node_id: Seq<char>) -> Option<Waker> {
    if events.contains_key(node_id) {
        Some(events[node_id])
    } else {
        None
    }
}

/// The text that a sequence of bytes encodes in UTF-8; `None` where it is not valid UTF-8.
/// Validity and decoding take a page to state; the result depends on the bytes alone.
pub uninterp spec fn utf8_decoded(bytes: Seq<u8>) -> Option<Seq<char>>;

/// The string that a JSON text holds; `None` where the text is not one JSON string, with
/// optional whitespace around it. The JSON grammar and its escapes take pages to state; the
/// result depends on the text alone.
pub uninterp spec fn json_string_value(text: Seq<char>) -> Option<Seq<char>>;

/// The bytes of a text written as a JSON string; `None` where writing fails.
pub uninterp spec fn json_string_bytes(text: Seq<char>) -> Option<Seq<u8>>;

/// Every byte is ASCII.
pub open spec fn ascii_bytes(bytes: Seq<u8>) -> bool {
    forall|i: int| 0 <= i < bytes.len() ==> #[trigger] bytes[i] < 128
}

/// The characters that ASCII bytes stand for.
pub open spec fn ascii_chars(bytes: Seq<u8>) -> Seq<char> {
    bytes.map_values(|b: u8| b as char)
}

/// A text that JSON writes between quotes as it stands: ASCII, with no quote, no backslash
/// and no control character.
pub open spec fn plain_json(text: Seq<char>) -> bool {
    forall|i: int|
        0 <= i < text.len() ==> ' ' <= #[trigger] text[i] && text[i] < '\u{7f}' && text[i]
            != '"' && text[i] != '\\'
}

/// Calls `std::str::from_utf8` on the bytes and copies the text out: the result is
/// [`utf8_decoded`] of the bytes, and ASCII bytes decode to the characters they stand for.
#[verifier::external_body]
fn decode_utf8(bytes: &[u8]) -> (text: Option<String>)
    ensures
        match text {
            Some(t) => utf8_decoded(bytes@) == Some(t@),
            None => utf8_decoded(bytes@) is None,
        },
        ascii_bytes(bytes@) ==> text is Some && text.unwrap()@ == ascii_chars(bytes@),
{
    match std::str::from_utf8(bytes) {
        Ok(text) => Some(text.to_string()),
        Err(_) => None,
    }
}

/// Calls `serde_json::from_str::<String>` on the text: the result is [`json_string_value`]
/// of the text, and a plain text between quotes reads back as itself.
#[verifier::external_body]
fn parse_json_string(text: &str) -> (value: Option<String>)
    ensures
        match value {
            Some(v) => json_string_value(text@) == Some(v@),
            None => json_string_value(text@) is None,
        },
        forall|inner: Seq<char>|
            plain_json(inner) && text@ == seq!['"'] + inner + seq!['"'] ==> value is Some
                && value.unwrap()@ == inner,
{
    match serde_json::from_str::<String>(text) {
        Ok(value) => Some(value),
        Err(_) => None,
    }
}

/// Calls `serde_json::to_vec` on the text: the result is [`json_string_bytes`] of the text,
/// and a plain text comes out between quotes as it stands.
#[verifier::external_body]
fn write_json_string(text: &str) -> (bytes: Option<Vec<u8>>)
    ensures
        match bytes {
            Some(b) => json_string_bytes(text@) == Some(b@),
            None => json_string_bytes(text@) is None,
        },
        plain_json(text@) ==> bytes is Some && bytes.unwrap()@ == seq![34u8] + text@.map_values(
            |c: char| c as u8,
        ) + seq![34u8],
{
    match serde_json::to_vec(text) {
        Ok(bytes) => Some(bytes),
        Err(_) => None,
    }
}

/// The node id that an `activity.response` payload carries: the JSON string that its UTF-8
/// text holds.
pub open spec fn response_node_id(payload: Seq<u8>) -> Option<Seq<char>> {
    match utf8_decoded(payload) {
        Some(text) => json_string_value(text),
        None => None,
    }
}

/// The node id that an `activity.response` payload carries (see [`response_node_id`]).
pub fn node_id_of_response(payload: &[u8]) -> (node_id: Option<String>)
    ensures
        match node_id {
            Some(id) => response_node_id(payload@) == Some(id@),
            None => response_node_id(payload@) is None,
        },
{
    match decode_utf8(payload) {
        Some(text) => parse_json_string(text.as_str()),
        None => None,
    }
}

/// The payload published to ask for an activity: its node id written as a JSON string.
pub open spec fn request_payload(node_id: Seq<char>) -> Option<Seq<u8>> {
    json_string_bytes(node_id)
}

/// The Reactor stores event references for the events currently being waited on
pub struct Reactor {
    /// A dictionary of events where the key is a unique identifier to the event
    /// and the value is the waker that resumes the waiting future
    pub events: Registry<Waker>,
}

impl Reactor {
    /// Create a new reactor with an empty events register
    pub fn new() -> (reactor: Self)
        ensures
            reactor.events@ == Map::<Seq<char>, Waker>::empty(),
    {
        Reactor { events: Registry::new() }
    }

    /// Receives an event. An activity's waker goes into the register under its node id, and
    /// the payload that asks for the activity comes back, to be published: the node id
    /// written as a JSON string (see [`request_payload`]). A withdrawal drops the waker
    /// registered under its node id, and nothing is published.
    pub fn receive(&mut self, event: Event) -> (publish: Option<Vec<u8>>)
        ensures
            final(self).events@ == registered(old(self).events@, event),
            match event {
                Event::Activity { node_id, .. } => match publish {
                    Some(p) => request_payload(node_id@) == Some(p@),
                    None => request_payload(node_id@) is None,
                },
                Event::Withdraw { .. } => publish is None,
            },
    {
        match event {
            Event::Activity { node_id, activity_id: _activity_id, waker } => {
                let published = write_json_string(node_id.as_str());
                self.events.insert(node_id, waker);
                published
            },
            Event::Withdraw { node_id } => {
                let _dropped = self.events.remove(node_id.as_str());
                None
            },
        }
    }

    /// A response has come in for `node_id`: its waker leaves the register and comes back,
    /// to be woken; `None` where nothing waits under that id.
    pub fn respond(&mut self, node_id: &str) -> (waker: Option<Waker>)
        ensures
            waker == woken(old(self).events@, node_id@),
            final(self).events@ == old(self).events@.remove(node_id@),
    {
        self.events.remove(node_id)
    }

    /// A response payload has come in: the waker registered under the node id it carries
    /// (see [`response_node_id`]) leaves the register and comes back, to be woken. A payload
    /// that carries no node id changes nothing and wakes nothing.
    pub fn respond_to_payload(&mut self, payload: &[u8]) -> (waker: Option<Waker>)
        ensures
            match response_node_id(payload@) {
                Some(id) => waker == woken(old(self).events@, id) && final(self).events@ == old(
                    self,
                ).events@.remove(id),
                None => waker is None && final(self).events@ == old(self).events@,
            },
    {
        match node_id_of_response(payload) {
            Some(node_id) => self.respond(node_id.as_str()),
            None => None,
        }
    }
}

/// A response to the node id of a registered activity hands back that activity's waker, and
/// a second response to the same id finds nothing: each registered waker is woken at most
/// once. Responses to other ids neither see it nor disturb it, and once the activity is
/// withdrawn no response finds it.
pub proof fn law_response_wakes_registered_once(
    events: Map<Seq<char>, Waker>,
    event: Event,
    other: Seq<char>,
)
    requires
        event is Activity,
        other != event_node_id(event),
    ensures
        woken(registered(events, event), event_node_id(event)) == Some(event->waker),
        woken(
            registered(
                registered(events, event),
                Event::Withdraw { node_id: event->Activity_node_id },
            ),
            event_node_id(event),
        ) is None,
        woken(registered(events, event).remove(event_node_id(event)), event_node_id(event))
            is None,
        woken(registered(events, event), other) == woken(events, other),
        registered(events, event).remove(other).remove(event_node_id(event))
            == events.remove(other).remove(event_node_id(event)),
{
    assert(registered(events, event).remove(other).remove(event_node_id(event))
        =~= events.remove(other).remove(event_node_id(event)));
}

/// Receiving an event touches the register only under that event's own node id: every
/// other id keeps exactly the waker it had, or stays absent. An activity leaves its waker
/// under its id; a withdrawal leaves nothing there.
pub proof fn law_receive_touches_only_its_id(events: Map<Seq<char>, Waker>, event: Event, k: Seq<char>)
    requires
        k != event_node_id(event),
    ensures
        registered(events, event).contains_key(k) == events.contains_key(k),
        events.contains_key(k) ==> registered(events, event)[k] == events[k],
        event is Activity ==> registered(events, event).contains_key(event_node_id(event))
            && registered(events, event)[event_node_id(event)] == event->waker,
        event is Withdraw ==> !registered(events, event).contains_key(event_node_id(event)),
{
}

/// Two activities waiting under different ids: withdrawing the first leaves the second's
/// waker to be woken by its own response, and the register then holds nothing else that
/// was not there before.
pub proof fn law_withdrawal_spares_others(
    events: Map<Seq<char>, Waker>,
    first: Event,
    second: Event,
)
    requires
        first is Activity,
        second is Activity,
        event_node_id(first) != event_node_id(second),
    ensures
        woken(
            registered(
                registered(registered(events, first), second),
                Event::Withdraw { node_id: first->Activity_node_id },
            ),
            event_node_id(second),
        ) == Some(second->waker),
        registered(
            registered(registered(events, first), second),
            Event::Withdraw { node_id: first->Activity_node_id },
        ) == events.remove(event_node_id(first)).insert(event_node_id(second), second->waker),
{
    assert(registered(
        registered(registered(events, first), second),
        Event::Withdraw { node_id: first->Activity_node_id },
    ) =~= events.remove(event_node_id(first)).insert(event_node_id(second), second->waker));
}

} // verus!
