//! From a pushed event to a message.

use crate::contracts::{Channel, ChatType, InboundMessage, InboundView};
use crate::feishu::{member_text, text_in};
use crate::json::{
    at, holds_object, items_view, json_document, lemma_items_view, member, parse_json, text_of,
    text_under, Json, JsonView,
};
use crate::text::{or_text, same, view_all, view_opt};
use vstd::prelude::*;

verus! {

pub const EVENT_TYPE: [&'static str; 2] = ["header", "event_type"];

pub const SENDER_ID: [&'static str; 3] = ["sender", "sender_id", "open_id"];

/// The text that a path of names leads to, or nothing where it leads to none.
pub open spec fn text_at(j: JsonView, path: Seq<&'static str>) -> Seq<char> {
    or_text(text_of(at(j, path)), ""@)
}

fn read_text_at(j: &Json, path: &[&'static str]) -> (r: String)
    ensures
        r@ == text_at(j@, path@),
{
    match j.path(path) {
        Some(inner) => match inner.as_str() {
            Some(s) => s.to_owned(),
            None => "".to_owned(),
        },
        None => "".to_owned(),
    }
}

/// The message that an event is about, if it is the event of a received message.
pub open spec fn event_body(j: JsonView) -> Option<(JsonView, JsonView)> {
    if text_at(j, EVENT_TYPE@) != "im.message.receive_v1"@ {
        None
    } else {
        match member(j, "event"@) {
            Some(event) => match member(event, "message"@) {
                Some(message) => Some((event, message)),
                None => None,
            },
            None => None,
        }
    }
}

fn find_event_body<'a>(j: &'a Json) -> (r: Option<(&'a Json, &'a Json)>)
    ensures
        match r {
            Some(p) => event_body(j@) == Some((p.0@, p.1@)),
            None => event_body(j@) is None,
        },
{
    let event_type = read_text_at(j, EVENT_TYPE.as_slice());
    if !same(event_type.as_str(), "im.message.receive_v1") {
        return None;
    }
    match j.get("event") {
        Some(event) => match event.get("message") {
            Some(message) => Some((event, message)),
            None => None,
        },
        None => None,
    }
}

/// The content of a message: a JSON document in a text.
pub open spec fn content_text(j: JsonView) -> Option<Seq<char>> {
    match event_body(j) {
        Some(body) => member_text(body.1, "content"@),
        None => None,
    }
}

/// The content of the message that an event is about.
pub fn event_content(j: &Json) -> (r: Option<String>)
    ensures
        view_opt(r) == content_text(j@),
{
    match find_event_body(j) {
        Some((_, message)) => text_in(message, "content"),
        None => None,
    }
}

/// The kind of chat that a name stands for.
pub open spec fn chat_type_of(name: Option<Seq<char>>) -> ChatType {
    if name == Some("p2p"@) {
        ChatType::P2p
    } else if name == Some("group"@) {
        ChatType::Group
    } else {
        ChatType::Unknown
    }
}

fn read_chat_type(name: Option<String>) -> (r: ChatType)
    ensures
        r == chat_type_of(view_opt(name)),
{
    match name {
        Some(s) => if same(s.as_str(), "p2p") {
            ChatType::P2p
        } else if same(s.as_str(), "group") {
            ChatType::Group
        } else {
            ChatType::Unknown
        },
        None => ChatType::Unknown,
    }
}

/// The ids of some mentions; one without an id is left out.
pub open spec fn mention_ids(items: Seq<JsonView>) -> Seq<Seq<char>>
    decreases items.len(),
{
    if items.len() == 0 {
        seq![]
    } else {
        let before = mention_ids(items.drop_last());
        match member_text(items.last(), "id"@) {
            Some(id) => before.push(id),
            None => before,
        }
    }
}

/// The ids of the mentions in a message.
pub open spec fn mentions_in(message: JsonView) -> Seq<Seq<char>> {
    match member(message, "mentions"@) {
        Some(JsonView::List(items)) => mention_ids(items),
        _ => seq![],
    }
}

fn read_mentions(message: &Json) -> (r: Vec<String>)
    ensures
        view_all(r@) == mentions_in(message@),
{
    let mut out: Vec<String> = Vec::new();
    assert(view_all(out@) =~= seq![]);
    let items: &Vec<Json> = match message.get("mentions") {
        Some(list) => match list.as_list() {
            Some(items) => items,
            None => {
                return out;
            },
        },
        None => {
            return out;
        },
    };
    let ghost model = items_view(items@);
    let mut i: usize = 0;
    proof {
        lemma_items_view(items@);
        assert(model.take(0) =~= seq![]);
    }
    while i < items.len()
        invariant
            i <= items@.len(),
            model == items_view(items@),
            model.len() == items@.len(),
            forall|j: int| 0 <= j < items@.len() ==> #[trigger] model[j] == items@[j]@,
            view_all(out@) == mention_ids(model.take(i as int)),
        decreases items@.len() - i,
    {
        proof {
            assert(model.take(i + 1).drop_last() =~= model.take(i as int));
            assert(model.take(i + 1).last() == model[i as int]);
        }
        let ghost before = view_all(out@);
        match text_in(&items[i], "id") {
            Some(id) => {
                out.push(id);
                assert(view_all(out@) =~= before.push(id@));
            },
            None => {},
        }
        i += 1;
    }
    assert(model.take(i as int) =~= model);
    out
}

/// The view of an optional message.
pub open spec fn view_message(o: Option<InboundMessage>) -> Option<InboundView> {
    match o {
        Some(m) => Some(m@),
        None => None,
    }
}

/// The message in an event, given the document that its content is.
pub open spec fn message_in(j: JsonView, content: Option<JsonView>) -> Option<InboundView> {
    match event_body(j) {
        None => None,
        Some(body) => Some(
            InboundView {
                channel: Channel::Feishu,
                sender_id: text_at(body.0, SENDER_ID@),
                text: match content {
                    Some(c) => or_text(member_text(c, "text"@), ""@),
                    None => ""@,
                },
                message_id: or_text(member_text(body.1, "message_id"@), ""@),
                chat_type: chat_type_of(member_text(body.1, "chat_type"@)),
                chat_id: or_text(member_text(body.1, "chat_id"@), ""@),
                mentions: mentions_in(body.1),
            },
        ),
    }
}

fn text_or_empty(j: &Json, key: &str) -> (r: String)
    ensures
        r@ == or_text(member_text(j@, key@), ""@),
{
    match text_in(j, key) {
        Some(s) => s,
        None => "".to_owned(),
    }
}

/// The view of an optional document.
pub open spec fn view_document(o: Option<Json>) -> Option<JsonView> {
    match o {
        Some(j) => Some(j@),
        None => None,
    }
}

/// The message in an event, given the document that its content is.
pub fn message_from_event(j: &Json, content: Option<Json>) -> (r: Option<InboundMessage>)
    ensures
        view_message(r) == message_in(j@, view_document(content)),
{
    match find_event_body(j) {
        None => None,
        Some((event, message)) => {
            let text: String = match content {
                Some(c) => text_or_empty(&c, "text"),
                None => "".to_owned(),
            };
            Some(
                InboundMessage {
                    channel: Channel::Feishu,
                    sender_id: read_text_at(event, SENDER_ID.as_slice()),
                    text,
                    message_id: text_or_empty(message, "message_id"),
                    chat_type: read_chat_type(text_in(message, "chat_type")),
                    chat_id: text_or_empty(message, "chat_id"),
                    mentions: read_mentions(message),
                },
            )
        },
    }
}

/// The message in a raw event.
pub open spec fn event_message(raw: Seq<char>) -> Option<InboundView> {
    match json_document(raw) {
        None => None,
        Some(j) => message_in(
            j,
            match content_text(j) {
                Some(content) => json_document(content),
                None => None,
            },
        ),
    }
}

/// Reads a raw event. Only `im.message.receive_v1` events hold a message.
pub fn parse_event_json(raw: &str) -> (r: Option<InboundMessage>)
    ensures
        view_message(r) == event_message(raw@),
{
    let j = match parse_json(raw) {
        Ok(j) => j,
        Err(_) => {
            return None;
        },
    };
    let content: Option<Json> = match event_content(&j) {
        Some(s) => match parse_json(s.as_str()) {
            Ok(c) => Some(c),
            Err(_) => None,
        },
        None => None,
    };
    message_from_event(&j, content)
}

// ---------------------------------------------------------------------------
// Laws
// ---------------------------------------------------------------------------

/// An event of another type is no message, whatever else is in it.
pub proof fn other_events_are_ignored(j: JsonView, content: Option<JsonView>)
    requires
        text_at(j, EVENT_TYPE@) != "im.message.receive_v1"@,
    ensures
        message_in(j, content) is None,
{
}

/// The event of a received message is a message as soon as it holds one, whatever is
/// missing in it: what is missing is empty.
pub proof fn received_message_is_read(j: JsonView, content: Option<JsonView>)
    requires
        text_at(j, EVENT_TYPE@) == "im.message.receive_v1"@,
        member(j, "event"@) is Some,
        member(member(j, "event"@)->0, "message"@) is Some,
    ensures
        message_in(j, content) is Some,
{
}

/// The message of an event says what the event holds, character by character: its text
/// is the text in the content, whatever it holds, and its ids are those of the event.
pub proof fn message_says_what_was_sent(
    top: Map<Seq<char>, JsonView>,
    header: Map<Seq<char>, JsonView>,
    event: Map<Seq<char>, JsonView>,
    message: Map<Seq<char>, JsonView>,
    content: Map<Seq<char>, JsonView>,
)
    requires
        holds_object(top, "header"@, header),
        text_under(header, "event_type"@) == "im.message.receive_v1"@,
        holds_object(top, "event"@, event),
        holds_object(event, "message"@, message),
    ensures
        ({
            let m = message_in(JsonView::Object(top), Some(JsonView::Object(content)));
            &&& m is Some
            &&& m->0.channel == Channel::Feishu
            &&& m->0.text == text_under(content, "text"@)
            &&& m->0.message_id == text_under(message, "message_id"@)
            &&& m->0.chat_id == text_under(message, "chat_id"@)
            &&& text_under(message, "chat_type"@) == "p2p"@ ==> m->0.chat_type == ChatType::P2p
            &&& text_under(message, "chat_type"@) == "group"@ ==> m->0.chat_type == ChatType::Group
            &&& text_under(message, "chat_type"@) != "p2p"@ && text_under(message, "chat_type"@)
                != "group"@ ==> m->0.chat_type == ChatType::Unknown
        }),
{
    reveal_with_fuel(at, 4);
    reveal_strlit("");
    reveal_strlit("im.message.receive_v1");
    reveal_strlit("p2p");
    reveal_strlit("group");
    let j = JsonView::Object(top);
    assert(EVENT_TYPE@[0]@ == "header"@ && EVENT_TYPE@[1]@ == "event_type"@);
    assert(EVENT_TYPE@.skip(1)[0] == EVENT_TYPE@[1]);
    assert(EVENT_TYPE@.skip(1).skip(1).len() == 0);
    assert(at(j, EVENT_TYPE@) == member(JsonView::Object(header), "event_type"@));
    assert(text_at(j, EVENT_TYPE@) =~= "im.message.receive_v1"@);
    let m = message_in(j, Some(JsonView::Object(content)));
    assert(m->0.text =~= text_under(content, "text"@));
    assert(m->0.message_id =~= text_under(message, "message_id"@));
    assert(m->0.chat_id =~= text_under(message, "chat_id"@));
    let kind = text_under(message, "chat_type"@);
    assert("p2p"@ != "group"@) by {
        assert("p2p"@.len() != "group"@.len());
    }
    if message.contains_key("chat_type"@) && message["chat_type"@] is Text {
        assert(member_text(JsonView::Object(message), "chat_type"@) == Some(kind));
    } else {
        assert(member_text(JsonView::Object(message), "chat_type"@) is None);
        assert(kind.len() == 0);
    }
}

/// The sender of the message is the one that the event names.
pub proof fn message_names_its_sender(
    j: JsonView,
    content: Option<JsonView>,
    event: Map<Seq<char>, JsonView>,
    sender: Map<Seq<char>, JsonView>,
    ids: Map<Seq<char>, JsonView>,
)
    requires
        message_in(j, content) is Some,
        member(j, "event"@) == Some(JsonView::Object(event)),
        holds_object(event, "sender"@, sender),
        holds_object(sender, "sender_id"@, ids),
    ensures
        message_in(j, content)->0.sender_id == text_under(ids, "open_id"@),
{
    reveal_with_fuel(at, 5);
    reveal_strlit("");
    assert(SENDER_ID@[0]@ == "sender"@ && SENDER_ID@[1]@ == "sender_id"@ && SENDER_ID@[2]@
        == "open_id"@);
    assert(SENDER_ID@.skip(1)[0] == SENDER_ID@[1]);
    assert(SENDER_ID@.skip(1).skip(1)[0] == SENDER_ID@[2]);
    assert(SENDER_ID@.skip(1).skip(1).skip(1).len() == 0);
    assert(at(JsonView::Object(event), SENDER_ID@) == member(JsonView::Object(ids), "open_id"@));
    assert(message_in(j, content)->0.sender_id =~= text_under(ids, "open_id"@));
}

/// The mentions of a message are the ids of all that it mentions, in order; one more
/// with an id is one more, and one without changes nothing.
pub proof fn mentions_are_all_read(
    message: Map<Seq<char>, JsonView>,
    items: Seq<JsonView>,
    last: Map<Seq<char>, JsonView>,
    id: Seq<char>,
)
    requires
        message.contains_key("mentions"@),
        message["mentions"@] == JsonView::List(items.push(JsonView::Object(last))),
    ensures
        ({
            let before = JsonView::Object(message.insert("mentions"@, JsonView::List(items)));
            let with_last = JsonView::Object(message);
            let none = JsonView::Object(message.insert("mentions"@, JsonView::List(seq![])));
            &&& last.contains_key("id"@) && last["id"@] == JsonView::Text(id) ==> mentions_in(
                with_last,
            ) == mentions_in(before).push(id)
            &&& !last.contains_key("id"@) || !(last["id"@] is Text) ==> mentions_in(with_last)
                == mentions_in(before)
            &&& mentions_in(none).len() == 0
        }),
{
    let all = items.push(JsonView::Object(last));
    assert(all.drop_last() =~= items);
    assert(all.last() == JsonView::Object(last));
}

/// A raw event is read through: where it and the content of its message are documents,
/// the message is that of those documents, and where the content is none, the text of
/// the message is empty.
pub proof fn raw_event_is_read_through(
    raw: Seq<char>,
    top: Map<Seq<char>, JsonView>,
    event: Map<Seq<char>, JsonView>,
    message: Map<Seq<char>, JsonView>,
    written: Seq<char>,
)
    requires
        json_document(raw) == Some(JsonView::Object(top)),
        event_message(raw) is Some,
        holds_object(top, "event"@, event),
        holds_object(event, "message"@, message),
    ensures
        event_message(raw) == message_in(
            JsonView::Object(top),
            if message.contains_key("content"@) && message["content"@] is Text {
                json_document(message["content"@]->Text_0)
            } else {
                None
            },
        ),
        message.contains_key("content"@) && message["content"@] == JsonView::Text(written)
            && json_document(written) is None ==> event_message(raw)->0.text.len() == 0,
        event_message(raw)->0.mentions == mentions_in(JsonView::Object(message)),
{
    reveal_strlit("");
}

} // verus!
