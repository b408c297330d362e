//! The Copilot Chat sessions of VS Code: reading them and showing them.

use crate::format::{shown, LIST_LIMIT};
use crate::feishu::{member_text, text_in};
use crate::json::{
    at, holds_object, items_view, json_document, lemma_items_view, member, members_view, natural,
    natural_number_reads_back, parse_json, text_of, Json, JsonView,
};
use crate::order::{
    in_order, is_before, lemma_place, text_lt, text_lt_irreflexive, text_lt_total,
    text_lt_transitive,
};
use crate::store::now_secs;
use crate::text::{decimal, decimal_of, glue, join, joined, or_text, same, view_all};
use vstd::prelude::*;

verus! {

// ---------------------------------------------------------------------------
// Sessions
// ---------------------------------------------------------------------------

/// A chat session of VS Code. The date is in milliseconds since 1970.
#[derive(Debug, Clone, PartialEq, Eq)]
pub struct VscodeChatSession {
    pub id: String,
    pub title: String,
    pub last_message_date: u64,
}

/// What a `VscodeChatSession` says.
#[verifier::ext_equal]
pub ghost struct ChatView {
    pub id: Seq<char>,
    pub title: Seq<char>,
    pub last_message_date: u64,
}

impl View for VscodeChatSession {
    type V = ChatView;

    open spec fn view(&self) -> ChatView {
        ChatView {
            id: self.id@,
            title: self.title@,
            last_message_date: self.last_message_date,
        }
    }
}

/// The views of some chat sessions.
pub open spec fn view_chats(chats: Seq<VscodeChatSession>) -> Seq<ChatView> {
    chats.map_values(|c: VscodeChatSession| c@)
}

/// The date in a description of a session; 0 where there is none.
pub open spec fn chat_date(meta: JsonView) -> nat {
    match natural(member(meta, "lastMessageDate"@), u64::MAX as nat) {
        Some(n) => n,
        None => 0,
    }
}

/// The session that a description stands for.
pub open spec fn chat_of(id: Seq<char>, meta: JsonView) -> ChatView {
    ChatView {
        id,
        title: or_text(member_text(meta, "title"@), "(no title)"@),
        last_message_date: chat_date(meta) as u64,
    }
}

fn read_chat(id: &str, meta: &Json) -> (r: VscodeChatSession)
    ensures
        r@ == chat_of(id@, meta@),
{
    let title: String = match text_in(meta, "title") {
        Some(s) => s,
        None => "(no title)".to_owned(),
    };
    let last_message_date: u64 = match meta.get("lastMessageDate") {
        Some(j) => match j.as_u64() {
            Some(n) => n,
            None => 0,
        },
        None => 0,
    };
    VscodeChatSession { id: id.to_owned(), title, last_message_date }
}

/// The descriptions in an index of sessions, by id.
pub open spec fn chat_entries(index: JsonView) -> Map<Seq<char>, JsonView> {
    match member(index, "entries"@) {
        Some(JsonView::Object(m)) => m,
        _ => Map::empty(),
    }
}

/// Whether `chats` are the sessions that some descriptions stand for, each one once, in
/// the order of their ids.
pub open spec fn lists_chats(chats: Seq<ChatView>, entries: Map<Seq<char>, JsonView>) -> bool {
    &&& forall|i: int, j: int|
        #![trigger chats[i], chats[j]]
        0 <= i < j < chats.len() ==> text_lt(chats[i].id, chats[j].id)
    &&& forall|i: int|
        0 <= i < chats.len() ==> entries.contains_key((#[trigger] chats[i]).id) && chats[i]
            == chat_of(chats[i].id, entries[chats[i].id])
    &&& forall|id: Seq<char>| #[trigger]
        entries.contains_key(id) ==> exists|i: int|
            0 <= i < chats.len() && (#[trigger] chats[i]).id == id
}

/// Whether the member `k` is the last one with its name.
pub open spec fn is_last_named(members: Seq<(String, Json)>, k: int) -> bool {
    forall|j: int| k < j < members.len() ==> (#[trigger] members[j]).0@ != members[k].0@
}

fn has_no_later(members: &Vec<(String, Json)>, k: usize) -> (r: bool)
    requires
        k < members@.len(),
    ensures
        r == is_last_named(members@, k as int),
{
    let n: usize = members.len();
    let mut i: usize = k + 1;
    while i < n
        invariant
            n == members@.len(),
            k < i <= members@.len(),
            forall|j: int| k < j < i ==> (#[trigger] members@[j]).0@ != members@[k as int].0@,
        decreases members@.len() - i,
    {
        if same(members[i].0.as_str(), members[k].0.as_str()) {
            assert(members@[i as int].0@ == members@[k as int].0@);
            return false;
        }
        i += 1;
    }
    true
}

proof fn lemma_last_named(members: Seq<(String, Json)>, k: int)
    requires
        0 <= k < members.len(),
        is_last_named(members, k),
    ensures
        members_view(members).contains_key(members[k].0@),
        members_view(members)[members[k].0@] == members[k].1@,
    decreases members.len(),
{
    if k < members.len() - 1 {
        let init = members.drop_last();
        assert forall|j: int| k < j < init.len() implies (#[trigger] init[j]).0@ != init[k].0@ by {
            assert(init[j] == members[j]);
        }
        lemma_last_named(init, k);
        assert(members.last().0@ != members[k].0@);
    }
}

proof fn lemma_named_somewhere(members: Seq<(String, Json)>, id: Seq<char>) -> (k: int)
    requires
        members_view(members).contains_key(id),
    ensures
        0 <= k < members.len(),
        members[k].0@ == id,
        is_last_named(members, k),
    decreases members.len(),
{
    if members.last().0@ == id {
        members.len() - 1
    } else {
        let init = members.drop_last();
        let k = lemma_named_somewhere(init, id);
        assert forall|j: int| k < j < members.len() implies (#[trigger] members[j]).0@
            != members[k].0@ by {
            if j < init.len() {
                assert(init[j] == members[j]);
            }
        }
        k
    }
}

/// Puts a session where it belongs among sessions in the order of their ids.
fn insert_by_id(chats: &mut Vec<VscodeChatSession>, chat: VscodeChatSession) -> (r: usize)
    requires
        forall|i: int, j: int|
            #![trigger old(chats)@[i], old(chats)@[j]]
            0 <= i < j < old(chats)@.len() ==> text_lt(old(chats)@[i].id@, old(chats)@[j].id@),
        forall|i: int| 0 <= i < old(chats)@.len() ==> (#[trigger] old(chats)@[i]).id@ != chat.id@,
    ensures
        r <= old(chats)@.len(),
        final(chats)@ == old(chats)@.insert(r as int, chat),
        forall|i: int, j: int|
            #![trigger final(chats)@[i], final(chats)@[j]]
            0 <= i < j < final(chats)@.len() ==> text_lt(
                final(chats)@[i].id@,
                final(chats)@[j].id@,
            ),
{
    let ghost before = chats@;
    let mut k: usize = 0;
    while k < chats.len() && is_before(chats[k].id.as_str(), chat.id.as_str())
        invariant
            k <= chats@.len(),
            chats@ == before,
            forall|j: int| 0 <= j < k ==> text_lt((#[trigger] before[j]).id@, chat.id@),
        decreases chats@.len() - k,
    {
        k += 1;
    }
    chats.insert(k, chat);
    proof {
        let after = chats@;
        if k < before.len() {
            text_lt_total(before[k as int].id@, chat.id@);
        }
        assert forall|i: int, j: int|
            #![trigger after[i], after[j]]
            0 <= i < j < after.len() implies text_lt(after[i].id@, after[j].id@) by {
            if i < k && j > k {
                assert(after[i] == before[i] && after[j] == before[j - 1]);
            } else if i == k {
                assert(after[j] == before[j - 1]);
                if j - 1 > k {
                    assert(text_lt(before[k as int].id@, before[j - 1].id@));
                    text_lt_transitive(chat.id@, before[k as int].id@, before[j - 1].id@);
                }
            } else if i > k {
                assert(after[i] == before[i - 1] && after[j] == before[j - 1]);
            } else {
                assert(after[i] == before[i]);
            }
        }
    }
    k
}

/// Whether a session is one of those that the first `k` members stand for.
spec fn comes_from(members: Seq<(String, Json)>, k: int, chat: ChatView) -> bool {
    exists|p: int|
        0 <= p < k && is_last_named(members, p) && chat == chat_of(
            (#[trigger] members[p]).0@,
            members[p].1@,
        )
}

/// Whether one of some sessions has an id.
spec fn has_id(chats: Seq<ChatView>, id: Seq<char>) -> bool {
    exists|i: int| 0 <= i < chats.len() && (#[trigger] chats[i]).id == id
}

proof fn lemma_comes_from_more(members: Seq<(String, Json)>, k: int, chat: ChatView)
    requires
        comes_from(members, k, chat),
    ensures
        comes_from(members, k + 1, chat),
{
    let p = choose|p: int|
        0 <= p < k && is_last_named(members, p) && chat == chat_of(
            (#[trigger] members[p]).0@,
            members[p].1@,
        );
    assert(0 <= p < k + 1 && chat == chat_of(members[p].0@, members[p].1@));
}

proof fn lemma_other_id(members: Seq<(String, Json)>, k: int, chat: ChatView)
    requires
        0 <= k < members.len(),
        comes_from(members, k, chat),
    ensures
        chat.id != members[k].0@,
{
    let p = choose|p: int|
        0 <= p < k && is_last_named(members, p) && chat == chat_of(
            (#[trigger] members[p]).0@,
            members[p].1@,
        );
    assert(members[k].0@ != members[p].0@);
}

proof fn lemma_has_id_after_insert(chats: Seq<ChatView>, at_k: int, chat: ChatView, id: Seq<char>)
    requires
        0 <= at_k <= chats.len(),
        has_id(chats, id) || chat.id == id,
    ensures
        has_id(chats.insert(at_k, chat), id),
{
    let after = chats.insert(at_k, chat);
    if chat.id == id {
        assert(after[at_k].id == id);
    } else {
        let i = choose|i: int| 0 <= i < chats.len() && (#[trigger] chats[i]).id == id;
        if i < at_k {
            assert(after[i] == chats[i]);
        } else {
            assert(after[i + 1] == chats[i]);
        }
    }
}

proof fn lemma_all_listed(chats: Seq<ChatView>, members: Seq<(String, Json)>)
    requires
        forall|i: int, j: int|
            #![trigger chats[i], chats[j]]
            0 <= i < j < chats.len() ==> text_lt(chats[i].id, chats[j].id),
        forall|i: int|
            0 <= i < chats.len() ==> comes_from(members, members.len() as int, #[trigger] chats[i]),
        forall|p: int|
            0 <= p < members.len() && #[trigger] is_last_named(members, p) ==> has_id(
                chats,
                members[p].0@,
            ),
    ensures
        lists_chats(chats, members_view(members)),
{
    let entries = members_view(members);
    assert forall|i: int| 0 <= i < chats.len() implies entries.contains_key(
        (#[trigger] chats[i]).id,
    ) && chats[i] == chat_of(chats[i].id, entries[chats[i].id]) by {
        assert(comes_from(members, members.len() as int, chats[i]));
        let p = choose|p: int|
            0 <= p < members.len() && is_last_named(members, p) && chats[i] == chat_of(
                (#[trigger] members[p]).0@,
                members[p].1@,
            );
        lemma_last_named(members, p);
    }
    assert forall|id: Seq<char>| #[trigger] entries.contains_key(id) implies exists|i: int|
        0 <= i < chats.len() && (#[trigger] chats[i]).id == id by {
        let p = lemma_named_somewhere(members, id);
        assert(has_id(chats, members[p].0@));
    }
}

/// Reads the sessions from an index.
pub fn chats_in(index: &Json) -> (r: Vec<VscodeChatSession>)
    ensures
        lists_chats(view_chats(r@), chat_entries(index@)),
{
    let mut out: Vec<VscodeChatSession> = Vec::new();
    let members: &Vec<(String, Json)> = match index.get("entries") {
        Some(Json::Object(members)) => members,
        _ => {
            return out;
        },
    };
    let mut k: usize = 0;
    while k < members.len()
        invariant
            k <= members@.len(),
            forall|i: int, j: int|
                #![trigger out@[i], out@[j]]
                0 <= i < j < out@.len() ==> text_lt(out@[i].id@, out@[j].id@),
            forall|i: int|
                0 <= i < out@.len() ==> comes_from(members@, k as int, (#[trigger] out@[i])@),
            forall|p: int|
                0 <= p < k && #[trigger] is_last_named(members@, p) ==> has_id(
                    view_chats(out@),
                    members@[p].0@,
                ),
        decreases members@.len() - k,
    {
        let ghost before = out@;
        if has_no_later(members, k) {
            let chat = read_chat(members[k].0.as_str(), &members[k].1);
            proof {
                assert forall|i: int| 0 <= i < out@.len() implies (#[trigger] out@[i]).id@
                    != chat.id@ by {
                    lemma_other_id(members@, k as int, out@[i]@);
                    assert(chat@.id == members@[k as int].0@);
                }
            }
            let place: usize = insert_by_id(&mut out, chat);
            proof {
                let at_k = place as int;
                assert(comes_from(members@, k + 1, chat@)) by {
                    assert(chat@ == chat_of(members@[k as int].0@, members@[k as int].1@));
                }
                assert forall|i: int| 0 <= i < out@.len() implies comes_from(
                    members@,
                    k + 1,
                    (#[trigger] out@[i])@,
                ) by {
                    if i < at_k {
                        assert(out@[i] == before[i]);
                        lemma_comes_from_more(members@, k as int, before[i]@);
                    } else if i > at_k {
                        assert(out@[i] == before[i - 1]);
                        lemma_comes_from_more(members@, k as int, before[i - 1]@);
                    }
                }
                assert(view_chats(out@) =~= view_chats(before).insert(at_k, chat@));
                assert forall|p: int|
                    0 <= p < k + 1 && #[trigger] is_last_named(members@, p) implies has_id(
                    view_chats(out@),
                    members@[p].0@,
                ) by {
                    lemma_has_id_after_insert(
                        view_chats(before),
                        at_k,
                        chat@,
                        members@[p].0@,
                    );
                }
            }
        } else {
            proof {
                assert forall|i: int| 0 <= i < out@.len() implies comes_from(
                    members@,
                    k + 1,
                    (#[trigger] out@[i])@,
                ) by {
                    lemma_comes_from_more(members@, k as int, out@[i]@);
                }
            }
        }
        k += 1;
    }
    proof {
        let chats = view_chats(out@);
        assert forall|i: int, j: int|
            #![trigger chats[i], chats[j]]
            0 <= i < j < chats.len() implies text_lt(chats[i].id, chats[j].id) by {
            assert(text_lt(out@[i].id@, out@[j].id@));
        }
        lemma_all_listed(chats, members@);
    }
    out
}

/// The descriptions in the text of an index; there are none in what is no document.
pub open spec fn index_entries(raw: Seq<char>) -> Map<Seq<char>, JsonView> {
    match json_document(raw) {
        Some(index) => chat_entries(index),
        None => Map::empty(),
    }
}

/// Reads the sessions from the text of an index.
pub fn chats_in_text(raw: &str) -> (r: Vec<VscodeChatSession>)
    ensures
        lists_chats(view_chats(r@), index_entries(raw@)),
{
    match parse_json(raw) {
        Ok(index) => chats_in(&index),
        Err(_) => Vec::new(),
    }
}

/// The order of chat sessions: the latest in front.
pub open spec fn by_recent() -> spec_fn(ChatView, ChatView) -> bool {
    |a: ChatView, b: ChatView| b.last_message_date < a.last_message_date
}

/// Puts chat sessions in order, the latest in front. Sessions of the same date keep
/// their order.
pub fn sort_chats(chats: Vec<VscodeChatSession>) -> (r: Vec<VscodeChatSession>)
    ensures
        view_chats(r@) == in_order(view_chats(chats@), by_recent()),
{
    let ghost model = view_chats(chats@);
    let mut rest = chats;
    let mut out: Vec<VscodeChatSession> = Vec::new();
    let mut k: usize = 0;
    let n: usize = rest.len();
    assert(model.take(0) =~= seq![]);
    assert(view_chats(out@) =~= seq![]);
    while rest.len() > 0
        invariant
            k + rest@.len() == n,
            n == model.len(),
            view_chats(rest@) =~= model.skip(k as int),
            view_chats(out@) == in_order(model.take(k as int), by_recent()),
        decreases rest@.len(),
    {
        let ghost left = view_chats(rest@);
        assert(left[0] == model[k as int]);
        let item = rest.remove(0);
        assert(view_chats(rest@) =~= left.skip(1));
        assert(left.skip(1) =~= model.skip(k + 1));
        let ghost before = view_chats(out@);
        let mut i: usize = 0;
        while i < out.len() && out[i].last_message_date >= item.last_message_date
            invariant
                i <= out@.len(),
                before == view_chats(out@),
                forall|j: int| 0 <= j < i ==> !by_recent()(item@, #[trigger] before[j]),
            decreases out@.len() - i,
        {
            assert(before[i as int] == out@[i as int]@);
            i += 1;
        }
        proof {
            lemma_place(before, item@, by_recent(), i as int);
            assert(model.take(k + 1).drop_last() =~= model.take(k as int));
            assert(model.take(k + 1).last() == item@);
        }
        out.insert(i, item);
        assert(view_chats(out@) =~= before.insert(i as int, item@));
        k += 1;
    }
    assert(model.take(k as int) =~= model);
    out
}

/// Whether `all` are the sessions in some indexes, one index after the other.
pub open spec fn gathers(all: Seq<ChatView>, raws: Seq<Seq<char>>) -> bool
    decreases raws.len(),
{
    if raws.len() == 0 {
        all.len() == 0
    } else {
        exists|n: int|
            {
                &&& 0 <= n <= all.len()
                &&& gathers(#[trigger] all.take(n), raws.drop_last())
                &&& lists_chats(all.skip(n), index_entries(raws.last()))
            }
    }
}

/// The sessions in the indexes of some databases, the latest in front, given the texts of
/// the indexes.
pub fn read_vscode_chat_sessions(indexes: &Vec<String>) -> (r: Vec<VscodeChatSession>)
    ensures
        exists|all: Seq<ChatView>| #[trigger]
            gathers(all, view_all(indexes@)) && view_chats(r@) == in_order(all, by_recent()),
{
    let ghost raws = view_all(indexes@);
    let mut all: Vec<VscodeChatSession> = Vec::new();
    let mut k: usize = 0;
    assert(raws.take(0) =~= seq![]);
    while k < indexes.len()
        invariant
            k <= indexes@.len(),
            raws == view_all(indexes@),
            gathers(view_chats(all@), raws.take(k as int)),
        decreases indexes@.len() - k,
    {
        let ghost before = view_chats(all@);
        let mut more = chats_in_text(indexes[k].as_str());
        let ghost added = view_chats(more@);
        all.append(&mut more);
        proof {
            let now = view_chats(all@);
            let n = before.len() as int;
            assert(now.take(n) =~= before);
            assert(now.skip(n) =~= added);
            assert(raws.take(k + 1).drop_last() =~= raws.take(k as int));
            assert(raws.take(k + 1).last() == indexes@[k as int]@);
            assert(gathers(now.take(n), raws.take(k + 1).drop_last()));
        }
        k += 1;
    }
    assert(raws.take(k as int) =~= raws);
    let ghost found = view_chats(all@);
    assert(gathers(found, raws));
    sort_chats(all)
}

// ---------------------------------------------------------------------------
// Messages
// ---------------------------------------------------------------------------

pub const HISTORY_PATH: [&'static str; 2] = ["history", "copilot"];

/// The inputs among some items; an item without one is left out.
pub open spec fn inputs(items: Seq<JsonView>) -> Seq<Seq<char>>
    decreases items.len(),
{
    if items.len() == 0 {
        seq![]
    } else {
        let before = inputs(items.drop_last());
        match member_text(items.last(), "inputText"@) {
            Some(s) => before.push(s),
            None => before,
        }
    }
}

/// What the user typed, according to a memento.
pub open spec fn typed_in(memento: JsonView) -> Seq<Seq<char>> {
    match at(memento, HISTORY_PATH@) {
        Some(JsonView::List(items)) => inputs(items),
        _ => seq![],
    }
}

/// Reads what the user typed from a memento.
pub fn messages_in(memento: &Json) -> (r: Vec<String>)
    ensures
        view_all(r@) == typed_in(memento@),
{
    let mut out: Vec<String> = Vec::new();
    assert(view_all(out@) =~= seq![]);
    let items: &Vec<Json> = match memento.path(HISTORY_PATH.as_slice()) {
        Some(list) => match list.as_list() {
            Some(items) => items,
            None => {
                return out;
            },
        },
        None => {
            return out;
        },
    };
    let ghost model = items_view(items@);
    let mut i: usize = 0;
    proof {
        lemma_items_view(items@);
        assert(model.take(0) =~= seq![]);
    }
    while i < items.len()
        invariant
            i <= items@.len(),
            model == items_view(items@),
            model.len() == items@.len(),
            forall|j: int| 0 <= j < items@.len() ==> #[trigger] model[j] == items@[j]@,
            view_all(out@) == inputs(model.take(i as int)),
        decreases items@.len() - i,
    {
        proof {
            assert(model.take(i + 1).drop_last() =~= model.take(i as int));
            assert(model.take(i + 1).last() == model[i as int]);
        }
        let ghost before = view_all(out@);
        match text_in(&items[i], "inputText") {
            Some(s) => {
                out.push(s);
                assert(view_all(out@) =~= before.push(s@));
            },
            None => {},
        }
        i += 1;
    }
    assert(model.take(i as int) =~= model);
    out
}

/// Reads what the user typed from the text of a memento.
pub fn messages_in_text(raw: &str) -> (r: Vec<String>)
    ensures
        view_all(r@) == typed_in_text(raw@),
{
    match parse_json(raw) {
        Ok(memento) => messages_in(&memento),
        Err(_) => {
            let none: Vec<String> = Vec::new();
            assert(view_all(none@) =~= seq![]);
            none
        },
    }
}

/// What the user typed, according to the text of a memento.
pub open spec fn typed_in_text(raw: Seq<char>) -> Seq<Seq<char>> {
    match json_document(raw) {
        Some(memento) => typed_in(memento),
        None => seq![],
    }
}

/// What the user typed, according to the first of some mementos that knows anything.
pub open spec fn first_typed(raws: Seq<Seq<char>>) -> Seq<Seq<char>>
    decreases raws.len(),
{
    if raws.len() == 0 {
        seq![]
    } else if typed_in_text(raws[0]).len() > 0 {
        typed_in_text(raws[0])
    } else {
        first_typed(raws.skip(1))
    }
}

/// What the user typed lately, given the texts of the mementos of some databases.
pub fn read_vscode_recent_messages(mementos: &Vec<String>) -> (r: Vec<String>)
    ensures
        view_all(r@) == first_typed(view_all(mementos@)),
{
    let ghost raws = view_all(mementos@);
    let mut k: usize = 0;
    assert(raws.skip(0) =~= raws);
    while k < mementos.len()
        invariant
            k <= mementos@.len(),
            raws == view_all(mementos@),
            first_typed(raws) == first_typed(raws.skip(k as int)),
        decreases mementos@.len() - k,
    {
        assert(raws.skip(k as int)[0] == mementos@[k as int]@);
        assert(raws.skip(k as int).skip(1) =~= raws.skip(k + 1));
        let msgs = messages_in_text(mementos[k].as_str());
        assert(view_all(msgs@).len() == msgs@.len());
        if msgs.len() > 0 {
            return msgs;
        }
        k += 1;
    }
    let none: Vec<String> = Vec::new();
    assert(view_all(none@) =~= seq![]);
    none
}

pub const PROMPT_PATH: [&'static str; 2] = ["message", "text"];

/// The text of a request in a session.
pub open spec fn prompt_of(request: JsonView) -> Option<Seq<char>> {
    text_of(at(request, PROMPT_PATH@))
}

/// The texts of some requests; a request without one is left out.
pub open spec fn prompts(requests: Seq<JsonView>) -> Seq<Seq<char>>
    decreases requests.len(),
{
    if requests.len() == 0 {
        seq![]
    } else {
        let before = prompts(requests.drop_last());
        match prompt_of(requests.last()) {
            Some(s) => before.push(s),
            None => before,
        }
    }
}

/// What was asked in a session, according to its record.
pub open spec fn asked_in(record: JsonView) -> Seq<Seq<char>> {
    match member(record, "requests"@) {
        Some(JsonView::List(requests)) => prompts(requests),
        _ => seq![],
    }
}

/// What was asked in a session, according to the text of its record.
pub open spec fn asked_in_text(raw: Seq<char>) -> Seq<Seq<char>> {
    match json_document(raw) {
        Some(record) => asked_in(record),
        None => seq![],
    }
}

/// Reads what was asked in a session from its record.
pub fn prompts_in(record: &Json) -> (r: Vec<String>)
    ensures
        view_all(r@) == asked_in(record@),
{
    let mut out: Vec<String> = Vec::new();
    assert(view_all(out@) =~= seq![]);
    let requests: &Vec<Json> = match record.get("requests") {
        Some(list) => match list.as_list() {
            Some(requests) => requests,
            None => {
                return out;
            },
        },
        None => {
            return out;
        },
    };
    let ghost model = items_view(requests@);
    let mut i: usize = 0;
    proof {
        lemma_items_view(requests@);
        assert(model.take(0) =~= seq![]);
    }
    while i < requests.len()
        invariant
            i <= requests@.len(),
            model == items_view(requests@),
            model.len() == requests@.len(),
            forall|j: int| 0 <= j < requests@.len() ==> #[trigger] model[j] == requests@[j]@,
            view_all(out@) == prompts(model.take(i as int)),
        decreases requests@.len() - i,
    {
        proof {
            assert(model.take(i + 1).drop_last() =~= model.take(i as int));
            assert(model.take(i + 1).last() == model[i as int]);
        }
        let ghost before = view_all(out@);
        match requests[i].path(PROMPT_PATH.as_slice()) {
            Some(j) => match j.as_str() {
                Some(s) => {
                    out.push(s.to_owned());
                    assert(view_all(out@) =~= before.push(s@));
                },
                None => {},
            },
            None => {},
        }
        i += 1;
    }
    assert(model.take(i as int) =~= model);
    out
}

/// Reads what was asked in a session from the text of its record.
pub fn prompts_in_text(raw: &str) -> (r: Vec<String>)
    ensures
        view_all(r@) == asked_in_text(raw@),
{
    match parse_json(raw) {
        Ok(record) => prompts_in(&record),
        Err(_) => {
            let none: Vec<String> = Vec::new();
            assert(view_all(none@) =~= seq![]);
            none
        },
    }
}

/// How many of the latest databases are looked into for messages.
pub const CANDIDATE_LIMIT: usize = 5;

/// The order of databases, given when they were changed: the latest in front.
pub open spec fn by_change() -> spec_fn((u128, Seq<char>), (u128, Seq<char>)) -> bool {
    |a: (u128, Seq<char>), b: (u128, Seq<char>)| b.0 < a.0
}

/// The views of some databases.
pub open spec fn view_candidates(found: Seq<(u128, String)>) -> Seq<(u128, Seq<char>)> {
    found.map_values(|c: (u128, String)| (c.0, c.1@))
}

/// The databases to look into, the latest in front.
pub open spec fn candidates(found: Seq<(u128, Seq<char>)>) -> Seq<Seq<char>> {
    let sorted = in_order(found, by_change());
    let n = if sorted.len() <= CANDIDATE_LIMIT {
        sorted.len() as int
    } else {
        CANDIDATE_LIMIT as int
    };
    sorted.take(n).map_values(|c: (u128, Seq<char>)| c.1)
}

/// The databases to look into for messages, given when each was changed.
pub fn pick_candidates(found: Vec<(u128, String)>) -> (r: Vec<String>)
    ensures
        view_all(r@) == candidates(view_candidates(found@)),
{
    let ghost model = view_candidates(found@);
    let mut sorted: Vec<(u128, String)> = Vec::new();
    let mut k: usize = 0;
    assert(model.take(0) =~= seq![]);
    assert(view_candidates(sorted@) =~= seq![]);
    while k < found.len()
        invariant
            k <= found@.len(),
            model == view_candidates(found@),
            view_candidates(sorted@) == in_order(model.take(k as int), by_change()),
        decreases found@.len() - k,
    {
        let changed: u128 = found[k].0;
        let path = found[k].1.clone();
        let ghost item = (changed, path@);
        let ghost before = view_candidates(sorted@);
        let mut i: usize = 0;
        while i < sorted.len() && sorted[i].0 >= changed
            invariant
                i <= sorted@.len(),
                item.0 == changed,
                before == view_candidates(sorted@),
                forall|j: int| 0 <= j < i ==> !by_change()(item, #[trigger] before[j]),
            decreases sorted@.len() - i,
        {
            assert(before[i as int] == (sorted@[i as int].0, sorted@[i as int].1@));
            i += 1;
        }
        proof {
            lemma_place(before, item, by_change(), i as int);
            assert(model.take(k + 1).drop_last() =~= model.take(k as int));
            assert(model.take(k + 1).last() == item);
        }
        sorted.insert(i, (changed, path));
        assert(view_candidates(sorted@) =~= before.insert(i as int, item));
        k += 1;
    }
    assert(model.take(k as int) =~= model);
    let ghost all = view_candidates(sorted@);
    let mut out: Vec<String> = Vec::new();
    let mut i: usize = 0;
    while i < sorted.len() && i < CANDIDATE_LIMIT
        invariant
            i <= sorted@.len(),
            i <= CANDIDATE_LIMIT,
            all == view_candidates(sorted@),
            out@.len() == i,
            forall|j: int| 0 <= j < i ==> (#[trigger] out@[j])@ == all[j].1,
        decreases sorted@.len() - i,
    {
        out.push(sorted[i].1.clone());
        i += 1;
    }
    assert(view_all(out@) =~= candidates(model));
    out
}

// ---------------------------------------------------------------------------
// Showing
// ---------------------------------------------------------------------------

/// How long ago a date in milliseconds is, in seconds, at the time `now` in seconds. A
/// date that is still to come is no time ago.
pub open spec fn elapsed(ts_ms: u64, now: u64) -> nat {
    if now as int - ts_ms as int / 1000 >= 0 {
        (now as int - ts_ms as int / 1000) as nat
    } else {
        0
    }
}

/// How long ago a date is, in words.
pub open spec fn elapsed_text(ts_ms: u64, now: u64) -> Seq<char> {
    let e = elapsed(ts_ms, now);
    if e < 86400 {
        "今天"@
    } else if e < 172800 {
        "昨天"@
    } else {
        decimal(e / 86400) + "天前"@
    }
}

/// How long ago a date in milliseconds is now, in words.
pub fn fmt_elapsed(ts_ms: u64) -> (r: String)
    ensures
        exists|now: u64| r@ == #[trigger] elapsed_text(ts_ms, now),
{
    fmt_elapsed_at(ts_ms, now_secs())
}

/// How long ago a date in milliseconds is, in words, at the time `now` in seconds.
pub fn fmt_elapsed_at(ts_ms: u64, now: u64) -> (r: String)
    ensures
        r@ == elapsed_text(ts_ms, now),
{
    let secs: u64 = ts_ms / 1000;
    let e: u64 = if now >= secs {
        now - secs
    } else {
        0
    };
    if e < 86400 {
        "今天".to_owned()
    } else if e < 172800 {
        "昨天".to_owned()
    } else {
        let mut out = decimal_of((e / 86400) as u128);
        out.append("天前");
        out
    }
}

/// The line about one session; `i` counts from zero.
pub open spec fn chat_line(i: int, chat: ChatView, now: u64) -> Seq<char> {
    decimal((i + 1) as nat) + ". ["@ + elapsed_text(chat.last_message_date, now) + "] "@
        + chat.title
}

/// The lines about some sessions: how many there are, the first ones, and what to do.
pub open spec fn chat_lines(chats: Seq<ChatView>, now: u64) -> Seq<Seq<char>> {
    seq!["💬 VS Code Copilot 历史（"@ + decimal(chats.len()) + "）"@] + Seq::new(
        shown(chats.len()),
        |i: int| chat_line(i, chats[i], now),
    ) + seq![
        ""@,
        "发送「chat 历史 <编号>」查看该会话的提问摘要。"@,
        "发送「问: <问题>」直接向 Copilot 提问。"@,
    ]
}

/// The list of some sessions.
pub open spec fn chat_list(chats: Seq<ChatView>, now: u64) -> Seq<char> {
    if chats.len() == 0 {
        "未找到 VS Code Copilot Chat 会话。\n请先在 VS Code 中进行一些对话。"@
    } else {
        join(chat_lines(chats, now), "\n"@)
    }
}

fn fmt_chat_line(i: usize, chat: &VscodeChatSession, now: u64) -> (r: String)
    ensures
        r@ == chat_line(i as int, chat@, now),
{
    let mut out = decimal_of(i as u128 + 1);
    out.append(". [");
    out.append(fmt_elapsed_at(chat.last_message_date, now).as_str());
    out.append("] ");
    out.append(chat.title.as_str());
    out
}

/// The list of some sessions, at the time `now`.
pub fn fmt_vscode_sessions(sessions: &Vec<VscodeChatSession>, now: u64) -> (r: String)
    ensures
        r@ == chat_list(view_chats(sessions@), now),
{
    if sessions.len() == 0 {
        return "未找到 VS Code Copilot Chat 会话。\n请先在 VS Code 中进行一些对话。".to_owned();
    }
    let ghost model = view_chats(sessions@);
    let mut lines: Vec<String> = Vec::new();
    let mut head = glue(
        "💬 VS Code Copilot 历史（",
        decimal_of(sessions.len() as u128).as_str(),
    );
    head.append("）");
    lines.push(head);
    let mut i: usize = 0;
    while i < sessions.len() && i < LIST_LIMIT
        invariant
            i <= shown(sessions@.len()),
            model == view_chats(sessions@),
            lines@.len() == i + 1,
            lines@[0]@ == chat_lines(model, now)[0],
            forall|j: int|
                1 <= j <= i ==> (#[trigger] lines@[j])@ == chat_line(j - 1, model[j - 1], now),
        decreases sessions@.len() - i,
    {
        lines.push(fmt_chat_line(i, &sessions[i], now));
        i += 1;
    }
    lines.push("".to_owned());
    lines.push("发送「chat 历史 <编号>」查看该会话的提问摘要。".to_owned());
    lines.push("发送「问: <问题>」直接向 Copilot 提问。".to_owned());
    assert(view_all(lines@) =~= chat_lines(model, now));
    joined(&lines, "\n")
}

/// How many messages are shown.
pub const MESSAGE_LIMIT: usize = 10;

/// How many characters of a message are shown.
pub const PREVIEW_LIMIT: usize = 80;

/// The beginning of a message.
pub open spec fn preview(m: Seq<char>) -> Seq<char> {
    if m.len() > PREVIEW_LIMIT {
        m.take(PREVIEW_LIMIT as int) + "…"@
    } else {
        m
    }
}

/// The last messages, in order.
pub open spec fn latest(msgs: Seq<Seq<char>>) -> Seq<Seq<char>> {
    if msgs.len() <= MESSAGE_LIMIT {
        msgs
    } else {
        msgs.skip(msgs.len() - MESSAGE_LIMIT)
    }
}

/// The lines about the last messages.
pub open spec fn message_lines(msgs: Seq<Seq<char>>) -> Seq<Seq<char>> {
    seq!["💬 最近 Copilot 对话（你的提问）:"@] + Seq::new(
        latest(msgs).len(),
        |i: int| decimal((i + 1) as nat) + ". "@ + preview(latest(msgs)[i]),
    )
}

/// The list of the last messages.
pub open spec fn message_list(msgs: Seq<Seq<char>>) -> Seq<char> {
    if msgs.len() == 0 {
        "暂无最近消息记录。"@
    } else {
        join(message_lines(msgs), "\n"@)
    }
}

fn fmt_preview(m: &str) -> (r: String)
    ensures
        r@ == preview(m@),
{
    if m.unicode_len() > PREVIEW_LIMIT {
        glue(m.substring_char(0, PREVIEW_LIMIT), "…")
    } else {
        m.to_owned()
    }
}

/// The list of the last messages.
pub fn fmt_recent_messages(msgs: &Vec<String>) -> (r: String)
    ensures
        r@ == message_list(view_all(msgs@)),
{
    if msgs.len() == 0 {
        return "暂无最近消息记录。".to_owned();
    }
    let ghost model = view_all(msgs@);
    let start: usize = if msgs.len() <= MESSAGE_LIMIT {
        0
    } else {
        msgs.len() - MESSAGE_LIMIT
    };
    let mut lines: Vec<String> = Vec::new();
    lines.push("💬 最近 Copilot 对话（你的提问）:".to_owned());
    let mut i: usize = start;
    assert(latest(model).len() == model.len() - start);
    while i < msgs.len()
        invariant
            start <= i <= msgs@.len(),
            start == if msgs@.len() <= MESSAGE_LIMIT {
                0
            } else {
                msgs@.len() - MESSAGE_LIMIT
            },
            model == view_all(msgs@),
            lines@.len() == i - start + 1,
            lines@[0]@ == message_lines(model)[0],
            forall|j: int|
                1 <= j <= i - start ==> (#[trigger] lines@[j])@ == decimal(j as nat) + ". "@
                    + preview(model[start + j - 1]),
        decreases msgs@.len() - i,
    {
        let mut line = decimal_of((i - start) as u128 + 1);
        line.append(". ");
        line.append(fmt_preview(msgs[i].as_str()).as_str());
        lines.push(line);
        i += 1;
    }
    assert(view_all(lines@) =~= message_lines(model));
    joined(&lines, "\n")
}

/// The reply to a request for one chat: its title, and what was asked in it.
pub open spec fn chat_reply(title: Seq<char>, prompts: Seq<Seq<char>>) -> Seq<char> {
    "📝 会话: "@ + title + "\n\n"@ + message_list(prompts)
}

/// The reply to a request for a chat that is not there.
pub open spec fn no_chat_reply(n: nat) -> Seq<char> {
    "未找到会话 #"@ + decimal(n) + "，发送\"chat 历史\"查看完整列表。"@
}

/// The reply to a request for one chat, given its title and what was asked in it.
pub fn fmt_chat(title: &str, prompts: &Vec<String>) -> (r: String)
    ensures
        r@ == chat_reply(title@, view_all(prompts@)),
{
    let mut out = glue("📝 会话: ", title);
    out.append("\n\n");
    out.append(fmt_recent_messages(prompts).as_str());
    out
}

/// The reply to a request for the chat `n`, which is not there.
pub fn fmt_no_chat(n: usize) -> (r: String)
    ensures
        r@ == no_chat_reply(n as nat),
{
    let mut out = glue("未找到会话 #", decimal_of(n as u128).as_str());
    out.append("，发送\"chat 历史\"查看完整列表。");
    out
}

// ---------------------------------------------------------------------------
// Laws
// ---------------------------------------------------------------------------

proof fn lemma_listed_first(a: Seq<ChatView>, b: Seq<ChatView>, entries: Map<Seq<char>, JsonView>)
    requires
        lists_chats(a, entries),
        lists_chats(b, entries),
        a.len() > 0,
    ensures
        b.len() > 0,
        !text_lt(a[0].id, b[0].id),
{
    let i = choose|i: int| 0 <= i < b.len() && (#[trigger] b[i]).id == a[0].id;
    if text_lt(a[0].id, b[0].id) {
        if i > 0 {
            assert(text_lt(b[0].id, b[i].id));
            text_lt_transitive(a[0].id, b[0].id, a[0].id);
        }
        text_lt_irreflexive(a[0].id);
    }
}

proof fn lemma_listed_rest(a: Seq<ChatView>, entries: Map<Seq<char>, JsonView>)
    requires
        lists_chats(a, entries),
        a.len() > 0,
    ensures
        lists_chats(a.skip(1), entries.remove(a[0].id)),
{
    let (rest, left) = (a.skip(1), entries.remove(a[0].id));
    assert forall|i: int| 0 <= i < rest.len() implies left.contains_key((#[trigger] rest[i]).id)
        && rest[i] == chat_of(rest[i].id, left[rest[i].id]) by {
        assert(rest[i] == a[i + 1]);
        assert(text_lt(a[0].id, a[i + 1].id));
        text_lt_irreflexive(a[0].id);
    }
    assert forall|id: Seq<char>| #[trigger] left.contains_key(id) implies exists|i: int|
        0 <= i < rest.len() && (#[trigger] rest[i]).id == id by {
        assert(entries.contains_key(id));
        let i = choose|i: int| 0 <= i < a.len() && (#[trigger] a[i]).id == id;
        assert(rest[i - 1] == a[i]);
    }
}

/// There is one list only of the sessions that some descriptions stand for.
pub proof fn chats_are_listed_one_way(
    a: Seq<ChatView>,
    b: Seq<ChatView>,
    entries: Map<Seq<char>, JsonView>,
)
    requires
        lists_chats(a, entries),
        lists_chats(b, entries),
    ensures
        a == b,
    decreases a.len(),
{
    if a.len() == 0 {
        if b.len() > 0 {
            assert(entries.contains_key(b[0].id));
        }
        assert(a =~= b);
    } else {
        lemma_listed_first(a, b, entries);
        lemma_listed_first(b, a, entries);
        if a[0].id != b[0].id {
            text_lt_total(a[0].id, b[0].id);
        }
        lemma_listed_rest(a, entries);
        lemma_listed_rest(b, entries);
        chats_are_listed_one_way(a.skip(1), b.skip(1), entries.remove(a[0].id));
        assert(a =~= seq![a[0]] + a.skip(1));
        assert(b =~= seq![b[0]] + b.skip(1));
    }
}

/// Chat sessions are listed by date, the latest in front, and none is lost.
pub proof fn chats_are_listed_latest_first(chats: Seq<ChatView>)
    ensures
        crate::order::is_ordered(in_order(chats, by_recent()), by_recent()),
        in_order(chats, by_recent()).to_multiset() == chats.to_multiset(),
{
    crate::order::in_order_is_ordered(chats, by_recent());
    crate::order::in_order_permutes(chats, by_recent());
}

/// A message is never shown with more than its first characters and a mark, and a short
/// one is shown as it is.
pub proof fn preview_is_short(m: Seq<char>)
    ensures
        preview(m).len() <= PREVIEW_LIMIT + 1,
        m.len() <= PREVIEW_LIMIT ==> preview(m) == m,
        preview(m).take(if m.len() <= PREVIEW_LIMIT { m.len() as int } else { PREVIEW_LIMIT as int })
            == m.take(if m.len() <= PREVIEW_LIMIT { m.len() as int } else { PREVIEW_LIMIT as int }),
{
    reveal_strlit("…");
    if m.len() > PREVIEW_LIMIT {
        assert("…"@.len() == 1);
        assert(preview(m).take(PREVIEW_LIMIT as int) =~= m.take(PREVIEW_LIMIT as int));
    }
}

/// What is known of a session is what its description says: its title and the date of
/// its last message, and stand-ins where they are not given.
pub proof fn session_is_as_described(id: Seq<char>, meta: Map<Seq<char>, JsonView>, n: nat)
    requires
        n <= u64::MAX,
    ensures
        ({
            let chat = chat_of(id, JsonView::Object(meta));
            &&& chat.id == id
            &&& chat.title == (if meta.contains_key("title"@) && meta["title"@] is Text {
                meta["title"@]->Text_0
            } else {
                "(no title)"@
            })
            &&& meta.contains_key("lastMessageDate"@) && meta["lastMessageDate"@]
                == JsonView::Number(decimal(n)) ==> chat.last_message_date == n
            &&& !meta.contains_key("lastMessageDate"@) ==> chat.last_message_date == 0
        }),
{
    natural_number_reads_back(n);
}

/// The descriptions are those under `entries` in the index.
pub proof fn index_is_read(
    raw: Seq<char>,
    index: Map<Seq<char>, JsonView>,
    entries: Map<Seq<char>, JsonView>,
)
    requires
        json_document(raw) == Some(JsonView::Object(index)),
        holds_object(index, "entries"@, entries),
    ensures
        index_entries(raw) == entries,
{
}

/// Every session in every index is among those that are gathered, and nothing else is.
pub proof fn every_session_is_gathered(
    all: Seq<ChatView>,
    raws: Seq<Seq<char>>,
    k: int,
    id: Seq<char>,
    i: int,
)
    requires
        gathers(all, raws),
    ensures
        0 <= k < raws.len() && index_entries(raws[k]).contains_key(id) ==> all.contains(
            chat_of(id, index_entries(raws[k])[id]),
        ),
        0 <= i < all.len() ==> exists|j: int|
            0 <= j < raws.len() && index_entries(#[trigger] raws[j]).contains_key(all[i].id)
                && all[i] == chat_of(all[i].id, index_entries(raws[j])[all[i].id]),
    decreases raws.len(),
{
    if raws.len() > 0 {
        let init = raws.drop_last();
        let n = choose|n: int|
            {
                &&& 0 <= n <= all.len()
                &&& gathers(#[trigger] all.take(n), init)
                &&& lists_chats(all.skip(n), index_entries(raws.last()))
            };
        let (front, back) = (all.take(n), all.skip(n));
        every_session_is_gathered(front, init, k, id, i);
        if 0 <= k < raws.len() && index_entries(raws[k]).contains_key(id) {
            let wanted = chat_of(id, index_entries(raws[k])[id]);
            if k < init.len() {
                assert(init[k] == raws[k]);
                let p = choose|p: int| 0 <= p < front.len() && front[p] == wanted;
                assert(all[p] == wanted);
            } else {
                let p = choose|p: int| 0 <= p < back.len() && (#[trigger] back[p]).id == id;
                assert(back[p] == wanted);
                assert(all[n + p] == wanted);
            }
        }
        if 0 <= i < all.len() {
            if i < n {
                assert(front[i] == all[i]);
                let j = choose|j: int|
                    0 <= j < init.len() && index_entries(#[trigger] init[j]).contains_key(
                        front[i].id,
                    ) && front[i] == chat_of(front[i].id, index_entries(init[j])[front[i].id]);
                assert(raws[j] == init[j]);
            } else {
                assert(back[i - n] == all[i]);
                assert(raws[raws.len() - 1] == raws.last());
            }
        }
    }
}

/// Sessions are put in order by the date of the last message, the latest in front.
pub proof fn later_session_comes_first(chats: Seq<ChatView>, i: int, j: int)
    requires
        0 <= i < j < chats.len(),
    ensures
        in_order(chats, by_recent()).len() == chats.len(),
        in_order(chats, by_recent())[i].last_message_date >= in_order(
            chats,
            by_recent(),
        )[j].last_message_date,
{
    broadcast use vstd::seq_lib::group_to_multiset_ensures;

    crate::order::in_order_is_ordered(chats, by_recent());
    crate::order::in_order_permutes(chats, by_recent());
    let sorted = in_order(chats, by_recent());
    assert(sorted.len() == sorted.to_multiset().len());
    assert(!by_recent()(sorted[j], sorted[i]));
}

/// All that was typed is read, in order, each whole: one more item with an input is one
/// more message, and one without changes nothing.
pub proof fn everything_typed_is_read(
    top: Map<Seq<char>, JsonView>,
    history: Map<Seq<char>, JsonView>,
    items: Seq<JsonView>,
    last: Map<Seq<char>, JsonView>,
    text: Seq<char>,
)
    requires
        holds_object(top, "history"@, history),
        history.contains_key("copilot"@),
        history["copilot"@] == JsonView::List(items.push(JsonView::Object(last))),
    ensures
        ({
            let read = typed_in(JsonView::Object(top));
            &&& last.contains_key("inputText"@) && last["inputText"@] == JsonView::Text(text)
                ==> read == inputs(items).push(text)
            &&& !last.contains_key("inputText"@) ==> read == inputs(items)
            &&& inputs(seq![]).len() == 0
        }),
{
    reveal_with_fuel(at, 3);
    assert(HISTORY_PATH@[0]@ == "history"@ && HISTORY_PATH@[1]@ == "copilot"@);
    assert(HISTORY_PATH@.skip(1)[0] == HISTORY_PATH@[1]);
    assert(HISTORY_PATH@.skip(1).skip(1).len() == 0);
    assert(items.push(JsonView::Object(last)).drop_last() =~= items);
}

/// The first memento in which anything was typed is the one that counts.
pub proof fn first_memento_counts(empty: Seq<Seq<char>>, raw: Seq<char>, rest: Seq<Seq<char>>)
    requires
        forall|i: int| 0 <= i < empty.len() ==> typed_in_text(#[trigger] empty[i]).len() == 0,
        typed_in_text(raw).len() > 0,
    ensures
        first_typed(empty + seq![raw] + rest) == typed_in_text(raw),
        first_typed(empty).len() == 0,
    decreases empty.len(),
{
    let all = empty + seq![raw] + rest;
    if empty.len() > 0 {
        assert(all[0] == empty[0]);
        assert(all.skip(1) =~= empty.skip(1) + seq![raw] + rest);
        assert forall|i: int| 0 <= i < empty.skip(1).len() implies typed_in_text(
            #[trigger] empty.skip(1)[i],
        ).len() == 0 by {
            assert(empty.skip(1)[i] == empty[i + 1]);
        }
        first_memento_counts(empty.skip(1), raw, rest);
    } else {
        assert(all[0] == raw);
    }
}

/// All that was asked in a session is read, in order, each whole.
pub proof fn everything_asked_is_read(
    top: Map<Seq<char>, JsonView>,
    requests: Seq<JsonView>,
    last: Map<Seq<char>, JsonView>,
    message: Map<Seq<char>, JsonView>,
    text: Seq<char>,
)
    requires
        top.contains_key("requests"@),
        top["requests"@] == JsonView::List(requests.push(JsonView::Object(last))),
    ensures
        ({
            let read = asked_in(JsonView::Object(top));
            &&& holds_object(last, "message"@, message) && message.contains_key("text"@)
                && message["text"@] == JsonView::Text(text) ==> read == prompts(requests).push(text)
            &&& !last.contains_key("message"@) ==> read == prompts(requests)
            &&& prompts(seq![]).len() == 0
        }),
{
    reveal_with_fuel(at, 3);
    assert(PROMPT_PATH@[0]@ == "message"@ && PROMPT_PATH@[1]@ == "text"@);
    assert(PROMPT_PATH@.skip(1)[0] == PROMPT_PATH@[1]);
    assert(PROMPT_PATH@.skip(1).skip(1).len() == 0);
    assert(requests.push(JsonView::Object(last)).drop_last() =~= requests);
}

/// The databases that are looked into are the five that were changed last, the latest in
/// front, or all where there are no more.
pub proof fn latest_databases_are_picked(found: Seq<(u128, Seq<char>)>) -> (sorted: Seq<
    (u128, Seq<char>),
>)
    ensures
        sorted.to_multiset() == found.to_multiset(),
        forall|i: int, j: int|
            #![trigger sorted[i], sorted[j]]
            0 <= i < j < sorted.len() ==> sorted[i].0 >= sorted[j].0,
        candidates(found).len() == (if sorted.len() < 5 {
            sorted.len()
        } else {
            5
        }),
        forall|i: int|
            0 <= i < candidates(found).len() ==> #[trigger] candidates(found)[i] == sorted[i].1,
{
    crate::order::in_order_is_ordered(found, by_change());
    crate::order::in_order_permutes(found, by_change());
    let sorted = in_order(found, by_change());
    assert forall|i: int, j: int| #![trigger sorted[i], sorted[j]] 0 <= i < j
        < sorted.len() implies sorted[i].0 >= sorted[j].0 by {
        assert(!by_change()(sorted[j], sorted[i]));
    }
    sorted
}

/// How long ago something was is told in days: today, yesterday, or so many days ago.
pub proof fn age_is_told_in_days(days: nat, rest: nat, ts: u64, now: u64)
    requires
        rest < 86400,
        now == ts / 1000 + days * 86400 + rest,
    ensures
        days == 0 ==> elapsed_text(ts, now) == "今天"@,
        days == 1 ==> elapsed_text(ts, now) == "昨天"@,
        days >= 2 ==> elapsed_text(ts, now) == decimal(days) + "天前"@,
{
    let e = elapsed(ts, now);
    assert(e == days * 86400 + rest);
    assert(e / 86400 == days) by (nonlinear_arith)
        requires
            e == days * 86400 + rest,
            0 <= rest < 86400,
    ;
    if days >= 2 {
        assert(e >= 172800) by (nonlinear_arith)
            requires
                e == days * 86400 + rest,
                days >= 2,
        ;
    }
}

/// What is still to come is told as today.
pub proof fn future_is_today(ts: u64, now: u64)
    requires
        now < ts / 1000,
    ensures
        elapsed_text(ts, now) == "今天"@,
{
}

/// The list of sessions counts them all and shows the first twenty, in order, each with
/// its number, its age and its title.
pub proof fn sessions_are_listed(chats: Seq<ChatView>, now: u64) -> (lines: Seq<Seq<char>>)
    requires
        chats.len() > 0,
    ensures
        chat_list(chats, now) == join(lines, "\n"@),
        lines.len() == 4 + (if chats.len() < 20 {
            chats.len() as int
        } else {
            20
        }),
        lines[0] == "💬 VS Code Copilot 历史（"@ + decimal(chats.len()) + "）"@,
        forall|i: int|
            0 <= i < chats.len() && i < 20 ==> lines[i + 1] == decimal((i + 1) as nat) + ". ["@
                + elapsed_text(chats[i].last_message_date, now) + "] "@ + (
            #[trigger] chats[i]).title,
{
    let lines = chat_lines(chats, now);
    assert forall|i: int| 0 <= i < chats.len() && i < 20 implies lines[i + 1] == decimal(
        (i + 1) as nat,
    ) + ". ["@ + elapsed_text(chats[i].last_message_date, now) + "] "@ + (
    #[trigger] chats[i]).title by {
        assert(lines[i + 1] == chat_line(i, chats[i], now));
    }
    lines
}

/// The last ten messages are shown, in order, each with its number; one of up to eighty
/// characters is shown whole, and a longer one with its first eighty.
pub proof fn last_messages_are_shown(msgs: Seq<Seq<char>>) -> (lines: Seq<Seq<char>>)
    requires
        msgs.len() > 0,
    ensures
        message_list(msgs) == join(lines, "\n"@),
        lines[0] == "💬 最近 Copilot 对话（你的提问）:"@,
        ({
            let n: int = if msgs.len() < 10 {
                msgs.len() as int
            } else {
                10
            };
            &&& lines.len() == n + 1
            &&& forall|i: int|
                0 <= i < n ==> #[trigger] lines[i + 1] == decimal((i + 1) as nat) + ". "@ + (if msgs[
                msgs.len() - n + i].len() <= 80 {
                    msgs[msgs.len() - n + i]
                } else {
                    msgs[msgs.len() - n + i].take(80) + "…"@
                })
        }),
{
    let lines = message_lines(msgs);
    let n: int = if msgs.len() < 10 {
        msgs.len() as int
    } else {
        10
    };
    assert forall|i: int| 0 <= i < n implies #[trigger] lines[i + 1] == decimal((i + 1) as nat)
        + ". "@ + (if msgs[msgs.len() - n + i].len() <= 80 {
        msgs[msgs.len() - n + i]
    } else {
        msgs[msgs.len() - n + i].take(80) + "…"@
    }) by {
        assert(latest(msgs)[i] == msgs[msgs.len() - n + i]);
    }
    lines
}

/// A session is shown with its title and what was asked in it; where nothing is known of
/// it, that is told.
pub proof fn session_is_shown(title: Seq<char>, asked: Seq<Seq<char>>, n: nat)
    ensures
        chat_reply(title, asked) == "📝 会话: "@ + title + "\n\n"@ + message_list(asked),
        message_list(seq![]) == "暂无最近消息记录。"@,
        no_chat_reply(n) == "未找到会话 #"@ + decimal(n) + "，发送\"chat 历史\"查看完整列表。"@,
{
}

/// What was asked in a session is read from the document that its record is; a record that
/// is none says nothing.
pub proof fn record_is_read_as_a_document(
    raw: Seq<char>,
    members: Map<Seq<char>, JsonView>,
    requests: Seq<JsonView>,
)
    requires
        members.contains_pair("requests"@, JsonView::List(requests)),
    ensures
        json_document(raw) == Some(JsonView::Object(members)) ==> asked_in_text(raw) == prompts(
            requests,
        ),
        json_document(raw) is None ==> asked_in_text(raw).len() == 0,
{
}

/// Of two members with one name the later one counts.
pub proof fn later_member_counts(members: Seq<(String, Json)>, earlier: int, later: int)
    requires
        0 <= earlier < later < members.len(),
        members[earlier].0@ == members[later].0@,
    ensures
        !is_last_named(members, earlier),
        later == members.len() - 1 ==> is_last_named(members, later),
{
}

} // verus!
