//! JSON documents.
//!
//! Texts are read and written by `serde_json`. The logic works on a plain tree.

use crate::text::{
    all_digits, decimal, decimal_int, digits_value, is_ascii_digit, is_digit, lemma_decimal_value,
    number, parse_number, same, strip_prefix, view_opt_str, without_plus,
};
use vstd::prelude::*;

verus! {

/// A JSON document.
#[derive(Debug)]
pub enum Json {
    Null,
    Bool(bool),
    /// A number, as it is written.
    Number(String),
    Text(String),
    List(Vec<Json>),
    /// The members of an object. Of two with the same name the later one counts.
    Object(Vec<(String, Json)>),
}

/// What a `Json` says.
#[verifier::ext_equal]
pub ghost enum JsonView {
    Null,
    Bool(bool),
    Number(Seq<char>),
    Text(Seq<char>),
    List(Seq<JsonView>),
    Object(Map<Seq<char>, JsonView>),
}

/// What a document says.
pub open spec fn json_view(j: Json) -> JsonView
    decreases j,
{
    match j {
        Json::Null => JsonView::Null,
        Json::Bool(b) => JsonView::Bool(b),
        Json::Number(n) => JsonView::Number(n@),
        Json::Text(s) => JsonView::Text(s@),
        Json::List(items) => JsonView::List(items_view(items@)),
        Json::Object(members) => JsonView::Object(members_view(members@)),
    }
}

/// What some documents say.
pub open spec fn items_view(items: Seq<Json>) -> Seq<JsonView>
    decreases items,
{
    if items.len() == 0 {
        seq![]
    } else {
        items_view(items.drop_last()).push(json_view(items.last()))
    }
}

/// What the members of an object say.
pub open spec fn members_view(members: Seq<(String, Json)>) -> Map<Seq<char>, JsonView>
    decreases members,
{
    if members.len() == 0 {
        Map::empty()
    } else {
        members_view(members.drop_last()).insert(members.last().0@, json_view(members.last().1))
    }
}

impl View for Json {
    type V = JsonView;

    open spec fn view(&self) -> JsonView {
        json_view(*self)
    }
}

// ---------------------------------------------------------------------------
// Looking into a document
// ---------------------------------------------------------------------------

/// The member `key` of an object.
pub open spec fn member(j: JsonView, key: Seq<char>) -> Option<JsonView> {
    match j {
        JsonView::Object(m) => if m.contains_key(key) {
            Some(m[key])
        } else {
            None
        },
        _ => None,
    }
}

/// What a path of names leads to.
pub open spec fn at(j: JsonView, path: Seq<&'static str>) -> Option<JsonView>
    decreases path.len(),
{
    if path.len() == 0 {
        Some(j)
    } else {
        match member(j, path[0]@) {
            Some(inner) => at(inner, path.skip(1)),
            None => None,
        }
    }
}

/// The text of a document that is one.
pub open spec fn text_of(o: Option<JsonView>) -> Option<Seq<char>> {
    match o {
        Some(JsonView::Text(s)) => Some(s),
        _ => None,
    }
}

/// Some digits, and at least one.
pub open spec fn is_digits(s: Seq<char>) -> bool {
    s.len() > 0 && all_digits(s)
}

/// The whole number that is written as `t`, if `t` is written as one.
pub open spec fn whole(t: Seq<char>) -> Option<int> {
    if t.len() > 0 && t[0] == '-' {
        if is_digits(t.skip(1)) {
            Some(-(digits_value(t.skip(1)) as int))
        } else {
            None
        }
    } else if is_digits(t) {
        Some(digits_value(t) as int)
    } else {
        None
    }
}

/// The whole number between two bounds that a document is.
pub open spec fn whole_between(o: Option<JsonView>, low: int, high: int) -> Option<int> {
    match o {
        Some(JsonView::Number(t)) => match whole(t) {
            Some(n) => if low <= n <= high {
                Some(n)
            } else {
                None
            },
            None => None,
        },
        _ => None,
    }
}

/// The whole number up to `max` without a sign that a document is.
pub open spec fn natural(o: Option<JsonView>, max: nat) -> Option<nat> {
    match o {
        Some(JsonView::Number(t)) => if is_digits(t) && digits_value(t) <= max {
            Some(digits_value(t))
        } else {
            None
        },
        _ => None,
    }
}

/// The view of an optional document.
pub open spec fn view_json(o: Option<&Json>) -> Option<JsonView> {
    match o {
        Some(j) => Some(j@),
        None => None,
    }
}

/// The views of some documents are one for each.
pub proof fn lemma_items_view(items: Seq<Json>)
    ensures
        items_view(items).len() == items.len(),
        forall|i: int| 0 <= i < items.len() ==> #[trigger] items_view(items)[i] == items[i]@,
    decreases items.len(),
{
    if items.len() > 0 {
        lemma_items_view(items.drop_last());
        assert forall|i: int| 0 <= i < items.len() implies #[trigger] items_view(items)[i]
            == items[i]@ by {
            if i < items.len() - 1 {
                assert(items.drop_last()[i] == items[i]);
                assert(items_view(items.drop_last())[i] == items.drop_last()[i]@);
            }
        }
    }
}

proof fn lemma_members_without(members: Seq<(String, Json)>, key: Seq<char>, i: int)
    requires
        0 <= i <= members.len(),
        forall|j: int| i <= j < members.len() ==> (#[trigger] members[j]).0@ != key,
    ensures
        members_view(members).contains_key(key) == members_view(members.take(i)).contains_key(key),
        members_view(members).contains_key(key) ==> members_view(members)[key] == members_view(
            members.take(i),
        )[key],
    decreases members.len(),
{
    if i < members.len() {
        assert(members.drop_last().take(i) =~= members.take(i));
        assert forall|j: int| i <= j < members.drop_last().len() implies (
        #[trigger] members.drop_last()[j]).0@ != key by {
            assert(members.drop_last()[j] == members[j]);
        }
        lemma_members_without(members.drop_last(), key, i);
    } else {
        assert(members.take(i) =~= members);
    }
}

impl Json {
    /// The member `key` of an object.
    pub fn get(&self, key: &str) -> (r: Option<&Json>)
        ensures
            view_json(r) == member(self@, key@),
    {
        match self {
            Json::Object(members) => {
                let mut i: usize = members.len();
                while i > 0
                    invariant
                        i <= members@.len(),
                        self@ == JsonView::Object(members_view(members@)),
                        forall|j: int|
                            i <= j < members@.len() ==> (#[trigger] members@[j]).0@ != key@,
                    decreases i,
                {
                    i -= 1;
                    if same(members[i].0.as_str(), key) {
                        proof {
                            lemma_members_without(members@, key@, i + 1);
                            assert(members@.take(i + 1).last() == members@[i as int]);
                        }
                        return Some(&members[i].1);
                    }
                }
                proof {
                    lemma_members_without(members@, key@, 0);
                    assert(members@.take(0) =~= seq![]);
                }
                None
            },
            _ => None,
        }
    }

    /// What a path of names leads to.
    pub fn path(&self, keys: &[&'static str]) -> (r: Option<&Json>)
        ensures
            view_json(r) == at(self@, keys@),
    {
        let mut here: &Json = self;
        let mut i: usize = 0;
        assert(keys@.skip(0) =~= keys@);
        while i < keys.len()
            invariant
                i <= keys@.len(),
                at(self@, keys@) == at(here@, keys@.skip(i as int)),
            decreases keys@.len() - i,
        {
            assert(keys@.skip(i as int)[0] == keys@[i as int]);
            assert(keys@.skip(i as int).skip(1) =~= keys@.skip(i + 1));
            match here.get(keys[i]) {
                Some(inner) => {
                    here = inner;
                },
                None => {
                    return None;
                },
            }
            i += 1;
        }
        Some(here)
    }

    /// The text of a document that is one.
    pub fn as_str(&self) -> (r: Option<&str>)
        ensures
            view_opt_str(r) == text_of(Some(self@)),
    {
        match self {
            Json::Text(s) => Some(s.as_str()),
            _ => None,
        }
    }

    /// The items of a list.
    pub fn as_list(&self) -> (r: Option<&Vec<Json>>)
        ensures
            match r {
                Some(items) => self@ == JsonView::List(items_view(items@)),
                None => !(self@ is List),
            },
    {
        match self {
            Json::List(items) => Some(items),
            _ => None,
        }
    }

    /// The item `i` of a list.
    pub fn item(&self, i: usize) -> (r: Option<&Json>)
        ensures
            view_json(r) == item(self@, i as int),
    {
        match self {
            Json::List(items) => {
                proof {
                    lemma_items_view(items@);
                }
                if i < items.len() {
                    Some(&items[i])
                } else {
                    None
                }
            },
            _ => None,
        }
    }

    /// The number of a document that is a whole number of 64 bits with a sign.
    pub fn as_i64(&self) -> (r: Option<i64>)
        ensures
            match r {
                Some(n) => whole_between(Some(self@), i64::MIN as int, i64::MAX as int) == Some(
                    n as int,
                ),
                None => whole_between(Some(self@), i64::MIN as int, i64::MAX as int) is None,
            },
    {
        match self {
            Json::Number(t) => {
                let s = t.as_str();
                proof {
                    reveal_strlit("-");
                }
                match strip_prefix(s, "-") {
                    Some(rest) => {
                        assert(s@[0] == "-"@[0]);
                        match read_digits(rest, 0x8000_0000_0000_0000) {
                            Some(n) => Some((0 - n as i128) as i64),
                            None => None,
                        }
                    },
                    None => {
                        assert(s@.len() > 0 && s@[0] == '-' ==> "-"@.is_prefix_of(s@)) by {
                            if s@.len() > 0 && s@[0] == '-' {
                                assert(s@.take(1) =~= "-"@);
                            }
                        }
                        match read_digits(s, i64::MAX as u64) {
                            Some(n) => Some(n as i64),
                            None => None,
                        }
                    },
                }
            },
            _ => None,
        }
    }

    /// The number of a document that is a whole number of 64 bits without a sign.
    pub fn as_u64(&self) -> (r: Option<u64>)
        ensures
            match r {
                Some(n) => natural(Some(self@), u64::MAX as nat) == Some(n as nat),
                None => natural(Some(self@), u64::MAX as nat) is None,
            },
    {
        match self {
            Json::Number(t) => read_digits(t.as_str(), u64::MAX),
            _ => None,
        }
    }
}

/// The item `i` of a list.
pub open spec fn item(j: JsonView, i: int) -> Option<JsonView> {
    match j {
        JsonView::List(items) => if 0 <= i < items.len() {
            Some(items[i])
        } else {
            None
        },
        _ => None,
    }
}

/// The number up to `max` that some digits give.
fn read_digits(s: &str, max: u64) -> (r: Option<u64>)
    ensures
        match r {
            Some(n) => is_digits(s@) && digits_value(s@) == n && n <= max,
            None => !is_digits(s@) || digits_value(s@) > max,
        },
{
    let n: usize = s.unicode_len();
    if n == 0 || !is_ascii_digit(s.get_char(0)) {
        return None;
    }
    assert(without_plus(s@) == s@);
    parse_number(s, max)
}

// ---------------------------------------------------------------------------
// Reading and writing texts
// ---------------------------------------------------------------------------

/// A document as `serde_json` holds it.
#[verifier::external_type_specification]
#[verifier::external_body]
pub struct ExJsonValue(serde_json::Value);

/// What a document that `serde_json` holds says.
pub uninterp spec fn json_model(v: serde_json::Value) -> JsonView;

/// The document that a text is, or what is wrong with the text.
pub uninterp spec fn json_read(raw: Seq<char>) -> Result<JsonView, Seq<char>>;

/// A document as a text.
pub uninterp spec fn json_text(j: JsonView) -> Seq<char>;

/// The document that a text is, if it is one.
pub open spec fn json_document(raw: Seq<char>) -> Option<JsonView> {
    match json_read(raw) {
        Ok(j) => Some(j),
        Err(_) => None,
    }
}

/// Whether every number in a document is a whole number of 64 bits, written in the
/// shortest way.
pub open spec fn well_written(j: JsonView) -> bool
    decreases j,
{
    match j {
        JsonView::Number(t) => exists|n: int|
            i64::MIN <= n <= u64::MAX && t == #[trigger] decimal_int(n),
        JsonView::List(items) => forall|i: int|
            0 <= i < items.len() ==> well_written(#[trigger] items[i]),
        JsonView::Object(m) => forall|k: Seq<char>|
            m.contains_key(k) ==> well_written(#[trigger] m[k]),
        _ => true,
    }
}

/// Whether a document is an object with nothing but texts in it.
pub open spec fn is_flat(j: JsonView) -> bool {
    j matches JsonView::Object(m) && forall|k: Seq<char>|
        m.contains_key(k) ==> (#[trigger] m[k]) is Text
}

/// `serde_json::from_str`, and the text of its error: both depend on `raw` alone. What
/// texts are documents, and what documents, is left to `json_read`.
#[verifier::external_body]
fn parse_value(raw: &str) -> (r: Result<serde_json::Value, String>)
    ensures
        json_read(raw@) == match r {
            Ok(v) => Ok(json_model(v)),
            Err(e) => Err(e@),
        },
{
    serde_json::from_str(raw).map_err(|e| e.to_string())
}

/// A `serde_json::Value` as a tree, variant by variant. A number is taken as
/// `serde_json::Number` writes it.
#[verifier::external_body]
fn model_of(v: &serde_json::Value) -> (r: Json)
    ensures
        r@ == json_model(*v),
{
    match v {
        serde_json::Value::Null => Json::Null,
        serde_json::Value::Bool(b) => Json::Bool(*b),
        serde_json::Value::Number(n) => Json::Number(n.to_string()),
        serde_json::Value::String(s) => Json::Text(s.clone()),
        serde_json::Value::Array(items) => Json::List(items.iter().map(model_of).collect()),
        serde_json::Value::Object(members) => Json::Object(
            members.iter().map(|(k, inner)| (k.clone(), model_of(inner))).collect(),
        ),
    }
}

/// A tree as a `serde_json::Value`, variant by variant. Nothing is said of a number
/// that is no whole number of 64 bits in its shortest form.
#[verifier::external_body]
fn value_of(j: &Json) -> (r: serde_json::Value)
    ensures
        well_written(j@) ==> json_model(r) == j@,
{
    match j {
        Json::Null => serde_json::Value::Null,
        Json::Bool(b) => serde_json::Value::Bool(*b),
        Json::Number(n) => serde_json::from_str(n).unwrap_or_default(),
        Json::Text(s) => serde_json::Value::String(s.clone()),
        Json::List(items) => serde_json::Value::Array(items.iter().map(value_of).collect()),
        Json::Object(members) => serde_json::Value::Object(
            members.iter().map(|(k, inner)| (k.clone(), value_of(inner))).collect(),
        ),
    }
}

/// The text of a `serde_json::Value`, as its `to_string` writes it: it depends on the
/// document alone. The text of an object of texts reads back as that object.
#[verifier::external_body]
fn value_text(v: &serde_json::Value) -> (r: String)
    ensures
        r@ == json_text(json_model(*v)),
        is_flat(json_model(*v)) ==> json_document(r@) == Some(json_model(*v)),
{
    v.to_string()
}

/// The view of what came of reading a text.
pub open spec fn view_json_read(r: Result<Json, String>) -> Result<JsonView, Seq<char>> {
    match r {
        Ok(j) => Ok(j@),
        Err(e) => Err(e@),
    }
}

/// Reads a text as a document, or says what is wrong with it.
pub fn parse_json(raw: &str) -> (r: Result<Json, String>)
    ensures
        view_json_read(r) == json_read(raw@),
{
    match parse_value(raw) {
        Ok(v) => Ok(model_of(&v)),
        Err(e) => Err(e),
    }
}

/// What is said of the body of a response that is no document, in the words of the HTTP
/// client.
pub const UNDECODED: &'static str = "error decoding response body";

/// The document in the body of a response.
pub open spec fn body_document(raw: Seq<char>) -> Result<JsonView, Seq<char>> {
    match json_document(raw) {
        Some(j) => Ok(j),
        None => Err(UNDECODED@),
    }
}

/// Reads the document in the body of a response.
pub fn read_body(raw: &str) -> (r: Result<Json, String>)
    ensures
        view_json_read(r) == body_document(raw@),
{
    match parse_json(raw) {
        Ok(j) => Ok(j),
        Err(_) => Err(UNDECODED.to_owned()),
    }
}

/// Writes a document as a text.
pub fn render_json(j: &Json) -> (r: String)
    ensures
        well_written(j@) ==> r@ == json_text(j@),
        well_written(j@) && is_flat(j@) ==> json_document(r@) == Some(j@),
{
    value_text(&value_of(j))
}

/// A text that is a document, as `serde_json` writes it.
pub open spec fn json_compact(raw: Seq<char>) -> Option<Seq<char>> {
    match json_document(raw) {
        Some(j) => Some(json_text(j)),
        None => None,
    }
}

/// Writes a text that is a document anew, in its compact form.
pub fn compact_json(raw: &str) -> (r: Option<String>)
    ensures
        crate::text::view_opt(r) == json_compact(raw@),
{
    match parse_value(raw) {
        Ok(v) => Some(value_text(&v)),
        Err(_) => None,
    }
}

// ---------------------------------------------------------------------------
// Building documents
// ---------------------------------------------------------------------------

/// An object of texts: each member is a name and its text.
pub open spec fn text_object(members: Seq<(Seq<char>, Seq<char>)>) -> JsonView {
    JsonView::Object(text_members(members))
}

/// The members of an object of texts.
pub open spec fn text_members(members: Seq<(Seq<char>, Seq<char>)>) -> Map<Seq<char>, JsonView>
    decreases members.len(),
{
    if members.len() == 0 {
        Map::empty()
    } else {
        text_members(members.drop_last()).insert(
            members.last().0,
            JsonView::Text(members.last().1),
        )
    }
}

proof fn lemma_text_members(members: Seq<(Seq<char>, Seq<char>)>)
    ensures
        forall|k: Seq<char>|
            text_members(members).contains_key(k) ==> (#[trigger] text_members(members)[k]) is Text,
    decreases members.len(),
{
    if members.len() > 0 {
        lemma_text_members(members.drop_last());
    }
}

/// An object of texts is flat, and there is no number in it to go wrong.
pub proof fn text_object_is_flat(members: Seq<(Seq<char>, Seq<char>)>)
    ensures
        is_flat(text_object(members)),
        well_written(text_object(members)),
{
    lemma_text_members(members);
    let m = text_members(members);
    assert forall|k: Seq<char>| m.contains_key(k) implies well_written(#[trigger] m[k]) by {}
}

/// Builds an object of texts.
pub fn make_text_object(members: Vec<(&str, &str)>) -> (r: Json)
    ensures
        r@ == text_object(members@.map_values(|m: (&str, &str)| (m.0@, m.1@))),
        is_flat(r@),
        well_written(r@),
{
    let ghost model = members@.map_values(|m: (&str, &str)| (m.0@, m.1@));
    let mut out: Vec<(String, Json)> = Vec::new();
    let mut i: usize = 0;
    assert(model.take(0) =~= seq![]);
    while i < members.len()
        invariant
            i <= members@.len(),
            model == members@.map_values(|m: (&str, &str)| (m.0@, m.1@)),
            members_view(out@) == text_members(model.take(i as int)),
        decreases members@.len() - i,
    {
        let (name, text) = members[i];
        let ghost before = out@;
        out.push((name.to_owned(), Json::Text(text.to_owned())));
        proof {
            assert(out@.drop_last() =~= before);
            assert(json_view(out@.last().1) == JsonView::Text(text@));
            assert(model.take(i + 1).drop_last() =~= model.take(i as int));
            assert(model.take(i + 1).last() == (name@, text@));
        }
        i += 1;
    }
    proof {
        assert(model.take(i as int) =~= model);
        text_object_is_flat(model);
    }
    Json::Object(out)
}

/// An object with nothing in it.
pub open spec fn nothing() -> JsonView {
    JsonView::Object(Map::empty())
}

/// An object with one more member. What is no object stays as it is.
pub open spec fn put(j: JsonView, name: Seq<char>, value: JsonView) -> JsonView {
    match j {
        JsonView::Object(m) => JsonView::Object(m.insert(name, value)),
        _ => j,
    }
}

/// A list with one more item. What is no list stays as it is.
pub open spec fn added(j: JsonView, value: JsonView) -> JsonView {
    match j {
        JsonView::List(items) => JsonView::List(items.push(value)),
        _ => j,
    }
}

impl Json {
    /// An object with nothing in it.
    pub fn object() -> (r: Json)
        ensures
            r@ == nothing(),
    {
        let members: Vec<(String, Json)> = Vec::new();
        Json::Object(members)
    }

    /// A list with nothing in it.
    pub fn list() -> (r: Json)
        ensures
            r@ == JsonView::List(seq![]),
    {
        let items: Vec<Json> = Vec::new();
        Json::List(items)
    }

    /// A text.
    pub fn text(s: &str) -> (r: Json)
        ensures
            r@ == JsonView::Text(s@),
    {
        Json::Text(s.to_owned())
    }

    /// An object with one more member.
    pub fn with(self, name: &str, value: Json) -> (r: Json)
        ensures
            r@ == put(self@, name@, value@),
    {
        match self {
            Json::Object(members) => {
                let mut all = members;
                let ghost before = all@;
                all.push((name.to_owned(), value));
                assert(all@.drop_last() =~= before);
                Json::Object(all)
            },
            other => other,
        }
    }

    /// A list with one more item.
    pub fn and(self, value: Json) -> (r: Json)
        ensures
            r@ == added(self@, value@),
    {
        match self {
            Json::List(items) => {
                let mut all = items;
                let ghost before = all@;
                all.push(value);
                assert(all@.drop_last() =~= before);
                Json::List(all)
            },
            other => other,
        }
    }
}

/// The text that stands under `key` among the members of an object, or nothing where
/// none does.
pub open spec fn text_under(members: Map<Seq<char>, JsonView>, key: Seq<char>) -> Seq<char> {
    if members.contains_key(key) && members[key] is Text {
        members[key]->Text_0
    } else {
        seq![]
    }
}

/// Whether `inner` stands under `key` as an object.
pub open spec fn holds_object(
    members: Map<Seq<char>, JsonView>,
    key: Seq<char>,
    inner: Map<Seq<char>, JsonView>,
) -> bool {
    members.contains_key(key) && members[key] == JsonView::Object(inner)
}

/// A whole number is read back from how it is written.
pub proof fn whole_number_reads_back(n: nat)
    ensures
        whole(decimal(n)) == Some(n as int),
        n > 0 ==> whole(decimal_int(-n)) == Some(-n),
{
    reveal_strlit("-");
    lemma_decimal_value(n);
    assert(is_digit(decimal(n)[0]));
    let t = "-"@ + decimal(n);
    assert(t.skip(1) =~= decimal(n));
    assert(t[0] == '-');
}

/// A member that is put into an object stands there, and the others stay.
pub proof fn put_member_stands(
    members: Map<Seq<char>, JsonView>,
    name: Seq<char>,
    value: JsonView,
    other: Seq<char>,
)
    ensures
        member(put(JsonView::Object(members), name, value), name) == Some(value),
        other != name ==> member(put(JsonView::Object(members), name, value), other) == member(
            JsonView::Object(members),
            other,
        ),
        member(nothing(), name) is None,
{
}

/// An object of texts holds each text under its name.
pub proof fn text_object_holds_its_texts(
    members: Seq<(Seq<char>, Seq<char>)>,
    name: Seq<char>,
    text: Seq<char>,
    other: Seq<char>,
)
    ensures
        member(text_object(members.push((name, text))), name) == Some(JsonView::Text(text)),
        other != name ==> member(text_object(members.push((name, text))), other) == member(
            text_object(members),
            other,
        ),
        member(text_object(seq![]), name) is None,
{
    assert(members.push((name, text)).drop_last() =~= members);
}

/// A number without a sign is read back from how it is written, up to the greatest that
/// is allowed.
pub proof fn natural_number_reads_back(n: nat)
    ensures
        forall|max: nat|
            n <= max ==> #[trigger] natural(Some(JsonView::Number(decimal(n))), max) == Some(n),
        forall|max: nat|
            n > max ==> #[trigger] natural(Some(JsonView::Number(decimal(n))), max) is None,
{
    lemma_decimal_value(n);
}

/// A text that is a document is written anew as that document; any other text is not.
pub proof fn document_is_written_anew(raw: Seq<char>)
    ensures
        json_document(raw) is Some ==> json_compact(raw) == Some(json_text(json_document(raw)->0)),
        json_document(raw) is None ==> json_compact(raw) is None,
{
}

} // verus!
