//! The Feishu API: what is asked, and what is read from the answers.

use crate::json::{
    body_document, json_read, json_text, make_text_object, member, parse_json, read_body,
    render_json, text_object, text_object_holds_its_texts, text_of, whole_between,
    whole_number_reads_back, Json, JsonView, UNDECODED,
};
use crate::text::{
    decimal, decimal_int, decimal_of_i64, glue, trim_end_set, trimmed_end_set,
    trimming_a_set_keeps_the_rest, view_opt, view_opt_str,
};
use vstd::prelude::*;

verus! {

// ---------------------------------------------------------------------------
// Errors
// ---------------------------------------------------------------------------

/// What can go wrong with the Feishu API.
#[derive(Debug, Clone, PartialEq, Eq)]
pub enum FeishuError {
    ClientInit(String),
    Request(String),
    Json(String),
    Api { code: i64, message: String },
    MissingField(&'static str),
}

/// What a `FeishuError` says.
#[verifier::ext_equal]
pub ghost enum FeishuErrorView {
    ClientInit(Seq<char>),
    Request(Seq<char>),
    Json(Seq<char>),
    Api { code: i64, message: Seq<char> },
    MissingField(Seq<char>),
}

impl View for FeishuError {
    type V = FeishuErrorView;

    open spec fn view(&self) -> FeishuErrorView {
        match *self {
            FeishuError::ClientInit(e) => FeishuErrorView::ClientInit(e@),
            FeishuError::Request(e) => FeishuErrorView::Request(e@),
            FeishuError::Json(e) => FeishuErrorView::Json(e@),
            FeishuError::Api { code, message } => FeishuErrorView::Api { code, message: message@ },
            FeishuError::MissingField(field) => FeishuErrorView::MissingField(field@),
        }
    }
}

/// The text of an error.
pub open spec fn feishu_error_text(e: FeishuErrorView) -> Seq<char> {
    match e {
        FeishuErrorView::ClientInit(e) => "http client init failed: "@ + e,
        FeishuErrorView::Request(e) => "request failed: "@ + e,
        FeishuErrorView::Json(e) => "json parse failed: "@ + e,
        FeishuErrorView::Api { code, message } => "feishu api returned code "@ + decimal_int(
            code as int,
        ) + ": "@ + message,
        FeishuErrorView::MissingField(field) => "missing field in response: "@ + field,
    }
}

impl FeishuError {
    pub fn message(&self) -> (r: String)
        ensures
            r@ == feishu_error_text(self@),
    {
        match self {
            FeishuError::ClientInit(e) => glue("http client init failed: ", e.as_str()),
            FeishuError::Request(e) => glue("request failed: ", e.as_str()),
            FeishuError::Json(e) => glue("json parse failed: ", e.as_str()),
            FeishuError::Api { code, message } => {
                let mut out = glue(
                    "feishu api returned code ",
                    decimal_of_i64(*code).as_str(),
                );
                out.append(": ");
                out.append(message.as_str());
                out
            },
            FeishuError::MissingField(field) => glue("missing field in response: ", field),
        }
    }
}

// ---------------------------------------------------------------------------
// Answers
// ---------------------------------------------------------------------------

/// What came of a request.
#[derive(Debug, Clone, PartialEq, Eq)]
pub enum HttpReply {
    NotSent(String),
    /// The body could not be read.
    NotRead(String),
    /// The body is not in UTF-8.
    NotText,
    Body(String),
}

/// What an `HttpReply` says.
#[verifier::ext_equal]
pub ghost enum HttpView {
    NotSent(Seq<char>),
    NotRead(Seq<char>),
    NotText,
    Body(Seq<char>),
}

impl View for HttpReply {
    type V = HttpView;

    open spec fn view(&self) -> HttpView {
        match *self {
            HttpReply::NotSent(e) => HttpView::NotSent(e@),
            HttpReply::NotRead(e) => HttpView::NotRead(e@),
            HttpReply::NotText => HttpView::NotText,
            HttpReply::Body(raw) => HttpView::Body(raw@),
        }
    }
}

/// A document or an error, as seen in contracts.
pub type PayloadView = Result<JsonView, FeishuErrorView>;

/// The document in an answer.
pub open spec fn reply_document(reply: HttpView) -> PayloadView {
    match reply {
        HttpView::NotSent(e) => Err(FeishuErrorView::Request(e)),
        HttpView::NotRead(e) => Err(FeishuErrorView::Json(e)),
        HttpView::NotText => Err(FeishuErrorView::Json(UNDECODED@)),
        HttpView::Body(raw) => match body_document(raw) {
            Ok(j) => Ok(j),
            Err(e) => Err(FeishuErrorView::Json(e)),
        },
    }
}

/// The document in an answer whose body was taken as a text. What is wrong with the text
/// is then told.
pub open spec fn text_reply_document(reply: HttpView) -> PayloadView {
    match reply {
        HttpView::Body(raw) => match json_read(raw) {
            Ok(j) => Ok(j),
            Err(e) => Err(FeishuErrorView::Json(e)),
        },
        _ => reply_document(reply),
    }
}

/// The view of a document or an error.
pub open spec fn view_payload(r: Result<Json, FeishuError>) -> PayloadView {
    match r {
        Ok(j) => Ok(j@),
        Err(e) => Err(e@),
    }
}

/// Reads the document in an answer.
pub fn read_reply(reply: HttpReply) -> (r: Result<Json, FeishuError>)
    ensures
        view_payload(r) == reply_document(reply@),
{
    match reply {
        HttpReply::NotSent(e) => Err(FeishuError::Request(e)),
        HttpReply::NotRead(e) => Err(FeishuError::Json(e)),
        HttpReply::NotText => Err(FeishuError::Json(UNDECODED.to_owned())),
        HttpReply::Body(raw) => match read_body(raw.as_str()) {
            Ok(j) => Ok(j),
            Err(e) => Err(FeishuError::Json(e)),
        },
    }
}

/// Reads the document in an answer whose body was taken as a text.
pub fn read_text_reply(reply: HttpReply) -> (r: Result<Json, FeishuError>)
    ensures
        view_payload(r) == text_reply_document(reply@),
{
    match reply {
        HttpReply::Body(raw) => match parse_json(raw.as_str()) {
            Ok(j) => Ok(j),
            Err(e) => Err(FeishuError::Json(e)),
        },
        other => read_reply(other),
    }
}

/// The code in an answer; -1 where there is none.
pub open spec fn reply_code(payload: JsonView) -> int {
    match whole_between(member(payload, "code"@), i64::MIN as int, i64::MAX as int) {
        Some(n) => n,
        None => -1,
    }
}

/// The code in an answer; -1 where there is none.
pub fn code_of(payload: &Json) -> (r: i64)
    ensures
        r == reply_code(payload@),
{
    match payload.get("code") {
        Some(j) => match j.as_i64() {
            Some(n) => n,
            None => -1,
        },
        None => -1,
    }
}

/// The text of the member `key`, where it is one.
pub open spec fn member_text(payload: JsonView, key: Seq<char>) -> Option<Seq<char>> {
    text_of(member(payload, key))
}

/// The text of the member `key`, where it is one.
pub fn text_in(payload: &Json, key: &str) -> (r: Option<String>)
    ensures
        view_opt(r) == member_text(payload@, key@),
{
    match payload.get(key) {
        Some(j) => match j.as_str() {
            Some(s) => Some(s.to_owned()),
            None => None,
        },
        None => None,
    }
}

/// The error that an answer reports, if it does not report success. `unnamed` stands for
/// a message that is not given.
pub open spec fn api_error(payload: JsonView, unnamed: Seq<char>) -> Option<FeishuErrorView> {
    if reply_code(payload) == 0 {
        None
    } else {
        Some(
            FeishuErrorView::Api {
                code: reply_code(payload) as i64,
                message: crate::text::or_text(member_text(payload, "msg"@), unnamed),
            },
        )
    }
}

/// The error that an answer reports, if it does not report success.
pub fn find_api_error(payload: &Json, unnamed: &str) -> (r: Option<FeishuError>)
    ensures
        match r {
            Some(e) => api_error(payload@, unnamed@) == Some(e@),
            None => api_error(payload@, unnamed@) is None,
        },
{
    let code: i64 = code_of(payload);
    if code == 0 {
        return None;
    }
    let message: String = match text_in(payload, "msg") {
        Some(m) => m,
        None => unnamed.to_owned(),
    };
    Some(FeishuError::Api { code, message })
}

/// Makes sure that an answer reports success.
pub fn parse_success(payload: &Json) -> (r: Result<(), FeishuError>)
    ensures
        match r {
            Ok(()) => api_error(payload@, "unknown error"@) is None,
            Err(e) => api_error(payload@, "unknown error"@) == Some(e@),
        },
{
    match find_api_error(payload, "unknown error") {
        Some(e) => Err(e),
        None => Ok(()),
    }
}

// ---------------------------------------------------------------------------
// Questions
// ---------------------------------------------------------------------------

/// What the agent is known by, and where.
#[derive(Debug, Clone, PartialEq, Eq)]
pub struct FeishuWsConfig {
    pub app_id: String,
    pub app_secret: String,
    pub domain: String,
}

impl FeishuWsConfig {
    pub fn new(app_id: String, app_secret: String) -> (r: Self)
        ensures
            r.app_id == app_id,
            r.app_secret == app_secret,
            r.domain@ == "https://open.feishu.cn"@,
    {
        FeishuWsConfig { app_id, app_secret, domain: "https://open.feishu.cn".to_owned() }
    }

    pub fn with_domain(self, domain: String) -> (r: Self)
        ensures
            r.app_id == self.app_id,
            r.app_secret == self.app_secret,
            r.domain == domain,
    {
        FeishuWsConfig { app_id: self.app_id, app_secret: self.app_secret, domain }
    }
}

pub const SLASHES: [char; 1] = ['/'];

/// The address of a resource below a domain.
pub open spec fn address(domain: Seq<char>, resource: Seq<char>) -> Seq<char> {
    trim_end_set(domain, SLASHES@) + resource
}

/// The address of a resource below `domain`, whether or not that ends in a slash.
pub fn address_of(domain: &str, resource: &str) -> (r: String)
    ensures
        r@ == address(domain@, resource@),
{
    glue(trimmed_end_set(domain, SLASHES.as_slice()), resource)
}

/// A request to the Feishu API.
#[derive(Debug, Clone, PartialEq, Eq)]
pub struct ApiRequest {
    pub url: String,
    /// The token to show, if one is needed.
    pub token: Option<String>,
    /// The JSON document to post; without one the request gets.
    pub body: Option<String>,
    /// The language of the answer, where one is asked for.
    pub locale: Option<&'static str>,
}

/// What an `ApiRequest` says.
#[verifier::ext_equal]
pub ghost struct ApiRequestView {
    pub url: Seq<char>,
    pub token: Option<Seq<char>>,
    pub body: Option<Seq<char>>,
    pub locale: Option<Seq<char>>,
}

impl View for ApiRequest {
    type V = ApiRequestView;

    open spec fn view(&self) -> ApiRequestView {
        ApiRequestView {
            url: self.url@,
            token: view_opt(self.token),
            body: view_opt(self.body),
            locale: view_opt_str(self.locale),
        }
    }
}

/// The document that two named texts make.
pub open spec fn pair_document(
    first: Seq<char>,
    first_text: Seq<char>,
    second: Seq<char>,
    second_text: Seq<char>,
) -> JsonView {
    text_object(seq![(first, first_text), (second, second_text)])
}

/// The text of the document that two named texts make.
pub fn render_pair(first: &str, first_text: &str, second: &str, second_text: &str) -> (r: String)
    ensures
        r@ == json_text(pair_document(first@, first_text@, second@, second_text@)),
{
    let members: Vec<(&str, &str)> = vec![(first, first_text), (second, second_text)];
    let j = make_text_object(members);
    assert(members@.map_values(|m: (&str, &str)| (m.0@, m.1@)) =~= seq![
        (first@, first_text@),
        (second@, second_text@),
    ]);
    render_json(&j)
}

/// The request for a tenant token.
pub open spec fn token_request(config: FeishuWsConfig) -> ApiRequestView {
    ApiRequestView {
        url: address(config.domain@, "/open-apis/auth/v3/tenant_access_token/internal"@),
        token: None,
        body: Some(
            json_text(
                pair_document("app_id"@, config.app_id@, "app_secret"@, config.app_secret@),
            ),
        ),
        locale: None,
    }
}

/// Asks for a tenant token.
pub fn ask_tenant_token(config: &FeishuWsConfig) -> (r: ApiRequest)
    ensures
        r@ == token_request(*config),
{
    ApiRequest {
        url: address_of(
            config.domain.as_str(),
            "/open-apis/auth/v3/tenant_access_token/internal",
        ),
        token: None,
        body: Some(
            render_pair("app_id", config.app_id.as_str(), "app_secret", config.app_secret.as_str()),
        ),
        locale: None,
    }
}

/// The view of a text or an error.
pub open spec fn view_text_result(r: Result<String, FeishuError>) -> Result<
    Seq<char>,
    FeishuErrorView,
> {
    match r {
        Ok(s) => Ok(s@),
        Err(e) => Err(e@),
    }
}

/// The tenant token in a document.
pub open spec fn tenant_token(payload: JsonView, unnamed: Seq<char>) -> Result<
    Seq<char>,
    FeishuErrorView,
> {
    match api_error(payload, unnamed) {
        Some(e) => Err(e),
        None => match member_text(payload, "tenant_access_token"@) {
            Some(token) => Ok(token),
            None => Err(FeishuErrorView::MissingField("tenant_access_token"@)),
        },
    }
}

/// Reads the tenant token from a document. `unnamed` stands for a message of an error
/// that is not given.
pub fn read_tenant_token(payload: &Json, unnamed: &str) -> (r: Result<String, FeishuError>)
    ensures
        view_text_result(r) == tenant_token(payload@, unnamed@),
{
    match find_api_error(payload, unnamed) {
        Some(e) => Err(e),
        None => match text_in(payload, "tenant_access_token") {
            Some(token) => Ok(token),
            None => Err(FeishuError::MissingField("tenant_access_token")),
        },
    }
}

// ---------------------------------------------------------------------------
// Laws
// ---------------------------------------------------------------------------

/// Whether a text is slashes and nothing else.
pub open spec fn all_slashes(s: Seq<char>) -> bool {
    forall|i: int| 0 <= i < s.len() ==> #[trigger] s[i] == '/'
}

/// An address is the domain without the slashes at its end, and the resource behind it,
/// both as they are.
pub proof fn address_is_domain_and_resource(
    domain: Seq<char>,
    slashes: Seq<char>,
    resource: Seq<char>,
)
    requires
        domain.len() == 0 || domain.last() != '/',
        all_slashes(slashes),
    ensures
        address(domain + slashes, resource) == domain + resource,
        trim_end_set(domain + slashes, SLASHES@) == domain,
{
    assert(SLASHES@ =~= seq!['/']);
    assert forall|i: int| 0 <= i < slashes.len() implies SLASHES@.contains(#[trigger] slashes[i]) by {
        assert(SLASHES@[0] == slashes[i]);
    }
    trimming_a_set_keeps_the_rest(domain, slashes, SLASHES@);
}

/// An answer reports success exactly with the code zero; any other code is the error, with
/// the message that comes with it.
pub proof fn code_tells_success(members: Map<Seq<char>, JsonView>, n: nat, unnamed: Seq<char>)
    requires
        n <= i64::MAX,
        members.contains_key("code"@),
        members["code"@] == JsonView::Number(decimal(n)),
    ensures
        n == 0 ==> api_error(JsonView::Object(members), unnamed) is None,
        n > 0 ==> api_error(JsonView::Object(members), unnamed) == Some(
            (FeishuErrorView::Api {
                code: n as i64,
                message: if members.contains_key("msg"@) && members["msg"@] is Text {
                    members["msg"@]->Text_0
                } else {
                    unnamed
                },
            }),
        ),
{
    whole_number_reads_back(n);
}

/// An answer without a code is an error.
pub proof fn missing_code_is_an_error(payload: JsonView, unnamed: Seq<char>)
    requires
        member(payload, "code"@) is None,
    ensures
        api_error(payload, unnamed) matches Some(FeishuErrorView::Api { code, message }) && code
            == -1,
{
}

/// The token is the one in the answer, as it is.
pub proof fn token_is_read(members: Map<Seq<char>, JsonView>, token: Seq<char>, unnamed: Seq<char>)
    requires
        members.contains_key("code"@),
        members["code"@] == JsonView::Number(decimal(0)),
    ensures
        members.contains_key("tenant_access_token"@) && members["tenant_access_token"@]
            == JsonView::Text(token) ==> tenant_token(JsonView::Object(members), unnamed) == Ok::<
            _,
            FeishuErrorView,
        >(token),
        !members.contains_key("tenant_access_token"@) ==> tenant_token(
            JsonView::Object(members),
            unnamed,
        ) == Err::<Seq<char>, _>(FeishuErrorView::MissingField("tenant_access_token"@)),
{
    code_tells_success(members, 0, unnamed);
}

/// A pair of named texts is a document that holds each text under its name.
pub proof fn pair_holds_both(a: Seq<char>, x: Seq<char>, b: Seq<char>, y: Seq<char>)
    requires
        a != b,
    ensures
        member_text(pair_document(a, x, b, y), a) == Some(x),
        member_text(pair_document(a, x, b, y), b) == Some(y),
{
    let none = Seq::<(Seq<char>, Seq<char>)>::empty();
    text_object_holds_its_texts(none, a, x, b);
    text_object_holds_its_texts(none.push((a, x)), b, y, a);
    assert(seq![(a, x), (b, y)] =~= none.push((a, x)).push((b, y)));
}

/// A token is asked for at its address, with the id and the secret of the app.
pub proof fn token_is_asked_for_with_the_credentials(config: FeishuWsConfig)
    ensures
        token_request(config).url == address(
            config.domain@,
            "/open-apis/auth/v3/tenant_access_token/internal"@,
        ),
        token_request(config).token is None,
        token_request(config).body == Some(
            json_text(pair_document("app_id"@, config.app_id@, "app_secret"@, config.app_secret@)),
        ),
        member_text(
            pair_document("app_id"@, config.app_id@, "app_secret"@, config.app_secret@),
            "app_id"@,
        ) == Some(config.app_id@),
        member_text(
            pair_document("app_id"@, config.app_id@, "app_secret"@, config.app_secret@),
            "app_secret"@,
        ) == Some(config.app_secret@),
{
    reveal_strlit("app_id");
    reveal_strlit("app_secret");
    assert("app_id"@.len() != "app_secret"@.len());
    pair_holds_both("app_id"@, config.app_id@, "app_secret"@, config.app_secret@);
}

/// What kept an answer from being read is told.
pub proof fn failed_answer_says_why(why: Seq<char>)
    ensures
        reply_document(HttpView::NotSent(why)) == Err::<JsonView, _>(FeishuErrorView::Request(why)),
        reply_document(HttpView::NotRead(why)) == Err::<JsonView, _>(FeishuErrorView::Json(why)),
        feishu_error_text(FeishuErrorView::Request(why)) == "request failed: "@ + why,
        feishu_error_text(FeishuErrorView::Json(why)) == "json parse failed: "@ + why,
        feishu_error_text(FeishuErrorView::MissingField(why)) == "missing field in response: "@
            + why,
        feishu_error_text(FeishuErrorView::ClientInit(why)) == "http client init failed: "@ + why,
        forall|code: i64|
            #[trigger] feishu_error_text((FeishuErrorView::Api { code, message: why }))
                == "feishu api returned code "@ + decimal_int(code as int) + ": "@ + why,
{
}

/// A body that was taken as a text is the document that it reads as; where it is none,
/// the error says what is wrong with the text, and where there is no text, what went wrong
/// on the way.
pub proof fn text_answer_is_the_document(raw: Seq<char>, why: Seq<char>)
    ensures
        json_read(raw) is Ok ==> text_reply_document(HttpView::Body(raw)) == PayloadView::Ok(
            json_read(raw)->Ok_0,
        ),
        json_read(raw) is Err ==> text_reply_document(HttpView::Body(raw)) == PayloadView::Err(
            FeishuErrorView::Json(json_read(raw)->Err_0),
        ),
        text_reply_document(HttpView::NotSent(why)) == PayloadView::Err(
            FeishuErrorView::Request(why),
        ),
        text_reply_document(HttpView::NotRead(why)) == PayloadView::Err(
            FeishuErrorView::Json(why),
        ),
{
}

} // verus!
