//! Sending texts back to Feishu.
//!
//! The client keeps a tenant token. A reply that is refused is sent once more with a
//! fresh token, since the kept one may have expired.

use crate::feishu::{
    address, address_of, api_error, ask_tenant_token, code_tells_success, find_api_error,
    member_text, read_reply, read_tenant_token, reply_document, tenant_token, token_is_read,
    token_request, view_payload, view_text_result, ApiRequest, ApiRequestView, FeishuError,
    FeishuErrorView, FeishuWsConfig, HttpReply, PayloadView, SLASHES,
};
use crate::json::{
    json_document, json_text, make_text_object, render_json, text_members, text_object, Json,
    JsonView,
};
use crate::text::{decimal, glue, trim_end_set, trimmed_end_set};
use vstd::prelude::*;

verus! {

/// A client that replies.
#[derive(Debug)]
pub struct ReplyClient {
    pub config: FeishuWsConfig,
    /// The token that is kept; empty while there is none.
    pub token: String,
}

/// A text to send: where, as what document, and whether to try again once refused.
#[derive(Debug, Clone, PartialEq, Eq)]
pub struct SendJob {
    pub url: String,
    pub body: String,
    pub retries: bool,
}

/// What a `SendJob` says.
#[verifier::ext_equal]
pub ghost struct SendJobView {
    pub url: Seq<char>,
    pub body: Seq<char>,
    pub retries: bool,
}

impl View for SendJob {
    type V = SendJobView;

    open spec fn view(&self) -> SendJobView {
        SendJobView { url: self.url@, body: self.body@, retries: self.retries }
    }
}

/// The document that holds a text to send.
pub open spec fn text_note(text: Seq<char>) -> JsonView {
    text_object(seq![("text"@, text)])
}

/// The document of a reply.
pub open spec fn reply_document_of(text: Seq<char>) -> JsonView {
    text_object(seq![("content"@, json_text(text_note(text))), ("msg_type"@, "text"@)])
}

/// The document of a new message.
pub open spec fn message_document_of(receive_id: Seq<char>, text: Seq<char>) -> JsonView {
    text_object(
        seq![
            ("receive_id"@, receive_id),
            ("content"@, json_text(text_note(text))),
            ("msg_type"@, "text"@),
        ],
    )
}

/// The text of the document that holds a text to send: it reads back as that document.
pub fn render_note(text: &str) -> (r: String)
    ensures
        r@ == json_text(text_note(text@)),
        json_document(r@) == Some(text_note(text@)),
{
    let members: Vec<(&str, &str)> = vec![("text", text)];
    let j = make_text_object(members);
    assert(members@.map_values(|m: (&str, &str)| (m.0@, m.1@)) =~= seq![("text"@, text@)]);
    render_json(&j)
}

/// The text that a document to send carries: it stands in a document of its own, which
/// is the content.
pub open spec fn carried_text(body: Seq<char>) -> Option<Seq<char>> {
    match json_document(body) {
        Some(j) => match member_text(j, "content"@) {
            Some(content) => match json_document(content) {
                Some(n) => member_text(n, "text"@),
                None => None,
            },
            None => None,
        },
        None => None,
    }
}

/// What sending waits for.
#[derive(Debug, Clone, Copy, PartialEq, Eq, Structural)]
pub enum SendState {
    FirstToken,
    FirstPost,
    RetryToken,
    RetryPost,
}

/// Where sending stands: it asks, or it is over.
#[derive(Debug)]
pub enum SendStep {
    Ask(ApiRequest, SendState),
    Done(Result<(), FeishuError>),
}

/// What a `SendStep` says.
#[verifier::ext_equal]
pub ghost enum SendStepView {
    Ask(ApiRequestView, SendState),
    Done(Option<FeishuErrorView>),
}

impl View for SendStep {
    type V = SendStepView;

    open spec fn view(&self) -> SendStepView {
        match *self {
            SendStep::Ask(request, state) => SendStepView::Ask(request@, state),
            SendStep::Done(Ok(())) => SendStepView::Done(None),
            SendStep::Done(Err(e)) => SendStepView::Done(Some(e@)),
        }
    }
}

/// The request that sends a text with a token.
pub open spec fn post_request(job: SendJobView, token: Seq<char>) -> ApiRequestView {
    ApiRequestView { url: job.url, token: Some(token), body: Some(job.body), locale: None }
}

/// How sending starts: with the kept token, or by getting one.
pub open spec fn send_start(
    config: FeishuWsConfig,
    token: Seq<char>,
    job: SendJobView,
) -> SendStepView {
    if token.len() == 0 {
        SendStepView::Ask(token_request(config), SendState::FirstToken)
    } else {
        SendStepView::Ask(post_request(job, token), SendState::FirstPost)
    }
}

/// The token in a document, if there is a document.
pub open spec fn answered_token(payload: PayloadView) -> Result<Seq<char>, FeishuErrorView> {
    match payload {
        Ok(j) => tenant_token(j, "unknown"@),
        Err(e) => Err(e),
    }
}

/// How sending goes on after an answer, given the document in it, and the token that is
/// kept then.
pub open spec fn send_next(
    config: FeishuWsConfig,
    token: Seq<char>,
    job: SendJobView,
    state: SendState,
    payload: PayloadView,
) -> (SendStepView, Seq<char>) {
    match state {
        SendState::FirstToken => match answered_token(payload) {
            Ok(t) => (SendStepView::Ask(post_request(job, t), SendState::FirstPost), t),
            Err(e) => (SendStepView::Done(Some(e)), token),
        },
        SendState::RetryToken => match answered_token(payload) {
            Ok(t) => (SendStepView::Ask(post_request(job, t), SendState::RetryPost), t),
            Err(e) => (SendStepView::Done(Some(e)), token),
        },
        SendState::FirstPost => match payload {
            Err(e) => (SendStepView::Done(Some(e)), token),
            Ok(j) => match api_error(j, "unknown"@) {
                None => (SendStepView::Done(None), token),
                Some(e) => if job.retries {
                    (SendStepView::Ask(token_request(config), SendState::RetryToken), token)
                } else {
                    (SendStepView::Done(Some(e)), token)
                },
            },
        },
        SendState::RetryPost => match payload {
            Err(e) => (SendStepView::Done(Some(e)), token),
            Ok(j) => (SendStepView::Done(api_error(j, "unknown"@)), token),
        },
    }
}

fn refresh_token(payload: Result<Json, FeishuError>) -> (r: Result<String, FeishuError>)
    ensures
        view_text_result(r) == answered_token(view_payload(payload)),
{
    match payload {
        Ok(j) => read_tenant_token(&j, "unknown"),
        Err(e) => Err(e),
    }
}

proof fn lemma_reply_content(text: Seq<char>, content: Seq<char>)
    requires
        content == json_text(text_note(text)),
    ensures
        member_text(reply_document_of(text), "content"@) == Some(content),
{
    reveal_strlit("content");
    reveal_strlit("msg_type");
    assert("content"@.len() != "msg_type"@.len());
    let all = seq![("content"@, content), ("msg_type"@, "text"@)];
    assert(all.drop_last() =~= seq![("content"@, content)]);
    assert(all.drop_last().drop_last() =~= seq![]);
    reveal_with_fuel(text_members, 3);
}

proof fn lemma_message_content(receive_id: Seq<char>, text: Seq<char>, content: Seq<char>)
    requires
        content == json_text(text_note(text)),
    ensures
        member_text(message_document_of(receive_id, text), "content"@) == Some(content),
{
    reveal_strlit("content");
    reveal_strlit("msg_type");
    assert("content"@.len() != "msg_type"@.len());
    let all = seq![("receive_id"@, receive_id), ("content"@, content), ("msg_type"@, "text"@)];
    assert(all.drop_last() =~= seq![("receive_id"@, receive_id), ("content"@, content)]);
    reveal_with_fuel(text_members, 3);
}

fn post_with(job: &SendJob, token: String) -> (r: ApiRequest)
    ensures
        r@ == post_request(job@, token@),
{
    ApiRequest {
        url: job.url.clone(),
        token: Some(token),
        body: Some(job.body.clone()),
        locale: None,
    }
}

impl ReplyClient {
    /// A client without a token.
    pub fn new(app_id: String, app_secret: String, domain: String) -> (r: Self)
        ensures
            r.config.app_id == app_id,
            r.config.app_secret == app_secret,
            r.config.domain@ == trim_end_set(domain@, SLASHES@),
            r.token@.len() == 0,
    {
        let bare = trimmed_end_set(domain.as_str(), SLASHES.as_slice()).to_owned();
        ReplyClient {
            config: FeishuWsConfig::new(app_id, app_secret).with_domain(bare),
            token: String::new(),
        }
    }

    /// What to send in reply to the message `message_id`.
    pub fn reply_text(&self, message_id: &str, text: &str) -> (r: SendJob)
        ensures
            r@ == (SendJobView {
                url: address(
                    self.config.domain@,
                    "/open-apis/im/v1/messages/"@ + message_id@ + "/reply"@,
                ),
                body: json_text(reply_document_of(text@)),
                retries: true,
            }),
            carried_text(r@.body) == Some(text@),
    {
        let mut resource = glue("/open-apis/im/v1/messages/", message_id);
        resource.append("/reply");
        let content = render_note(text);
        let members: Vec<(&str, &str)> = vec![
            ("content", content.as_str()),
            ("msg_type", "text"),
        ];
        let j = make_text_object(members);
        assert(members@.map_values(|m: (&str, &str)| (m.0@, m.1@)) =~= seq![
            ("content"@, content@),
            ("msg_type"@, "text"@),
        ]);
        let body = render_json(&j);
        proof {
            lemma_reply_content(text@, content@);
            note_holds_text(text@);
        }
        SendJob {
            url: address_of(self.config.domain.as_str(), resource.as_str()),
            body,
            retries: true,
        }
    }

    /// What to send as a new message to a chat or a user.
    pub fn send_text(&self, receive_id: &str, receive_id_type: &str, text: &str) -> (r: SendJob)
        ensures
            r@ == (SendJobView {
                url: address(
                    self.config.domain@,
                    "/open-apis/im/v1/messages?receive_id_type="@ + receive_id_type@,
                ),
                body: json_text(message_document_of(receive_id@, text@)),
                retries: false,
            }),
            carried_text(r@.body) == Some(text@),
    {
        let resource = glue("/open-apis/im/v1/messages?receive_id_type=", receive_id_type);
        let content = render_note(text);
        let members: Vec<(&str, &str)> = vec![
            ("receive_id", receive_id),
            ("content", content.as_str()),
            ("msg_type", "text"),
        ];
        let j = make_text_object(members);
        assert(members@.map_values(|m: (&str, &str)| (m.0@, m.1@)) =~= seq![
            ("receive_id"@, receive_id@),
            ("content"@, content@),
            ("msg_type"@, "text"@),
        ]);
        let body = render_json(&j);
        proof {
            lemma_message_content(receive_id@, text@, content@);
            note_holds_text(text@);
        }
        SendJob {
            url: address_of(self.config.domain.as_str(), resource.as_str()),
            body,
            retries: false,
        }
    }

    /// Starts sending.
    pub fn begin_send(&self, job: &SendJob) -> (r: SendStep)
        ensures
            r@ == send_start(self.config, self.token@, job@),
    {
        if self.token.as_str().is_empty() {
            SendStep::Ask(ask_tenant_token(&self.config), SendState::FirstToken)
        } else {
            SendStep::Ask(post_with(job, self.token.clone()), SendState::FirstPost)
        }
    }

    /// Goes on with sending after an answer.
    pub fn resume_send(&mut self, job: &SendJob, state: SendState, reply: HttpReply) -> (r:
        SendStep)
        ensures
            final(self).config == old(self).config,
            (r@, final(self).token@) == send_next(
                old(self).config,
                old(self).token@,
                job@,
                state,
                reply_document(reply@),
            ),
    {
        self.resume_with(job, state, read_reply(reply))
    }

    /// Goes on with sending, given the document in an answer.
    pub fn resume_with(
        &mut self,
        job: &SendJob,
        state: SendState,
        payload: Result<Json, FeishuError>,
    ) -> (r: SendStep)
        ensures
            final(self).config == old(self).config,
            (r@, final(self).token@) == send_next(
                old(self).config,
                old(self).token@,
                job@,
                state,
                view_payload(payload),
            ),
    {
        match state {
            SendState::FirstToken => match refresh_token(payload) {
                Err(e) => SendStep::Done(Err(e)),
                Ok(token) => {
                    self.token = token.clone();
                    SendStep::Ask(post_with(job, token), SendState::FirstPost)
                },
            },
            SendState::RetryToken => match refresh_token(payload) {
                Err(e) => SendStep::Done(Err(e)),
                Ok(token) => {
                    self.token = token.clone();
                    SendStep::Ask(post_with(job, token), SendState::RetryPost)
                },
            },
            SendState::FirstPost => match payload {
                Err(e) => SendStep::Done(Err(e)),
                Ok(j) => match find_api_error(&j, "unknown") {
                    None => SendStep::Done(Ok(())),
                    Some(e) => if job.retries {
                        SendStep::Ask(ask_tenant_token(&self.config), SendState::RetryToken)
                    } else {
                        SendStep::Done(Err(e))
                    },
                },
            },
            SendState::RetryPost => match payload {
                Err(e) => SendStep::Done(Err(e)),
                Ok(j) => match find_api_error(&j, "unknown") {
                    None => SendStep::Done(Ok(())),
                    Some(e) => SendStep::Done(Err(e)),
                },
            },
        }
    }
}

// ---------------------------------------------------------------------------
// Laws
// ---------------------------------------------------------------------------

/// How many more requests sending can make at most.
pub open spec fn requests_left(step: SendStepView) -> nat {
    match step {
        SendStepView::Done(_) => 0,
        SendStepView::Ask(_, SendState::FirstToken) => 4,
        SendStepView::Ask(_, SendState::FirstPost) => 3,
        SendStepView::Ask(_, SendState::RetryToken) => 2,
        SendStepView::Ask(_, SendState::RetryPost) => 1,
    }
}

/// Every answer brings sending nearer to its end, so that it makes at most four
/// requests.
pub proof fn sending_ends(
    config: FeishuWsConfig,
    token: Seq<char>,
    job: SendJobView,
    state: SendState,
    request: ApiRequestView,
    payload: PayloadView,
)
    ensures
        requests_left(send_start(config, token, job)) <= 4,
        requests_left(send_next(config, token, job, state, payload).0) < requests_left(
            SendStepView::Ask(request, state),
        ),
{
}

/// A text is sent a second time only after it was refused, only if the job allows it,
/// and only with a token that was got for it; it is never sent a third time.
pub proof fn resent_only_once_refused(
    config: FeishuWsConfig,
    token: Seq<char>,
    job: SendJobView,
    state: SendState,
    payload: PayloadView,
    request: ApiRequestView,
)
    ensures
        send_next(config, token, job, state, payload).0 == SendStepView::Ask(
            request,
            SendState::RetryPost,
        ) ==> state == SendState::RetryToken && answered_token(payload) is Ok && request
            == post_request(job, answered_token(payload)->Ok_0),
        send_next(config, token, job, state, payload).0 == SendStepView::Ask(
            request,
            SendState::RetryToken,
        ) ==> state == SendState::FirstPost && job.retries && payload is Ok && api_error(
            payload->Ok_0,
            "unknown"@,
        ) is Some,
        state == SendState::RetryPost ==> send_next(config, token, job, state, payload).0 is Done,
{
}

/// A text that was accepted is not sent again.
pub proof fn accepted_is_done(
    config: FeishuWsConfig,
    token: Seq<char>,
    job: SendJobView,
    state: SendState,
    payload: PayloadView,
)
    requires
        state == SendState::FirstPost || state == SendState::RetryPost,
        payload is Ok,
        api_error(payload->Ok_0, "unknown"@) is None,
    ensures
        send_next(config, token, job, state, payload) == (SendStepView::Done(None), token),
{
}

/// The text in a note reads back as it was.
pub proof fn note_holds_text(text: Seq<char>)
    ensures
        member_text(text_note(text), "text"@) == Some(text),
{
    let members = seq![("text"@, text)];
    assert(members.drop_last() =~= seq![]);
}

/// A new message names who receives it, and both it and a reply are of the kind of a text.
pub proof fn message_names_its_receiver(receive_id: Seq<char>, text: Seq<char>)
    ensures
        member_text(message_document_of(receive_id, text), "receive_id"@) == Some(receive_id),
        member_text(message_document_of(receive_id, text), "msg_type"@) == Some("text"@),
        member_text(reply_document_of(text), "msg_type"@) == Some("text"@),
{
    reveal_strlit("content");
    reveal_strlit("msg_type");
    reveal_strlit("receive_id");
    assert("content"@.len() == 7 && "msg_type"@.len() == 8 && "receive_id"@.len() == 10);
    let content = json_text(text_note(text));
    let all = seq![("receive_id"@, receive_id), ("content"@, content), ("msg_type"@, "text"@)];
    assert(all.drop_last() =~= seq![("receive_id"@, receive_id), ("content"@, content)]);
    assert(all.drop_last().drop_last() =~= seq![("receive_id"@, receive_id)]);
    assert(all.drop_last().drop_last().drop_last() =~= seq![]);
    reveal_with_fuel(text_members, 4);
    let answer = seq![("content"@, content), ("msg_type"@, "text"@)];
    assert(answer.last() == ("msg_type"@, "text"@));
}

/// A job is sent as it is, to its address and with its document, and shows the token that
/// is kept, or else the one that was got for it, which is kept then.
pub proof fn job_is_sent_as_it_is(
    config: FeishuWsConfig,
    token: Seq<char>,
    job: SendJobView,
    got: Seq<char>,
    members: Map<Seq<char>, JsonView>,
)
    requires
        members.contains_key("code"@),
        members["code"@] == JsonView::Number(decimal(0)),
        members.contains_key("tenant_access_token"@),
        members["tenant_access_token"@] == JsonView::Text(got),
    ensures
        token.len() > 0 ==> send_start(config, token, job) == SendStepView::Ask(
            (ApiRequestView {
                url: job.url,
                token: Some(token),
                body: Some(job.body),
                locale: None,
            }),
            SendState::FirstPost,
        ),
        token.len() == 0 ==> send_start(config, token, job) == SendStepView::Ask(
            token_request(config),
            SendState::FirstToken,
        ),
        send_next(config, token, job, SendState::FirstToken, Ok(JsonView::Object(members))) == (
            SendStepView::Ask(
                (ApiRequestView {
                    url: job.url,
                    token: Some(got),
                    body: Some(job.body),
                    locale: None,
                }),
                SendState::FirstPost,
            ),
            got,
        ),
        send_next(config, token, job, SendState::RetryToken, Ok(JsonView::Object(members))) == (
            SendStepView::Ask(
                (ApiRequestView {
                    url: job.url,
                    token: Some(got),
                    body: Some(job.body),
                    locale: None,
                }),
                SendState::RetryPost,
            ),
            got,
        ),
{
    token_is_read(members, got, "unknown"@);
}

/// A job that was refused asks for a fresh token where it may be sent again, and otherwise
/// ends with the error that was reported; an accepted one ends well.
pub proof fn refused_job_is_sent_again(
    config: FeishuWsConfig,
    token: Seq<char>,
    job: SendJobView,
    n: nat,
    msg: Seq<char>,
    members: Map<Seq<char>, JsonView>,
    e: FeishuErrorView,
)
    requires
        n <= i64::MAX,
        members.contains_key("code"@),
        members["code"@] == JsonView::Number(decimal(n)),
        members.contains_key("msg"@),
        members["msg"@] == JsonView::Text(msg),
    ensures
        ({
            let answer = Ok::<_, FeishuErrorView>(JsonView::Object(members));
            let refusal = FeishuErrorView::Api { code: n as i64, message: msg };
            let first = send_next(config, token, job, SendState::FirstPost, answer);
            let last = send_next(config, token, job, SendState::RetryPost, answer);
            &&& first.1 == token && last.1 == token
            &&& n == 0 ==> first.0 == SendStepView::Done(None) && last.0 == SendStepView::Done(None)
            &&& n > 0 && job.retries ==> first.0 == SendStepView::Ask(
                token_request(config),
                SendState::RetryToken,
            )
            &&& n > 0 && !job.retries ==> first.0 == SendStepView::Done(Some(refusal))
            &&& n > 0 ==> last.0 == SendStepView::Done(Some(refusal))
            &&& forall|state: SendState|
                #[trigger] send_next(config, token, job, state, Err(e)).0 == SendStepView::Done(
                    Some(e),
                )
        }),
{
    code_tells_success(members, n, "unknown"@);
}

/// The text that a document to send carries is the one under `text` in the document whose
/// text stands under `content`.
pub proof fn carried_text_stands_in_the_content(
    body: Seq<char>,
    outer: Map<Seq<char>, JsonView>,
    content: Seq<char>,
    inner: Map<Seq<char>, JsonView>,
    text: Seq<char>,
)
    requires
        json_document(body) == Some(JsonView::Object(outer)),
        outer.contains_pair("content"@, JsonView::Text(content)),
        json_document(content) == Some(JsonView::Object(inner)),
        inner.contains_pair("text"@, JsonView::Text(text)),
    ensures
        carried_text(body) == Some(text),
{
}

} // verus!
