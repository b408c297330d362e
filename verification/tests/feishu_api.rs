//! The Feishu API: answers, events, frames, replies, and the diagnosis.

use harborbeacon_desktop::connectivity::{
    begin_check, check_connectivity, emit_report, resume_check, CheckState, CheckStep,
    ConnectivityReport,
};
use harborbeacon_desktop::contracts::{Channel, ChatType, ConnectionState};
use harborbeacon_desktop::event::{event_content, message_from_event, parse_event_json};
use harborbeacon_desktop::feishu::{
    parse_success, read_reply, read_text_reply, ApiRequest, FeishuError, FeishuWsConfig,
    HttpReply,
};
use harborbeacon_desktop::json::{parse_json, render_json, Json};
use harborbeacon_desktop::reply::{render_note, ReplyClient, SendJob, SendState, SendStep};
use harborbeacon_desktop::ws::{
    begin_ws_url, connect_and_receive, connection_state, handle_frame, obtain_ws_url,
    resume_ws_url, LoopAction, PbFrame, PbHeader, Reconnect, SessionEnd, UrlState, UrlStep,
    WsAnswer, WsEvent,
};

fn json(raw: &str) -> Json {
    parse_json(raw).expect("a document")
}

fn body(raw: &str) -> HttpReply {
    HttpReply::Body(raw.to_string())
}

fn config() -> FeishuWsConfig {
    FeishuWsConfig::new("id".to_string(), "sec".to_string())
        .with_domain("https://open.feishu.cn//".to_string())
}

#[test]
fn parse_message_event() {
    let frame = r#"{
        "header": {
            "event_type": "im.message.receive_v1"
        },
        "event": {
            "sender": {
                "sender_id": { "open_id": "ou_abc123" }
            },
            "message": {
                "message_id": "msg_001",
                "chat_id": "oc_xyz",
                "chat_type": "p2p",
                "content": "{\"text\":\"hello world\"}"
            }
        }
    }"#;

    let msg = parse_event_json(frame).expect("should parse");
    assert_eq!(msg.sender_id, "ou_abc123");
    assert_eq!(msg.text, "hello world");
    assert_eq!(msg.chat_type, ChatType::P2p);
    assert_eq!(msg.message_id, "msg_001");
    assert_eq!(msg.chat_id, "oc_xyz");
    assert_eq!(msg.channel, Channel::Feishu);
    assert!(msg.mentions.is_empty());
}

#[test]
fn ignore_non_message_event() {
    let frame = r#"{"header":{"event_type":"url_verification"}}"#;
    assert!(parse_event_json(frame).is_none());
}

#[test]
fn events_with_gaps() {
    assert!(parse_event_json("not json").is_none());
    assert!(parse_event_json(r#"{"header":{"event_type":"im.message.receive_v1"}}"#).is_none());
    let j = json(
        r#"{"header":{"event_type":"im.message.receive_v1"},
            "event":{"message":{"chat_type":"group","content":7,
            "mentions":[{"id":"a"},{"id":5},{"id":"b"}]}}}"#,
    );
    assert_eq!(event_content(&j), None);
    let msg = message_from_event(&j, None).expect("a message");
    assert_eq!(msg.sender_id, "");
    assert_eq!(msg.text, "");
    assert_eq!(msg.chat_type, ChatType::Group);
    assert_eq!(msg.mentions, vec!["a", "b"]);
    let msg = message_from_event(&j, Some(json(r#"{"text":"hi"}"#))).expect("a message");
    assert_eq!(msg.text, "hi");
    // A content that is no document leaves the text empty.
    let bad = r#"{"header":{"event_type":"im.message.receive_v1"},
        "event":{"message":{"content":"plain"}}}"#;
    assert_eq!(parse_event_json(bad).expect("a message").text, "");
}

#[test]
fn answers() {
    assert_eq!(
        read_reply(HttpReply::NotSent("x".into())).unwrap_err(),
        FeishuError::Request("x".into())
    );
    assert_eq!(
        read_reply(HttpReply::NotRead("y".into())).unwrap_err(),
        FeishuError::Json("y".into())
    );
    let undecoded = FeishuError::Json("error decoding response body".into());
    assert_eq!(read_reply(body("{")).unwrap_err(), undecoded);
    assert_eq!(read_reply(HttpReply::NotText).unwrap_err(), undecoded);
    match read_text_reply(body("{")).unwrap_err() {
        FeishuError::Json(e) => assert!(e.contains("EOF"), "{}", e),
        other => panic!("unexpected: {:?}", other),
    }
    assert_eq!(
        read_text_reply(HttpReply::NotRead("y".into())).unwrap_err(),
        FeishuError::Json("y".into())
    );
    assert_eq!(parse_success(&json(r#"{"code":0}"#)), Ok(()));
    assert_eq!(
        parse_success(&json(r#"{"code":99,"msg":"no"}"#)),
        Err(FeishuError::Api { code: 99, message: "no".into() })
    );
    assert_eq!(
        parse_success(&json(r#"{"code":0.0}"#)),
        Err(FeishuError::Api { code: -1, message: "unknown error".into() })
    );
    assert_eq!(
        parse_success(&json("{}")),
        Err(FeishuError::Api { code: -1, message: "unknown error".into() })
    );
}

#[test]
fn feishu_error_texts() {
    assert_eq!(
        FeishuError::ClientInit("x".into()).message(),
        "http client init failed: x"
    );
    assert_eq!(FeishuError::Request("x".into()).message(), "request failed: x");
    assert_eq!(FeishuError::Json("x".into()).message(), "json parse failed: x");
    assert_eq!(
        FeishuError::Api { code: -5, message: "m".into() }.message(),
        "feishu api returned code -5: m"
    );
    assert_eq!(
        FeishuError::MissingField("data.URL").message(),
        "missing field in response: data.URL"
    );
}

fn check_request(step: CheckStep) -> (ApiRequest, CheckState) {
    match step {
        CheckStep::Ask(request, state) => (request, state),
        CheckStep::Done(r) => panic!("over: {:?}", r),
    }
}

#[test]
fn diagnosis_that_passes() {
    let c = config();
    let (r, state) = check_request(begin_check(&c));
    assert_eq!(
        r.url,
        "https://open.feishu.cn/open-apis/auth/v3/tenant_access_token/internal"
    );
    assert_eq!(r.token, None);
    assert_eq!(r.body.as_deref(), Some(r#"{"app_id":"id","app_secret":"sec"}"#));
    let (r, state) = check_request(check_connectivity(
        &c,
        state,
        body(r#"{"code":0,"tenant_access_token":"t"}"#),
    ));
    assert_eq!(r.url, "https://open.feishu.cn/open-apis/bot/v3/info");
    assert_eq!(r.token.as_deref(), Some("t"));
    assert_eq!(r.body, None);
    let (r, state) = check_request(check_connectivity(
        &c,
        state,
        body(r#"{"code":0,"bot":{"app_name":"App"}}"#),
    ));
    assert_eq!(r.url, "https://open.feishu.cn/open-apis/callback/ws/endpoint");
    let step = check_connectivity(
        &c,
        state,
        body(r#"{"code":0,"data":{"endpoint":"wss://x","service_id":"7"}}"#),
    );
    let report = match step {
        CheckStep::Done(Ok(report)) => report,
        other => panic!("unexpected: {:?}", other),
    };
    assert!(report.ok && report.token_ok && report.bot_info_ok && report.ws_endpoint_ok);
    assert_eq!(report.domain, "https://open.feishu.cn");
    assert_eq!(report.app_name.as_deref(), Some("App"));
    assert_eq!(report.bot_name, None);
    assert_eq!(report.ws_endpoint.as_deref(), Some("wss://x"));
    assert_eq!(report.ws_service_id.as_deref(), Some("7"));
    assert_eq!(
        emit_report(&report),
        "=== HarborBeacon Desktop Doctor ===\nDomain        : https://open.feishu.cn\nToken         : OK\nBot Info      : OK\nWS Endpoint   : OK\nApp Name      : App\nWS Service ID : 7\nWS Endpoint   : wss://x\n\nOverall       : PASS\n"
    );
}

#[test]
fn diagnosis_with_warnings() {
    let c = config();
    let step = check_connectivity(&c, CheckState::Bot, HttpReply::NotSent("down".into()));
    let (_, state) = check_request(step);
    let step = check_connectivity(&c, state, body(r#"{"code":0,"data":{"endpoint":"e"}}"#));
    let report: ConnectivityReport = match step {
        CheckStep::Done(Ok(report)) => report,
        other => panic!("unexpected: {:?}", other),
    };
    assert!(!report.ok && report.token_ok && !report.bot_info_ok && !report.ws_endpoint_ok);
    assert_eq!(
        report.warnings,
        vec![
            "bot info check failed: request failed: down",
            "ws endpoint check failed: missing field in response: data.service_id",
        ]
    );
    assert!(emit_report(&report).ends_with(
        "Bot Info      : DEGRADED\nWS Endpoint   : DEGRADED\nWarnings:\n- bot info check failed: request failed: down\n- ws endpoint check failed: missing field in response: data.service_id\n\nOverall       : FAIL\n"
    ));
}

#[test]
fn diagnosis_without_token() {
    let c = config();
    match check_connectivity(&c, CheckState::Token, body(r#"{"code":0}"#)) {
        CheckStep::Done(Err(e)) => assert_eq!(e, FeishuError::MissingField("tenant_access_token")),
        other => panic!("unexpected: {:?}", other),
    }
    match check_connectivity(&c, CheckState::Token, body(r#"{"code":1}"#)) {
        CheckStep::Done(Err(e)) => {
            assert_eq!(e, FeishuError::Api { code: 1, message: "unknown error".into() })
        }
        other => panic!("unexpected: {:?}", other),
    }
}

fn frame(method: i32, kind: &str, payload: &[u8]) -> PbFrame {
    PbFrame {
        seq_id: 1,
        log_id: 2,
        service: 3,
        method,
        headers: vec![
            PbHeader { key: "trace".to_string(), value: "x".to_string() },
            PbHeader { key: "type".to_string(), value: kind.to_string() },
            PbHeader { key: "type".to_string(), value: "second".to_string() },
        ],
        payload_encoding: "e".to_string(),
        payload_type: "t".to_string(),
        payload: payload.to_vec(),
        log_id_new: "n".to_string(),
    }
}

#[test]
fn frame_headers() {
    let f = frame(0, "ping", b"");
    assert_eq!(f.header("type"), Some("ping"));
    assert_eq!(f.header("nothing"), None);
}

#[test]
fn pings_are_answered() {
    let (answer, message) = handle_frame(frame(0, "ping", b"data"));
    let pong = answer.expect("a pong");
    assert_eq!(pong.header("type"), Some("pong"));
    assert_eq!(pong.headers.len(), 1);
    assert!(pong.payload.is_empty());
    assert_eq!((pong.seq_id, pong.log_id, pong.service, pong.method), (1, 2, 3, 0));
    assert_eq!(pong.log_id_new, "n");
    assert!(message.is_none());
    let (answer, _) = handle_frame(frame(1, "ping", b""));
    assert!(answer.is_none());
}

#[test]
fn events_are_acknowledged() {
    let event = br#"{"header":{"event_type":"im.message.receive_v1"},"event":{"message":{"message_id":"m"}}}"#;
    let f = frame(1, "event", event);
    let (answer, message) = handle_frame(f.clone());
    let ack = answer.expect("an acknowledgement");
    assert_eq!(ack.payload, br#"{"code":200}"#.to_vec());
    assert_eq!(ack.headers, f.headers);
    assert_eq!(message.expect("a message").message_id, "m");
    // Bytes that are no text are acknowledged too.
    let (answer, message) = handle_frame(frame(1, "event", &[0xff, 0xfe]));
    assert!(answer.is_some());
    assert!(message.is_none());
    let (answer, message) = handle_frame(frame(0, "event", event));
    assert!(answer.is_none() && message.is_none());
}

#[test]
fn reactions() {
    let r = connect_and_receive(WsEvent::Ping(vec![1, 2]));
    match r.answer {
        Some(WsAnswer::Pong(data)) => assert_eq!(data, vec![1, 2]),
        other => panic!("unexpected: {:?}", other),
    }
    assert!(r.end.is_none());
    let r = connect_and_receive(WsEvent::Closed);
    assert_eq!(r.end, Some(SessionEnd::Normal));
    let r = connect_and_receive(WsEvent::Failed("x".to_string()));
    assert_eq!(
        r.end,
        Some(SessionEnd::Error(FeishuError::Request("WS read error: x".to_string())))
    );
    let r = connect_and_receive(WsEvent::NotConnected("x".to_string()));
    assert_eq!(
        r.end,
        Some(SessionEnd::Error(FeishuError::Request("WS connect failed: x".to_string())))
    );
    let r = connect_and_receive(WsEvent::Cancelled);
    assert!(matches!(r.answer, Some(WsAnswer::Close)));
    assert_eq!(r.end, Some(SessionEnd::Normal));
    let r = connect_and_receive(WsEvent::BadFrame);
    assert!(r.answer.is_none() && r.message.is_none() && r.end.is_none());
    let r = connect_and_receive(WsEvent::Abandoned);
    assert!(r.answer.is_none());
    assert_eq!(r.end, Some(SessionEnd::Normal));
    let r = connect_and_receive(WsEvent::Other);
    assert!(r.answer.is_none() && r.message.is_none() && r.end.is_none());
    let text = r#"{"header":{"event_type":"im.message.receive_v1"},"event":{"message":{}}}"#;
    let r = connect_and_receive(WsEvent::Text(text.to_string()));
    assert!(r.message.is_some() && r.answer.is_none());
    let r = connect_and_receive(WsEvent::Frame(frame(0, "ping", b"")));
    assert!(matches!(r.answer, Some(WsAnswer::Frame(_))));
}

#[test]
fn where_to_connect() {
    let c = config();
    let state = match begin_ws_url(&c) {
        UrlStep::Ask(_, state) => state,
        other => panic!("unexpected: {:?}", other),
    };
    assert_eq!(state, UrlState::Token);
    match obtain_ws_url(&c, state, body("<html>")) {
        UrlStep::Done(r) => {
            assert_eq!(r, Err(FeishuError::Json("error decoding response body".into())))
        }
        other => panic!("unexpected: {:?}", other),
    }
    let state = match obtain_ws_url(&c, state, body(r#"{"code":0}"#)) {
        UrlStep::Ask(r, state) => {
            assert_eq!(r.url, "https://open.feishu.cn/callback/ws/endpoint");
            assert_eq!(r.body.as_deref(), Some(r#"{"AppID":"id","AppSecret":"sec"}"#));
            assert_eq!(r.locale, Some("zh"));
            state
        }
        other => panic!("unexpected: {:?}", other),
    };
    let url = |raw: &str| match obtain_ws_url(&c, state, body(raw)) {
        UrlStep::Done(r) => r,
        other => panic!("unexpected: {:?}", other),
    };
    assert_eq!(url(r#"{"code":0,"data":{"URL":"a","url":"b"}}"#), Ok("a".to_string()));
    assert_eq!(url(r#"{"code":0,"data":{"url":"b","endpoint":"c"}}"#), Ok("b".to_string()));
    assert_eq!(url(r#"{"code":0,"data":{"endpoint":"c"}}"#), Ok("c".to_string()));
    // A member that is there but no text hides the ones behind it.
    assert_eq!(
        url(r#"{"code":0,"data":{"URL":1,"url":"b"}}"#),
        Err(FeishuError::MissingField("data.URL"))
    );
    assert_eq!(url(r#"{"code":0}"#), Err(FeishuError::MissingField("data.URL")));
    match url("<html>") {
        Err(FeishuError::Json(e)) => assert!(e.contains("expected value"), "{}", e),
        other => panic!("unexpected: {:?}", other),
    }
    assert_eq!(
        url(r#"{"code":7}"#),
        Err(FeishuError::Api { code: 7, message: "unknown".into() })
    );
}

#[test]
fn waits_double_up_to_thirty_seconds() {
    let mut r = Reconnect::new();
    let mut waits: Vec<u64> = Vec::new();
    for _ in 0..7 {
        match r.after_attempt(false, false) {
            LoopAction::Wait(secs) => waits.push(secs),
            other => panic!("unexpected: {:?}", other),
        }
        r.after_wait(false);
    }
    assert_eq!(waits, vec![1, 2, 4, 8, 16, 30, 30]);
    r.after_wait(true);
    assert_eq!(r.backoff, 30);
    assert_eq!(r.after_attempt(true, false), LoopAction::Wait(1));
    assert_eq!(r.after_attempt(false, true), LoopAction::Stop);
    assert_eq!(r.next_round(false), LoopAction::Connect);
    assert_eq!(r.next_round(true), LoopAction::Stop);
    assert_eq!(connection_state(LoopAction::Connect), ConnectionState::Connecting);
    assert_eq!(connection_state(LoopAction::Wait(1)), ConnectionState::Reconnecting);
    assert_eq!(connection_state(LoopAction::Stop), ConnectionState::Stopped);
}

fn client() -> ReplyClient {
    ReplyClient::new("id".to_string(), "sec".to_string(), "https://d/".to_string())
}

fn sent(step: SendStep) -> (ApiRequest, SendState) {
    match step {
        SendStep::Ask(request, state) => (request, state),
        SendStep::Done(r) => panic!("over: {:?}", r),
    }
}

fn over(step: SendStep) -> Result<(), FeishuError> {
    match step {
        SendStep::Done(r) => r,
        other => panic!("unexpected: {:?}", other),
    }
}

#[test]
fn what_is_sent() {
    let c = client();
    assert_eq!(c.config.domain, "https://d");
    assert_eq!(
        c.reply_text("m1", "a \"b\"\n"),
        SendJob {
            url: "https://d/open-apis/im/v1/messages/m1/reply".to_string(),
            body: r#"{"content":"{\"text\":\"a \\\"b\\\"\\n\"}","msg_type":"text"}"#.to_string(),
            retries: true,
        }
    );
    assert_eq!(
        c.send_text("r", "chat_id", "x"),
        SendJob {
            url: "https://d/open-apis/im/v1/messages?receive_id_type=chat_id".to_string(),
            body: r#"{"content":"{\"text\":\"x\"}","msg_type":"text","receive_id":"r"}"#
                .to_string(),
            retries: false,
        }
    );
}

#[test]
fn notes_read_back() {
    for text in ["", "plain", "q\"u\\o\n\t", "你好 🤖", "\u{1}\u{7f}"] {
        let note = json(&render_note(text));
        assert_eq!(note.get("text").and_then(|j| j.as_str()), Some(text));
    }
}

#[test]
fn reply_is_tried_once_more() {
    let mut c = client();
    let job = c.reply_text("m", "x");
    let (r, state) = sent(c.begin_send(&job));
    assert_eq!(r.url, "https://d/open-apis/auth/v3/tenant_access_token/internal");
    let (r, state) =
        sent(c.resume_send(&job, state, body(r#"{"code":0,"tenant_access_token":"t1"}"#)));
    assert_eq!(r.url, job.url);
    assert_eq!(r.token.as_deref(), Some("t1"));
    assert_eq!(c.token, "t1");
    let (_, state) = sent(c.resume_send(&job, state, body(r#"{"code":9}"#)));
    assert_eq!(state, SendState::RetryToken);
    let (r, state) =
        sent(c.resume_send(&job, state, body(r#"{"code":0,"tenant_access_token":"t2"}"#)));
    assert_eq!(r.token.as_deref(), Some("t2"));
    assert_eq!(
        over(c.resume_send(&job, state, body(r#"{"code":9,"msg":"no"}"#))),
        Err(FeishuError::Api { code: 9, message: "no".into() })
    );
    // The token is kept for the next text.
    let (r, state) = sent(c.begin_send(&job));
    assert_eq!(r.token.as_deref(), Some("t2"));
    assert_eq!(over(c.resume_send(&job, state, body(r#"{"code":0}"#))), Ok(()));
}

#[test]
fn new_message_is_not_tried_again() {
    let mut c = client();
    c.token = "t".to_string();
    let job = c.send_text("r", "open_id", "x");
    let (_, state) = sent(c.begin_send(&job));
    assert_eq!(
        over(c.resume_send(&job, state, body(r#"{"code":9}"#))),
        Err(FeishuError::Api { code: 9, message: "unknown".into() })
    );
    assert_eq!(
        over(c.resume_send(&job, state, HttpReply::NotSent("x".into()))),
        Err(FeishuError::Request("x".into()))
    );
    assert_eq!(
        over(c.resume_send(&job, SendState::FirstToken, body(r#"{"code":0}"#))),
        Err(FeishuError::MissingField("tenant_access_token"))
    );
}

#[test]
fn documents() {
    let j = json(r#" {"a":[1,-2,3.5,18446744073709551615],"b":{"c":null,"d":true},"a2":"x"} "#);
    assert_eq!(j.path(&["b", "d"]).map(|d| format!("{:?}", d)), Some("Bool(true)".to_string()));
    assert!(j.path(&["b", "x"]).is_none());
    let a = j.get("a").expect("a");
    assert_eq!(a.item(0).and_then(|n| n.as_i64()), Some(1));
    assert_eq!(a.item(1).and_then(|n| n.as_i64()), Some(-2));
    assert_eq!(a.item(1).and_then(|n| n.as_u64()), None);
    assert_eq!(a.item(2).and_then(|n| n.as_i64()), None);
    assert_eq!(a.item(3).and_then(|n| n.as_i64()), None);
    assert_eq!(a.item(3).and_then(|n| n.as_u64()), Some(u64::MAX));
    assert!(a.item(4).is_none());
    assert!(a.get("x").is_none());
    assert_eq!(
        render_json(&j),
        r#"{"a":[1,-2,3.5,18446744073709551615],"a2":"x","b":{"c":null,"d":true}}"#
    );
    let min = json("-9223372036854775808");
    assert_eq!(min.as_i64(), Some(i64::MIN));
    let twice = Json::Object(vec![
        ("k".to_string(), Json::Text("1".to_string())),
        ("k".to_string(), Json::Text("2".to_string())),
    ]);
    assert_eq!(twice.get("k").and_then(|j| j.as_str()), Some("2"));
    assert_eq!(render_json(&twice), r#"{"k":"2"}"#);
    assert!(parse_json("").is_err());
}

fn member(name: &str, j: Json) -> (String, Json) {
    (name.to_string(), j)
}

fn text(s: &str) -> Json {
    Json::Text(s.to_string())
}

/// A document with a code, as the API answers.
fn answer(code: &str, rest: Vec<(String, Json)>) -> Json {
    let mut members = vec![member("code", Json::Number(code.to_string()))];
    members.extend(rest);
    Json::Object(members)
}

#[test]
fn diagnosis_of_documents() {
    let granted = answer("0", vec![member("tenant_access_token", text("t1"))]);
    match resume_check(&config(), CheckState::Token, Ok(granted)) {
        CheckStep::Ask(request, CheckState::Bot) => {
            assert_eq!(request.token.as_deref(), Some("t1"));
        }
        other => panic!("{:?}", other),
    }
    match resume_check(&config(), CheckState::Token, Err(FeishuError::Request("down".into()))) {
        CheckStep::Done(Err(e)) => assert_eq!(e, FeishuError::Request("down".into())),
        other => panic!("{:?}", other),
    }
    match resume_check(&config(), CheckState::Bot, Ok(answer("9", vec![member("msg", text("no"))])))
    {
        CheckStep::Ask(_, CheckState::Endpoint(report)) => assert_eq!(report.warnings.len(), 1),
        other => panic!("{:?}", other),
    }
}

#[test]
fn sending_by_documents() {
    let mut c = client();
    let job = c.reply_text("m1", "hi \"you\"");
    let granted = answer("0", vec![member("tenant_access_token", text("t1"))]);
    let (request, state) = sent(c.resume_with(&job, SendState::FirstToken, Ok(granted)));
    assert_eq!(request.token.as_deref(), Some("t1"));
    assert_eq!(state, SendState::FirstPost);
    // Refused once: a fresh token is asked for.
    let (_, state) = sent(c.resume_with(&job, state, Ok(answer("7", vec![]))));
    assert_eq!(state, SendState::RetryToken);
    let e = over(c.resume_with(&job, SendState::RetryPost, Ok(answer("7", vec![])))).unwrap_err();
    assert_eq!(e, FeishuError::Api { code: 7, message: "unknown".into() });
    assert!(over(c.resume_with(&job, SendState::RetryPost, Ok(answer("0", vec![])))).is_ok());
}

#[test]
fn sent_text_reads_back() {
    let c = client();
    for written in ["", "hi", "a \"b\" \\ \n 你好"] {
        for job in [c.reply_text("m1", written), c.send_text("oc_1", "chat_id", written)] {
            let outer = json(&job.body);
            let content = outer.get("content").and_then(|j| j.as_str()).expect("content");
            let inner = json(content);
            assert_eq!(inner.get("text").and_then(|j| j.as_str()), Some(written));
        }
    }
}

#[test]
fn where_to_connect_by_documents() {
    match resume_ws_url(&config(), UrlState::Token, Ok(answer("0", vec![]))) {
        UrlStep::Ask(request, UrlState::Endpoint) => {
            assert_eq!(request.url, "https://open.feishu.cn/callback/ws/endpoint");
        }
        other => panic!("{:?}", other),
    }
    let found = answer("0", vec![member("data", Json::Object(vec![member("URL", text("wss://x"))]))]);
    match resume_ws_url(&config(), UrlState::Endpoint, Ok(found)) {
        UrlStep::Done(Ok(url)) => assert_eq!(url, "wss://x"),
        other => panic!("{:?}", other),
    }
    match resume_ws_url(&config(), UrlState::Endpoint, Ok(answer("0", vec![]))) {
        UrlStep::Done(Err(e)) => assert_eq!(e, FeishuError::MissingField("data.URL")),
        other => panic!("{:?}", other),
    }
}
