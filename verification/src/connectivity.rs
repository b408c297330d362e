//! Diagnosing the connection to Feishu: token, bot info, and WebSocket endpoint.

use crate::feishu::{
    address, address_is_domain_and_resource, address_of, all_slashes, api_error, ask_tenant_token,
    code_tells_success, feishu_error_text, member_text, pair_document, parse_success, read_reply,
    read_tenant_token, render_pair, reply_document, tenant_token, text_in, token_is_read,
    token_request, view_payload, view_text_result, ApiRequest, ApiRequestView, FeishuError,
    FeishuErrorView, FeishuWsConfig, HttpReply, PayloadView, SLASHES,
};
use crate::json::{holds_object, json_text, member, Json, JsonView};
use crate::text::{decimal, glue, trim_end_set, trimmed_end_set, view_all, view_opt};
use vstd::prelude::*;

verus! {

/// What a diagnosis found.
#[derive(Debug, Clone, PartialEq, Eq)]
pub struct ConnectivityReport {
    pub ok: bool,
    pub domain: String,
    pub token_ok: bool,
    pub bot_info_ok: bool,
    pub ws_endpoint_ok: bool,
    pub app_name: Option<String>,
    pub bot_name: Option<String>,
    pub ws_endpoint: Option<String>,
    pub ws_service_id: Option<String>,
    pub warnings: Vec<String>,
}

/// What a `ConnectivityReport` says.
#[verifier::ext_equal]
pub ghost struct ReportView {
    pub ok: bool,
    pub domain: Seq<char>,
    pub token_ok: bool,
    pub bot_info_ok: bool,
    pub ws_endpoint_ok: bool,
    pub app_name: Option<Seq<char>>,
    pub bot_name: Option<Seq<char>>,
    pub ws_endpoint: Option<Seq<char>>,
    pub ws_service_id: Option<Seq<char>>,
    pub warnings: Seq<Seq<char>>,
}

impl View for ConnectivityReport {
    type V = ReportView;

    open spec fn view(&self) -> ReportView {
        ReportView {
            ok: self.ok,
            domain: self.domain@,
            token_ok: self.token_ok,
            bot_info_ok: self.bot_info_ok,
            ws_endpoint_ok: self.ws_endpoint_ok,
            app_name: view_opt(self.app_name),
            bot_name: view_opt(self.bot_name),
            ws_endpoint: view_opt(self.ws_endpoint),
            ws_service_id: view_opt(self.ws_service_id),
            warnings: view_all(self.warnings@),
        }
    }
}

// ---------------------------------------------------------------------------
// What is read from the answers
// ---------------------------------------------------------------------------

/// The names of the app and the bot, as far as they are given.
pub type BotNames = (Option<Seq<char>>, Option<Seq<char>>);

/// The text of the member `key` of the member `outer`.
pub open spec fn inner_text(payload: JsonView, outer: Seq<char>, key: Seq<char>) -> Option<
    Seq<char>,
> {
    match member(payload, outer) {
        Some(inner) => member_text(inner, key),
        None => None,
    }
}

fn text_inside(payload: &Json, outer: &str, key: &str) -> (r: Option<String>)
    ensures
        view_opt(r) == inner_text(payload@, outer@, key@),
{
    match payload.get(outer) {
        Some(inner) => text_in(inner, key),
        None => None,
    }
}

/// The names in a document about the bot.
pub open spec fn bot_info(payload: JsonView) -> Result<BotNames, FeishuErrorView> {
    match api_error(payload, "unknown error"@) {
        Some(e) => Err(e),
        None => Ok(
            (
                inner_text(payload, "bot"@, "app_name"@),
                inner_text(payload, "bot"@, "bot_name"@),
            ),
        ),
    }
}

/// Reads the names of the app and the bot from a document.
pub fn read_bot_info(payload: &Json) -> (r: Result<(Option<String>, Option<String>), FeishuError>)
    ensures
        match r {
            Ok(names) => bot_info(payload@) == Ok::<BotNames, FeishuErrorView>(
                (view_opt(names.0), view_opt(names.1)),
            ),
            Err(e) => bot_info(payload@) == Err::<BotNames, FeishuErrorView>(e@),
        },
{
    match parse_success(payload) {
        Err(e) => Err(e),
        Ok(()) => Ok(
            (text_inside(payload, "bot", "app_name"), text_inside(payload, "bot", "bot_name")),
        ),
    }
}

/// The endpoint and the service id in a document.
pub open spec fn ws_endpoint(payload: JsonView) -> Result<(Seq<char>, Seq<char>), FeishuErrorView> {
    match api_error(payload, "unknown error"@) {
        Some(e) => Err(e),
        None => match inner_text(payload, "data"@, "endpoint"@) {
            None => Err(FeishuErrorView::MissingField("data.endpoint"@)),
            Some(endpoint) => match inner_text(payload, "data"@, "service_id"@) {
                None => Err(FeishuErrorView::MissingField("data.service_id"@)),
                Some(service_id) => Ok((endpoint, service_id)),
            },
        },
    }
}

/// Reads the endpoint and the service id from a document.
pub fn read_ws_endpoint(payload: &Json) -> (r: Result<(String, String), FeishuError>)
    ensures
        match r {
            Ok(found) => ws_endpoint(payload@) == Ok::<(Seq<char>, Seq<char>), FeishuErrorView>(
                (found.0@, found.1@),
            ),
            Err(e) => ws_endpoint(payload@) == Err::<(Seq<char>, Seq<char>), FeishuErrorView>(e@),
        },
{
    match parse_success(payload) {
        Err(e) => Err(e),
        Ok(()) => match text_inside(payload, "data", "endpoint") {
            None => Err(FeishuError::MissingField("data.endpoint")),
            Some(endpoint) => match text_inside(payload, "data", "service_id") {
                None => Err(FeishuError::MissingField("data.service_id")),
                Some(service_id) => Ok((endpoint, service_id)),
            },
        },
    }
}

// ---------------------------------------------------------------------------
// The diagnosis
// ---------------------------------------------------------------------------

/// What a diagnosis waits for.
#[derive(Debug)]
pub enum CheckState {
    Token,
    Bot,
    /// All but the endpoint is known.
    Endpoint(ConnectivityReport),
}

/// What a `CheckState` says.
#[verifier::ext_equal]
pub ghost enum CheckStateView {
    Token,
    Bot,
    Endpoint(ReportView),
}

impl View for CheckState {
    type V = CheckStateView;

    open spec fn view(&self) -> CheckStateView {
        match *self {
            CheckState::Token => CheckStateView::Token,
            CheckState::Bot => CheckStateView::Bot,
            CheckState::Endpoint(report) => CheckStateView::Endpoint(report@),
        }
    }
}

/// Where a diagnosis stands: it asks, or it is over.
#[derive(Debug)]
pub enum CheckStep {
    Ask(ApiRequest, CheckState),
    Done(Result<ConnectivityReport, FeishuError>),
}

/// What a `CheckStep` says.
#[verifier::ext_equal]
pub ghost enum CheckStepView {
    Ask(ApiRequestView, CheckStateView),
    Done(Result<ReportView, FeishuErrorView>),
}

impl View for CheckStep {
    type V = CheckStepView;

    open spec fn view(&self) -> CheckStepView {
        match *self {
            CheckStep::Ask(request, state) => CheckStepView::Ask(request@, state@),
            CheckStep::Done(Ok(report)) => CheckStepView::Done(Ok(report@)),
            CheckStep::Done(Err(e)) => CheckStepView::Done(Err(e@)),
        }
    }
}

/// The report before the bot and the endpoint were asked about.
pub open spec fn fresh_report(domain: Seq<char>) -> ReportView {
    ReportView {
        ok: true,
        domain: trim_end_set(domain, SLASHES@),
        token_ok: true,
        bot_info_ok: false,
        ws_endpoint_ok: false,
        app_name: None,
        bot_name: None,
        ws_endpoint: None,
        ws_service_id: None,
        warnings: seq![],
    }
}

/// A report with one more warning. A diagnosis with a warning has not passed.
pub open spec fn warned(report: ReportView, warning: Seq<char>) -> ReportView {
    ReportView { ok: false, warnings: report.warnings.push(warning), ..report }
}

/// A report with what is known of the bot.
pub open spec fn with_bot(report: ReportView, payload: PayloadView) -> ReportView {
    let info = match payload {
        Ok(j) => bot_info(j),
        Err(e) => Err(e),
    };
    match info {
        Ok(names) => ReportView {
            bot_info_ok: true,
            app_name: names.0,
            bot_name: names.1,
            ..report
        },
        Err(e) => warned(report, "bot info check failed: "@ + feishu_error_text(e)),
    }
}

/// A report with what is known of the endpoint.
pub open spec fn with_endpoint(report: ReportView, payload: PayloadView) -> ReportView {
    let found = match payload {
        Ok(j) => ws_endpoint(j),
        Err(e) => Err(e),
    };
    match found {
        Ok(endpoint) => ReportView {
            ws_endpoint_ok: true,
            ws_endpoint: Some(endpoint.0),
            ws_service_id: Some(endpoint.1),
            ..report
        },
        Err(e) => warned(report, "ws endpoint check failed: "@ + feishu_error_text(e)),
    }
}

/// The question about the bot.
pub open spec fn bot_request(domain: Seq<char>, token: Seq<char>) -> ApiRequestView {
    ApiRequestView {
        url: address(domain, "/open-apis/bot/v3/info"@),
        token: Some(token),
        body: None,
        locale: None,
    }
}

/// The question about the endpoint.
pub open spec fn endpoint_request(config: FeishuWsConfig) -> ApiRequestView {
    ApiRequestView {
        url: address(config.domain@, "/open-apis/callback/ws/endpoint"@),
        token: None,
        body: Some(
            json_text(
                pair_document("app_id"@, config.app_id@, "app_secret"@, config.app_secret@),
            ),
        ),
        locale: None,
    }
}

/// How a diagnosis starts: with the token.
pub open spec fn check_start(config: FeishuWsConfig) -> CheckStepView {
    CheckStepView::Ask(token_request(config), CheckStateView::Token)
}

/// The token in a document, if there is a document.
pub open spec fn checked_token(payload: PayloadView) -> Result<Seq<char>, FeishuErrorView> {
    match payload {
        Ok(j) => tenant_token(j, "unknown error"@),
        Err(e) => Err(e),
    }
}

/// How a diagnosis goes on after an answer, given the document in it. Without a token it
/// fails; what else goes wrong is a warning in the report.
pub open spec fn check_next(
    config: FeishuWsConfig,
    state: CheckStateView,
    payload: PayloadView,
) -> CheckStepView {
    match state {
        CheckStateView::Token => {
            match checked_token(payload) {
                Ok(t) => CheckStepView::Ask(bot_request(config.domain@, t), CheckStateView::Bot),
                Err(e) => CheckStepView::Done(Err(e)),
            }
        },
        CheckStateView::Bot => CheckStepView::Ask(
            endpoint_request(config),
            CheckStateView::Endpoint(with_bot(fresh_report(config.domain@), payload)),
        ),
        CheckStateView::Endpoint(report) => CheckStepView::Done(
            Ok(with_endpoint(report, payload)),
        ),
    }
}

/// Starts a diagnosis.
pub fn begin_check(config: &FeishuWsConfig) -> (r: CheckStep)
    ensures
        r@ == check_start(*config),
{
    CheckStep::Ask(ask_tenant_token(config), CheckState::Token)
}

fn fetch_tenant_token(payload: Result<Json, FeishuError>) -> (r: Result<String, FeishuError>)
    ensures
        view_text_result(r) == checked_token(view_payload(payload)),
{
    match payload {
        Ok(j) => read_tenant_token(&j, "unknown error"),
        Err(e) => Err(e),
    }
}

fn warn(report: &mut ConnectivityReport, what: &str, e: FeishuError)
    ensures
        final(report)@ == warned(old(report)@, what@ + feishu_error_text(e@)),
{
    let ghost before = report.warnings@;
    report.ok = false;
    let warning = glue(what, e.message().as_str());
    report.warnings.push(warning);
    assert(view_all(report.warnings@) =~= view_all(before).push(warning@));
}

fn fetch_bot_info(report: &mut ConnectivityReport, payload: Result<Json, FeishuError>)
    ensures
        final(report)@ == with_bot(old(report)@, view_payload(payload)),
{
    let info = match payload {
        Ok(j) => read_bot_info(&j),
        Err(e) => Err(e),
    };
    match info {
        Ok((app_name, bot_name)) => {
            report.bot_info_ok = true;
            report.app_name = app_name;
            report.bot_name = bot_name;
        },
        Err(e) => {
            warn(report, "bot info check failed: ", e);
        },
    }
}

fn fetch_ws_endpoint(report: &mut ConnectivityReport, payload: Result<Json, FeishuError>)
    ensures
        final(report)@ == with_endpoint(old(report)@, view_payload(payload)),
{
    let found = match payload {
        Ok(j) => read_ws_endpoint(&j),
        Err(e) => Err(e),
    };
    match found {
        Ok((endpoint, service_id)) => {
            report.ws_endpoint_ok = true;
            report.ws_endpoint = Some(endpoint);
            report.ws_service_id = Some(service_id);
        },
        Err(e) => {
            warn(report, "ws endpoint check failed: ", e);
        },
    }
}

/// Goes on with a diagnosis after an answer.
pub fn check_connectivity(config: &FeishuWsConfig, state: CheckState, reply: HttpReply) -> (r:
    CheckStep)
    ensures
        r@ == check_next(*config, state@, reply_document(reply@)),
{
    resume_check(config, state, read_reply(reply))
}

/// Goes on with a diagnosis, given the document in an answer.
pub fn resume_check(
    config: &FeishuWsConfig,
    state: CheckState,
    payload: Result<Json, FeishuError>,
) -> (r: CheckStep)
    ensures
        r@ == check_next(*config, state@, view_payload(payload)),
{
    match state {
        CheckState::Token => match fetch_tenant_token(payload) {
            Err(e) => CheckStep::Done(Err(e)),
            Ok(token) => CheckStep::Ask(
                ApiRequest {
                    url: address_of(config.domain.as_str(), "/open-apis/bot/v3/info"),
                    token: Some(token),
                    body: None,
                    locale: None,
                },
                CheckState::Bot,
            ),
        },
        CheckState::Bot => {
            let warnings: Vec<String> = Vec::new();
            assert(view_all(warnings@) =~= seq![]);
            let mut report = ConnectivityReport {
                ok: true,
                domain: trimmed_end_set(config.domain.as_str(), SLASHES.as_slice()).to_owned(),
                token_ok: true,
                bot_info_ok: false,
                ws_endpoint_ok: false,
                app_name: None,
                bot_name: None,
                ws_endpoint: None,
                ws_service_id: None,
                warnings,
            };
            fetch_bot_info(&mut report, payload);
            CheckStep::Ask(
                ApiRequest {
                    url: address_of(config.domain.as_str(), "/open-apis/callback/ws/endpoint"),
                    token: None,
                    body: Some(
                        render_pair(
                            "app_id",
                            config.app_id.as_str(),
                            "app_secret",
                            config.app_secret.as_str(),
                        ),
                    ),
                    locale: None,
                },
                CheckState::Endpoint(report),
            )
        },
        CheckState::Endpoint(report) => {
            let mut whole = report;
            fetch_ws_endpoint(&mut whole, payload);
            CheckStep::Done(Ok(whole))
        },
    }
}

// ---------------------------------------------------------------------------
// The report as a text
// ---------------------------------------------------------------------------

/// `yes` or `no`, as it is.
pub open spec fn verdict(b: bool, yes: Seq<char>, no: Seq<char>) -> Seq<char> {
    if b {
        yes
    } else {
        no
    }
}

/// A line about something that may be unknown; without it there is no line.
pub open spec fn known_line(label: Seq<char>, o: Option<Seq<char>>) -> Seq<char> {
    match o {
        Some(s) => label + s + "\n"@,
        None => seq![],
    }
}

/// A line for each warning.
pub open spec fn warning_lines(warnings: Seq<Seq<char>>) -> Seq<char>
    decreases warnings.len(),
{
    if warnings.len() == 0 {
        seq![]
    } else {
        warning_lines(warnings.drop_last()) + ("- "@ + warnings.last() + "\n"@)
    }
}

/// The part of a report about warnings.
pub open spec fn warnings_part(warnings: Seq<Seq<char>>) -> Seq<char> {
    if warnings.len() == 0 {
        seq![]
    } else {
        "Warnings:\n"@ + warning_lines(warnings)
    }
}

/// A report as a text.
pub open spec fn report_text(r: ReportView) -> Seq<char> {
    "=== HarborBeacon Desktop Doctor ===\nDomain        : "@ + r.domain + "\nToken         : "@
        + verdict(r.token_ok, "OK"@, "FAIL"@) + "\nBot Info      : "@ + verdict(
        r.bot_info_ok,
        "OK"@,
        "DEGRADED"@,
    ) + "\nWS Endpoint   : "@ + verdict(r.ws_endpoint_ok, "OK"@, "DEGRADED"@) + "\n"@ + known_line(
        "Bot Name      : "@,
        r.bot_name,
    ) + known_line("App Name      : "@, r.app_name) + known_line(
        "WS Service ID : "@,
        r.ws_service_id,
    ) + known_line("WS Endpoint   : "@, r.ws_endpoint) + warnings_part(r.warnings)
        + "\nOverall       : "@ + verdict(r.ok, "PASS"@, "FAIL"@) + "\n"@
}

fn pick<'a>(b: bool, yes: &'a str, no: &'a str) -> (r: &'a str)
    ensures
        r@ == verdict(b, yes@, no@),
{
    if b {
        yes
    } else {
        no
    }
}

fn fmt_known(label: &str, o: &Option<String>) -> (r: String)
    ensures
        r@ == known_line(label@, view_opt(*o)),
{
    match o {
        Some(s) => {
            let mut out = glue(label, s.as_str());
            out.append("\n");
            out
        },
        None => String::new(),
    }
}

fn fmt_warnings(warnings: &Vec<String>) -> (r: String)
    ensures
        r@ == warnings_part(view_all(warnings@)),
{
    if warnings.len() == 0 {
        return String::new();
    }
    let ghost model = view_all(warnings@);
    let mut out = String::new();
    let mut i: usize = 0;
    assert(model.take(0) =~= seq![]);
    while i < warnings.len()
        invariant
            i <= warnings@.len(),
            model == view_all(warnings@),
            out@ == warning_lines(model.take(i as int)),
        decreases warnings@.len() - i,
    {
        proof {
            assert(model.take(i + 1).drop_last() =~= model.take(i as int));
            assert(model.take(i + 1).last() == warnings@[i as int]@);
        }
        let mut line = glue("- ", warnings[i].as_str());
        line.append("\n");
        out.append(line.as_str());
        i += 1;
    }
    assert(model.take(i as int) =~= model);
    glue("Warnings:\n", out.as_str())
}

/// A report as a text.
pub fn emit_report(report: &ConnectivityReport) -> (r: String)
    ensures
        r@ == report_text(report@),
{
    let mut out = glue(
        "=== HarborBeacon Desktop Doctor ===\nDomain        : ",
        report.domain.as_str(),
    );
    out.append("\nToken         : ");
    out.append(pick(report.token_ok, "OK", "FAIL"));
    out.append("\nBot Info      : ");
    out.append(pick(report.bot_info_ok, "OK", "DEGRADED"));
    out.append("\nWS Endpoint   : ");
    out.append(pick(report.ws_endpoint_ok, "OK", "DEGRADED"));
    out.append("\n");
    out.append(fmt_known("Bot Name      : ", &report.bot_name).as_str());
    out.append(fmt_known("App Name      : ", &report.app_name).as_str());
    out.append(fmt_known("WS Service ID : ", &report.ws_service_id).as_str());
    out.append(fmt_known("WS Endpoint   : ", &report.ws_endpoint).as_str());
    out.append(fmt_warnings(&report.warnings).as_str());
    out.append("\nOverall       : ");
    out.append(pick(report.ok, "PASS", "FAIL"));
    out.append("\n");
    out
}

// ---------------------------------------------------------------------------
// Laws
// ---------------------------------------------------------------------------

/// A report passes exactly if the bot and the endpoint were both found, and then it
/// holds no warning; each of the two that was not found is a warning.
pub proof fn report_passes_without_warnings(
    domain: Seq<char>,
    bot: PayloadView,
    endpoint: PayloadView,
)
    ensures
        ({
            let r = with_endpoint(with_bot(fresh_report(domain), bot), endpoint);
            &&& r.token_ok
            &&& r.ok <==> r.bot_info_ok && r.ws_endpoint_ok
            &&& r.ok <==> r.warnings.len() == 0
            &&& r.ws_endpoint_ok <==> r.ws_endpoint is Some && r.ws_service_id is Some
        }),
{
}

/// A diagnosis goes past the token exactly if there is one; without it nothing else is
/// asked, and the error comes out. After that it always comes to a report.
pub proof fn no_token_no_report(
    config: FeishuWsConfig,
    state: CheckStateView,
    payload: PayloadView,
)
    ensures
        check_next(config, CheckStateView::Token, payload) is Ask <==> checked_token(payload) is Ok,
        checked_token(payload) matches Err(e) ==> check_next(
            config,
            CheckStateView::Token,
            payload,
        ) == CheckStepView::Done(Err::<ReportView, FeishuErrorView>(e)),
        !(state is Token) ==> !(check_next(config, state, payload) matches CheckStepView::Done(
            Err(_),
        )),
{
}

/// The names of the app and the bot are those in the answer, as far as they are given.
pub proof fn bot_is_named(top: Map<Seq<char>, JsonView>, bot: Map<Seq<char>, JsonView>)
    requires
        top.contains_key("code"@),
        top["code"@] == JsonView::Number(decimal(0)),
        holds_object(top, "bot"@, bot),
    ensures
        bot_info(JsonView::Object(top)) matches Ok(names) && {
            &&& names.0 == (if bot.contains_key("app_name"@) && bot["app_name"@] is Text {
                Some(bot["app_name"@]->Text_0)
            } else {
                None
            })
            &&& names.1 == (if bot.contains_key("bot_name"@) && bot["bot_name"@] is Text {
                Some(bot["bot_name"@]->Text_0)
            } else {
                None
            })
        },
{
    code_tells_success(top, 0, "unknown error"@);
}

/// The endpoint and the service id are those in the answer; without one of them there is
/// an error that names it.
pub proof fn endpoint_is_read(
    top: Map<Seq<char>, JsonView>,
    data: Map<Seq<char>, JsonView>,
    endpoint: Seq<char>,
    service_id: Seq<char>,
)
    requires
        top.contains_key("code"@),
        top["code"@] == JsonView::Number(decimal(0)),
        holds_object(top, "data"@, data),
    ensures
        ({
            let found = ws_endpoint(JsonView::Object(top));
            let there = data.contains_key("endpoint"@) && data["endpoint"@] == JsonView::Text(
                endpoint,
            );
            &&& there && data.contains_key("service_id"@) && data["service_id"@]
                == JsonView::Text(service_id) ==> found == Ok::<_, FeishuErrorView>(
                (endpoint, service_id),
            )
            &&& there && !data.contains_key("service_id"@) ==> found == Err::<
                (Seq<char>, Seq<char>),
                _,
            >(FeishuErrorView::MissingField("data.service_id"@))
            &&& !data.contains_key("endpoint"@) ==> found == Err::<(Seq<char>, Seq<char>), _>(
                FeishuErrorView::MissingField("data.endpoint"@),
            )
        }),
{
    code_tells_success(top, 0, "unknown error"@);
}

/// A report says what was found of the bot and the endpoint, under the domain without the
/// slashes at its end; what failed is a warning that says why.
pub proof fn report_says_what_was_found(
    domain: Seq<char>,
    slashes: Seq<char>,
    bot: PayloadView,
    endpoint: PayloadView,
)
    requires
        domain.len() == 0 || domain.last() != '/',
        all_slashes(slashes),
    ensures
        ({
            let half = with_bot(fresh_report(domain + slashes), bot);
            let whole = with_endpoint(half, endpoint);
            let names = if bot is Ok {
                bot_info(bot->Ok_0)
            } else {
                Err(bot->Err_0)
            };
            let found = if endpoint is Ok {
                ws_endpoint(endpoint->Ok_0)
            } else {
                Err(endpoint->Err_0)
            };
            &&& whole.domain == domain
            &&& whole.token_ok
            &&& whole.bot_info_ok == (names is Ok)
            &&& whole.ws_endpoint_ok == (found is Ok)
            &&& whole.ok == (names is Ok && found is Ok)
            &&& names matches Ok(n) ==> whole.app_name == n.0 && whole.bot_name == n.1
            &&& names is Err ==> whole.app_name is None && whole.bot_name is None
            &&& found matches Ok(f) ==> whole.ws_endpoint == Some(f.0) && whole.ws_service_id
                == Some(f.1)
            &&& found is Err ==> whole.ws_endpoint is None && whole.ws_service_id is None
            &&& whole.warnings == (if names is Err {
                seq!["bot info check failed: "@ + feishu_error_text(names->Err_0)]
            } else {
                seq![]
            }) + (if found is Err {
                seq!["ws endpoint check failed: "@ + feishu_error_text(found->Err_0)]
            } else {
                seq![]
            })
        }),
{
    address_is_domain_and_resource(domain, slashes, seq![]);
    let whole = with_endpoint(with_bot(fresh_report(domain + slashes), bot), endpoint);
    let names = if bot is Ok {
        bot_info(bot->Ok_0)
    } else {
        Err(bot->Err_0)
    };
    let found = if endpoint is Ok {
        ws_endpoint(endpoint->Ok_0)
    } else {
        Err(endpoint->Err_0)
    };
    assert(whole.warnings =~= (if names is Err {
        seq!["bot info check failed: "@ + feishu_error_text(names->Err_0)]
    } else {
        seq![]
    }) + (if found is Err {
        seq!["ws endpoint check failed: "@ + feishu_error_text(found->Err_0)]
    } else {
        seq![]
    }));
}

/// A diagnosis asks for a token, then with that token about the bot, then about the
/// endpoint, and what it found of both is the report.
pub proof fn diagnosis_asks_in_turn(
    config: FeishuWsConfig,
    members: Map<Seq<char>, JsonView>,
    token: Seq<char>,
    bot: PayloadView,
    endpoint: PayloadView,
)
    requires
        members.contains_key("code"@),
        members["code"@] == JsonView::Number(decimal(0)),
        members.contains_key("tenant_access_token"@),
        members["tenant_access_token"@] == JsonView::Text(token),
    ensures
        ({
            let first = check_start(config);
            let second = check_next(config, first->Ask_1, Ok(JsonView::Object(members)));
            let third = check_next(config, second->Ask_1, bot);
            &&& first is Ask && first->Ask_0 == token_request(config)
            &&& second is Ask && second->Ask_0 == (ApiRequestView {
                url: address(config.domain@, "/open-apis/bot/v3/info"@),
                token: Some(token),
                body: None,
                locale: None,
            })
            &&& third is Ask && third->Ask_0 == (ApiRequestView {
                url: address(config.domain@, "/open-apis/callback/ws/endpoint"@),
                token: None,
                body: Some(
                    json_text(
                        pair_document("app_id"@, config.app_id@, "app_secret"@, config.app_secret@),
                    ),
                ),
                locale: None,
            })
            &&& check_next(config, third->Ask_1, endpoint) == CheckStepView::Done(
                Ok(with_endpoint(with_bot(fresh_report(config.domain@), bot), endpoint)),
            )
        }),
{
    token_is_read(members, token, "unknown error"@);
}

/// What is known, on a line of its own behind its label; what is unknown has no line.
pub open spec fn line_if_known(label: Seq<char>, o: Option<Seq<char>>) -> Seq<char> {
    if o is Some {
        label + o->0 + "\n"@
    } else {
        seq![]
    }
}

/// A report as a text tells everything that it holds.
pub proof fn report_text_tells_the_report(r: ReportView)
    ensures
        report_text(r) == "=== HarborBeacon Desktop Doctor ===\nDomain        : "@ + r.domain
            + "\nToken         : "@ + (if r.token_ok {
            "OK"@
        } else {
            "FAIL"@
        }) + "\nBot Info      : "@ + (if r.bot_info_ok {
            "OK"@
        } else {
            "DEGRADED"@
        }) + "\nWS Endpoint   : "@ + (if r.ws_endpoint_ok {
            "OK"@
        } else {
            "DEGRADED"@
        }) + "\n"@ + line_if_known("Bot Name      : "@, r.bot_name) + line_if_known(
            "App Name      : "@,
            r.app_name,
        ) + line_if_known("WS Service ID : "@, r.ws_service_id) + line_if_known(
            "WS Endpoint   : "@,
            r.ws_endpoint,
        ) + warnings_part(r.warnings) + "\nOverall       : "@ + (if r.ok {
            "PASS"@
        } else {
            "FAIL"@
        }) + "\n"@,
{
}

/// Each warning is told on a line of its own, in order, behind a dash.
pub proof fn every_warning_is_told(warnings: Seq<Seq<char>>, last: Seq<char>)
    ensures
        warnings_part(seq![]).len() == 0,
        warnings_part(seq![last]) == "Warnings:\n"@ + ("- "@ + last + "\n"@),
        warnings.len() > 0 ==> warnings_part(warnings.push(last)) == warnings_part(warnings) + (
        "- "@ + last + "\n"@),
{
    assert(warnings.push(last).drop_last() =~= warnings);
    reveal_with_fuel(warning_lines, 2);
    let one = seq![last];
    assert(one.drop_last() =~= seq![]);
    assert(warning_lines(one) =~= "- "@ + last + "\n"@);
    if warnings.len() > 0 {
        assert(warnings_part(warnings.push(last)) =~= warnings_part(warnings) + ("- "@ + last
            + "\n"@));
    }
}

} // verus!
