//! Getting an answer from Copilot, step by step.
//!
//! With a GitHub token an access token is asked for, up to four times in different ways,
//! and then the question is put. Where that fails, the command line is tried: the Copilot
//! one if it is there, else the GitHub one.

use crate::actions::{CommandRun, RunView};
use crate::copilot::{
    access_failure, access_header, access_of, access_token_is_read, access_url, completion_body,
    completion_document, completion_is_the_answer, completion_of, completion_text,
    copilot_ask_via_gh_cli, direct_answer, explain_access_failure, gh_answer,
    gh_token, printed_answer_is_the_answer, read_access, read_completion, read_direct_answer, resolve_github_token, view_answer,
    Access, AccessView, CopilotReply, CopilotReplyView, TextResult, ATTEMPTS,
};
use crate::json::{json_document, json_text, JsonView};
use crate::text::{all_space, glue, is_bare, view_opt, view_opt_str};
use vstd::prelude::*;

verus! {

/// What asking wants from the host.
#[derive(Debug, Clone, PartialEq, Eq)]
pub enum AskRequest {
    /// Run `gh auth token`.
    GhToken,
    /// Get an access token.
    GetAccess { url: String, authorization: String },
    /// Put the question.
    PostQuestion { access_token: String, body: String },
    /// Run `gh auth status`.
    GhStatus,
    /// Run the Copilot command line, if it is there.
    DirectCli { token: Option<String> },
    /// Run the GitHub command line.
    GhCli { token: Option<String> },
}

/// What an `AskRequest` says.
#[verifier::ext_equal]
pub ghost enum AskRequestView {
    GhToken,
    GetAccess { url: Seq<char>, authorization: Seq<char> },
    PostQuestion { access_token: Seq<char>, body: Seq<char> },
    GhStatus,
    DirectCli { token: Option<Seq<char>> },
    GhCli { token: Option<Seq<char>> },
}

impl View for AskRequest {
    type V = AskRequestView;

    open spec fn view(&self) -> AskRequestView {
        match *self {
            AskRequest::GhToken => AskRequestView::GhToken,
            AskRequest::GetAccess { url, authorization } => AskRequestView::GetAccess {
                url: url@,
                authorization: authorization@,
            },
            AskRequest::PostQuestion { access_token, body } => AskRequestView::PostQuestion {
                access_token: access_token@,
                body: body@,
            },
            AskRequest::GhStatus => AskRequestView::GhStatus,
            AskRequest::DirectCli { token } => AskRequestView::DirectCli { token: view_opt(token) },
            AskRequest::GhCli { token } => AskRequestView::GhCli { token: view_opt(token) },
        }
    }
}

/// What the host answers.
#[derive(Debug, Clone, PartialEq, Eq)]
pub enum AskEvent {
    Ran(CommandRun),
    Replied(CopilotReply),
    /// There is no Copilot command line.
    NoDirectCli,
}

/// What an `AskEvent` says.
#[verifier::ext_equal]
pub ghost enum AskEventView {
    Ran(RunView),
    Replied(CopilotReplyView),
    NoDirectCli,
}

impl View for AskEvent {
    type V = AskEventView;

    open spec fn view(&self) -> AskEventView {
        match *self {
            AskEvent::Ran(run) => AskEventView::Ran(run@),
            AskEvent::Replied(reply) => AskEventView::Replied(reply@),
            AskEvent::NoDirectCli => AskEventView::NoDirectCli,
        }
    }
}

/// What asking waits for.
#[derive(Debug, Clone, PartialEq, Eq)]
pub enum AskState {
    GhToken,
    /// The attempt is counted from zero.
    Access { token: String, attempt: u8 },
    Completion { token: String },
    /// From here on the REST interface has failed.
    GhStatus { token: Option<String>, rest_error: String },
    DirectCli { token: Option<String>, rest_error: String },
    GhCli { rest_error: String },
}

/// What an `AskState` says.
#[verifier::ext_equal]
pub ghost enum AskStateView {
    GhToken,
    Access { token: Seq<char>, attempt: int },
    Completion { token: Seq<char> },
    GhStatus { token: Option<Seq<char>>, rest_error: Seq<char> },
    DirectCli { token: Option<Seq<char>>, rest_error: Seq<char> },
    GhCli { rest_error: Seq<char> },
}

impl View for AskState {
    type V = AskStateView;

    open spec fn view(&self) -> AskStateView {
        match *self {
            AskState::GhToken => AskStateView::GhToken,
            AskState::Access { token, attempt } => AskStateView::Access {
                token: token@,
                attempt: attempt as int,
            },
            AskState::Completion { token } => AskStateView::Completion { token: token@ },
            AskState::GhStatus { token, rest_error } => AskStateView::GhStatus {
                token: view_opt(token),
                rest_error: rest_error@,
            },
            AskState::DirectCli { token, rest_error } => AskStateView::DirectCli {
                token: view_opt(token),
                rest_error: rest_error@,
            },
            AskState::GhCli { rest_error } => AskStateView::GhCli { rest_error: rest_error@ },
        }
    }
}

/// Where asking stands: it wants something, or it is over.
#[derive(Debug)]
pub enum AskStep {
    Ask(AskRequest, AskState),
    Done(Result<String, String>),
}

/// What an `AskStep` says.
#[verifier::ext_equal]
pub ghost enum AskStepView {
    Ask(AskRequestView, AskStateView),
    Done(TextResult),
}

impl View for AskStep {
    type V = AskStepView;

    open spec fn view(&self) -> AskStepView {
        match *self {
            AskStep::Ask(request, state) => AskStepView::Ask(request@, state@),
            AskStep::Done(r) => AskStepView::Done(view_answer(r)),
        }
    }
}

/// Asks for an access token.
pub open spec fn ask_access(token: Seq<char>, attempt: int) -> AskStepView {
    AskStepView::Ask(
        AskRequestView::GetAccess {
            url: access_url(attempt),
            authorization: access_header(attempt, token),
        },
        AskStateView::Access { token, attempt },
    )
}

/// Turns to the command line.
pub open spec fn ask_cli(token: Option<Seq<char>>, rest_error: Seq<char>) -> AskStepView {
    AskStepView::Ask(AskRequestView::GhStatus, AskStateView::GhStatus { token, rest_error })
}

/// How asking starts: with the token that was given, or by getting one.
pub open spec fn ask_start(explicit: Option<Seq<char>>) -> AskStepView {
    match explicit {
        Some(token) => if token.len() > 0 {
            ask_access(token, 0)
        } else {
            AskStepView::Ask(AskRequestView::GhToken, AskStateView::GhToken)
        },
        None => AskStepView::Ask(AskRequestView::GhToken, AskStateView::GhToken),
    }
}

/// Whether an answer is of the kind that asking waits for.
pub open spec fn ask_event_fits(state: AskStateView, event: AskEventView) -> bool {
    match state {
        AskStateView::GhToken => event is Ran,
        AskStateView::Access { token, attempt } => event is Replied,
        AskStateView::Completion { token } => event is Replied,
        AskStateView::GhStatus { token, rest_error } => event is Ran,
        AskStateView::DirectCli { token, rest_error } => event is Ran || event is NoDirectCli,
        AskStateView::GhCli { rest_error } => event is Ran,
    }
}

/// The error when neither way has led to an answer.
pub open spec fn both_failed(rest_error: Seq<char>, cli_error: Seq<char>) -> Seq<char> {
    "REST 失败: "@ + rest_error + "\n\nCLI 回退失败: "@ + cli_error
}

/// What the command line comes to.
pub open spec fn cli_outcome(rest_error: Seq<char>, answer: TextResult) -> AskStepView {
    match answer {
        Ok(s) => AskStepView::Done(Ok(s)),
        Err(e) => AskStepView::Done(Err(both_failed(rest_error, e))),
    }
}

/// How asking goes on after an answer about an access token.
pub open spec fn after_access(
    question: Seq<char>,
    token: Seq<char>,
    attempt: int,
    reply: CopilotReplyView,
) -> AskStepView {
    match access_of(reply) {
        AccessView::Token(access_token) => AskStepView::Ask(
            AskRequestView::PostQuestion {
                access_token,
                body: json_text(completion_document(question)),
            },
            AskStateView::Completion { token },
        ),
        AccessView::Retry(e) => if attempt + 1 < ATTEMPTS {
            ask_access(token, attempt + 1)
        } else {
            ask_cli(Some(token), access_failure(e))
        },
        AccessView::Stop(e) => ask_cli(Some(token), e),
    }
}

/// How asking goes on after an answer.
pub open spec fn ask_next(
    question: Seq<char>,
    state: AskStateView,
    event: AskEventView,
) -> AskStepView {
    match state {
        AskStateView::GhToken => match gh_token(event->Ran_0) {
            Ok(token) => ask_access(token, 0),
            Err(_) => ask_cli(None, "未能获取 GitHub token，跳过 REST 路径。"@),
        },
        AskStateView::Access { token, attempt } => after_access(
            question,
            token,
            attempt,
            event->Replied_0,
        ),
        AskStateView::Completion { token } => match completion_of(event->Replied_0) {
            Ok(answer) => AskStepView::Done(Ok(answer)),
            Err(e) => ask_cli(Some(token), e),
        },
        AskStateView::GhStatus { token, rest_error } => match event->Ran_0 {
            RunView::Finished { success: false, .. } => cli_outcome(
                rest_error,
                Err("GitHub CLI 未登录，请先执行 gh auth login 后重试。"@),
            ),
            _ => AskStepView::Ask(
                AskRequestView::DirectCli { token },
                AskStateView::DirectCli { token, rest_error },
            ),
        },
        AskStateView::DirectCli { token, rest_error } => match event {
            AskEventView::Ran(run) => cli_outcome(rest_error, direct_answer(run)),
            _ => AskStepView::Ask(
                AskRequestView::GhCli { token },
                AskStateView::GhCli { rest_error },
            ),
        },
        AskStateView::GhCli { rest_error } => cli_outcome(rest_error, gh_answer(event->Ran_0)),
    }
}

fn begin_access(token: String, attempt: u8) -> (r: AskStep)
    ensures
        r@ == ask_access(token@, attempt as int),
{
    let url: String = if attempt < 2 {
        "https://api.github.com/copilot_internal/v2/token".to_owned()
    } else {
        "https://api.github.com/copilot_internal/token".to_owned()
    };
    let authorization: String = if attempt == 0 || attempt == 2 {
        glue("Bearer ", token.as_str())
    } else {
        glue("token ", token.as_str())
    };
    AskStep::Ask(AskRequest::GetAccess { url, authorization }, AskState::Access { token, attempt })
}

fn begin_cli(token: Option<String>, rest_error: String) -> (r: AskStep)
    ensures
        r@ == ask_cli(view_opt(token), rest_error@),
{
    AskStep::Ask(AskRequest::GhStatus, AskState::GhStatus { token, rest_error })
}

fn finish_cli(rest_error: String, answer: Result<String, String>) -> (r: AskStep)
    ensures
        r@ == cli_outcome(rest_error@, view_answer(answer)),
{
    match answer {
        Ok(s) => AskStep::Done(Ok(s)),
        Err(e) => {
            let mut out = glue("REST 失败: ", rest_error.as_str());
            out.append("\n\nCLI 回退失败: ");
            out.append(e.as_str());
            AskStep::Done(Err(out))
        },
    }
}

fn copy_token(token: &Option<String>) -> (r: Option<String>)
    ensures
        view_opt(r) == view_opt(*token),
{
    match token {
        Some(t) => Some(t.clone()),
        None => None,
    }
}

/// Starts asking.
pub fn begin_ask(explicit: Option<&str>) -> (r: AskStep)
    ensures
        r@ == ask_start(view_opt_str(explicit)),
{
    match explicit {
        Some(token) => if !token.is_empty() {
            begin_access(token.to_owned(), 0)
        } else {
            AskStep::Ask(AskRequest::GhToken, AskState::GhToken)
        },
        None => AskStep::Ask(AskRequest::GhToken, AskState::GhToken),
    }
}

/// Goes on after an answer about an access token.
pub fn get_copilot_access_token(
    question: &str,
    token: String,
    attempt: u8,
    reply: CopilotReply,
) -> (r: AskStep)
    requires
        attempt < ATTEMPTS,
    ensures
        r@ == after_access(question@, token@, attempt as int, reply@),
{
    match read_access(reply) {
        Access::Token(access_token) => AskStep::Ask(
            AskRequest::PostQuestion { access_token, body: completion_body(question) },
            AskState::Completion { token },
        ),
        Access::Retry(e) => if attempt + 1 < ATTEMPTS {
            begin_access(token, attempt + 1)
        } else {
            begin_cli(Some(token), explain_access_failure(e))
        },
        Access::Stop(e) => begin_cli(Some(token), e),
    }
}

/// Whether a state is one that asking can be in.
pub open spec fn is_ask_state(state: AskStateView) -> bool {
    state matches AskStateView::Access { token, attempt } ==> 0 <= attempt < ATTEMPTS
}

/// Whether `event` is of the kind that `state` waits for.
pub fn ask_fits(state: &AskState, event: &AskEvent) -> (r: bool)
    ensures
        r == (is_ask_state(state@) && ask_event_fits(state@, event@)),
{
    match (state, event) {
        (AskState::GhToken, AskEvent::Ran(_)) => true,
        (AskState::Access { token, attempt }, AskEvent::Replied(_)) => *attempt < ATTEMPTS,
        (AskState::Completion { token }, AskEvent::Replied(_)) => true,
        (AskState::GhStatus { token, rest_error }, AskEvent::Ran(_)) => true,
        (AskState::DirectCli { token, rest_error }, AskEvent::Ran(_)) => true,
        (AskState::DirectCli { token, rest_error }, AskEvent::NoDirectCli) => true,
        (AskState::GhCli { rest_error }, AskEvent::Ran(_)) => true,
        _ => false,
    }
}

/// Goes on with asking after an answer of the kind that it waits for.
pub fn copilot_ask(question: &str, state: AskState, event: AskEvent) -> (r: AskStep)
    requires
        is_ask_state(state@),
        ask_event_fits(state@, event@),
    ensures
        r@ == ask_next(question@, state@, event@),
{
    match (state, event) {
        (AskState::GhToken, AskEvent::Ran(run)) => match resolve_github_token(&run) {
            Ok(token) => begin_access(token, 0),
            Err(_) => begin_cli(
                None,
                "未能获取 GitHub token，跳过 REST 路径。".to_owned(),
            ),
        },
        (AskState::Access { token, attempt }, AskEvent::Replied(reply)) => get_copilot_access_token(
            question,
            token,
            attempt,
            reply,
        ),
        (AskState::Completion { token }, AskEvent::Replied(reply)) => match read_completion(reply) {
            Ok(answer) => AskStep::Done(Ok(answer)),
            Err(e) => begin_cli(Some(token), e),
        },
        (AskState::GhStatus { token, rest_error }, AskEvent::Ran(run)) => {
            let logged_out: bool = match &run {
                CommandRun::Finished { success, stdout, stderr } => !*success,
                _ => false,
            };
            if logged_out {
                finish_cli(
                    rest_error,
                    Err("GitHub CLI 未登录，请先执行 gh auth login 后重试。".to_owned()),
                )
            } else {
                AskStep::Ask(
                    AskRequest::DirectCli { token: copy_token(&token) },
                    AskState::DirectCli { token, rest_error },
                )
            }
        },
        (AskState::DirectCli { token, rest_error }, AskEvent::Ran(run)) => finish_cli(
            rest_error,
            read_direct_answer(&run),
        ),
        (AskState::DirectCli { token, rest_error }, AskEvent::NoDirectCli) => AskStep::Ask(
            AskRequest::GhCli { token },
            AskState::GhCli { rest_error },
        ),
        (AskState::GhCli { rest_error }, AskEvent::Ran(run)) => finish_cli(
            rest_error,
            copilot_ask_via_gh_cli(&run),
        ),
        _ => vstd::pervasive::unreached(),
    }
}

// ---------------------------------------------------------------------------
// Laws
// ---------------------------------------------------------------------------

/// How many more requests asking can make at most.
pub open spec fn asks_left(step: AskStepView) -> int {
    match step {
        AskStepView::Done(_) => 0,
        AskStepView::Ask(_, state) => match state {
            AskStateView::GhToken => 9,
            AskStateView::Access { token, attempt } => 8 - attempt,
            AskStateView::Completion { token } => 4,
            AskStateView::GhStatus { token, rest_error } => 3,
            AskStateView::DirectCli { token, rest_error } => 2,
            AskStateView::GhCli { rest_error } => 1,
        },
    }
}

/// Every answer brings asking nearer to its end, so that it makes at most nine requests,
/// and it stays in states that it can be in.
pub proof fn asking_ends(
    question: Seq<char>,
    explicit: Option<Seq<char>>,
    request: AskRequestView,
    state: AskStateView,
    event: AskEventView,
)
    requires
        is_ask_state(state),
        ask_event_fits(state, event),
    ensures
        0 <= asks_left(ask_start(explicit)) <= 9,
        0 <= asks_left(ask_next(question, state, event)) < asks_left(
            AskStepView::Ask(request, state),
        ),
        ask_next(question, state, event) matches AskStepView::Ask(_, next) ==> is_ask_state(next),
{
}

/// The command line is turned to only where the REST interface has failed, and then the
/// error that it failed with is kept until the end: it is part of the error that comes
/// out if the command line fails too.
pub proof fn rest_error_is_kept(
    question: Seq<char>,
    rest_error: Seq<char>,
    token: Option<Seq<char>>,
    event: AskEventView,
)
    ensures
        ask_next(question, AskStateView::GhStatus { token, rest_error }, event) matches
            AskStepView::Ask(_, next) ==> next == (AskStateView::DirectCli { token, rest_error }),
        ask_next(question, AskStateView::DirectCli { token, rest_error }, event) matches
            AskStepView::Ask(_, next) ==> next == (AskStateView::GhCli { rest_error }),
        ask_next(question, AskStateView::GhStatus { token, rest_error }, event) matches
            AskStepView::Done(Err(e)) ==> exists|c: Seq<char>|
            e == #[trigger] both_failed(rest_error, c),
        ask_next(question, AskStateView::DirectCli { token, rest_error }, event) matches
            AskStepView::Done(Err(e)) ==> exists|c: Seq<char>|
            e == #[trigger] both_failed(rest_error, c),
        ask_next(question, AskStateView::GhCli { rest_error }, event) matches AskStepView::Done(
            Err(e),
        ) ==> exists|c: Seq<char>| e == #[trigger] both_failed(rest_error, c),
{
}

/// Where the Copilot command line is there, the GitHub one is never run.
pub proof fn direct_cli_is_final(
    question: Seq<char>,
    token: Option<Seq<char>>,
    rest_error: Seq<char>,
    run: RunView,
)
    ensures
        ask_next(
            question,
            AskStateView::DirectCli { token, rest_error },
            AskEventView::Ran(run),
        ) is Done,
{
}

/// Asking starts with the token that was given, as it is, or else by getting one, and goes
/// on with the one that it got.
pub proof fn asking_shows_its_token(
    question: Seq<char>,
    token: Seq<char>,
    lead: Seq<char>,
    tail: Seq<char>,
    stderr: Seq<char>,
)
    requires
        all_space(lead),
        is_bare(token),
        all_space(tail),
    ensures
        ({
            let first = AskRequestView::GetAccess {
                url: "https://api.github.com/copilot_internal/v2/token"@,
                authorization: "Bearer "@ + token,
            };
            let got = ask_next(
                question,
                AskStateView::GhToken,
                AskEventView::Ran(
                    RunView::Finished { success: true, stdout: lead + token + tail, stderr },
                ),
            );
            &&& ask_start(Some(token)) is Ask && ask_start(Some(token))->Ask_0 == first
            &&& ask_start(None) is Ask && ask_start(None)->Ask_0 == AskRequestView::GhToken
            &&& ask_start(Some(seq![])) == ask_start(None)
            &&& got is Ask && got->Ask_0 == first
        }),
{
    printed_answer_is_the_answer(lead, token, tail, stderr, seq![]);
}

/// The question that is put is the one that was asked, with the access token that was
/// given out; the answer to it is the answer.
pub proof fn question_is_answered(
    question: Seq<char>,
    token: Seq<char>,
    attempt: int,
    raw: Seq<char>,
    top: Map<Seq<char>, JsonView>,
    access_token: Seq<char>,
    reply: Seq<char>,
    j: JsonView,
    answer: Seq<char>,
)
    requires
        json_document(raw) == Some(JsonView::Object(top)),
        top.contains_key("token"@),
        top["token"@] == JsonView::Text(access_token),
        json_document(reply) == Some(j),
        completion_text(j) == Some(answer),
    ensures
        ({
            let put = ask_next(
                question,
                AskStateView::Access { token, attempt },
                AskEventView::Replied(CopilotReplyView::Body(raw)),
            );
            &&& put is Ask && put->Ask_0 == (AskRequestView::PostQuestion {
                access_token,
                body: json_text(completion_document(question)),
            })
            &&& ask_next(
                question,
                put->Ask_1,
                AskEventView::Replied(CopilotReplyView::Body(reply)),
            ) == AskStepView::Done(Ok(answer))
        }),
{
    access_token_is_read(raw, top, access_token, seq![], seq![]);
    completion_is_the_answer(reply, j, seq![], seq![]);
}

/// A refused attempt is followed by the next one, with the same token, and the last one by
/// the command line.
pub proof fn refused_attempt_is_followed_by_another(
    question: Seq<char>,
    token: Seq<char>,
    attempt: int,
    why: Seq<char>,
)
    requires
        0 <= attempt < 4,
    ensures
        ({
            let next = ask_next(
                question,
                AskStateView::Access { token, attempt },
                AskEventView::Replied(CopilotReplyView::NotSent(why)),
            );
            &&& next is Ask
            &&& attempt < 3 ==> next->Ask_0 == (AskRequestView::GetAccess {
                url: access_url(attempt + 1),
                authorization: access_header(attempt + 1, token),
            }) && next->Ask_1 == (AskStateView::Access { token, attempt: attempt + 1 })
            &&& attempt == 3 ==> next->Ask_0 == AskRequestView::GhStatus
        }),
{
}

/// The command line is run with the token that there is, and what it answers is the
/// answer; where it fails too, both reasons are told.
pub proof fn command_line_answers(
    question: Seq<char>,
    token: Option<Seq<char>>,
    rest_error: Seq<char>,
    lead: Seq<char>,
    answer: Seq<char>,
    tail: Seq<char>,
    out: Seq<char>,
    stderr: Seq<char>,
    why: Seq<char>,
)
    requires
        all_space(lead),
        is_bare(answer),
        all_space(tail),
    ensures
        ({
            let fine = AskEventView::Ran(
                RunView::Finished { success: true, stdout: out, stderr },
            );
            let printed = AskEventView::Ran(
                RunView::Finished { success: true, stdout: lead + answer + tail, stderr },
            );
            let direct = ask_next(
                question,
                AskStateView::GhStatus { token, rest_error },
                fine,
            );
            let other = ask_next(question, direct->Ask_1, AskEventView::NoDirectCli);
            &&& direct is Ask && direct->Ask_0 == (AskRequestView::DirectCli { token })
            &&& other is Ask && other->Ask_0 == (AskRequestView::GhCli { token })
            &&& ask_next(question, direct->Ask_1, printed) == AskStepView::Done(Ok(answer))
            &&& ask_next(question, other->Ask_1, printed) == AskStepView::Done(Ok(answer))
            &&& ask_next(
                question,
                direct->Ask_1,
                AskEventView::Ran(RunView::NotStarted(why)),
            ) == AskStepView::Done(
                Err(
                    "REST 失败: "@ + rest_error + "\n\nCLI 回退失败: "@ + (
                    "无法调用 Copilot CLI: "@ + why),
                ),
            )
        }),
{
    printed_answer_is_the_answer(lead, answer, tail, stderr, why);
}

} // verus!
