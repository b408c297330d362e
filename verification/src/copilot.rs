//! Asking GitHub Copilot: over its REST interface, and by its command line where that
//! fails.

use crate::actions::{CommandRun, RunView};
use crate::feishu::{member_text, text_in};
use crate::json::{
    added, body_document, compact_json, holds_object, item, json_document, json_text, member,
    nothing, put, read_body, render_json, well_written, Json, JsonView, UNDECODED,
};
use crate::text::{
    absent_piece_is_not_found, all_space, contains, contains_any, decimal, decimal_int, decimal_of,
    glue, has_any, has_text, is_bare, is_blank, is_without, piece_stands_between, trim, trimmed, trimming_keeps_the_rest, view_opt,
};
use vstd::prelude::*;

verus! {

// ---------------------------------------------------------------------------
// What the host reports
// ---------------------------------------------------------------------------

/// What came of a request to GitHub.
#[derive(Debug, Clone, PartialEq, Eq)]
pub enum CopilotReply {
    NotSent(String),
    /// The status is no success.
    Refused { status: String, body: String },
    /// The body could not be read.
    NotRead(String),
    /// The body is not in UTF-8.
    NotText,
    Body(String),
}

/// What a `CopilotReply` says.
#[verifier::ext_equal]
pub ghost enum CopilotReplyView {
    NotSent(Seq<char>),
    Refused { status: Seq<char>, body: Seq<char> },
    NotRead(Seq<char>),
    NotText,
    Body(Seq<char>),
}

impl View for CopilotReply {
    type V = CopilotReplyView;

    open spec fn view(&self) -> CopilotReplyView {
        match *self {
            CopilotReply::NotSent(e) => CopilotReplyView::NotSent(e@),
            CopilotReply::Refused { status, body } => CopilotReplyView::Refused {
                status: status@,
                body: body@,
            },
            CopilotReply::NotRead(e) => CopilotReplyView::NotRead(e@),
            CopilotReply::NotText => CopilotReplyView::NotText,
            CopilotReply::Body(raw) => CopilotReplyView::Body(raw@),
        }
    }
}

/// A text or an error.
pub type TextResult = Result<Seq<char>, Seq<char>>;

/// The view of a text or an error.
pub open spec fn view_answer(r: Result<String, String>) -> TextResult {
    match r {
        Ok(s) => Ok(s@),
        Err(e) => Err(e@),
    }
}

// ---------------------------------------------------------------------------
// The GitHub token
// ---------------------------------------------------------------------------

/// The token that the GitHub command line gives out.
pub open spec fn gh_token(run: RunView) -> TextResult {
    match run {
        RunView::Finished { success, stdout, stderr } => if success && !is_blank(stdout) {
            Ok(trim(stdout))
        } else {
            Err(
                "无法获取 GitHub 令牌。\n请设置 HARBOR_GITHUB_TOKEN 环境变量或通过 gh auth login 登录。"@,
            )
        },
        RunView::NotStarted(e) => Err(
            "gh CLI 未找到: "@ + e + "\n请设置 HARBOR_GITHUB_TOKEN 环境变量"@,
        ),
        RunView::NotFed(e) => Err(
            "gh CLI 未找到: "@ + e + "\n请设置 HARBOR_GITHUB_TOKEN 环境变量"@,
        ),
        RunView::NotFinished(e) => Err(
            "gh CLI 未找到: "@ + e + "\n请设置 HARBOR_GITHUB_TOKEN 环境变量"@,
        ),
    }
}

fn no_gh(e: &str) -> (r: String)
    ensures
        r@ == "gh CLI 未找到: "@ + e@ + "\n请设置 HARBOR_GITHUB_TOKEN 环境变量"@,
{
    let mut out = glue("gh CLI 未找到: ", e);
    out.append("\n请设置 HARBOR_GITHUB_TOKEN 环境变量");
    out
}

/// The token that the GitHub command line gives out, given what came of running it.
pub fn resolve_github_token(run: &CommandRun) -> (r: Result<String, String>)
    ensures
        view_answer(r) == gh_token(run@),
{
    match run {
        CommandRun::Finished { success, stdout, stderr } => {
            let token = trimmed(stdout.as_str());
            if *success && !token.is_empty() {
                Ok(token.to_owned())
            } else {
                Err(
                    "无法获取 GitHub 令牌。\n请设置 HARBOR_GITHUB_TOKEN 环境变量或通过 gh auth login 登录。".to_owned(),
                )
            }
        },
        CommandRun::NotStarted(e) => Err(no_gh(e.as_str())),
        CommandRun::NotFed(e) => Err(no_gh(e.as_str())),
        CommandRun::NotFinished(e) => Err(no_gh(e.as_str())),
    }
}

// ---------------------------------------------------------------------------
// The access token
// ---------------------------------------------------------------------------

/// How often an access token is asked for.
pub const ATTEMPTS: u8 = 4;

/// The address of the attempt `i`, counted from zero.
pub open spec fn access_url(i: int) -> Seq<char> {
    if i < 2 {
        "https://api.github.com/copilot_internal/v2/token"@
    } else {
        "https://api.github.com/copilot_internal/token"@
    }
}

/// How the attempt `i` shows the GitHub token.
pub open spec fn access_header(i: int, token: Seq<char>) -> Seq<char> {
    if i == 0 || i == 2 {
        "Bearer "@ + token
    } else {
        "token "@ + token
    }
}

/// What an answer to a request for an access token comes to.
pub ghost enum AccessView {
    /// The access token.
    Token(Seq<char>),
    /// An error after which there may be another attempt.
    Retry(Seq<char>),
    /// An error that ends it.
    Stop(Seq<char>),
}

/// What an answer to a request for an access token comes to.
pub open spec fn access_of(reply: CopilotReplyView) -> AccessView {
    match reply {
        CopilotReplyView::NotSent(e) => AccessView::Retry("令牌请求失败: "@ + e),
        CopilotReplyView::Refused { status, body } => AccessView::Retry(
            "令牌接口返回 "@ + status + ": "@ + body,
        ),
        CopilotReplyView::NotRead(e) => AccessView::Stop(e),
        CopilotReplyView::NotText => AccessView::Stop(UNDECODED@),
        CopilotReplyView::Body(raw) => match body_document(raw) {
            Err(e) => AccessView::Stop(e),
            Ok(j) => access_in(j, json_text(j)),
        },
    }
}

/// What a document with an access token comes to; `text` is how it is shown.
pub open spec fn access_in(j: JsonView, text: Seq<char>) -> AccessView {
    match member_text(j, "token"@) {
        Some(token) => AccessView::Token(token),
        None => AccessView::Retry("令牌响应缺少 token 字段: "@ + text),
    }
}

/// What an answer to a request for an access token comes to.
#[derive(Debug, Clone, PartialEq, Eq)]
pub enum Access {
    Token(String),
    Retry(String),
    Stop(String),
}

impl View for Access {
    type V = AccessView;

    open spec fn view(&self) -> AccessView {
        match *self {
            Access::Token(s) => AccessView::Token(s@),
            Access::Retry(e) => AccessView::Retry(e@),
            Access::Stop(e) => AccessView::Stop(e@),
        }
    }
}

fn rendered(raw: &str) -> (r: String)
    ensures
        json_document(raw@) matches Some(j) ==> r@ == json_text(j),
{
    match compact_json(raw) {
        Some(s) => s,
        None => String::new(),
    }
}

/// Reads an answer to a request for an access token.
pub fn read_access(reply: CopilotReply) -> (r: Access)
    ensures
        r@ == access_of(reply@),
{
    match reply {
        CopilotReply::NotSent(e) => Access::Retry(glue("令牌请求失败: ", e.as_str())),
        CopilotReply::Refused { status, body } => {
            let mut out = glue("令牌接口返回 ", status.as_str());
            out.append(": ");
            out.append(body.as_str());
            Access::Retry(out)
        },
        CopilotReply::NotRead(e) => Access::Stop(e),
        CopilotReply::NotText => Access::Stop(UNDECODED.to_owned()),
        CopilotReply::Body(raw) => match read_body(raw.as_str()) {
            Err(e) => Access::Stop(e),
            Ok(j) => find_access(&j, rendered(raw.as_str()).as_str()),
        },
    }
}

/// Reads a document with an access token; `text` is how it is shown.
pub fn find_access(j: &Json, text: &str) -> (r: Access)
    ensures
        r@ == access_in(j@, text@),
{
    match text_in(j, "token") {
        Some(token) => Access::Token(token),
        None => Access::Retry(glue("令牌响应缺少 token 字段: ", text)),
    }
}

pub const MISSING_SIGNS: [&'static str; 2] = ["404", "Not Found"];

pub const NO_ENDPOINT: &'static str = "GitHub Copilot token endpoint 返回 404。\n\
    这通常表示当前账号/环境不支持通过 REST 路径获取 Copilot 会话令牌。\n\
    建议：\n\
    1) 在本机安装并登录 GitHub Copilot CLI，然后改用 CLI 方式提问；\n\
    2) 或继续使用『chat 历史 / 最近对话』功能（不依赖该令牌接口）。";

/// The error when every attempt has failed, given the last one.
pub open spec fn access_failure(last: Seq<char>) -> Seq<char> {
    if contains_any(last, MISSING_SIGNS@) {
        NO_ENDPOINT@
    } else {
        last
    }
}

pub fn explain_access_failure(last: String) -> (r: String)
    ensures
        r@ == access_failure(last@),
{
    if has_any(last.as_str(), MISSING_SIGNS.as_slice()) {
        NO_ENDPOINT.to_owned()
    } else {
        last
    }
}

// ---------------------------------------------------------------------------
// The completion
// ---------------------------------------------------------------------------

pub const SYSTEM_PROMPT: &'static str = "You are GitHub Copilot, an AI programming assistant. Answer concisely and helpfully. Respond in the same language as the user's question.";

/// How long an answer may be, in tokens.
pub const MAX_TOKENS: u64 = 2048;

/// A message of a chat.
pub open spec fn chat_message(role: Seq<char>, content: Seq<char>) -> JsonView {
    put(
        put(nothing(), "role"@, JsonView::Text(role)),
        "content"@,
        JsonView::Text(content),
    )
}

/// The document that asks a question.
pub open spec fn completion_document(question: Seq<char>) -> JsonView {
    put(
        put(
            put(
                put(nothing(), "model"@, JsonView::Text("gpt-4o"@)),
                "messages"@,
                added(
                    added(JsonView::List(seq![]), chat_message("system"@, SYSTEM_PROMPT@)),
                    chat_message("user"@, question),
                ),
            ),
            "stream"@,
            JsonView::Bool(false),
        ),
        "max_tokens"@,
        JsonView::Number(decimal(MAX_TOKENS as nat)),
    )
}

proof fn lemma_put(j: JsonView, name: Seq<char>, value: JsonView)
    requires
        j is Object,
        well_written(j),
        well_written(value),
    ensures
        put(j, name, value) is Object,
        well_written(put(j, name, value)),
{
    let m = j->Object_0;
    let r = m.insert(name, value);
    assert forall|k: Seq<char>| r.contains_key(k) implies well_written(#[trigger] r[k]) by {
        if k != name {
            assert(r[k] == m[k]);
        }
    }
}

proof fn lemma_added(j: JsonView, value: JsonView)
    requires
        j is List,
        well_written(j),
        well_written(value),
    ensures
        added(j, value) is List,
        well_written(added(j, value)),
{
    let items = j->List_0;
    let r = items.push(value);
    assert forall|i: int| 0 <= i < r.len() implies well_written(#[trigger] r[i]) by {
        if i < items.len() {
            assert(r[i] == items[i]);
        }
    }
}

proof fn lemma_chat_message(role: Seq<char>, content: Seq<char>)
    ensures
        well_written(chat_message(role, content)),
{
    lemma_put(nothing(), "role"@, JsonView::Text(role));
    lemma_put(
        put(nothing(), "role"@, JsonView::Text(role)),
        "content"@,
        JsonView::Text(content),
    );
}

proof fn lemma_completion_document(question: Seq<char>)
    ensures
        well_written(completion_document(question)),
{
    let none = JsonView::List(seq![]);
    let system = chat_message("system"@, SYSTEM_PROMPT@);
    let user = chat_message("user"@, question);
    lemma_chat_message("system"@, SYSTEM_PROMPT@);
    lemma_chat_message("user"@, question);
    lemma_added(none, system);
    lemma_added(added(none, system), user);
    let messages = added(added(none, system), user);
    let first = put(nothing(), "model"@, JsonView::Text("gpt-4o"@));
    lemma_put(nothing(), "model"@, JsonView::Text("gpt-4o"@));
    lemma_put(first, "messages"@, messages);
    let second = put(first, "messages"@, messages);
    lemma_put(second, "stream"@, JsonView::Bool(false));
    let third = put(second, "stream"@, JsonView::Bool(false));
    let limit = JsonView::Number(decimal(MAX_TOKENS as nat));
    assert(decimal_int(MAX_TOKENS as int) == decimal(MAX_TOKENS as nat));
    assert(well_written(limit));
    lemma_put(third, "max_tokens"@, limit);
}

fn make_message(role: &str, content: &str) -> (r: Json)
    ensures
        r@ == chat_message(role@, content@),
{
    Json::object().with("role", Json::text(role)).with("content", Json::text(content))
}

/// The text of the document that asks a question.
pub fn completion_body(question: &str) -> (r: String)
    ensures
        r@ == json_text(completion_document(question@)),
{
    let messages = Json::list().and(make_message("system", SYSTEM_PROMPT)).and(
        make_message("user", question),
    );
    let limit = Json::Number(decimal_of(MAX_TOKENS as u128));
    let j = Json::object().with("model", Json::text("gpt-4o")).with("messages", messages).with(
        "stream",
        Json::Bool(false),
    ).with("max_tokens", limit);
    proof {
        lemma_completion_document(question@);
    }
    render_json(&j)
}

/// The answer in a document.
pub open spec fn completion_text(j: JsonView) -> Option<Seq<char>> {
    match member(j, "choices"@) {
        Some(choices) => match item(choices, 0) {
            Some(choice) => match member(choice, "message"@) {
                Some(message) => member_text(message, "content"@),
                None => None,
            },
            None => None,
        },
        None => None,
    }
}

/// Reads the answer from a document.
pub fn find_completion(j: &Json) -> (r: Option<String>)
    ensures
        view_opt(r) == completion_text(j@),
{
    match j.get("choices") {
        Some(choices) => match choices.item(0) {
            Some(choice) => match choice.get("message") {
                Some(message) => text_in(message, "content"),
                None => None,
            },
            None => None,
        },
        None => None,
    }
}

/// What an answer to a question comes to.
pub open spec fn completion_of(reply: CopilotReplyView) -> TextResult {
    match reply {
        CopilotReplyView::NotSent(e) => Err("Completions 请求失败: "@ + e),
        CopilotReplyView::Refused { status, body } => Err(
            "Copilot API 返回 "@ + status + ": "@ + body,
        ),
        CopilotReplyView::NotRead(e) => Err(e),
        CopilotReplyView::NotText => Err(UNDECODED@),
        CopilotReplyView::Body(raw) => match body_document(raw) {
            Err(e) => Err(e),
            Ok(j) => match completion_text(j) {
                Some(answer) => Ok(answer),
                None => Err("响应格式异常: "@ + json_text(j)),
            },
        },
    }
}

/// Reads an answer to a question.
pub fn read_completion(reply: CopilotReply) -> (r: Result<String, String>)
    ensures
        view_answer(r) == completion_of(reply@),
{
    match reply {
        CopilotReply::NotSent(e) => Err(glue("Completions 请求失败: ", e.as_str())),
        CopilotReply::Refused { status, body } => {
            let mut out = glue("Copilot API 返回 ", status.as_str());
            out.append(": ");
            out.append(body.as_str());
            Err(out)
        },
        CopilotReply::NotRead(e) => Err(e),
        CopilotReply::NotText => Err(UNDECODED.to_owned()),
        CopilotReply::Body(raw) => match read_body(raw.as_str()) {
            Err(e) => Err(e),
            Ok(j) => match find_completion(&j) {
                Some(answer) => Ok(answer),
                None => Err(glue("响应格式异常: ", rendered(raw.as_str()).as_str())),
            },
        },
    }
}

// ---------------------------------------------------------------------------
// The command line
// ---------------------------------------------------------------------------

/// What a command said: the error output, or else the output.
pub open spec fn said(stdout: Seq<char>, stderr: Seq<char>) -> Seq<char> {
    if !is_blank(stderr) {
        trim(stderr)
    } else {
        trim(stdout)
    }
}

fn what_was_said<'a>(stdout: &'a str, stderr: &'a str) -> (r: &'a str)
    ensures
        r@ == said(stdout@, stderr@),
{
    let err = trimmed(stderr);
    if !err.is_empty() {
        err
    } else {
        trimmed(stdout)
    }
}

pub const DIRECT_LOGIN_SIGNS: [&'static str; 3] = ["auth login", "authenticate", "not logged"];

pub const GH_LOGIN_SIGNS: [&'static str; 3] = ["not logged", "auth", "login"];

/// The answer of the Copilot command line.
pub open spec fn direct_answer(run: RunView) -> TextResult {
    match run {
        RunView::Finished { success, stdout, stderr } => if success {
            if is_blank(stdout) {
                Err("Copilot CLI 未返回内容，请检查 GitHub 账号登录状态。"@)
            } else {
                Ok(trim(stdout))
            }
        } else if contains_any(said(stdout, stderr), DIRECT_LOGIN_SIGNS@) {
            Err("Copilot CLI 需要 GitHub 登录，请先执行 gh auth login 后重试。"@)
        } else if said(stdout, stderr).len() > 0 {
            Err("Copilot CLI 调用失败: "@ + said(stdout, stderr))
        } else {
            Err("Copilot CLI 调用失败（无错误输出）"@)
        },
        RunView::NotStarted(e) => Err("无法调用 Copilot CLI: "@ + e),
        RunView::NotFed(e) => Err("无法调用 Copilot CLI: "@ + e),
        RunView::NotFinished(e) => Err("无法调用 Copilot CLI: "@ + e),
    }
}

/// Reads the answer of the Copilot command line.
pub fn read_direct_answer(run: &CommandRun) -> (r: Result<String, String>)
    ensures
        view_answer(r) == direct_answer(run@),
{
    match run {
        CommandRun::Finished { success, stdout, stderr } => {
            let text = trimmed(stdout.as_str());
            if *success {
                if text.is_empty() {
                    return Err(
                        "Copilot CLI 未返回内容，请检查 GitHub 账号登录状态。".to_owned(),
                    );
                }
                return Ok(text.to_owned());
            }
            let merged = what_was_said(stdout.as_str(), stderr.as_str());
            if has_any(merged, DIRECT_LOGIN_SIGNS.as_slice()) {
                return Err(
                    "Copilot CLI 需要 GitHub 登录，请先执行 gh auth login 后重试。".to_owned(),
                );
            }
            if !merged.is_empty() {
                return Err(glue("Copilot CLI 调用失败: ", merged));
            }
            Err("Copilot CLI 调用失败（无错误输出）".to_owned())
        },
        CommandRun::NotStarted(e) => Err(glue("无法调用 Copilot CLI: ", e.as_str())),
        CommandRun::NotFed(e) => Err(glue("无法调用 Copilot CLI: ", e.as_str())),
        CommandRun::NotFinished(e) => Err(glue("无法调用 Copilot CLI: ", e.as_str())),
    }
}

pub const NO_CLI: &'static str = "REST 路径不可用，且本机未安装 GitHub Copilot CLI。\n\
    请先安装 Copilot CLI（或执行 gh copilot 并选择安装），然后重试『问: ...』。";

/// The answer of the GitHub command line.
pub open spec fn gh_answer(run: RunView) -> TextResult {
    match run {
        RunView::Finished { success, stdout, stderr } => if success && !is_blank(stdout) {
            Ok(trim(stdout))
        } else if contains(said(stdout, stderr), "Cannot find GitHub Copilot CLI"@) {
            Err(NO_CLI@)
        } else if contains_any(said(stdout, stderr), GH_LOGIN_SIGNS@) {
            Err("gh copilot 未登录，请先执行 gh auth login 后重试。"@)
        } else if said(stdout, stderr).len() > 0 {
            Err("CLI 回退失败: gh copilot: "@ + said(stdout, stderr))
        } else {
            Err("CLI 回退失败（无输出）"@)
        },
        RunView::NotStarted(e) => Err("CLI 回退失败: 无法调用 gh copilot: "@ + e),
        RunView::NotFed(e) => Err("CLI 回退失败: 无法调用 gh copilot: "@ + e),
        RunView::NotFinished(e) => Err("CLI 回退失败: 无法调用 gh copilot: "@ + e),
    }
}

/// Reads the answer of the GitHub command line.
pub fn copilot_ask_via_gh_cli(run: &CommandRun) -> (r: Result<String, String>)
    ensures
        view_answer(r) == gh_answer(run@),
{
    match run {
        CommandRun::Finished { success, stdout, stderr } => {
            let text = trimmed(stdout.as_str());
            if *success && !text.is_empty() {
                return Ok(text.to_owned());
            }
            let merged = what_was_said(stdout.as_str(), stderr.as_str());
            if has_text(merged, "Cannot find GitHub Copilot CLI") {
                return Err(NO_CLI.to_owned());
            }
            if has_any(merged, GH_LOGIN_SIGNS.as_slice()) {
                return Err("gh copilot 未登录，请先执行 gh auth login 后重试。".to_owned());
            }
            if !merged.is_empty() {
                return Err(glue("CLI 回退失败: gh copilot: ", merged));
            }
            Err("CLI 回退失败（无输出）".to_owned())
        },
        CommandRun::NotStarted(e) => Err(
            glue("CLI 回退失败: 无法调用 gh copilot: ", e.as_str()),
        ),
        CommandRun::NotFed(e) => Err(
            glue("CLI 回退失败: 无法调用 gh copilot: ", e.as_str()),
        ),
        CommandRun::NotFinished(e) => Err(
            glue("CLI 回退失败: 无法调用 gh copilot: ", e.as_str()),
        ),
    }
}

// ---------------------------------------------------------------------------
// Laws
// ---------------------------------------------------------------------------

/// The question stands in the document that asks it, as it is, as the message of the user
/// behind that of the system.
pub proof fn question_is_put_as_it_is(question: Seq<char>)
    ensures
        ({
            let j = completion_document(question);
            &&& member_text(j, "model"@) == Some("gpt-4o"@)
            &&& member(j, "stream"@) == Some(JsonView::Bool(false))
            &&& member(j, "max_tokens"@) == Some(JsonView::Number(decimal(2048)))
            &&& member(j, "messages"@) matches Some(JsonView::List(messages))
            &&& messages.len() == 2
            &&& member_text(messages[0], "role"@) == Some("system"@)
            &&& member_text(messages[0], "content"@) == Some(SYSTEM_PROMPT@)
            &&& member_text(messages[1], "role"@) == Some("user"@)
            &&& member_text(messages[1], "content"@) == Some(question)
        }),
{
    reveal_strlit("model");
    reveal_strlit("messages");
    reveal_strlit("stream");
    reveal_strlit("max_tokens");
    reveal_strlit("role");
    reveal_strlit("content");
    assert("model"@.len() == 5 && "messages"@.len() == 8 && "stream"@.len() == 6
        && "max_tokens"@.len() == 10);
    assert("role"@.len() == 4 && "content"@.len() == 7);
}

/// The answer is the content of the first choice, as it is.
pub proof fn answer_is_the_first_choice(
    top: Map<Seq<char>, JsonView>,
    choice: Map<Seq<char>, JsonView>,
    message: Map<Seq<char>, JsonView>,
    rest: Seq<JsonView>,
    answer: Seq<char>,
)
    requires
        top.contains_key("choices"@),
        top["choices"@] == JsonView::List(seq![JsonView::Object(choice)] + rest),
        holds_object(choice, "message"@, message),
        message.contains_key("content"@),
        message["content"@] == JsonView::Text(answer),
    ensures
        completion_text(JsonView::Object(top)) == Some(answer),
{
    assert((seq![JsonView::Object(choice)] + rest)[0] == JsonView::Object(choice));
}

/// A document without a choice holds no answer.
pub proof fn no_choice_is_no_answer(top: Map<Seq<char>, JsonView>)
    requires
        !top.contains_key("choices"@) || top["choices"@] == JsonView::List(seq![]),
    ensures
        completion_text(JsonView::Object(top)) is None,
{
}

/// What came of putting a question is the answer in the document, or the reason why there
/// is none.
pub proof fn completion_is_the_answer(raw: Seq<char>, j: JsonView, why: Seq<char>, body: Seq<char>)
    requires
        json_document(raw) == Some(j),
    ensures
        completion_text(j) matches Some(answer) ==> completion_of(CopilotReplyView::Body(raw))
            == Ok::<_, Seq<char>>(answer),
        completion_text(j) is None ==> completion_of(CopilotReplyView::Body(raw)) == Err::<
            Seq<char>,
            _,
        >("响应格式异常: "@ + json_text(j)),
        completion_of(CopilotReplyView::NotSent(why)) == Err::<Seq<char>, _>(
            "Completions 请求失败: "@ + why,
        ),
        completion_of((CopilotReplyView::Refused { status: why, body })) == Err::<Seq<char>, _>(
            "Copilot API 返回 "@ + why + ": "@ + body,
        ),
        completion_of(CopilotReplyView::NotRead(why)) == Err::<Seq<char>, _>(why),
{
}

/// The access token is the one in the answer, as it is; an answer without one, or a
/// refusal, leads to another attempt, and an answer that cannot be read ends it.
pub proof fn access_token_is_read(
    raw: Seq<char>,
    top: Map<Seq<char>, JsonView>,
    token: Seq<char>,
    why: Seq<char>,
    body: Seq<char>,
)
    requires
        json_document(raw) == Some(JsonView::Object(top)),
    ensures
        top.contains_key("token"@) && top["token"@] == JsonView::Text(token) ==> access_of(
            CopilotReplyView::Body(raw),
        ) == AccessView::Token(token),
        !top.contains_key("token"@) ==> access_of(CopilotReplyView::Body(raw)) == AccessView::Retry(
            "令牌响应缺少 token 字段: "@ + json_text(JsonView::Object(top)),
        ),
        access_of(CopilotReplyView::NotSent(why)) == AccessView::Retry("令牌请求失败: "@ + why),
        access_of((CopilotReplyView::Refused { status: why, body })) == AccessView::Retry(
            "令牌接口返回 "@ + why + ": "@ + body,
        ),
        access_of(CopilotReplyView::NotRead(why)) == AccessView::Stop(why),
{
}

/// The four attempts use both addresses and both ways to show the token, each with the
/// token as it is.
pub proof fn attempts_differ(token: Seq<char>)
    ensures
        access_url(0) == "https://api.github.com/copilot_internal/v2/token"@,
        access_url(1) == "https://api.github.com/copilot_internal/v2/token"@,
        access_url(2) == "https://api.github.com/copilot_internal/token"@,
        access_url(3) == "https://api.github.com/copilot_internal/token"@,
        access_header(0, token) == "Bearer "@ + token,
        access_header(1, token) == "token "@ + token,
        access_header(2, token) == "Bearer "@ + token,
        access_header(3, token) == "token "@ + token,
{
}

/// The last error is told as it is, unless it says that the address is not there.
pub proof fn last_error_is_told(a: Seq<char>, b: Seq<char>, last: Seq<char>)
    ensures
        access_failure(a + "404"@ + b) == NO_ENDPOINT@,
        access_failure(a + "Not Found"@ + b) == NO_ENDPOINT@,
        is_without(last, "404"@) && is_without(last, "Not Found"@) ==> access_failure(last) == last,
{
    assert(MISSING_SIGNS@[0]@ == "404"@ && MISSING_SIGNS@[1]@ == "Not Found"@);
    piece_stands_between(last, a, "404"@, b);
    piece_stands_between(last, a, "Not Found"@, b);
    absent_piece_is_not_found(last, "404"@);
    absent_piece_is_not_found(last, "Not Found"@);
}

/// What the command lines print is the answer, without the white space round it; so is
/// the token.
pub proof fn printed_answer_is_the_answer(
    lead: Seq<char>,
    text: Seq<char>,
    tail: Seq<char>,
    stderr: Seq<char>,
    why: Seq<char>,
)
    requires
        all_space(lead),
        is_bare(text),
        all_space(tail),
    ensures
        ({
            let run = RunView::Finished { success: true, stdout: lead + text + tail, stderr };
            &&& gh_token(run) == Ok::<_, Seq<char>>(text)
            &&& direct_answer(run) == Ok::<_, Seq<char>>(text)
            &&& gh_answer(run) == Ok::<_, Seq<char>>(text)
            &&& gh_token(RunView::NotStarted(why)) == Err::<Seq<char>, _>(
                "gh CLI 未找到: "@ + why + "\n请设置 HARBOR_GITHUB_TOKEN 环境变量"@,
            )
            &&& direct_answer(RunView::NotStarted(why)) == Err::<Seq<char>, _>(
                "无法调用 Copilot CLI: "@ + why,
            )
            &&& gh_answer(RunView::NotStarted(why)) == Err::<Seq<char>, _>(
                "CLI 回退失败: 无法调用 gh copilot: "@ + why,
            )
        }),
{
    trimming_keeps_the_rest(lead, text, tail);
}

/// A command line that fails gives no answer and no token, whatever it printed.
pub proof fn failure_is_no_answer(stdout: Seq<char>, stderr: Seq<char>)
    ensures
        ({
            let run = RunView::Finished { success: false, stdout, stderr };
            &&& gh_token(run) is Err
            &&& direct_answer(run) is Err
            &&& gh_answer(run) is Err
        }),
{
}

/// What a failed command line said is told: its error output, or else its output, without
/// the white space round it, unless it speaks of a login.
pub proof fn failure_is_told(lead: Seq<char>, err: Seq<char>, tail: Seq<char>, stdout: Seq<char>)
    requires
        all_space(lead),
        is_bare(err),
        all_space(tail),
        is_without(err, "auth"@),
        is_without(err, "login"@),
        is_without(err, "not logged"@),
        is_without(err, "auth login"@),
        is_without(err, "authenticate"@),
        is_without(err, "Cannot find GitHub Copilot CLI"@),
    ensures
        ({
            let run = RunView::Finished { success: false, stdout, stderr: lead + err + tail };
            let other = RunView::Finished { success: false, stdout: lead + err + tail, stderr: tail };
            &&& direct_answer(run) == Err::<Seq<char>, _>("Copilot CLI 调用失败: "@ + err)
            &&& gh_answer(run) == Err::<Seq<char>, _>("CLI 回退失败: gh copilot: "@ + err)
            &&& direct_answer(other) == Err::<Seq<char>, _>("Copilot CLI 调用失败: "@ + err)
            &&& gh_answer(other) == Err::<Seq<char>, _>("CLI 回退失败: gh copilot: "@ + err)
        }),
{
    let none = Seq::<char>::empty();
    trimming_keeps_the_rest(lead, err, tail);
    trimming_keeps_the_rest(none, none, tail);
    assert(none + tail =~= tail);
    assert(DIRECT_LOGIN_SIGNS@[0]@ == "auth login"@ && DIRECT_LOGIN_SIGNS@[1]@ == "authenticate"@
        && DIRECT_LOGIN_SIGNS@[2]@ == "not logged"@);
    assert(GH_LOGIN_SIGNS@[0]@ == "not logged"@ && GH_LOGIN_SIGNS@[1]@ == "auth"@
        && GH_LOGIN_SIGNS@[2]@ == "login"@);
    absent_piece_is_not_found(err, "auth login"@);
    absent_piece_is_not_found(err, "authenticate"@);
    absent_piece_is_not_found(err, "not logged"@);
    absent_piece_is_not_found(err, "auth"@);
    absent_piece_is_not_found(err, "login"@);
    absent_piece_is_not_found(err, "Cannot find GitHub Copilot CLI"@);
    assert(!contains_any(err, DIRECT_LOGIN_SIGNS@));
    assert(!contains_any(err, GH_LOGIN_SIGNS@));
}

} // verus!
