//! The Model Context Protocol server: which tools there are, and what a request is
//! answered.

use crate::actionrun::{Action, ActionView};
use crate::bridge::{
    bridge_error_text, view_outcome, ActionOutcome, ActionResultView, BridgeErrorView,
};
use crate::actions::OutcomeView;
use crate::feishu::{member_text, text_in};
use crate::json::{added, holds_object, member, nothing, put, text_under, Json, JsonView};
use crate::text::{glue, or_text, same};
use vstd::prelude::*;

verus! {

// ---------------------------------------------------------------------------
// The tools
// ---------------------------------------------------------------------------

/// A text.
pub open spec fn txt(s: Seq<char>) -> JsonView {
    JsonView::Text(s)
}

/// The description of an argument that is a text.
pub open spec fn argument(description: Seq<char>) -> JsonView {
    put(put(nothing(), "type"@, txt("string"@)), "description"@, txt(description))
}

/// The description of the arguments of a tool.
pub open spec fn schema(properties: JsonView, required: JsonView) -> JsonView {
    put(
        put(put(nothing(), "type"@, txt("object"@)), "properties"@, properties),
        "required"@,
        required,
    )
}

/// The description of a tool.
pub open spec fn tool(name: Seq<char>, description: Seq<char>, schema: JsonView) -> JsonView {
    put(
        put(put(nothing(), "name"@, txt(name)), "description"@, txt(description)),
        "inputSchema"@,
        schema,
    )
}

/// The description of the tools.
pub open spec fn tools() -> JsonView {
    let none = JsonView::List(seq![]);
    let path_only = added(none, txt("path"@));
    let read_file = tool(
        "read_file"@,
        "Read a file inside the workspace (relative path)."@,
        schema(put(nothing(), "path"@, argument("Relative path to the file."@)), path_only),
    );
    let list_directory = tool(
        "list_directory"@,
        "List entries in a workspace directory."@,
        schema(put(nothing(), "path"@, argument("Relative path to the directory."@)), path_only),
    );
    let search_text = tool(
        "search_text"@,
        "Search for a text pattern in workspace files."@,
        schema(
            put(
                put(nothing(), "path"@, argument("Relative directory to search."@)),
                "query"@,
                argument("Substring to find."@),
            ),
            added(path_only, txt("query"@)),
        ),
    );
    put(nothing(), "tools"@, added(added(added(none, read_file), list_directory), search_text))
}

fn describe_argument(description: &str) -> (r: Json)
    ensures
        r@ == argument(description@),
{
    Json::object().with("type", Json::text("string")).with("description", Json::text(description))
}

fn describe_schema(properties: Json, required: Json) -> (r: Json)
    ensures
        r@ == schema(properties@, required@),
{
    Json::object().with("type", Json::text("object")).with("properties", properties).with(
        "required",
        required,
    )
}

fn describe_tool(name: &str, description: &str, schema: Json) -> (r: Json)
    ensures
        r@ == tool(name@, description@, schema@),
{
    Json::object().with("name", Json::text(name)).with("description", Json::text(description)).with(
        "inputSchema",
        schema,
    )
}

/// The tools that the server offers.
pub fn tool_list() -> (r: Json)
    ensures
        r@ == tools(),
{
    let read_file = describe_tool(
        "read_file",
        "Read a file inside the workspace (relative path).",
        describe_schema(
            Json::object().with("path", describe_argument("Relative path to the file.")),
            Json::list().and(Json::text("path")),
        ),
    );
    let list_directory = describe_tool(
        "list_directory",
        "List entries in a workspace directory.",
        describe_schema(
            Json::object().with("path", describe_argument("Relative path to the directory.")),
            Json::list().and(Json::text("path")),
        ),
    );
    let search_text = describe_tool(
        "search_text",
        "Search for a text pattern in workspace files.",
        describe_schema(
            Json::object().with("path", describe_argument("Relative directory to search.")).with(
                "query",
                describe_argument("Substring to find."),
            ),
            Json::list().and(Json::text("path")).and(Json::text("query")),
        ),
    );
    Json::object().with(
        "tools",
        Json::list().and(read_file).and(list_directory).and(search_text),
    )
}

// ---------------------------------------------------------------------------
// Calling a tool
// ---------------------------------------------------------------------------

/// What a tool gives out: a text, and whether it reports an error.
pub open spec fn tool_result(text: Seq<char>, is_error: bool) -> JsonView {
    put(
        put(
            nothing(),
            "content"@,
            added(
                JsonView::List(seq![]),
                put(put(nothing(), "type"@, txt("text"@)), "text"@, txt(text)),
            ),
        ),
        "isError"@,
        JsonView::Bool(is_error),
    )
}

fn make_tool_result(text: &str, is_error: bool) -> (r: Json)
    ensures
        r@ == tool_result(text@, is_error),
{
    Json::object().with(
        "content",
        Json::list().and(
            Json::object().with("type", Json::text("text")).with("text", Json::text(text)),
        ),
    ).with("isError", Json::Bool(is_error))
}

/// What a call of a tool leads to: an action, or an answer at once.
#[derive(Debug)]
pub enum ToolCall {
    Run(Action),
    Answer(Json),
}

/// What a `ToolCall` says.
#[verifier::ext_equal]
pub ghost enum ToolCallView {
    Run(ActionView),
    Answer(JsonView),
}

impl View for ToolCall {
    type V = ToolCallView;

    open spec fn view(&self) -> ToolCallView {
        match *self {
            ToolCall::Run(action) => ToolCallView::Run(action@),
            ToolCall::Answer(j) => ToolCallView::Answer(j@),
        }
    }
}

/// The argument `key` of a call, or a stand-in where it is not given as a text.
pub open spec fn argument_in(params: JsonView, key: Seq<char>, fallback: Seq<char>) -> Seq<char> {
    match member(params, "arguments"@) {
        Some(args) => or_text(member_text(args, key), fallback),
        None => fallback,
    }
}

/// What a call of a tool leads to. A tool that there is not is answered with an error.
pub open spec fn tool_call(params: JsonView) -> ToolCallView {
    let name = or_text(member_text(params, "name"@), ""@);
    if name == "read_file"@ {
        ToolCallView::Run(ActionView::Read(argument_in(params, "path"@, ""@)))
    } else if name == "list_directory"@ {
        ToolCallView::Run(ActionView::List(argument_in(params, "path"@, "."@)))
    } else if name == "search_text"@ {
        ToolCallView::Run(
            ActionView::Search {
                path: argument_in(params, "path"@, "."@),
                query: argument_in(params, "query"@, ""@),
            },
        )
    } else {
        ToolCallView::Answer(tool_result("unknown tool: "@ + name, true))
    }
}

fn read_argument(params: &Json, key: &str, fallback: &str) -> (r: String)
    ensures
        r@ == argument_in(params@, key@, fallback@),
{
    match params.get("arguments") {
        Some(args) => match text_in(args, key) {
            Some(s) => s,
            None => fallback.to_owned(),
        },
        None => fallback.to_owned(),
    }
}

/// Decides what a call of a tool leads to.
pub fn handle_tool_call(params: &Json) -> (r: ToolCall)
    ensures
        r@ == tool_call(params@),
{
    let name: String = match text_in(params, "name") {
        Some(s) => s,
        None => "".to_owned(),
    };
    if same(name.as_str(), "read_file") {
        ToolCall::Run(Action::Read(read_argument(params, "path", "")))
    } else if same(name.as_str(), "list_directory") {
        ToolCall::Run(Action::List(read_argument(params, "path", ".")))
    } else if same(name.as_str(), "search_text") {
        ToolCall::Run(
            Action::Search {
                path: read_argument(params, "path", "."),
                query: read_argument(params, "query", ""),
            },
        )
    } else {
        ToolCall::Answer(make_tool_result(glue("unknown tool: ", name.as_str()).as_str(), true))
    }
}

/// What a tool gives out when its action is over.
pub open spec fn tool_answer(outcome: OutcomeView) -> JsonView {
    match outcome {
        Ok(r) => tool_result(r.content, false),
        Err(e) => tool_result("error: "@ + bridge_error_text(e), true),
    }
}

/// What a tool gives out when its action is over.
pub fn answer_tool_call(outcome: ActionOutcome) -> (r: Json)
    ensures
        r@ == tool_answer(view_outcome(outcome)),
{
    match outcome {
        Ok(result) => make_tool_result(result.content.as_str(), false),
        Err(e) => make_tool_result(glue("error: ", e.message().as_str()).as_str(), true),
    }
}

// ---------------------------------------------------------------------------
// Requests
// ---------------------------------------------------------------------------

/// What a request is answered: a result, or an error with a code.
#[derive(Debug)]
pub enum RpcAnswer {
    Result(Json),
    Error { code: i64, message: String },
}

/// What an `RpcAnswer` says.
#[verifier::ext_equal]
pub ghost enum RpcAnswerView {
    Result(JsonView),
    Error { code: i64, message: Seq<char> },
}

impl View for RpcAnswer {
    type V = RpcAnswerView;

    open spec fn view(&self) -> RpcAnswerView {
        match *self {
            RpcAnswer::Result(j) => RpcAnswerView::Result(j@),
            RpcAnswer::Error { code, message } => RpcAnswerView::Error { code, message: message@ },
        }
    }
}

/// What a request leads to: an answer at once, or an action whose outcome is the answer.
#[derive(Debug)]
pub enum RpcStep {
    Answer(RpcAnswer),
    Run(Action),
}

/// What an `RpcStep` says.
#[verifier::ext_equal]
pub ghost enum RpcStepView {
    Answer(RpcAnswerView),
    Run(ActionView),
}

impl View for RpcStep {
    type V = RpcStepView;

    open spec fn view(&self) -> RpcStepView {
        match *self {
            RpcStep::Answer(a) => RpcStepView::Answer(a@),
            RpcStep::Run(action) => RpcStepView::Run(action@),
        }
    }
}

/// What the server says of itself.
pub open spec fn server_info(version: Seq<char>) -> JsonView {
    put(
        put(
            put(nothing(), "protocolVersion"@, txt("2024-11-05"@)),
            "capabilities"@,
            put(nothing(), "tools"@, nothing()),
        ),
        "serverInfo"@,
        put(
            put(nothing(), "name"@, txt("harborbeacon-desktop-mcp-server"@)),
            "version"@,
            txt(version),
        ),
    )
}

fn describe_server(version: &str) -> (r: Json)
    ensures
        r@ == server_info(version@),
{
    Json::object().with("protocolVersion", Json::text("2024-11-05")).with(
        "capabilities",
        Json::object().with("tools", Json::object()),
    ).with(
        "serverInfo",
        Json::object().with("name", Json::text("harborbeacon-desktop-mcp-server")).with(
            "version",
            Json::text(version),
        ),
    )
}

/// The code of a request that is no request.
pub const PARSE_ERROR: i64 = -32700;

/// The code of a method that there is not.
pub const METHOD_NOT_FOUND: i64 = -32601;

/// What a request leads to.
pub open spec fn rpc_step(method: Seq<char>, params: JsonView, version: Seq<char>) -> RpcStepView {
    if method == "initialize"@ {
        RpcStepView::Answer(RpcAnswerView::Result(server_info(version)))
    } else if method == "tools/list"@ {
        RpcStepView::Answer(RpcAnswerView::Result(tools()))
    } else if method == "tools/call"@ {
        match tool_call(params) {
            ToolCallView::Run(action) => RpcStepView::Run(action),
            ToolCallView::Answer(j) => RpcStepView::Answer(RpcAnswerView::Result(j)),
        }
    } else {
        RpcStepView::Answer(
            RpcAnswerView::Error {
                code: METHOD_NOT_FOUND,
                message: "method not found: "@ + method,
            },
        )
    }
}

/// Decides what a request leads to.
pub fn handle_request(method: &str, params: &Json, version: &str) -> (r: RpcStep)
    ensures
        r@ == rpc_step(method@, params@, version@),
{
    if same(method, "initialize") {
        RpcStep::Answer(RpcAnswer::Result(describe_server(version)))
    } else if same(method, "tools/list") {
        RpcStep::Answer(RpcAnswer::Result(tool_list()))
    } else if same(method, "tools/call") {
        match handle_tool_call(params) {
            ToolCall::Run(action) => RpcStep::Run(action),
            ToolCall::Answer(j) => RpcStep::Answer(RpcAnswer::Result(j)),
        }
    } else {
        RpcStep::Answer(
            RpcAnswer::Error {
                code: METHOD_NOT_FOUND,
                message: glue("method not found: ", method),
            },
        )
    }
}

/// What a line that is no request is answered.
pub fn parse_failure(e: &str) -> (r: RpcAnswer)
    ensures
        r@ == (RpcAnswerView::Error { code: PARSE_ERROR, message: "parse error: "@ + e@ }),
{
    RpcAnswer::Error { code: PARSE_ERROR, message: glue("parse error: ", e) }
}

// ---------------------------------------------------------------------------
// Laws
// ---------------------------------------------------------------------------

/// Whether a text names one of the tools that the server offers.
pub open spec fn is_tool(name: Seq<char>) -> bool {
    name == "read_file"@ || name == "list_directory"@ || name == "search_text"@
}

/// A call runs something exactly if it names a tool that the server offers; any other
/// call is answered as an error that names the tool.
pub proof fn unknown_tool_is_an_error(params: JsonView)
    ensures
        ({
            let name = or_text(member_text(params, "name"@), ""@);
            &&& tool_call(params) is Run <==> is_tool(name)
            &&& !is_tool(name) ==> tool_call(params) == ToolCallView::Answer(
                tool_result("unknown tool: "@ + name, true),
            )
        }),
{
}

/// A tool changes nothing in the workspace: the only actions that a request leads to
/// read, list or search.
pub proof fn requests_change_nothing(method: Seq<char>, params: JsonView, version: Seq<char>)
    ensures
        rpc_step(method, params, version) matches RpcStepView::Run(action) ==> action is Read
            || action is List || action is Search,
{
}

/// A tool reports an error exactly if its action failed.
pub proof fn tool_reports_errors(outcome: OutcomeView)
    ensures
        member(tool_answer(outcome), "isError"@) == Some(JsonView::Bool(outcome is Err)),
{
}

/// The path that stands in where none is given: where the server was started.
pub open spec fn path_or_here(args: Map<Seq<char>, JsonView>) -> Seq<char> {
    if args.contains_key("path"@) && args["path"@] is Text {
        args["path"@]->Text_0
    } else {
        "."@
    }
}

/// A call of a tool runs on exactly what its arguments say: the path given as a text is
/// the path, and the query is the query; a stand-in is taken only where there is none.
pub proof fn tool_runs_on_its_arguments(
    params: Map<Seq<char>, JsonView>,
    args: Map<Seq<char>, JsonView>,
    version: Seq<char>,
)
    requires
        holds_object(params, "arguments"@, args),
    ensures
        ({
            let step = rpc_step("tools/call"@, JsonView::Object(params), version);
            let name = text_under(params, "name"@);
            &&& name == "read_file"@ ==> step == RpcStepView::Run(
                ActionView::Read(text_under(args, "path"@)),
            )
            &&& name == "list_directory"@ ==> step == RpcStepView::Run(
                ActionView::List(path_or_here(args)),
            )
            &&& name == "search_text"@ ==> step == RpcStepView::Run(
                ActionView::Search { path: path_or_here(args), query: text_under(args, "query"@) },
            )
        }),
{
    lemma_names_differ();
    reveal_strlit("");
    let p = JsonView::Object(params);
    let name = text_under(params, "name"@);
    assert(or_text(member_text(p, "name"@), ""@) =~= name);
    assert(argument_in(p, "path"@, ""@) =~= text_under(args, "path"@));
    assert(argument_in(p, "query"@, ""@) =~= text_under(args, "query"@));
    assert(argument_in(p, "path"@, "."@) =~= path_or_here(args));
}

/// A call without arguments runs on the stand-ins.
pub proof fn tool_runs_without_arguments(params: Map<Seq<char>, JsonView>, version: Seq<char>)
    requires
        !params.contains_key("arguments"@),
    ensures
        ({
            let step = rpc_step("tools/call"@, JsonView::Object(params), version);
            let name = text_under(params, "name"@);
            &&& name == "read_file"@ ==> step == RpcStepView::Run(ActionView::Read(seq![]))
            &&& name == "list_directory"@ ==> step == RpcStepView::Run(ActionView::List("."@))
            &&& name == "search_text"@ ==> step == RpcStepView::Run(
                ActionView::Search { path: "."@, query: seq![] },
            )
        }),
{
    lemma_names_differ();
    reveal_strlit("");
    let p = JsonView::Object(params);
    assert(or_text(member_text(p, "name"@), ""@) =~= text_under(params, "name"@));
    assert(""@ =~= seq![]);
}

proof fn lemma_names_differ()
    ensures
        "read_file"@ != "list_directory"@,
        "read_file"@ != "search_text"@,
        "list_directory"@ != "search_text"@,
        "tools/call"@ != "tools/list"@,
        "tools/call"@ != "initialize"@,
        "tools/list"@ != "initialize"@,
        "read_file"@.len() > 0,
        "list_directory"@.len() > 0,
        "search_text"@.len() > 0,
{
    reveal_strlit("read_file");
    reveal_strlit("list_directory");
    reveal_strlit("search_text");
    reveal_strlit("tools/call");
    reveal_strlit("tools/list");
    reveal_strlit("initialize");
    assert("read_file"@.len() != "list_directory"@.len());
    assert("read_file"@.len() != "search_text"@.len());
    assert("list_directory"@.len() != "search_text"@.len());
    assert("tools/call"@[6] == 'c' && "tools/list"@[6] == 'l');
    assert("initialize"@[0] == 'i');
    assert("tools/call"@[0] == 't' && "tools/list"@[0] == 't');
}

/// The text that a result of a tool carries, if it carries one text.
pub open spec fn carried(result: JsonView) -> Option<Seq<char>> {
    match member(result, "content"@) {
        Some(JsonView::List(items)) => if items.len() == 1 && member(items[0], "type"@) == Some(
            JsonView::Text("text"@),
        ) {
            match member(items[0], "text"@) {
                Some(JsonView::Text(s)) => Some(s),
                _ => None,
            }
        } else {
            None
        },
        _ => None,
    }
}

/// What an action gave out is what the tool gives out, whole; an error is told whole
/// too.
pub proof fn tool_gives_out_what_the_action_did(
    success: bool,
    content: Seq<char>,
    e: BridgeErrorView,
)
    ensures
        carried(tool_answer(Ok((ActionResultView { success, content })))) == Some(content),
        carried(tool_answer(Err(e))) == Some("error: "@ + bridge_error_text(e)),
{
    reveal_strlit("content");
    reveal_strlit("isError");
    reveal_strlit("type");
    reveal_strlit("text");
    assert("content"@[0] != "isError"@[0]);
    assert("type"@[1] != "text"@[1]);
}

/// What is answered to `initialize` tells the protocol and the version of the server, and
/// a method that there is not is answered with its name.
pub proof fn requests_are_answered(method: Seq<char>, params: JsonView, version: Seq<char>)
    ensures
        rpc_step("initialize"@, params, version) matches RpcStepView::Answer(
            RpcAnswerView::Result(j),
        ) && member(j, "protocolVersion"@) == Some(JsonView::Text("2024-11-05"@)) && (member(
            j,
            "serverInfo"@,
        ) matches Some(info) && member(info, "name"@) == Some(
            JsonView::Text("harborbeacon-desktop-mcp-server"@),
        ) && member(info, "version"@) == Some(JsonView::Text(version))) && (member(
            j,
            "capabilities"@,
        ) matches Some(able) && member(able, "tools"@) is Some),
        method != "initialize"@ && method != "tools/list"@ && method != "tools/call"@ ==> rpc_step(
            method,
            params,
            version,
        ) == RpcStepView::Answer(
            (RpcAnswerView::Error { code: -32601i64, message: "method not found: "@ + method }),
        ),
{
    reveal_strlit("protocolVersion");
    reveal_strlit("serverInfo");
    reveal_strlit("capabilities");
    reveal_strlit("name");
    reveal_strlit("version");
    assert("protocolVersion"@[0] == 'p' && "serverInfo"@[0] == 's' && "capabilities"@[0] == 'c');
    assert("name"@[0] != "version"@[0]);
}

/// The tools that are listed are those that can be called, each under its name.
pub proof fn tools_are_listed(params: JsonView, version: Seq<char>)
    ensures
        rpc_step("tools/list"@, params, version) matches RpcStepView::Answer(
            RpcAnswerView::Result(j),
        ) && (member(j, "tools"@) matches Some(JsonView::List(items)) && items.len() == 3 && member(
            items[0],
            "name"@,
        ) == Some(JsonView::Text("read_file"@)) && member(items[1], "name"@) == Some(
            JsonView::Text("list_directory"@),
        ) && member(items[2], "name"@) == Some(JsonView::Text("search_text"@))),
{
    lemma_names_differ();
    reveal_strlit("name");
    reveal_strlit("description");
    reveal_strlit("inputSchema");
    assert("name"@[0] == 'n' && "description"@[0] == 'd' && "inputSchema"@[0] == 'i');
}

} // verus!
