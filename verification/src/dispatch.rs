//! What the agent does about a message.
//!
//! A message is dealt with in steps: the library says what is wanted next and keeps the
//! session, and the host carries it out and reports, until there is a reply.

use crate::actionrun::{action_for, intent_action, Action, ActionView};
use crate::chat::{
    chat_list, chat_reply, fmt_chat, fmt_no_chat, fmt_recent_messages, fmt_vscode_sessions,
    message_list, no_chat_reply, view_chats, ChatView, VscodeChatSession,
};
use crate::copilot::{view_answer, TextResult};
use crate::devloop::{
    is_high_risk, is_high_risk_terminal_command, view_restart, RestartInfo, RestartView,
};
use crate::edit::{Edit, EditView};
use crate::format::{
    fmt_plan_saved, fmt_session_status, fmt_snapshot_list, help_text, install_help, mode_label,
    mode_name, plan_saved, session_status, snapshot_list, system_install_help_text, HELP_TEXT,
};
use crate::intent::{is_action, view_intent, Intent, IntentView};
use crate::parser::{intent_of, parse_intent, possible_guess};
use crate::session::{
    has_meaningful_session, is_meaningful, view_snapshots, SessionMode, SessionSnapshotMeta,
    SessionView, SnapshotView, UserSession,
};
use crate::store::now_secs;
use crate::text::{
    contains, decimal, decimal_of, glue, has_text, join, joined, or_text, text_or, trim, trimmed,
    view_all, view_opt,
};
use vstd::prelude::*;

verus! {

// ---------------------------------------------------------------------------
// The talk with the host
// ---------------------------------------------------------------------------

/// What dealing with a message wants from the host.
#[derive(Debug, Clone, PartialEq, Eq)]
pub enum Request {
    /// Carry out a step of a plan and say what came of it.
    RunStep(String),
    /// Carry out an action and say what the reply to it is.
    RunAction(Action),
    /// Save a snapshot of the session under a label.
    SaveSnapshot(Option<String>),
    ListSnapshots,
    LoadSnapshot(String),
    /// Remove the session from the store.
    ClearSession,
    WriteFile { path: String, content: String },
    Replace(Edit),
    Build,
    Restart,
    ViewLogs,
    RunTerminal(String),
    GitCommit(String),
    GitPush,
    AskCopilot(String),
    ReadChats,
    /// Read what was typed lately.
    ReadMessages,
    /// Read what was asked in the chat session with this id.
    ReadPrompts(String),
}

/// What a `Request` says.
#[verifier::ext_equal]
pub ghost enum RequestView {
    RunStep(Seq<char>),
    RunAction(ActionView),
    SaveSnapshot(Option<Seq<char>>),
    ListSnapshots,
    LoadSnapshot(Seq<char>),
    ClearSession,
    WriteFile { path: Seq<char>, content: Seq<char> },
    Replace(EditView),
    Build,
    Restart,
    ViewLogs,
    RunTerminal(Seq<char>),
    GitCommit(Seq<char>),
    GitPush,
    AskCopilot(Seq<char>),
    ReadChats,
    ReadMessages,
    ReadPrompts(Seq<char>),
}

impl View for Request {
    type V = RequestView;

    open spec fn view(&self) -> RequestView {
        match *self {
            Request::RunStep(step) => RequestView::RunStep(step@),
            Request::RunAction(action) => RequestView::RunAction(action@),
            Request::SaveSnapshot(label) => RequestView::SaveSnapshot(view_opt(label)),
            Request::ListSnapshots => RequestView::ListSnapshots,
            Request::LoadSnapshot(id) => RequestView::LoadSnapshot(id@),
            Request::ClearSession => RequestView::ClearSession,
            Request::WriteFile { path, content } => RequestView::WriteFile {
                path: path@,
                content: content@,
            },
            Request::Replace(edit) => RequestView::Replace(edit@),
            Request::Build => RequestView::Build,
            Request::Restart => RequestView::Restart,
            Request::ViewLogs => RequestView::ViewLogs,
            Request::RunTerminal(command) => RequestView::RunTerminal(command@),
            Request::GitCommit(message) => RequestView::GitCommit(message@),
            Request::GitPush => RequestView::GitPush,
            Request::AskCopilot(question) => RequestView::AskCopilot(question@),
            Request::ReadChats => RequestView::ReadChats,
            Request::ReadMessages => RequestView::ReadMessages,
            Request::ReadPrompts(id) => RequestView::ReadPrompts(id@),
        }
    }
}

/// What the host reports.
#[derive(Debug)]
pub enum Event {
    /// What came of a step, an action, a command or an edit.
    Text(String),
    /// The id of the snapshot that was saved.
    Saved(Result<String, String>),
    Listed(Result<Vec<SessionSnapshotMeta>, String>),
    Loaded(Result<UserSession, String>),
    Cleared,
    /// What came of writing a file or of a question.
    Answered(Result<String, String>),
    Restarted(String, Option<RestartInfo>),
    Chats(Vec<VscodeChatSession>),
    /// What was typed lately, or asked in a chat session.
    Messages(Vec<String>),
}

/// What an `Event` says.
#[verifier::ext_equal]
pub ghost enum EventView {
    Text(Seq<char>),
    Saved(TextResult),
    Listed(Result<Seq<SnapshotView>, Seq<char>>),
    Loaded(Result<SessionView, Seq<char>>),
    Cleared,
    Answered(TextResult),
    Restarted(Seq<char>, Option<RestartView>),
    Chats(Seq<ChatView>),
    Messages(Seq<Seq<char>>),
}

impl View for Event {
    type V = EventView;

    open spec fn view(&self) -> EventView {
        match *self {
            Event::Text(s) => EventView::Text(s@),
            Event::Saved(r) => EventView::Saved(view_answer(r)),
            Event::Listed(Ok(items)) => EventView::Listed(Ok(view_snapshots(items@))),
            Event::Listed(Err(e)) => EventView::Listed(Err(e@)),
            Event::Loaded(Ok(session)) => EventView::Loaded(Ok(session@)),
            Event::Loaded(Err(e)) => EventView::Loaded(Err(e@)),
            Event::Cleared => EventView::Cleared,
            Event::Answered(r) => EventView::Answered(view_answer(r)),
            Event::Restarted(reply, info) => EventView::Restarted(reply@, view_restart(info)),
            Event::Chats(chats) => EventView::Chats(view_chats(chats@)),
            Event::Messages(msgs) => EventView::Messages(view_all(msgs@)),
        }
    }
}

/// What dealing with a message waits for.
#[derive(Debug, Clone, PartialEq, Eq)]
pub enum Phase {
    /// There is nothing more to do.
    Over,
    /// One step of the plan is carried out.
    Step(String),
    /// The plan is at its end and a snapshot is saved; the step and its result are known.
    StepSaved(String, String),
    /// All steps are carried out; this is one of them, after those with an output.
    AllStep(String, Vec<String>),
    AllSaved(Vec<String>),
    Retrying(String),
    /// A snapshot is saved before a new plan is set.
    PlanSaved(String, Vec<String>),
    Listing,
    Saving,
    Loading(String),
    /// A snapshot is saved before the session is cleared.
    ClearSaved,
    Clearing,
    Writing,
    /// The report is the reply.
    Relaying,
    Restarting,
    Terminal(String),
    Fixing,
    Asking,
    ShowingChats,
    ShowingMessages,
    /// The chat sessions are read to find the one with this number.
    PickingChat(usize),
    /// What was asked in the chat session with this title is read.
    ShowingPrompts(String),
    Acting,
}

/// What a `Phase` says.
#[verifier::ext_equal]
pub ghost enum PhaseView {
    Over,
    Step(Seq<char>),
    StepSaved(Seq<char>, Seq<char>),
    AllStep(Seq<char>, Seq<Seq<char>>),
    AllSaved(Seq<Seq<char>>),
    Retrying(Seq<char>),
    PlanSaved(Seq<char>, Seq<Seq<char>>),
    Listing,
    Saving,
    Loading(Seq<char>),
    ClearSaved,
    Clearing,
    Writing,
    Relaying,
    Restarting,
    Terminal(Seq<char>),
    Fixing,
    Asking,
    ShowingChats,
    ShowingMessages,
    PickingChat(nat),
    ShowingPrompts(Seq<char>),
    Acting,
}

impl View for Phase {
    type V = PhaseView;

    open spec fn view(&self) -> PhaseView {
        match *self {
            Phase::Over => PhaseView::Over,
            Phase::Step(step) => PhaseView::Step(step@),
            Phase::StepSaved(step, result) => PhaseView::StepSaved(step@, result@),
            Phase::AllStep(step, outputs) => PhaseView::AllStep(step@, view_all(outputs@)),
            Phase::AllSaved(outputs) => PhaseView::AllSaved(view_all(outputs@)),
            Phase::Retrying(text) => PhaseView::Retrying(text@),
            Phase::PlanSaved(description, steps) => PhaseView::PlanSaved(
                description@,
                view_all(steps@),
            ),
            Phase::Listing => PhaseView::Listing,
            Phase::Saving => PhaseView::Saving,
            Phase::Loading(id) => PhaseView::Loading(id@),
            Phase::ClearSaved => PhaseView::ClearSaved,
            Phase::Clearing => PhaseView::Clearing,
            Phase::Writing => PhaseView::Writing,
            Phase::Relaying => PhaseView::Relaying,
            Phase::Restarting => PhaseView::Restarting,
            Phase::Terminal(command) => PhaseView::Terminal(command@),
            Phase::Fixing => PhaseView::Fixing,
            Phase::Asking => PhaseView::Asking,
            Phase::ShowingChats => PhaseView::ShowingChats,
            Phase::ShowingMessages => PhaseView::ShowingMessages,
            Phase::PickingChat(n) => PhaseView::PickingChat(n as nat),
            Phase::ShowingPrompts(title) => PhaseView::ShowingPrompts(title@),
            Phase::Acting => PhaseView::Acting,
        }
    }
}

/// A message that is being dealt with: its text, the sender's session, and what is
/// waited for.
#[derive(Debug)]
pub struct Dispatch {
    pub text: String,
    pub session: UserSession,
    pub phase: Phase,
}

/// What a `Dispatch` says.
#[verifier::ext_equal]
pub ghost struct DispatchView {
    pub text: Seq<char>,
    pub session: SessionView,
    pub phase: PhaseView,
}

impl View for Dispatch {
    type V = DispatchView;

    open spec fn view(&self) -> DispatchView {
        DispatchView { text: self.text@, session: self.session@, phase: self.phase@ }
    }
}

/// What comes next: something is wanted, or there is a reply. The session is then to be
/// saved, unless it was cleared.
#[derive(Debug)]
pub enum Next {
    Ask(Request),
    Done { reply: String, restart: Option<RestartInfo>, save: bool },
}

/// What a `Next` says.
#[verifier::ext_equal]
pub ghost enum NextView {
    Ask(RequestView),
    Done { reply: Seq<char>, restart: Option<RestartView>, save: bool },
}

impl View for Next {
    type V = NextView;

    open spec fn view(&self) -> NextView {
        match *self {
            Next::Ask(request) => NextView::Ask(request@),
            Next::Done { reply, restart, save } => NextView::Done {
                reply: reply@,
                restart: view_restart(restart),
                save,
            },
        }
    }
}

/// Where dealing with a message stands.
pub type Turn = (DispatchView, NextView);

/// Where dealing with a message stands, as seen in contracts.
pub open spec fn view_turn(t: (Dispatch, Next)) -> Turn {
    (t.0@, t.1@)
}

/// A reply to a message; the session is saved.
pub open spec fn replied(text: Seq<char>, session: SessionView, reply: Seq<char>) -> Turn {
    (
        DispatchView { text, session, phase: PhaseView::Over },
        NextView::Done { reply, restart: None, save: true },
    )
}

/// A request to the host.
pub open spec fn asked(
    text: Seq<char>,
    session: SessionView,
    phase: PhaseView,
    request: RequestView,
) -> Turn {
    (DispatchView { text, session, phase }, NextView::Ask(request))
}

fn reply_with(text: String, session: UserSession, reply: String) -> (r: (Dispatch, Next))
    ensures
        view_turn(r) == replied(text@, session@, reply@),
{
    (
        Dispatch { text, session, phase: Phase::Over },
        Next::Done { reply, restart: None, save: true },
    )
}

fn ask_for(text: String, session: UserSession, phase: Phase, request: Request) -> (r: (
    Dispatch,
    Next,
))
    ensures
        view_turn(r) == asked(text@, session@, phase@, request@),
{
    (Dispatch { text, session, phase }, Next::Ask(request))
}

// ---------------------------------------------------------------------------
// Carrying out a plan
// ---------------------------------------------------------------------------

pub const NO_STEPS: &'static str = "无待执行步骤。\n发送 `plan <任务>` 设置计划，或直接执行命令。";

pub const ALL_DONE: &'static str = "✅ 所有步骤已执行完毕";

/// A session without its next step.
pub open spec fn without_step(s: SessionView) -> SessionView {
    SessionView { pending_steps: s.pending_steps.skip(1), ..s }
}

/// A session that has a new result at a time.
pub open spec fn with_result(s: SessionView, result: Seq<char>, now: u64) -> SessionView {
    SessionView { last_result: Some(result), updated_at: now, ..s }
}

/// How many steps are left, in words.
pub open spec fn steps_left(rem: nat) -> Seq<char> {
    if rem == 0 {
        ALL_DONE@
    } else {
        "还剩 "@ + decimal(rem) + " 步，发送「继续」或「执行全部」"@
    }
}

/// The reply about one step.
pub open spec fn step_reply(step: Seq<char>, result: Seq<char>, rem: nat) -> Seq<char> {
    "▸ 执行步骤: "@ + step + "\n\n"@ + result + "\n\n"@ + steps_left(rem)
}

/// What is noted about one of all steps.
pub open spec fn step_output(step: Seq<char>, result: Seq<char>) -> Seq<char> {
    "▸ 执行步骤: "@ + step + "\n"@ + result
}

/// What is noted where a step has failed before the last one.
pub open spec fn pause_note(rem: nat) -> Seq<char> {
    "\n⚠️ 步骤失败，已暂停。还剩 "@ + decimal(rem) + " 步，发送「继续」或「执行全部」恢复。"@
}

/// Whether the result of a step says that it has failed.
pub open spec fn step_failed(result: Seq<char>) -> bool {
    contains(result, "❌"@)
}

/// The next step of a plan is carried out, and nothing after it.
pub open spec fn start_continue(text: Seq<char>, s: SessionView) -> Turn {
    if s.pending_steps.len() == 0 {
        replied(text, s, NO_STEPS@)
    } else {
        asked(
            text,
            without_step(s),
            PhaseView::Step(s.pending_steps[0]),
            RequestView::RunStep(s.pending_steps[0]),
        )
    }
}

/// The steps of a plan are carried out one after the other.
pub open spec fn start_continue_all(text: Seq<char>, s: SessionView) -> Turn {
    if s.pending_steps.len() == 0 {
        replied(text, s, NO_STEPS@)
    } else {
        asked(
            text,
            without_step(s),
            PhaseView::AllStep(s.pending_steps[0], seq![]),
            RequestView::RunStep(s.pending_steps[0]),
        )
    }
}

/// After a step: a snapshot is saved if it was the last one.
pub open spec fn after_step(
    text: Seq<char>,
    s: SessionView,
    step: Seq<char>,
    result: Seq<char>,
    now: u64,
) -> Turn {
    let t = with_result(s, result, now);
    if t.pending_steps.len() == 0 {
        asked(
            text,
            t,
            PhaseView::StepSaved(step, result),
            RequestView::SaveSnapshot(Some("auto-completed"@)),
        )
    } else {
        replied(text, t, step_reply(step, result, t.pending_steps.len()))
    }
}

/// The end of carrying out all steps: a snapshot is saved if none is left.
pub open spec fn end_of_steps(
    text: Seq<char>,
    s: SessionView,
    outputs: Seq<Seq<char>>,
    now: u64,
) -> Turn {
    let t = SessionView { updated_at: now, ..s };
    if t.pending_steps.len() == 0 {
        asked(
            text,
            t,
            PhaseView::AllSaved(outputs),
            RequestView::SaveSnapshot(Some("auto-completed"@)),
        )
    } else {
        replied(text, t, join(outputs, "\n\n"@))
    }
}

/// After one of all steps: the first that fails is the last that is carried out.
pub open spec fn after_one_of_all(
    text: Seq<char>,
    s: SessionView,
    step: Seq<char>,
    outputs: Seq<Seq<char>>,
    result: Seq<char>,
    now: u64,
) -> Turn {
    let t = SessionView { last_result: Some(result), ..s };
    let noted = outputs.push(step_output(step, result));
    let rem = t.pending_steps.len();
    if step_failed(result) {
        if rem > 0 {
            end_of_steps(text, t, noted.push(pause_note(rem)), now)
        } else {
            end_of_steps(text, t, noted, now)
        }
    } else if rem > 0 {
        asked(
            text,
            without_step(t),
            PhaseView::AllStep(t.pending_steps[0], noted),
            RequestView::RunStep(t.pending_steps[0]),
        )
    } else {
        end_of_steps(text, t, noted, now)
    }
}

/// Takes the next step out of a session.
fn take_step(session: &mut UserSession) -> (r: String)
    requires
        old(session)@.pending_steps.len() > 0,
    ensures
        r@ == old(session)@.pending_steps[0],
        final(session)@ == without_step(old(session)@),
{
    let ghost before = session.pending_steps@;
    let step = session.pending_steps.remove(0);
    assert(view_all(session.pending_steps@) =~= view_all(before).skip(1));
    step
}

fn begin_continue(text: String, session: UserSession) -> (r: (Dispatch, Next))
    ensures
        view_turn(r) == start_continue(text@, session@),
{
    let mut s = session;
    if s.pending_steps.len() == 0 {
        return reply_with(text, s, NO_STEPS.to_owned());
    }
    let step = take_step(&mut s);
    ask_for(text, s, Phase::Step(step.clone()), Request::RunStep(step))
}

fn begin_continue_all(text: String, session: UserSession) -> (r: (Dispatch, Next))
    ensures
        view_turn(r) == start_continue_all(text@, session@),
{
    let mut s = session;
    if s.pending_steps.len() == 0 {
        return reply_with(text, s, NO_STEPS.to_owned());
    }
    let step = take_step(&mut s);
    let outputs: Vec<String> = Vec::new();
    assert(view_all(outputs@) =~= seq![]);
    ask_for(text, s, Phase::AllStep(step.clone(), outputs), Request::RunStep(step))
}

fn fmt_step_reply(step: &str, result: &str, rem: usize) -> (r: String)
    ensures
        r@ == step_reply(step@, result@, rem as nat),
{
    let mut out = glue("▸ 执行步骤: ", step);
    out.append("\n\n");
    out.append(result);
    out.append("\n\n");
    if rem == 0 {
        out.append(ALL_DONE);
    } else {
        let mut left = glue("还剩 ", decimal_of(rem as u128).as_str());
        left.append(" 步，发送「继续」或「执行全部」");
        out.append(left.as_str());
    }
    out
}

fn resume_step(text: String, session: UserSession, step: String, result: String, now: u64) -> (r: (
    Dispatch,
    Next,
))
    ensures
        view_turn(r) == after_step(text@, session@, step@, result@, now),
{
    let mut s = session;
    s.last_result = Some(result.clone());
    s.updated_at = now;
    let rem: usize = s.pending_steps.len();
    if rem == 0 {
        ask_for(
            text,
            s,
            Phase::StepSaved(step, result),
            Request::SaveSnapshot(Some("auto-completed".to_owned())),
        )
    } else {
        let reply = fmt_step_reply(step.as_str(), result.as_str(), rem);
        reply_with(text, s, reply)
    }
}

fn finish_steps(text: String, session: UserSession, outputs: Vec<String>, now: u64) -> (r: (
    Dispatch,
    Next,
))
    ensures
        view_turn(r) == end_of_steps(text@, session@, view_all(outputs@), now),
{
    let mut s = session;
    s.updated_at = now;
    if s.pending_steps.len() == 0 {
        ask_for(
            text,
            s,
            Phase::AllSaved(outputs),
            Request::SaveSnapshot(Some("auto-completed".to_owned())),
        )
    } else {
        let reply = joined(&outputs, "\n\n");
        reply_with(text, s, reply)
    }
}

fn note(outputs: &mut Vec<String>, line: String)
    ensures
        view_all(final(outputs)@) == view_all(old(outputs)@).push(line@),
{
    let ghost before = outputs@;
    outputs.push(line);
    assert(view_all(outputs@) =~= view_all(before).push(line@));
}

fn resume_one_of_all(
    text: String,
    session: UserSession,
    step: String,
    outputs: Vec<String>,
    result: String,
    now: u64,
) -> (r: (Dispatch, Next))
    ensures
        view_turn(r) == after_one_of_all(
            text@,
            session@,
            step@,
            view_all(outputs@),
            result@,
            now,
        ),
{
    let mut s = session;
    let mut noted = outputs;
    let mut output = glue("▸ 执行步骤: ", step.as_str());
    output.append("\n");
    output.append(result.as_str());
    note(&mut noted, output);
    let has_failed: bool = has_text(result.as_str(), "❌");
    s.last_result = Some(result);
    let rem: usize = s.pending_steps.len();
    if has_failed {
        if rem > 0 {
            let mut pause = glue(
                "\n⚠️ 步骤失败，已暂停。还剩 ",
                decimal_of(rem as u128).as_str(),
            );
            pause.append(" 步，发送「继续」或「执行全部」恢复。");
            note(&mut noted, pause);
        }
        finish_steps(text, s, noted, now)
    } else if rem > 0 {
        let next_step = take_step(&mut s);
        ask_for(
            text,
            s,
            Phase::AllStep(next_step.clone(), noted),
            Request::RunStep(next_step),
        )
    } else {
        finish_steps(text, s, noted, now)
    }
}

// ---------------------------------------------------------------------------
// The session
// ---------------------------------------------------------------------------

/// A session with a new plan.
pub open spec fn with_plan(
    s: SessionView,
    description: Seq<char>,
    steps: Seq<Seq<char>>,
    now: u64,
) -> SessionView {
    SessionView {
        mode: SessionMode::Planning,
        current_task: Some(description),
        pending_steps: steps,
        updated_at: now,
        ..s
    }
}

/// A plan is set and told.
pub open spec fn set_plan(
    text: Seq<char>,
    s: SessionView,
    description: Seq<char>,
    steps: Seq<Seq<char>>,
    now: u64,
) -> Turn {
    replied(text, with_plan(s, description, steps, now), plan_saved(description, steps))
}

/// A new plan: what is worth keeping of the old session is saved first.
pub open spec fn start_plan(
    text: Seq<char>,
    s: SessionView,
    description: Seq<char>,
    steps: Seq<Seq<char>>,
    now: u64,
) -> Turn {
    if is_meaningful(s) {
        asked(
            text,
            s,
            PhaseView::PlanSaved(description, steps),
            RequestView::SaveSnapshot(Some("auto-before-new-plan"@)),
        )
    } else {
        set_plan(text, s, description, steps, now)
    }
}

fn finish_plan(
    text: String,
    session: UserSession,
    description: String,
    steps: Vec<String>,
    now: u64,
) -> (r: (Dispatch, Next))
    ensures
        view_turn(r) == set_plan(text@, session@, description@, view_all(steps@), now),
{
    let mut s = session;
    let reply = fmt_plan_saved(description.as_str(), &steps);
    s.mode = SessionMode::Planning;
    s.current_task = Some(description);
    s.pending_steps = steps;
    s.updated_at = now;
    reply_with(text, s, reply)
}

fn begin_plan(
    text: String,
    session: UserSession,
    description: String,
    steps: Vec<String>,
    now: u64,
) -> (r: (Dispatch, Next))
    ensures
        view_turn(r) == start_plan(text@, session@, description@, view_all(steps@), now),
{
    if has_meaningful_session(&session) {
        ask_for(
            text,
            session,
            Phase::PlanSaved(description, steps),
            Request::SaveSnapshot(Some("auto-before-new-plan".to_owned())),
        )
    } else {
        finish_plan(text, session, description, steps, now)
    }
}

/// Another mode is switched to.
pub open spec fn switch_mode(text: Seq<char>, s: SessionView, mode: SessionMode, now: u64) -> Turn {
    replied(
        text,
        SessionView { mode, updated_at: now, ..s },
        "✅ 已切换到"@ + mode_name(mode) + "模式"@,
    )
}

/// The session is cleared: what is worth keeping is saved first.
pub open spec fn start_clear(text: Seq<char>, s: SessionView) -> Turn {
    if is_meaningful(s) {
        asked(
            text,
            s,
            PhaseView::ClearSaved,
            RequestView::SaveSnapshot(Some("auto-before-clear"@)),
        )
    } else {
        asked(text, s, PhaseView::Clearing, RequestView::ClearSession)
    }
}

fn begin_clear(text: String, session: UserSession) -> (r: (Dispatch, Next))
    ensures
        view_turn(r) == start_clear(text@, session@),
{
    if has_meaningful_session(&session) {
        ask_for(
            text,
            session,
            Phase::ClearSaved,
            Request::SaveSnapshot(Some("auto-before-clear".to_owned())),
        )
    } else {
        ask_for(text, session, Phase::Clearing, Request::ClearSession)
    }
}

// ---------------------------------------------------------------------------
// The terminal
// ---------------------------------------------------------------------------

pub const NO_COMMAND_WAITS: &'static str = "当前没有待确认的高风险终端命令。";

/// The question whether to run a command.
pub open spec fn confirm_question(command: Seq<char>) -> Seq<char> {
    "⚠️ 检测到高风险命令，需二次确认后执行:\n"@ + command
        + "\n\n发送“确认执行”继续，或发送“取消执行”放弃。"@
}

/// A terminal command: it is run, unless it must be confirmed first.
pub open spec fn start_terminal(text: Seq<char>, s: SessionView, command: Seq<char>, now: u64) -> Turn {
    if is_high_risk(command) {
        replied(
            text,
            SessionView { pending_terminal_command: Some(command), updated_at: now, ..s },
            confirm_question(command),
        )
    } else {
        asked(text, s, PhaseView::Terminal(command), RequestView::RunTerminal(command))
    }
}

/// The command that waits is run.
pub open spec fn start_confirm(text: Seq<char>, s: SessionView) -> Turn {
    match s.pending_terminal_command {
        Some(command) => asked(
            text,
            SessionView { pending_terminal_command: None, ..s },
            PhaseView::Terminal(command),
            RequestView::RunTerminal(command),
        ),
        None => replied(text, s, NO_COMMAND_WAITS@),
    }
}

/// The command that waits is dropped.
pub open spec fn start_cancel(text: Seq<char>, s: SessionView, now: u64) -> Turn {
    match s.pending_terminal_command {
        Some(command) => replied(
            text,
            SessionView { pending_terminal_command: None, updated_at: now, ..s },
            "✅ 已取消待确认的高风险终端命令。"@,
        ),
        None => replied(text, s, NO_COMMAND_WAITS@),
    }
}

/// After a terminal command.
pub open spec fn after_terminal(
    text: Seq<char>,
    s: SessionView,
    command: Seq<char>,
    result: Seq<char>,
    now: u64,
) -> Turn {
    replied(
        text,
        SessionView {
            last_action: Some("/terminal "@ + command),
            last_result: Some(result),
            updated_at: now,
            ..s
        },
        result,
    )
}

fn begin_terminal(text: String, session: UserSession, command: String, now: u64) -> (r: (
    Dispatch,
    Next,
))
    ensures
        view_turn(r) == start_terminal(text@, session@, command@, now),
{
    if is_high_risk_terminal_command(command.as_str()) {
        let mut s = session;
        let mut reply = glue(
            "⚠️ 检测到高风险命令，需二次确认后执行:\n",
            command.as_str(),
        );
        reply.append("\n\n发送“确认执行”继续，或发送“取消执行”放弃。");
        s.pending_terminal_command = Some(command);
        s.updated_at = now;
        reply_with(text, s, reply)
    } else {
        ask_for(text, session, Phase::Terminal(command.clone()), Request::RunTerminal(command))
    }
}

fn begin_confirm(text: String, session: UserSession) -> (r: (Dispatch, Next))
    ensures
        view_turn(r) == start_confirm(text@, session@),
{
    let mut s = session;
    let command: String = match &s.pending_terminal_command {
        Some(command) => command.clone(),
        None => {
            return reply_with(text, s, NO_COMMAND_WAITS.to_owned());
        },
    };
    s.pending_terminal_command = None;
    ask_for(text, s, Phase::Terminal(command.clone()), Request::RunTerminal(command))
}

fn begin_cancel(text: String, session: UserSession, now: u64) -> (r: (Dispatch, Next))
    ensures
        view_turn(r) == start_cancel(text@, session@, now),
{
    let mut s = session;
    if s.pending_terminal_command.is_some() {
        s.pending_terminal_command = None;
        s.updated_at = now;
        reply_with(text, s, "✅ 已取消待确认的高风险终端命令。".to_owned())
    } else {
        reply_with(text, s, NO_COMMAND_WAITS.to_owned())
    }
}

fn resume_terminal(
    text: String,
    session: UserSession,
    command: String,
    result: String,
    now: u64,
) -> (r: (Dispatch, Next))
    ensures
        view_turn(r) == after_terminal(text@, session@, command@, result@, now),
{
    let mut s = session;
    s.last_action = Some(glue("/terminal ", command.as_str()));
    s.last_result = Some(result.clone());
    s.updated_at = now;
    reply_with(text, s, result)
}

// ---------------------------------------------------------------------------
// Retrying
// ---------------------------------------------------------------------------

/// The last action is carried out again; `again` is what its text asks for. A terminal
/// command is treated as if it had just been sent.
pub open spec fn start_retry(
    text: Seq<char>,
    s: SessionView,
    again: Option<IntentView>,
    now: u64,
) -> Turn {
    match s.last_action {
        None => replied(text, s, "无可重试的操作。"@),
        Some(last) => match again {
            Some(IntentView::TerminalRun(command)) => start_terminal(text, s, command, now),
            Some(i) if is_action(i) => asked(
                text,
                s,
                PhaseView::Retrying(last),
                RequestView::RunAction(action_for(i)->0),
            ),
            _ => replied(text, s, "上次操作无法自动重试，请重新发送命令。"@),
        },
    }
}

fn begin_retry(text: String, session: UserSession, again: Option<Intent>, now: u64) -> (r: (
    Dispatch,
    Next,
))
    ensures
        view_turn(r) == start_retry(text@, session@, view_intent(again), now),
{
    let last: String = match &session.last_action {
        None => {
            return reply_with(text, session, "无可重试的操作。".to_owned());
        },
        Some(last) => last.clone(),
    };
    match again {
        Some(Intent::TerminalRun(command)) => begin_terminal(text, session, command, now),
        Some(intent) => match intent_action(intent) {
            Some(action) => ask_for(
                text,
                session,
                Phase::Retrying(last),
                Request::RunAction(action),
            ),
            None => reply_with(
                text,
                session,
                "上次操作无法自动重试，请重新发送命令。".to_owned(),
            ),
        },
        None => reply_with(
            text,
            session,
            "上次操作无法自动重试，请重新发送命令。".to_owned(),
        ),
    }
}

// ---------------------------------------------------------------------------
// Fixing
// ---------------------------------------------------------------------------

/// The last action of a session, or a stand-in.
pub open spec fn failed_action(s: SessionView) -> Seq<char> {
    or_text(s.last_action, "(unknown)"@)
}

/// The last result of a session, or a stand-in.
pub open spec fn failed_result(s: SessionView) -> Seq<char> {
    or_text(s.last_result, "(no previous result)"@)
}

/// What the user says about what went wrong, where there is anything.
pub open spec fn user_note(note: Seq<char>) -> Seq<char> {
    if note.len() == 0 {
        seq![]
    } else {
        "\nUser note: "@ + note
    }
}

/// The question how to fix what went wrong.
pub open spec fn fix_question(s: SessionView, note: Seq<char>) -> Seq<char> {
    "The user ran a command/operation via Feishu remote agent and it failed. Please analyze the error and suggest a concrete fix.\n\n## Last command\n```\n"@
        + failed_action(s) + "\n```\n\n## Error output\n```\n"@ + failed_result(s) + "\n```"@
        + user_note(note)
        + "\n\nProvide a short analysis and the exact corrected command or code fix. Reply in the user's language (Chinese)."@
}

/// The reply about a fix: the analysis, or what is known without it.
pub open spec fn fix_reply(s: SessionView, answer: TextResult) -> Seq<char> {
    match answer {
        Ok(analysis) => "🔍 分析结果:\n\n"@ + analysis,
        Err(e) => "⚠️ Copilot 不可用 ("@ + e + ")，以下是上次错误上下文:\n命令: "@
            + failed_action(s) + "\n输出:\n"@ + failed_result(s)
            + "\n\n提示: 检查命令拼写是否正确，或使用 /terminal <完整命令> 重试。"@,
    }
}

fn fmt_fix_question(session: &UserSession, note: &str) -> (r: String)
    ensures
        r@ == fix_question(session@, note@),
{
    let mut out = glue(
        "The user ran a command/operation via Feishu remote agent and it failed. Please analyze the error and suggest a concrete fix.\n\n## Last command\n```\n",
        text_or(&session.last_action, "(unknown)"),
    );
    out.append("\n```\n\n## Error output\n```\n");
    out.append(text_or(&session.last_result, "(no previous result)"));
    out.append("\n```");
    let remark: String = if note.is_empty() {
        String::new()
    } else {
        glue("\nUser note: ", note)
    };
    out.append(remark.as_str());
    out.append(
        "\n\nProvide a short analysis and the exact corrected command or code fix. Reply in the user's language (Chinese).",
    );
    out
}

fn fmt_fix_reply(session: &UserSession, answer: Result<String, String>) -> (r: String)
    ensures
        r@ == fix_reply(session@, view_answer(answer)),
{
    match answer {
        Ok(analysis) => glue("🔍 分析结果:\n\n", analysis.as_str()),
        Err(e) => {
            let mut out = glue("⚠️ Copilot 不可用 (", e.as_str());
            out.append(")，以下是上次错误上下文:\n命令: ");
            out.append(text_or(&session.last_action, "(unknown)"));
            out.append("\n输出:\n");
            out.append(text_or(&session.last_result, "(no previous result)"));
            out.append("\n\n提示: 检查命令拼写是否正确，或使用 /terminal <完整命令> 重试。");
            out
        },
    }
}

// ---------------------------------------------------------------------------
// Chats
// ---------------------------------------------------------------------------

/// A request for a chat: 0 asks for what was typed lately.
pub open spec fn start_history(text: Seq<char>, s: SessionView, n: nat) -> Turn {
    if n == 0 {
        asked(text, s, PhaseView::ShowingMessages, RequestView::ReadMessages)
    } else {
        asked(text, s, PhaseView::PickingChat(n), RequestView::ReadChats)
    }
}

/// The chat `n`, counted from one: what was asked in it is read.
pub open spec fn pick_chat(text: Seq<char>, s: SessionView, n: nat, chats: Seq<ChatView>) -> Turn {
    if 0 < n <= chats.len() {
        asked(
            text,
            s,
            PhaseView::ShowingPrompts(chats[n - 1].title),
            RequestView::ReadPrompts(chats[n - 1].id),
        )
    } else {
        replied(text, s, no_chat_reply(n))
    }
}

fn resume_picking(
    text: String,
    session: UserSession,
    n: usize,
    chats: &Vec<VscodeChatSession>,
) -> (r: (Dispatch, Next))
    ensures
        view_turn(r) == pick_chat(text@, session@, n as nat, view_chats(chats@)),
{
    if 0 < n && n <= chats.len() {
        let chat = &chats[n - 1];
        assert(view_chats(chats@)[n - 1] == chat@);
        ask_for(
            text,
            session,
            Phase::ShowingPrompts(chat.title.clone()),
            Request::ReadPrompts(chat.id.clone()),
        )
    } else {
        reply_with(text, session, fmt_no_chat(n))
    }
}

// ---------------------------------------------------------------------------
// Starting
// ---------------------------------------------------------------------------

/// What is done first about a message with a text, given what it asks for; `again` is
/// what the text of the last action asks for.
pub open spec fn start(
    text: Seq<char>,
    s: SessionView,
    intent: Option<IntentView>,
    again: Option<IntentView>,
    now: u64,
) -> Turn {
    match intent {
        None => replied(text, s, HELP_TEXT@),
        Some(i) => match i {
            IntentView::Continue => start_continue(text, s),
            IntentView::ContinueAll => start_continue_all(text, s),
            IntentView::Retry => start_retry(text, s, again, now),
            IntentView::Status => replied(text, s, session_status(s)),
            IntentView::SetPlan { description, steps } => start_plan(
                text,
                s,
                description,
                steps,
                now,
            ),
            IntentView::SwitchMode(mode) => switch_mode(text, s, mode, now),
            IntentView::SessionList => asked(
                text,
                s,
                PhaseView::Listing,
                RequestView::ListSnapshots,
            ),
            IntentView::SessionSave(label) => asked(
                text,
                SessionView { updated_at: now, ..s },
                PhaseView::Saving,
                RequestView::SaveSnapshot(label),
            ),
            IntentView::SessionLoad(id) => asked(
                text,
                s,
                PhaseView::Loading(id),
                RequestView::LoadSnapshot(id),
            ),
            IntentView::Clear => start_clear(text, s),
            IntentView::WriteFile { path, content } => asked(
                text,
                s,
                PhaseView::Writing,
                RequestView::WriteFile { path, content },
            ),
            IntentView::ReplaceInFile { path, old_text, new_text } => asked(
                text,
                s,
                PhaseView::Relaying,
                RequestView::Replace(EditView { path, old_text, new_text }),
            ),
            IntentView::Build => asked(text, s, PhaseView::Relaying, RequestView::Build),
            IntentView::SelfRestart => asked(text, s, PhaseView::Restarting, RequestView::Restart),
            IntentView::ViewLogs => asked(text, s, PhaseView::Relaying, RequestView::ViewLogs),
            IntentView::TerminalRun(command) => start_terminal(text, s, command, now),
            IntentView::TerminalConfirm => start_confirm(text, s),
            IntentView::TerminalCancel => start_cancel(text, s, now),
            IntentView::GitCommit(message) => asked(
                text,
                s,
                PhaseView::Relaying,
                RequestView::GitCommit(message),
            ),
            IntentView::GitPush => asked(text, s, PhaseView::Relaying, RequestView::GitPush),
            IntentView::AgentFix(note) => asked(
                text,
                s,
                PhaseView::Fixing,
                RequestView::AskCopilot(fix_question(s, note)),
            ),
            IntentView::CopilotAsk(question) => asked(
                text,
                s,
                PhaseView::Asking,
                RequestView::AskCopilot(question),
            ),
            IntentView::CopilotSessions => asked(
                text,
                s,
                PhaseView::ShowingChats,
                RequestView::ReadChats,
            ),
            IntentView::CopilotHistory(n) => start_history(text, s, n),
            IntentView::SystemInstallHelp(task) => replied(text, s, install_help(task)),
            IntentView::Help => replied(text, s, HELP_TEXT@),
            _ => asked(
                text,
                s,
                PhaseView::Acting,
                RequestView::RunAction(action_for(i)->0),
            ),
        },
    }
}

fn begin_action_intent(text: String, session: UserSession, intent: Intent) -> (r: (Dispatch, Next))
    requires
        is_action(intent@),
    ensures
        view_turn(r) == asked(
            text@,
            session@,
            PhaseView::Acting,
            RequestView::RunAction(action_for(intent@)->0),
        ),
{
    match intent_action(intent) {
        Some(action) => ask_for(text, session, Phase::Acting, Request::RunAction(action)),
        None => vstd::pervasive::unreached(),
    }
}

/// Decides what is done first about a message, given what it asks for and, for a retry,
/// what the text of the last action asks for.
pub fn begin(
    text: String,
    session: UserSession,
    intent: Option<Intent>,
    again: Option<Intent>,
    now: u64,
) -> (r: (Dispatch, Next))
    ensures
        view_turn(r) == start(
            text@,
            session@,
            view_intent(intent),
            view_intent(again),
            now,
        ),
{
    let intent = match intent {
        None => {
            return reply_with(text, session, help_text());
        },
        Some(i) => i,
    };
    match intent {
        Intent::Continue => begin_continue(text, session),
        Intent::ContinueAll => begin_continue_all(text, session),
        Intent::Retry => begin_retry(text, session, again, now),
        Intent::Status => {
            let reply = fmt_session_status(&session);
            reply_with(text, session, reply)
        },
        Intent::SetPlan { description, steps } => begin_plan(
            text,
            session,
            description,
            steps,
            now,
        ),
        Intent::SwitchMode(mode) => {
            let mut s = session;
            let mut reply = glue("✅ 已切换到", mode_label(mode));
            reply.append("模式");
            s.mode = mode;
            s.updated_at = now;
            reply_with(text, s, reply)
        },
        Intent::SessionList => ask_for(text, session, Phase::Listing, Request::ListSnapshots),
        Intent::SessionSave(label) => {
            let mut s = session;
            s.updated_at = now;
            ask_for(text, s, Phase::Saving, Request::SaveSnapshot(label))
        },
        Intent::SessionLoad(id) => ask_for(
            text,
            session,
            Phase::Loading(id.clone()),
            Request::LoadSnapshot(id),
        ),
        Intent::Clear => begin_clear(text, session),
        Intent::WriteFile { path, content } => ask_for(
            text,
            session,
            Phase::Writing,
            Request::WriteFile { path, content },
        ),
        Intent::ReplaceInFile { path, old_text, new_text } => ask_for(
            text,
            session,
            Phase::Relaying,
            Request::Replace(Edit { path, old_text, new_text }),
        ),
        Intent::Build => ask_for(text, session, Phase::Relaying, Request::Build),
        Intent::SelfRestart => ask_for(text, session, Phase::Restarting, Request::Restart),
        Intent::ViewLogs => ask_for(text, session, Phase::Relaying, Request::ViewLogs),
        Intent::TerminalRun(command) => begin_terminal(text, session, command, now),
        Intent::TerminalConfirm => begin_confirm(text, session),
        Intent::TerminalCancel => begin_cancel(text, session, now),
        Intent::GitCommit(message) => ask_for(
            text,
            session,
            Phase::Relaying,
            Request::GitCommit(message),
        ),
        Intent::GitPush => ask_for(text, session, Phase::Relaying, Request::GitPush),
        Intent::AgentFix(remark) => {
            let question = fmt_fix_question(&session, remark.as_str());
            ask_for(text, session, Phase::Fixing, Request::AskCopilot(question))
        },
        Intent::CopilotAsk(question) => ask_for(
            text,
            session,
            Phase::Asking,
            Request::AskCopilot(question),
        ),
        Intent::CopilotSessions => ask_for(
            text,
            session,
            Phase::ShowingChats,
            Request::ReadChats,
        ),
        Intent::CopilotHistory(n) => if n == 0 {
            ask_for(text, session, Phase::ShowingMessages, Request::ReadMessages)
        } else {
            ask_for(text, session, Phase::PickingChat(n), Request::ReadChats)
        },
        Intent::SystemInstallHelp(task) => reply_with(
            text,
            session,
            system_install_help_text(task.as_str()),
        ),
        Intent::Help => reply_with(text, session, help_text()),
        action => begin_action_intent(text, session, action),
    }
}

// ---------------------------------------------------------------------------
// Going on
// ---------------------------------------------------------------------------

/// Whether a report is of the kind that is waited for.
pub open spec fn report_fits(phase: PhaseView, event: EventView) -> bool {
    match phase {
        PhaseView::Over => false,
        PhaseView::Step(_) => event is Text,
        PhaseView::StepSaved(_, _) => event is Saved,
        PhaseView::AllStep(_, _) => event is Text,
        PhaseView::AllSaved(_) => event is Saved,
        PhaseView::Retrying(_) => event is Text,
        PhaseView::PlanSaved(_, _) => event is Saved,
        PhaseView::Listing => event is Listed,
        PhaseView::Saving => event is Saved,
        PhaseView::Loading(_) => event is Loaded,
        PhaseView::ClearSaved => event is Saved,
        PhaseView::Clearing => event is Cleared,
        PhaseView::Writing => event is Answered,
        PhaseView::Relaying => event is Text,
        PhaseView::Restarting => event is Restarted,
        PhaseView::Terminal(_) => event is Text,
        PhaseView::Fixing => event is Answered,
        PhaseView::Asking => event is Answered,
        PhaseView::ShowingChats => event is Chats,
        PhaseView::ShowingMessages => event is Messages,
        PhaseView::PickingChat(_) => event is Chats,
        PhaseView::ShowingPrompts(_) => event is Messages,
        PhaseView::Acting => event is Text,
    }
}

/// The reply about a snapshot that was to be saved.
pub open spec fn saved_reply(saved: TextResult) -> Seq<char> {
    match saved {
        Ok(id) => "✅ 会话已保存: "@ + id + "\n发送“会话列表”可查看历史。"@,
        Err(e) => "保存会话失败: "@ + e,
    }
}

fn fmt_saved(saved: Result<String, String>) -> (r: String)
    ensures
        r@ == saved_reply(view_answer(saved)),
{
    match saved {
        Ok(id) => {
            let mut out = glue("✅ 会话已保存: ", id.as_str());
            out.append("\n发送“会话列表”可查看历史。");
            out
        },
        Err(e) => glue("保存会话失败: ", e.as_str()),
    }
}

/// After a snapshot was loaded: it is the session from now on.
pub open spec fn after_loading(
    text: Seq<char>,
    s: SessionView,
    id: Seq<char>,
    loaded: Result<SessionView, Seq<char>>,
    now: u64,
) -> Turn {
    match loaded {
        Ok(l) => {
            let t = SessionView { updated_at: now, ..l };
            replied(text, t, "✅ 已载入会话: "@ + id + "\n"@ + session_status(t))
        },
        Err(e) => replied(text, s, "载入会话失败: "@ + e),
    }
}

fn resume_loading(
    text: String,
    session: UserSession,
    id: String,
    loaded: Result<UserSession, String>,
    now: u64,
) -> (r: (Dispatch, Next))
    ensures
        view_turn(r) == after_loading(
            text@,
            session@,
            id@,
            match loaded {
                Ok(l) => Ok(l@),
                Err(e) => Err(e@),
            },
            now,
        ),
{
    match loaded {
        Ok(l) => {
            let mut s = l;
            s.updated_at = now;
            let mut reply = glue("✅ 已载入会话: ", id.as_str());
            reply.append("\n");
            reply.append(fmt_session_status(&s).as_str());
            reply_with(text, s, reply)
        },
        Err(e) => reply_with(text, session, glue("载入会话失败: ", e.as_str())),
    }
}

/// After an action that a message asked for.
pub open spec fn after_action(text: Seq<char>, s: SessionView, result: Seq<char>, now: u64) -> Turn {
    replied(
        text,
        SessionView {
            last_action: Some(text),
            last_result: Some(result),
            mode: SessionMode::Coding,
            updated_at: now,
            ..s
        },
        result,
    )
}

fn resume_action_intent(text: String, session: UserSession, result: String, now: u64) -> (r: (
    Dispatch,
    Next,
))
    ensures
        view_turn(r) == after_action(text@, session@, result@, now),
{
    let mut s = session;
    s.last_action = Some(text.clone());
    s.last_result = Some(result.clone());
    s.mode = SessionMode::Coding;
    s.updated_at = now;
    reply_with(text, s, result)
}

/// After an action that was carried out again.
pub open spec fn after_retry(
    text: Seq<char>,
    s: SessionView,
    last: Seq<char>,
    result: Seq<char>,
    now: u64,
) -> Turn {
    replied(text, with_result(s, result, now), "↻ 重试: "@ + last + "\n\n"@ + result)
}

fn resume_retry(text: String, session: UserSession, last: String, result: String, now: u64) -> (r: (
    Dispatch,
    Next,
))
    ensures
        view_turn(r) == after_retry(text@, session@, last@, result@, now),
{
    let mut s = session;
    let mut reply = glue("↻ 重试: ", last.as_str());
    reply.append("\n\n");
    reply.append(result.as_str());
    s.last_result = Some(result);
    s.updated_at = now;
    reply_with(text, s, reply)
}

/// What is done next about a message, after a report and at a time.
pub open spec fn next(d: DispatchView, event: EventView, now: u64) -> Turn {
    let (text, s) = (d.text, d.session);
    match d.phase {
        PhaseView::Over => (d, NextView::Done { reply: seq![], restart: None, save: true }),
        PhaseView::Step(step) => after_step(text, s, step, event->Text_0, now),
        PhaseView::StepSaved(step, result) => replied(text, s, step_reply(step, result, 0)),
        PhaseView::AllStep(step, outputs) => after_one_of_all(
            text,
            s,
            step,
            outputs,
            event->Text_0,
            now,
        ),
        PhaseView::AllSaved(outputs) => replied(
            text,
            s,
            join(outputs.push("\n"@ + ALL_DONE@), "\n\n"@),
        ),
        PhaseView::Retrying(last) => after_retry(text, s, last, event->Text_0, now),
        PhaseView::PlanSaved(description, steps) => set_plan(text, s, description, steps, now),
        PhaseView::Listing => match event->Listed_0 {
            Ok(items) => replied(text, s, snapshot_list(items)),
            Err(e) => replied(text, s, "读取会话历史失败: "@ + e),
        },
        PhaseView::Saving => replied(text, s, saved_reply(event->Saved_0)),
        PhaseView::Loading(id) => after_loading(text, s, id, event->Loaded_0, now),
        PhaseView::ClearSaved => asked(text, s, PhaseView::Clearing, RequestView::ClearSession),
        PhaseView::Clearing => (
            DispatchView { phase: PhaseView::Over, ..d },
            NextView::Done {
                reply: "🗑 会话已清除（已自动归档）"@,
                restart: None,
                save: false,
            },
        ),
        PhaseView::Writing => match event->Answered_0 {
            Ok(content) => replied(text, s, "✅ "@ + content),
            Err(e) => replied(text, s, "❌ 写入失败: "@ + e),
        },
        PhaseView::Relaying => replied(text, s, event->Text_0),
        PhaseView::Restarting => (
            DispatchView { phase: PhaseView::Over, ..d },
            NextView::Done {
                reply: event->Restarted_0,
                restart: event->Restarted_1,
                save: true,
            },
        ),
        PhaseView::Terminal(command) => after_terminal(text, s, command, event->Text_0, now),
        PhaseView::Fixing => replied(text, s, fix_reply(s, event->Answered_0)),
        PhaseView::Asking => match event->Answered_0 {
            Ok(answer) => replied(text, s, answer),
            Err(e) => replied(text, s, "❌ Copilot 请求失败: "@ + e),
        },
        PhaseView::ShowingChats => replied(text, s, chat_list(event->Chats_0, now)),
        PhaseView::ShowingMessages => replied(text, s, message_list(event->Messages_0)),
        PhaseView::PickingChat(n) => pick_chat(text, s, n, event->Chats_0),
        PhaseView::ShowingPrompts(title) => replied(
            text,
            s,
            chat_reply(title, event->Messages_0),
        ),
        PhaseView::Acting => after_action(text, s, event->Text_0, now),
    }
}

impl Dispatch {
    /// Whether `event` is of the kind that is waited for.
    pub fn accepts(&self, event: &Event) -> (r: bool)
        ensures
            r == report_fits(self@.phase, event@),
    {
        match (&self.phase, event) {
            (Phase::Step(_), Event::Text(_)) => true,
            (Phase::StepSaved(_, _), Event::Saved(_)) => true,
            (Phase::AllStep(_, _), Event::Text(_)) => true,
            (Phase::AllSaved(_), Event::Saved(_)) => true,
            (Phase::Retrying(_), Event::Text(_)) => true,
            (Phase::PlanSaved(_, _), Event::Saved(_)) => true,
            (Phase::Listing, Event::Listed(_)) => true,
            (Phase::Saving, Event::Saved(_)) => true,
            (Phase::Loading(_), Event::Loaded(_)) => true,
            (Phase::ClearSaved, Event::Saved(_)) => true,
            (Phase::Clearing, Event::Cleared) => true,
            (Phase::Writing, Event::Answered(_)) => true,
            (Phase::Relaying, Event::Text(_)) => true,
            (Phase::Restarting, Event::Restarted(_, _)) => true,
            (Phase::Terminal(_), Event::Text(_)) => true,
            (Phase::Fixing, Event::Answered(_)) => true,
            (Phase::Asking, Event::Answered(_)) => true,
            (Phase::ShowingChats, Event::Chats(_)) => true,
            (Phase::ShowingMessages, Event::Messages(_)) => true,
            (Phase::PickingChat(_), Event::Chats(_)) => true,
            (Phase::ShowingPrompts(_), Event::Messages(_)) => true,
            (Phase::Acting, Event::Text(_)) => true,
            _ => false,
        }
    }

    /// Goes on after a report of the kind that is waited for.
    pub fn resume(self, event: Event) -> (r: (Dispatch, Next))
        requires
            report_fits(self@.phase, event@),
        ensures
            exists|now: u64| view_turn(r) == #[trigger] next(self@, event@, now),
    {
        self.resume_at(event, now_secs())
    }

    /// Goes on after a report of the kind that is waited for, at the time `now`.
    pub fn resume_at(self, event: Event, now: u64) -> (r: (Dispatch, Next))
        requires
            report_fits(self@.phase, event@),
        ensures
            view_turn(r) == next(self@, event@, now),
    {
        let Dispatch { text, session, phase } = self;
        match (phase, event) {
            (Phase::Step(step), Event::Text(result)) => resume_step(
                text,
                session,
                step,
                result,
                now,
            ),
            (Phase::StepSaved(step, result), Event::Saved(_)) => reply_with(
                text,
                session,
                fmt_step_reply(step.as_str(), result.as_str(), 0),
            ),
            (Phase::AllStep(step, outputs), Event::Text(result)) => resume_one_of_all(
                text,
                session,
                step,
                outputs,
                result,
                now,
            ),
            (Phase::AllSaved(outputs), Event::Saved(_)) => {
                let mut noted = outputs;
                note(&mut noted, glue("\n", ALL_DONE));
                reply_with(text, session, joined(&noted, "\n\n"))
            },
            (Phase::Retrying(last), Event::Text(result)) => resume_retry(
                text,
                session,
                last,
                result,
                now,
            ),
            (Phase::PlanSaved(description, steps), Event::Saved(_)) => finish_plan(
                text,
                session,
                description,
                steps,
                now,
            ),
            (Phase::Listing, Event::Listed(listed)) => match listed {
                Ok(items) => reply_with(text, session, fmt_snapshot_list(&items)),
                Err(e) => reply_with(
                    text,
                    session,
                    glue("读取会话历史失败: ", e.as_str()),
                ),
            },
            (Phase::Saving, Event::Saved(saved)) => reply_with(text, session, fmt_saved(saved)),
            (Phase::Loading(id), Event::Loaded(loaded)) => resume_loading(
                text,
                session,
                id,
                loaded,
                now,
            ),
            (Phase::ClearSaved, Event::Saved(_)) => ask_for(
                text,
                session,
                Phase::Clearing,
                Request::ClearSession,
            ),
            (Phase::Clearing, Event::Cleared) => (
                Dispatch { text, session, phase: Phase::Over },
                Next::Done {
                    reply: "🗑 会话已清除（已自动归档）".to_owned(),
                    restart: None,
                    save: false,
                },
            ),
            (Phase::Writing, Event::Answered(written)) => match written {
                Ok(content) => reply_with(text, session, glue("✅ ", content.as_str())),
                Err(e) => reply_with(text, session, glue("❌ 写入失败: ", e.as_str())),
            },
            (Phase::Relaying, Event::Text(reply)) => reply_with(text, session, reply),
            (Phase::Restarting, Event::Restarted(reply, restart)) => (
                Dispatch { text, session, phase: Phase::Over },
                Next::Done { reply, restart, save: true },
            ),
            (Phase::Terminal(command), Event::Text(result)) => resume_terminal(
                text,
                session,
                command,
                result,
                now,
            ),
            (Phase::Fixing, Event::Answered(answer)) => {
                let reply = fmt_fix_reply(&session, answer);
                reply_with(text, session, reply)
            },
            (Phase::Asking, Event::Answered(answer)) => match answer {
                Ok(s) => reply_with(text, session, s),
                Err(e) => reply_with(
                    text,
                    session,
                    glue("❌ Copilot 请求失败: ", e.as_str()),
                ),
            },
            (Phase::ShowingChats, Event::Chats(chats)) => reply_with(
                text,
                session,
                fmt_vscode_sessions(&chats, now),
            ),
            (Phase::ShowingMessages, Event::Messages(msgs)) => reply_with(
                text,
                session,
                fmt_recent_messages(&msgs),
            ),
            (Phase::PickingChat(n), Event::Chats(chats)) => resume_picking(
                text,
                session,
                n,
                &chats,
            ),
            (Phase::ShowingPrompts(title), Event::Messages(msgs)) => reply_with(
                text,
                session,
                fmt_chat(title.as_str(), &msgs),
            ),
            (Phase::Acting, Event::Text(result)) => resume_action_intent(
                text,
                session,
                result,
                now,
            ),
            _ => vstd::pervasive::unreached(),
        }
    }
}

// ---------------------------------------------------------------------------
// A message comes in
// ---------------------------------------------------------------------------

/// Whether a text can be taken to ask for something.
pub open spec fn possible_intent(text: Seq<char>, intent: Option<IntentView>) -> bool {
    exists|inferred: Option<IntentView>| #[trigger]
        possible_guess(text, inferred) && intent == intent_of(text, inferred)
}

/// Whether the text of the last action of a session can be taken to ask for `again`,
/// where a message asks for it to be carried out again. It is read like the text of a
/// message. Otherwise nothing is to be carried out again.
pub open spec fn possible_retry(
    s: SessionView,
    intent: Option<IntentView>,
    again: Option<IntentView>,
) -> bool {
    if intent == Some(IntentView::Retry) && s.last_action is Some {
        possible_intent(trim(s.last_action->0), again)
    } else {
        again is None
    }
}

/// Whether dealing with a message from a user can start like this at a time.
pub open spec fn possible_start(text: Seq<char>, s: SessionView, now: u64, turn: Turn) -> bool {
    exists|intent: Option<IntentView>, again: Option<IntentView>|
        {
            &&& #[trigger] possible_intent(trim(text), intent)
            &&& #[trigger] possible_retry(s, intent, again)
            &&& turn == start(trim(text), s, intent, again, now)
        }
}

/// Decides what is done first about a message. White space round the text does not
/// count.
pub fn dispatch_with_session(text: &str, session: UserSession) -> (r: (Dispatch, Next))
    ensures
        exists|now: u64| #[trigger] possible_start(text@, session@, now, view_turn(r)),
{
    dispatch_at(text, session, now_secs())
}

/// Decides what is done first about a message, at the time `now`.
pub fn dispatch_at(text: &str, session: UserSession, now: u64) -> (r: (Dispatch, Next))
    ensures
        possible_start(text@, session@, now, view_turn(r)),
{
    let bare = trimmed(text);
    let intent = parse_intent(bare);
    let again: Option<Intent> = match (&intent, &session.last_action) {
        (Some(Intent::Retry), Some(last)) => parse_intent(trimmed(last.as_str())),
        _ => None,
    };
    assert(possible_intent(trim(text@), view_intent(intent)));
    assert(possible_retry(session@, view_intent(intent), view_intent(again)));
    begin(bare.to_owned(), session, intent, again, now)
}

} // verus!
