//! What can be relied on from a message to its reply: what was asked is what is done, and
//! what came of it is what is told.

use crate::actionrun::ActionView;
use crate::chat::{chat_list, message_list, ChatView};
use crate::conduct::request_of;
use crate::devloop::{is_high_risk, RestartView};
use crate::dispatch::{
    fix_question, next, possible_start, start, DispatchView, EventView, NextView, PhaseView,
    RequestView, Turn,
};
use crate::edit::EditView;
use crate::format::{plan_saved, session_status, snapshot_list, HELP_TEXT};
use crate::intent::{is_action, IntentView};
use crate::session::{is_meaningful, SessionMode, SessionView, SnapshotView};
use crate::text::{
    all_space, decimal, is_bare, join, piece_stands_between, trimming_keeps_the_rest,
};
use vstd::prelude::*;

verus! {

/// Whether a turn asks for `request` and leaves the session as it was.
pub open spec fn only_asks(turn: Turn, s: SessionView, request: RequestView) -> bool {
    request_of(turn) == Some(request) && turn.0.session == s
}

/// Whether a turn is a reply, after which the session is `s` and is saved.
pub open spec fn replies(turn: Turn, s: SessionView, reply: Seq<char>) -> bool {
    turn.0.session == s && turn.1 == (NextView::Done { reply, restart: None, save: true })
}

/// What is asked of the host is what the message asked for, with all that it says, and
/// the session stays as it was.
pub proof fn request_is_what_was_asked(
    text: Seq<char>,
    s: SessionView,
    again: Option<IntentView>,
    now: u64,
    a: Seq<char>,
    b: Seq<char>,
    c: Seq<char>,
)
    ensures
        only_asks(
            start(text, s, Some(IntentView::WriteFile { path: a, content: b }), again, now),
            s,
            RequestView::WriteFile { path: a, content: b },
        ),
        only_asks(
            start(
                text,
                s,
                Some(IntentView::ReplaceInFile { path: a, old_text: b, new_text: c }),
                again,
                now,
            ),
            s,
            RequestView::Replace(EditView { path: a, old_text: b, new_text: c }),
        ),
        only_asks(
            start(text, s, Some(IntentView::GitCommit(a)), again, now),
            s,
            RequestView::GitCommit(a),
        ),
        only_asks(
            start(text, s, Some(IntentView::CopilotAsk(a)), again, now),
            s,
            RequestView::AskCopilot(a),
        ),
        only_asks(
            start(text, s, Some(IntentView::SessionLoad(a)), again, now),
            s,
            RequestView::LoadSnapshot(a),
        ),
        only_asks(
            start(text, s, Some(IntentView::SessionList), again, now),
            s,
            RequestView::ListSnapshots,
        ),
        only_asks(start(text, s, Some(IntentView::Build), again, now), s, RequestView::Build),
        only_asks(
            start(text, s, Some(IntentView::SelfRestart), again, now),
            s,
            RequestView::Restart,
        ),
        only_asks(start(text, s, Some(IntentView::ViewLogs), again, now), s, RequestView::ViewLogs),
        only_asks(start(text, s, Some(IntentView::GitPush), again, now), s, RequestView::GitPush),
        only_asks(
            start(text, s, Some(IntentView::CopilotSessions), again, now),
            s,
            RequestView::ReadChats,
        ),
        only_asks(
            start(text, s, Some(IntentView::CopilotHistory(0)), again, now),
            s,
            RequestView::ReadMessages,
        ),
        forall|n: nat|
            n > 0 ==> only_asks(
                #[trigger] start(text, s, Some(IntentView::CopilotHistory(n)), again, now),
                s,
                RequestView::ReadChats,
            ),
        !is_high_risk(a) ==> only_asks(
            start(text, s, Some(IntentView::TerminalRun(a)), again, now),
            s,
            RequestView::RunTerminal(a),
        ),
{
}

/// A snapshot that is to be saved is saved under the label that was given, or under none.
pub proof fn snapshot_is_saved_under_its_label(
    text: Seq<char>,
    s: SessionView,
    again: Option<IntentView>,
    now: u64,
    label: Option<Seq<char>>,
)
    ensures
        request_of(start(text, s, Some(IntentView::SessionSave(label)), again, now)) == Some(
            RequestView::SaveSnapshot(label),
        ),
        start(text, s, Some(IntentView::SessionSave(label)), again, now).0.session == (
        SessionView { updated_at: now, ..s }),
{
}

/// An action on the workspace is the one that the message asked for, on the path that it
/// names and with all else that it says.
pub proof fn action_is_what_was_asked(
    text: Seq<char>,
    s: SessionView,
    again: Option<IntentView>,
    now: u64,
    lead: Seq<char>,
    path: Seq<char>,
    tail: Seq<char>,
    other: Seq<char>,
)
    requires
        all_space(lead),
        is_bare(path),
        all_space(tail),
    ensures
        only_asks(
            start(text, s, Some(IntentView::Read(lead + path + tail)), again, now),
            s,
            RequestView::RunAction(ActionView::Read(path)),
        ),
        only_asks(
            start(text, s, Some(IntentView::List(lead + path + tail)), again, now),
            s,
            RequestView::RunAction(ActionView::List(path)),
        ),
        only_asks(
            start(text, s, Some(IntentView::Diff(lead + path + tail)), again, now),
            s,
            RequestView::RunAction(ActionView::Diff(path)),
        ),
        only_asks(
            start(text, s, Some(IntentView::Search { path, query: other }), again, now),
            s,
            RequestView::RunAction(ActionView::Search { path, query: other }),
        ),
        only_asks(
            start(text, s, Some(IntentView::Patch(other)), again, now),
            s,
            RequestView::RunAction(ActionView::Patch(other)),
        ),
        only_asks(
            start(text, s, Some(IntentView::Test(other)), again, now),
            s,
            RequestView::RunAction(ActionView::Test(other)),
        ),
{
    trimming_keeps_the_rest(lead, path, tail);
}

/// What came of a request is the reply, as it was reported: of building, the logs, a
/// commit, a push and a replacement.
pub proof fn report_is_the_reply(
    text: Seq<char>,
    s: SessionView,
    again: Option<IntentView>,
    now: u64,
    later: u64,
    intent: IntentView,
    report: Seq<char>,
)
    requires
        intent is Build || intent is ViewLogs || intent is GitCommit || intent is GitPush || intent
            is ReplaceInFile,
    ensures
        replies(
            next(start(text, s, Some(intent), again, now).0, EventView::Text(report), later),
            s,
            report,
        ),
{
}

/// A restart is told as it was reported, and the program to start is the one reported.
pub proof fn restart_is_handed_on(
    text: Seq<char>,
    s: SessionView,
    again: Option<IntentView>,
    now: u64,
    later: u64,
    report: Seq<char>,
    info: Option<RestartView>,
)
    ensures
        ({
            let turn = next(
                start(text, s, Some(IntentView::SelfRestart), again, now).0,
                EventView::Restarted(report, info),
                later,
            );
            &&& turn.0.session == s
            &&& turn.1 == (NextView::Done { reply: report, restart: info, save: true })
        }),
{
}

/// The answer of Copilot is the reply, whole; where there is none the reply says why.
pub proof fn answer_is_the_reply(
    text: Seq<char>,
    s: SessionView,
    again: Option<IntentView>,
    now: u64,
    later: u64,
    question: Seq<char>,
    answer: Seq<char>,
)
    ensures
        ({
            let asked = start(text, s, Some(IntentView::CopilotAsk(question)), again, now).0;
            &&& replies(next(asked, EventView::Answered(Ok(answer)), later), s, answer)
            &&& replies(
                next(asked, EventView::Answered(Err(answer)), later),
                s,
                "❌ Copilot 请求失败: "@ + answer,
            )
        }),
{
}

/// A file that was written is told with what was noted of it, and one that was not with
/// the reason.
pub proof fn written_file_is_told(
    text: Seq<char>,
    s: SessionView,
    again: Option<IntentView>,
    now: u64,
    later: u64,
    path: Seq<char>,
    content: Seq<char>,
    noted: Seq<char>,
)
    ensures
        ({
            let asked = start(text, s, Some(IntentView::WriteFile { path, content }), again, now).0;
            &&& replies(next(asked, EventView::Answered(Ok(noted)), later), s, "✅ "@ + noted)
            &&& replies(
                next(asked, EventView::Answered(Err(noted)), later),
                s,
                "❌ 写入失败: "@ + noted,
            )
        }),
{
}

/// A snapshot that was saved is told with its id, by which it can be loaded.
pub proof fn saved_snapshot_is_told(
    text: Seq<char>,
    s: SessionView,
    again: Option<IntentView>,
    now: u64,
    later: u64,
    label: Option<Seq<char>>,
    told: Seq<char>,
)
    ensures
        ({
            let asked = start(text, s, Some(IntentView::SessionSave(label)), again, now).0;
            let kept = SessionView { updated_at: now, ..s };
            &&& replies(
                next(asked, EventView::Saved(Ok(told)), later),
                kept,
                "✅ 会话已保存: "@ + told + "\n发送“会话列表”可查看历史。"@,
            )
            &&& replies(
                next(asked, EventView::Saved(Err(told)), later),
                kept,
                "保存会话失败: "@ + told,
            )
        }),
{
}

/// A snapshot that is loaded is the session from then on, but for the time; where it
/// cannot be loaded the session stays as it was.
pub proof fn loaded_snapshot_is_the_session(
    text: Seq<char>,
    s: SessionView,
    again: Option<IntentView>,
    now: u64,
    later: u64,
    id: Seq<char>,
    loaded: SessionView,
    e: Seq<char>,
)
    ensures
        ({
            let asked = start(text, s, Some(IntentView::SessionLoad(id)), again, now).0;
            let taken = SessionView { updated_at: later, ..loaded };
            &&& replies(
                next(asked, EventView::Loaded(Ok(loaded)), later),
                taken,
                "✅ 已载入会话: "@ + id + "\n"@ + session_status(taken),
            )
            &&& replies(
                next(asked, EventView::Loaded(Err(e)), later),
                s,
                "载入会话失败: "@ + e,
            )
        }),
{
}

/// The lists that are asked for are those of what was reported.
pub proof fn lists_show_what_was_reported(
    text: Seq<char>,
    s: SessionView,
    again: Option<IntentView>,
    now: u64,
    later: u64,
    items: Seq<SnapshotView>,
    chats: Seq<ChatView>,
    messages: Seq<Seq<char>>,
    e: Seq<char>,
)
    ensures
        replies(
            next(
                start(text, s, Some(IntentView::SessionList), again, now).0,
                EventView::Listed(Ok(items)),
                later,
            ),
            s,
            snapshot_list(items),
        ),
        replies(
            next(
                start(text, s, Some(IntentView::SessionList), again, now).0,
                EventView::Listed(Err(e)),
                later,
            ),
            s,
            "读取会话历史失败: "@ + e,
        ),
        replies(
            next(
                start(text, s, Some(IntentView::CopilotSessions), again, now).0,
                EventView::Chats(chats),
                later,
            ),
            s,
            chat_list(chats, later),
        ),
        replies(
            next(
                start(text, s, Some(IntentView::CopilotHistory(0)), again, now).0,
                EventView::Messages(messages),
                later,
            ),
            s,
            message_list(messages),
        ),
{
}

/// A terminal command is told with its output, whole, and is remembered with it.
pub proof fn terminal_output_is_the_reply(
    text: Seq<char>,
    s: SessionView,
    again: Option<IntentView>,
    now: u64,
    later: u64,
    command: Seq<char>,
    output: Seq<char>,
)
    requires
        !is_high_risk(command),
    ensures
        replies(
            next(
                start(text, s, Some(IntentView::TerminalRun(command)), again, now).0,
                EventView::Text(output),
                later,
            ),
            (SessionView {
                last_action: Some("/terminal "@ + command),
                last_result: Some(output),
                updated_at: later,
                ..s
            }),
            output,
        ),
{
}

/// A risky command is shown, whole, in the question whether to run it.
pub proof fn risky_command_is_shown(
    text: Seq<char>,
    s: SessionView,
    again: Option<IntentView>,
    now: u64,
    command: Seq<char>,
)
    requires
        is_high_risk(command),
    ensures
        replies(
            start(text, s, Some(IntentView::TerminalRun(command)), again, now),
            (SessionView { pending_terminal_command: Some(command), updated_at: now, ..s }),
            "⚠️ 检测到高风险命令，需二次确认后执行:\n"@ + command
                + "\n\n发送“确认执行”继续，或发送“取消执行”放弃。"@,
        ),
{
}

/// The mode is the one that was asked for, and nothing else in the session changes.
pub proof fn mode_is_switched(
    text: Seq<char>,
    s: SessionView,
    again: Option<IntentView>,
    now: u64,
    mode: SessionMode,
)
    ensures
        replies(
            start(text, s, Some(IntentView::SwitchMode(mode)), again, now),
            (SessionView { mode, updated_at: now, ..s }),
            "✅ 已切换到"@ + (if mode == SessionMode::Coding {
                "编码"@
            } else {
                "规划"@
            }) + "模式"@,
        ),
{
}

/// What is not understood, and a call for help, is answered with the commands that there
/// are; the status is that of the session.
pub proof fn help_and_status_are_told(
    text: Seq<char>,
    s: SessionView,
    again: Option<IntentView>,
    now: u64,
)
    ensures
        replies(start(text, s, None, again, now), s, HELP_TEXT@),
        replies(start(text, s, Some(IntentView::Help), again, now), s, HELP_TEXT@),
        replies(start(text, s, Some(IntentView::Status), again, now), s, session_status(s)),
{
}

/// One step is told with what came of it, whole, and with how many are left.
pub proof fn step_is_told(
    text: Seq<char>,
    s: SessionView,
    again: Option<IntentView>,
    now: u64,
    later: u64,
    result: Seq<char>,
    saved: EventView,
)
    requires
        s.pending_steps.len() > 0,
        saved is Saved,
    ensures
        ({
            let asked = start(text, s, Some(IntentView::Continue), again, now).0;
            let turn = next(asked, EventView::Text(result), later);
            let after = SessionView {
                pending_steps: s.pending_steps.skip(1),
                last_result: Some(result),
                updated_at: later,
                ..s
            };
            let told = "▸ 执行步骤: "@ + s.pending_steps[0] + "\n\n"@ + result + "\n\n"@;
            &&& s.pending_steps.len() > 1 ==> replies(
                turn,
                after,
                told + ("还剩 "@ + decimal((s.pending_steps.len() - 1) as nat)
                    + " 步，发送「继续」或「执行全部」"@),
            )
            &&& s.pending_steps.len() == 1 ==> {
                &&& request_of(turn) == Some(RequestView::SaveSnapshot(Some("auto-completed"@)))
                &&& turn.0.session == after
                &&& replies(next(turn.0, saved, later), after, told + "✅ 所有步骤已执行完毕"@)
            }
        }),
{
}

/// Of all steps, each one is noted with what came of it, whole; after the last one the
/// notes are the reply.
pub proof fn all_steps_are_told(
    d: DispatchView,
    result: Seq<char>,
    saved: EventView,
    now: u64,
    later: u64,
)
    requires
        d.phase is AllStep,
        saved is Saved,
        forall|a: Seq<char>, b: Seq<char>| result != #[trigger] (a + "❌"@ + b),
    ensures
        ({
            let (step, outputs) = (d.phase->AllStep_0, d.phase->AllStep_1);
            let noted = outputs.push("▸ 执行步骤: "@ + step + "\n"@ + result);
            let turn = next(d, EventView::Text(result), now);
            &&& d.session.pending_steps.len() > 0 ==> turn.0.phase == PhaseView::AllStep(
                d.session.pending_steps[0],
                noted,
            )
            &&& d.session.pending_steps.len() == 0 ==> {
                &&& request_of(turn) == Some(RequestView::SaveSnapshot(Some("auto-completed"@)))
                &&& replies(
                    next(turn.0, saved, later),
                    (SessionView { last_result: Some(result), updated_at: now, ..d.session }),
                    join(noted.push("\n"@ + "✅ 所有步骤已执行完毕"@), "\n\n"@),
                )
            }
        }),
{
    piece_stands_between(result, seq![], "❌"@, seq![]);
}

/// Where one of all steps fails, what was noted so far is the reply, with how many steps
/// are left.
pub proof fn failed_step_is_told(d: DispatchView, a: Seq<char>, b: Seq<char>, now: u64)
    requires
        d.phase is AllStep,
        d.session.pending_steps.len() > 0,
    ensures
        ({
            let (step, outputs) = (d.phase->AllStep_0, d.phase->AllStep_1);
            let result = a + "❌"@ + b;
            let noted = outputs.push("▸ 执行步骤: "@ + step + "\n"@ + result);
            replies(
                next(d, EventView::Text(result), now),
                (SessionView { last_result: Some(result), updated_at: now, ..d.session }),
                join(
                    noted.push(
                        "\n⚠️ 步骤失败，已暂停。还剩 "@ + decimal(d.session.pending_steps.len())
                            + " 步，发送「继续」或「执行全部」恢复。"@,
                    ),
                    "\n\n"@,
                ),
            )
        }),
{
    piece_stands_between(a, a, "❌"@, b);
}

/// An action that is carried out again is told with its text and what came of it.
pub proof fn retried_action_is_told(
    text: Seq<char>,
    s: SessionView,
    last: Seq<char>,
    path: Seq<char>,
    query: Seq<char>,
    now: u64,
    later: u64,
    result: Seq<char>,
)
    requires
        s.last_action == Some(last),
    ensures
        ({
            let asked = start(
                text,
                s,
                Some(IntentView::Retry),
                Some(IntentView::Search { path, query }),
                now,
            );
            &&& only_asks(asked, s, RequestView::RunAction(ActionView::Search { path, query }))
            &&& replies(
                next(asked.0, EventView::Text(result), later),
                (SessionView { last_result: Some(result), updated_at: later, ..s }),
                "↻ 重试: "@ + last + "\n\n"@ + result,
            )
        }),
{
}

/// How the note of the user is told, where there is one.
pub open spec fn told_note(note: Seq<char>) -> Seq<char> {
    if note.len() == 0 {
        seq![]
    } else {
        "\nUser note: "@ + note
    }
}

/// The question about a fix holds the last action, its result and the note of the user,
/// whole and in this order; the analysis is the reply.
pub proof fn fix_is_asked_about_what_failed(
    text: Seq<char>,
    s: SessionView,
    again: Option<IntentView>,
    now: u64,
    later: u64,
    action: Seq<char>,
    result: Seq<char>,
    note: Seq<char>,
    answer: Seq<char>,
)
    requires
        s.last_action == Some(action),
        s.last_result == Some(result),
    ensures
        ({
            let asked = start(text, s, Some(IntentView::AgentFix(note)), again, now);
            &&& only_asks(asked, s, RequestView::AskCopilot(fix_question(s, note)))
            &&& exists|a: Seq<char>, b: Seq<char>|
                fix_question(s, note) == #[trigger] (a + (action
                    + "\n```\n\n## Error output\n```\n"@ + result + "\n```"@ + told_note(note)) + b)
            &&& replies(
                next(asked.0, EventView::Answered(Ok(answer)), later),
                s,
                "🔍 分析结果:\n\n"@ + answer,
            )
            &&& replies(
                next(asked.0, EventView::Answered(Err(answer)), later),
                s,
                "⚠️ Copilot 不可用 ("@ + answer + ")，以下是上次错误上下文:\n命令: "@ + action
                    + "\n输出:\n"@ + result
                    + "\n\n提示: 检查命令拼写是否正确，或使用 /terminal <完整命令> 重试。"@,
            )
        }),
{
    let head =
        "The user ran a command/operation via Feishu remote agent and it failed. Please analyze the error and suggest a concrete fix.\n\n## Last command\n```\n"@;
    let foot =
        "\n\nProvide a short analysis and the exact corrected command or code fix. Reply in the user's language (Chinese)."@;
    let middle = action + "\n```\n\n## Error output\n```\n"@ + result + "\n```"@ + told_note(note);
    assert(fix_question(s, note) =~= head + middle + foot);
}

/// A new plan is the plan from then on: its task and its steps are those of the message,
/// and nothing else in the session changes but the mode and the time.
pub proof fn plan_is_the_one_given(
    text: Seq<char>,
    s: SessionView,
    again: Option<IntentView>,
    now: u64,
    later: u64,
    description: Seq<char>,
    steps: Seq<Seq<char>>,
    saved: EventView,
)
    requires
        saved is Saved,
    ensures
        ({
            let turn = start(text, s, Some(IntentView::SetPlan { description, steps }), again, now);
            let at = if is_meaningful(s) {
                later
            } else {
                now
            };
            replies(
                if is_meaningful(s) {
                    next(turn.0, saved, later)
                } else {
                    turn
                },
                (SessionView {
                    mode: SessionMode::Planning,
                    current_task: Some(description),
                    pending_steps: steps,
                    updated_at: at,
                    ..s
                }),
                plan_saved(description, steps),
            )
        }),
{
}

/// All steps are begun with the first one, with nothing noted yet and the others left in
/// order.
pub proof fn all_steps_begin_with_the_first(
    text: Seq<char>,
    s: SessionView,
    again: Option<IntentView>,
    now: u64,
)
    requires
        s.pending_steps.len() > 0,
    ensures
        ({
            let turn = start(text, s, Some(IntentView::ContinueAll), again, now);
            &&& request_of(turn) == Some(RequestView::RunStep(s.pending_steps[0]))
            &&& turn.0.phase == PhaseView::AllStep(s.pending_steps[0], seq![])
            &&& turn.0.session == (SessionView { pending_steps: s.pending_steps.skip(1), ..s })
        }),
{
}

/// Where the last of all steps fails, the plan is at its end all the same: the session is
/// archived, and the notes are the reply.
pub proof fn failed_last_step_is_told(
    d: DispatchView,
    a: Seq<char>,
    b: Seq<char>,
    saved: EventView,
    now: u64,
    later: u64,
)
    requires
        d.phase is AllStep,
        d.session.pending_steps.len() == 0,
        saved is Saved,
    ensures
        ({
            let (step, outputs) = (d.phase->AllStep_0, d.phase->AllStep_1);
            let result = a + "❌"@ + b;
            let noted = outputs.push("▸ 执行步骤: "@ + step + "\n"@ + result);
            let turn = next(d, EventView::Text(result), now);
            &&& request_of(turn) == Some(RequestView::SaveSnapshot(Some("auto-completed"@)))
            &&& replies(
                next(turn.0, saved, later),
                (SessionView { last_result: Some(result), updated_at: now, ..d.session }),
                join(noted.push("\n"@ + "✅ 所有步骤已执行完毕"@), "\n\n"@),
            )
        }),
{
    piece_stands_between(a, a, "❌"@, b);
}

/// Where there is nothing to go on with, nothing that waits and nothing to carry out again,
/// the reply says so and the session stays as it was.
pub proof fn nothing_to_do_is_told(
    text: Seq<char>,
    s: SessionView,
    again: Option<IntentView>,
    now: u64,
)
    ensures
        s.pending_steps.len() == 0 ==> {
            let told = "无待执行步骤。\n发送 `plan <任务>` 设置计划，或直接执行命令。"@;
            &&& replies(start(text, s, Some(IntentView::Continue), again, now), s, told)
            &&& replies(start(text, s, Some(IntentView::ContinueAll), again, now), s, told)
        },
        s.pending_terminal_command is None ==> {
            let told = "当前没有待确认的高风险终端命令。"@;
            &&& replies(start(text, s, Some(IntentView::TerminalConfirm), again, now), s, told)
            &&& replies(start(text, s, Some(IntentView::TerminalCancel), again, now), s, told)
        },
        s.last_action is None ==> replies(
            start(text, s, Some(IntentView::Retry), again, now),
            s,
            "无可重试的操作。"@,
        ),
        s.last_action is Some && (again is None || !(again->0 is TerminalRun) && !is_action(
            again->0,
        )) ==> replies(
            start(text, s, Some(IntentView::Retry), again, now),
            s,
            "上次操作无法自动重试，请重新发送命令。"@,
        ),
{
}

/// A command that waits is run as it is when it is confirmed, and dropped when it is
/// cancelled; nothing else in the session changes but what is noted of the run.
pub proof fn waiting_command_is_run_or_dropped(
    text: Seq<char>,
    s: SessionView,
    again: Option<IntentView>,
    now: u64,
    later: u64,
    command: Seq<char>,
    output: Seq<char>,
)
    requires
        s.pending_terminal_command == Some(command),
    ensures
        ({
            let turn = start(text, s, Some(IntentView::TerminalConfirm), again, now);
            let free = SessionView { pending_terminal_command: None, ..s };
            &&& only_asks(turn, free, RequestView::RunTerminal(command))
            &&& replies(
                next(turn.0, EventView::Text(output), later),
                (SessionView {
                    last_action: Some("/terminal "@ + command),
                    last_result: Some(output),
                    updated_at: later,
                    ..free
                }),
                output,
            )
            &&& replies(
                start(text, s, Some(IntentView::TerminalCancel), again, now),
                (SessionView { updated_at: now, ..free }),
                "✅ 已取消待确认的高风险终端命令。"@,
            )
        }),
{
}

/// Every action can be carried out again, with all that its text says.
pub proof fn every_action_is_carried_out_again(
    text: Seq<char>,
    s: SessionView,
    now: u64,
    lead: Seq<char>,
    path: Seq<char>,
    tail: Seq<char>,
    other: Seq<char>,
)
    requires
        s.last_action is Some,
        all_space(lead),
        is_bare(path),
        all_space(tail),
    ensures
        only_asks(
            start(
                text,
                s,
                Some(IntentView::Retry),
                Some(IntentView::Read(lead + path + tail)),
                now,
            ),
            s,
            RequestView::RunAction(ActionView::Read(path)),
        ),
        only_asks(
            start(
                text,
                s,
                Some(IntentView::Retry),
                Some(IntentView::List(lead + path + tail)),
                now,
            ),
            s,
            RequestView::RunAction(ActionView::List(path)),
        ),
        only_asks(
            start(
                text,
                s,
                Some(IntentView::Retry),
                Some(IntentView::Diff(lead + path + tail)),
                now,
            ),
            s,
            RequestView::RunAction(ActionView::Diff(path)),
        ),
        only_asks(
            start(text, s, Some(IntentView::Retry), Some(IntentView::Patch(other)), now),
            s,
            RequestView::RunAction(ActionView::Patch(other)),
        ),
        only_asks(
            start(text, s, Some(IntentView::Retry), Some(IntentView::Test(other)), now),
            s,
            RequestView::RunAction(ActionView::Test(other)),
        ),
        !is_high_risk(other) ==> only_asks(
            start(text, s, Some(IntentView::Retry), Some(IntentView::TerminalRun(other)), now),
            s,
            RequestView::RunTerminal(other),
        ),
{
    trimming_keeps_the_rest(lead, path, tail);
}

/// A session that was cleared is told as cleared, and is not saved.
pub proof fn cleared_session_is_told(d: DispatchView, now: u64)
    requires
        d.phase is Clearing,
    ensures
        next(d, EventView::Cleared, now).1 == (NextView::Done {
            reply: "🗑 会话已清除（已自动归档）"@,
            restart: None,
            save: false,
        }),
{
}

/// Where nothing is known of what failed, the question about a fix says so in its place.
pub proof fn fix_without_a_past_says_so(s: SessionView, note: Seq<char>)
    ensures
        s.last_action is None ==> fix_question(s, note) == fix_question(
            SessionView { last_action: Some("(unknown)"@), ..s },
            note,
        ),
        s.last_result is None ==> fix_question(s, note) == fix_question(
            SessionView { last_result: Some("(no previous result)"@), ..s },
            note,
        ),
{
}

/// The chat with a number is that at its place in the list, counted from one; where there
/// is none the reply names the number. The session stays as it was.
pub proof fn chat_is_picked_by_its_number(
    text: Seq<char>,
    s: SessionView,
    again: Option<IntentView>,
    now: u64,
    later: u64,
    n: nat,
    chats: Seq<ChatView>,
    prompts: Seq<Seq<char>>,
)
    requires
        n > 0,
    ensures
        ({
            let asked = start(text, s, Some(IntentView::CopilotHistory(n)), again, now).0;
            let turn = next(asked, EventView::Chats(chats), later);
            &&& n <= chats.len() ==> {
                &&& only_asks(turn, s, RequestView::ReadPrompts(chats[n - 1].id))
                &&& replies(
                    next(turn.0, EventView::Messages(prompts), later),
                    s,
                    "📝 会话: "@ + chats[n - 1].title + "\n\n"@ + message_list(prompts),
                )
            }
            &&& n > chats.len() ==> replies(
                turn,
                s,
                "未找到会话 #"@ + decimal(n) + "，发送\"chat 历史\"查看完整列表。"@,
            )
        }),
{
}

/// What was to be installed is told back, whole, in the reply about it.
pub proof fn install_request_is_told_back(
    text: Seq<char>,
    s: SessionView,
    again: Option<IntentView>,
    now: u64,
    task: Seq<char>,
)
    ensures
        replies(
            start(text, s, Some(IntentView::SystemInstallHelp(task)), again, now),
            s,
            "⚠️ 当前飞书代理不支持直接执行系统级安装（为避免误操作，执行器仅开放工作区读写/搜索/diff/patch/test）。\n\n请求: "@
                + task
                + "\n\n可选方案:\n1. 在电脑本机执行安装命令（推荐）\n   winget install --id Microsoft.PowerShell --source winget\n2. 安装后回到飞书发送“继续”，我会继续代码任务。\n\n如果你希望我远程触发系统安装，我可以下一步为你加“需确认后执行”的受控命令通道。"@,
        ),
{
}

/// White space round a message means nothing.
pub proof fn space_round_a_message_means_nothing(
    lead: Seq<char>,
    text: Seq<char>,
    tail: Seq<char>,
    s: SessionView,
    now: u64,
    turn: Turn,
)
    requires
        all_space(lead),
        is_bare(text),
        all_space(tail),
    ensures
        possible_start(lead + text + tail, s, now, turn) == possible_start(text, s, now, turn),
        possible_start(text, s, now, turn) ==> turn.0.text == text,
{
    trimming_keeps_the_rest(lead, text, tail);
    trimming_keeps_the_rest(seq![], text, seq![]);
    assert(seq![] + text + seq![] =~= text);
}

} // verus!
