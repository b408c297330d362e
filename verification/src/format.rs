//! The texts that the agent answers with about its session.

use crate::session::{
    view_snapshots, SessionMode, SessionSnapshotMeta, SessionView, SnapshotView, UserSession,
};
use crate::text::{
    decimal, decimal_of, join, joined, or_text, part_stands_in_join, text_or, view_all,
};
use vstd::prelude::*;

verus! {

pub const HELP_TEXT: &'static str = "HarborBeacon 可用命令如下:\n\
    \n\
    【🤖 Copilot 对话】\n\
    /ask <问题>         直接向 Copilot 提问\n\
    ask <问题>          等价于 /ask\n\
    chat 历史            查看 VS Code Copilot 会话\n\
    chat 历史 <n>        查看第 n 个会话的提问摘要\n\
    最近对话             查看最近 10 条提问\n\
    \n\
    【代码操作】\n\
    read <path>          读取文件\n\
    ls <path>            列出目录\n\
    search <path> <q>    搜索文本\n\
    diff [path]          查看 git diff\n\
    /patch <patch>       应用补丁\n\
    test [filter]        运行测试\n\
    \n\
    【🔧 飞书调试 (Dev-Loop)】\n\
    /replace <path>      替换文件内容（多行格式见下）\n\
    /write <path>        写入新文件（第二行起为内容）\n\
    /terminal <cmd>      在项目目录执行终端命令\n\
    /agent fix [描述]    分析上次错误并给出修复建议\n\
    fix [描述]           等价于 /agent fix\n\
    确认执行             执行待确认的高风险命令\n\
    取消执行             取消待确认的高风险命令\n\
    build | /build       编译 desktop agent\n\
    restart | /restart   编译并重启当前 agent\n\
    logs | /logs         查看最新运行日志\n\
    commit <msg>         git add -A && commit\n\
    push | /push         git push\n\
    \n\
    \x20 /replace 格式:\n\
    /replace path/to/file\n\
    <<<\n\
    旧代码\n\
    ===\n\
    新代码\n\
    >>>\n\
    \n\
    【会话命令】\n\
    /plan <任务>         记录任务（换行写步骤）\n\
    /agent status        查看当前任务进展\n\
    /agent <任务>        交给助手解析与执行\n\
    继续                 执行下一步\n\
    执行全部              一键执行所有步骤\n\
    重试                 重新执行上次操作\n\
    状态                 查看当前任务进展\n\
    清除                 清除会话（自动归档）";

/// The commands that the agent knows.
pub fn help_text() -> (r: String)
    ensures
        r@ == HELP_TEXT@,
{
    HELP_TEXT.to_owned()
}

/// The answer to a request to install something on the system.
pub open spec fn install_help(task: Seq<char>) -> Seq<char> {
    "⚠️ 当前飞书代理不支持直接执行系统级安装（为避免误操作，执行器仅开放工作区读写/搜索/diff/patch/test）。\n\n请求: "@
        + task
        + "\n\n可选方案:\n1. 在电脑本机执行安装命令（推荐）\n   winget install --id Microsoft.PowerShell --source winget\n2. 安装后回到飞书发送“继续”，我会继续代码任务。\n\n如果你希望我远程触发系统安装，我可以下一步为你加“需确认后执行”的受控命令通道。"@
}

pub fn system_install_help_text(task: &str) -> (r: String)
    ensures
        r@ == install_help(task@),
{
    let mut out =
        "⚠️ 当前飞书代理不支持直接执行系统级安装（为避免误操作，执行器仅开放工作区读写/搜索/diff/patch/test）。\n\n请求: ".to_owned();
    out.append(task);
    out.append(
        "\n\n可选方案:\n1. 在电脑本机执行安装命令（推荐）\n   winget install --id Microsoft.PowerShell --source winget\n2. 安装后回到飞书发送“继续”，我会继续代码任务。\n\n如果你希望我远程触发系统安装，我可以下一步为你加“需确认后执行”的受控命令通道。",
    );
    out
}

/// A list with a number in front of each item.
pub open spec fn numbered(items: Seq<Seq<char>>) -> Seq<Seq<char>> {
    Seq::new(
        items.len(),
        |i: int| "  "@ + decimal((i + 1) as nat) + ". "@ + items[i],
    )
}

fn number_items(items: &Vec<String>) -> (r: Vec<String>)
    ensures
        view_all(r@) == numbered(view_all(items@)),
{
    let mut out: Vec<String> = Vec::new();
    let mut i: usize = 0;
    while i < items.len()
        invariant
            i <= items@.len(),
            out@.len() == i,
            forall|j: int|
                0 <= j < i ==> (#[trigger] out@[j])@ == numbered(view_all(items@))[j],
        decreases items@.len() - i,
    {
        let mut line = "  ".to_owned();
        line.append(decimal_of(i as u128 + 1).as_str());
        line.append(". ");
        line.append(items[i].as_str());
        out.push(line);
        i += 1;
    }
    assert(view_all(out@) =~= numbered(view_all(items@)));
    out
}

/// The name of a mode.
pub open spec fn mode_name(mode: SessionMode) -> Seq<char> {
    match mode {
        SessionMode::Coding => "编码"@,
        SessionMode::Planning => "规划"@,
    }
}

pub fn mode_label(mode: SessionMode) -> (r: &'static str)
    ensures
        r@ == mode_name(mode),
{
    match mode {
        SessionMode::Coding => "编码",
        SessionMode::Planning => "规划",
    }
}

/// The part of a status about the steps that are left.
pub open spec fn steps_status(steps: Seq<Seq<char>>) -> Seq<char> {
    if steps.len() == 0 {
        "无待执行步骤"@
    } else {
        "待执行步骤（"@ + decimal(steps.len()) + "步）:\n"@ + join(numbered(steps), "\n"@)
    }
}

fn fmt_steps(steps: &Vec<String>) -> (r: String)
    ensures
        r@ == steps_status(view_all(steps@)),
{
    if steps.len() == 0 {
        return "无待执行步骤".to_owned();
    }
    let mut out = "待执行步骤（".to_owned();
    out.append(decimal_of(steps.len() as u128).as_str());
    out.append("步）:\n");
    out.append(joined(&number_items(steps), "\n").as_str());
    out
}

/// The part of a status about a terminal command that waits.
pub open spec fn waiting_command(command: Option<Seq<char>>) -> Seq<char> {
    match command {
        Some(c) => "\n待确认终端命令: "@ + c,
        None => ""@,
    }
}

/// How a session stands.
pub open spec fn session_status(s: SessionView) -> Seq<char> {
    "📋 状态\n模式: "@ + mode_name(s.mode) + "\n当前任务: "@ + or_text(
        s.current_task,
        "（无当前任务）"@,
    ) + "\n"@ + steps_status(s.pending_steps) + "\n上次操作: "@ + or_text(
        s.last_action,
        "（无）"@,
    ) + waiting_command(s.pending_terminal_command)
}

/// How `session` stands.
pub fn fmt_session_status(session: &UserSession) -> (r: String)
    ensures
        r@ == session_status(session@),
{
    let mut out = "📋 状态\n模式: ".to_owned();
    out.append(mode_label(session.mode));
    out.append("\n当前任务: ");
    out.append(text_or(&session.current_task, "（无当前任务）"));
    out.append("\n");
    out.append(fmt_steps(&session.pending_steps).as_str());
    out.append("\n上次操作: ");
    out.append(text_or(&session.last_action, "（无）"));
    let mut waiting = String::new();
    match &session.pending_terminal_command {
        Some(command) => {
            waiting = "\n待确认终端命令: ".to_owned();
            waiting.append(command.as_str());
        },
        None => {
            proof {
                reveal_strlit("");
            }
            assert(waiting@ =~= ""@);
        },
    }
    out.append(waiting.as_str());
    out
}

/// The answer to a new plan.
pub open spec fn plan_saved(description: Seq<char>, steps: Seq<Seq<char>>) -> Seq<char> {
    if steps.len() == 0 {
        "✅ 计划已记录\n任务: "@ + description
            + "\n\n发送「继续」逐步执行，或「执行全部」一键执行。"@
    } else {
        "✅ 计划已记录（共 "@ + decimal(steps.len()) + " 步）\n任务: "@ + description + "\n\n"@
            + join(numbered(steps), "\n"@)
            + "\n\n发送「继续」逐步执行，或「执行全部」一键执行。"@
    }
}

/// The answer to a new plan.
pub fn fmt_plan_saved(description: &str, steps: &Vec<String>) -> (r: String)
    ensures
        r@ == plan_saved(description@, view_all(steps@)),
{
    if steps.len() == 0 {
        let mut out = "✅ 计划已记录\n任务: ".to_owned();
        out.append(description);
        out.append("\n\n发送「继续」逐步执行，或「执行全部」一键执行。");
        return out;
    }
    let mut out = "✅ 计划已记录（共 ".to_owned();
    out.append(decimal_of(steps.len() as u128).as_str());
    out.append(" 步）\n任务: ");
    out.append(description);
    out.append("\n\n");
    out.append(joined(&number_items(steps), "\n").as_str());
    out.append("\n\n发送「继续」逐步执行，或「执行全部」一键执行。");
    out
}

/// How many entries a list in a reply shows at most.
pub const LIST_LIMIT: usize = 20;

/// The line about one snapshot; `i` counts from zero.
pub open spec fn snapshot_line(i: int, item: SnapshotView) -> Seq<char> {
    decimal((i + 1) as nat) + ". "@ + or_text(item.current_task, "（无任务）"@) + " | "@ + or_text(
        item.label,
        "manual"@,
    ) + " | 待办:"@ + decimal(item.pending_steps) + " | id:"@ + item.id
}

/// How many of `n` entries a list in a reply shows.
pub open spec fn shown(n: nat) -> nat {
    if n <= LIST_LIMIT {
        n
    } else {
        LIST_LIMIT as nat
    }
}

/// The lines about some snapshots: how many there are, the first ones, and what to do.
pub open spec fn snapshot_lines(items: Seq<SnapshotView>) -> Seq<Seq<char>> {
    seq!["🗂 历史会话（"@ + decimal(items.len()) + "）"@] + Seq::new(
        shown(items.len()),
        |i: int| snapshot_line(i, items[i]),
    ) + seq!["发送“载入会话 <id>”恢复并继续。"@]
}

/// The list of some snapshots.
pub open spec fn snapshot_list(items: Seq<SnapshotView>) -> Seq<char> {
    if items.len() == 0 {
        "暂无历史会话。发送“保存会话 <名称>”可保存当前进度。"@
    } else {
        join(snapshot_lines(items), "\n"@)
    }
}

fn fmt_snapshot_line(i: usize, item: &SessionSnapshotMeta) -> (r: String)
    ensures
        r@ == snapshot_line(i as int, item@),
{
    let mut out = decimal_of(i as u128 + 1);
    out.append(". ");
    out.append(text_or(&item.current_task, "（无任务）"));
    out.append(" | ");
    out.append(text_or(&item.label, "manual"));
    out.append(" | 待办:");
    out.append(decimal_of(item.pending_steps as u128).as_str());
    out.append(" | id:");
    out.append(item.id.as_str());
    out
}

/// The list of some snapshots.
pub fn fmt_snapshot_list(items: &Vec<SessionSnapshotMeta>) -> (r: String)
    ensures
        r@ == snapshot_list(view_snapshots(items@)),
{
    if items.len() == 0 {
        return "暂无历史会话。发送“保存会话 <名称>”可保存当前进度。".to_owned();
    }
    let ghost model = view_snapshots(items@);
    let mut lines: Vec<String> = Vec::new();
    let mut head = "🗂 历史会话（".to_owned();
    head.append(decimal_of(items.len() as u128).as_str());
    head.append("）");
    lines.push(head);
    let mut i: usize = 0;
    while i < items.len() && i < LIST_LIMIT
        invariant
            i <= shown(items@.len()),
            model == view_snapshots(items@),
            lines@.len() == i + 1,
            lines@[0]@ == snapshot_lines(model)[0],
            forall|j: int|
                1 <= j <= i ==> (#[trigger] lines@[j])@ == snapshot_line(j - 1, model[j - 1]),
        decreases items@.len() - i,
    {
        lines.push(fmt_snapshot_line(i, &items[i]));
        i += 1;
    }
    lines.push("发送“载入会话 <id>”恢复并继续。".to_owned());
    assert(view_all(lines@) =~= snapshot_lines(model));
    joined(&lines, "\n")
}

// ---------------------------------------------------------------------------
// Laws
// ---------------------------------------------------------------------------

/// The steps of a plan as they are shown: one on each line, in order, behind its number.
pub open spec fn shown_steps(steps: Seq<Seq<char>>) -> Seq<char> {
    join(Seq::new(steps.len(), |i: int| "  "@ + decimal((i + 1) as nat) + ". "@ + steps[i]), "\n"@)
}

/// A new plan is told back whole: the task, how many steps there are, and each of them.
pub proof fn plan_is_told_back(description: Seq<char>, steps: Seq<Seq<char>>)
    ensures
        steps.len() > 0 ==> plan_saved(description, steps) == "✅ 计划已记录（共 "@ + decimal(
            steps.len(),
        ) + " 步）\n任务: "@ + description + "\n\n"@ + shown_steps(steps)
            + "\n\n发送「继续」逐步执行，或「执行全部」一键执行。"@,
        plan_saved(description, seq![]) == "✅ 计划已记录\n任务: "@ + description
            + "\n\n发送「继续」逐步执行，或「执行全部」一键执行。"@,
{
    assert(numbered(steps) =~= Seq::new(
        steps.len(),
        |i: int| "  "@ + decimal((i + 1) as nat) + ". "@ + steps[i],
    ));
}

/// Each step is shown, behind its number.
pub proof fn every_step_is_shown(steps: Seq<Seq<char>>, i: int)
    requires
        0 <= i < steps.len(),
    ensures
        exists|a: Seq<char>, b: Seq<char>|
            shown_steps(steps) == #[trigger] (a + ("  "@ + decimal((i + 1) as nat) + ". "@
                + steps[i]) + b),
{
    let all = Seq::new(steps.len(), |i: int| "  "@ + decimal((i + 1) as nat) + ". "@ + steps[i]);
    part_stands_in_join(all, "\n"@, i);
}

/// The status of a session tells its mode, its task, all steps that are left, its last
/// action, and a command that waits.
pub proof fn status_tells_the_session(s: SessionView)
    ensures
        session_status(s) == "📋 状态\n模式: "@ + (if s.mode == SessionMode::Coding {
            "编码"@
        } else {
            "规划"@
        }) + "\n当前任务: "@ + (if s.current_task is Some {
            s.current_task->0
        } else {
            "（无当前任务）"@
        }) + "\n"@ + (if s.pending_steps.len() == 0 {
            "无待执行步骤"@
        } else {
            "待执行步骤（"@ + decimal(s.pending_steps.len()) + "步）:\n"@ + shown_steps(
                s.pending_steps,
            )
        }) + "\n上次操作: "@ + (if s.last_action is Some {
            s.last_action->0
        } else {
            "（无）"@
        }) + (if s.pending_terminal_command is Some {
            "\n待确认终端命令: "@ + s.pending_terminal_command->0
        } else {
            ""@
        }),
{
    let steps = s.pending_steps;
    assert(numbered(steps) =~= Seq::new(
        steps.len(),
        |i: int| "  "@ + decimal((i + 1) as nat) + ". "@ + steps[i],
    ));
}

/// The line that shows a snapshot behind its number: its task, its label, how many steps
/// are left in it, and the id by which it is loaded.
pub open spec fn shown_snapshot(k: nat, item: SnapshotView) -> Seq<char> {
    decimal(k) + ". "@ + (if item.current_task is Some {
        item.current_task->0
    } else {
        "（无任务）"@
    }) + " | "@ + (if item.label is Some {
        item.label->0
    } else {
        "manual"@
    }) + " | 待办:"@ + decimal(item.pending_steps) + " | id:"@ + item.id
}

/// The list of snapshots counts them all, and shows the first twenty in order, each on a
/// line of its own.
pub proof fn snapshots_are_listed(items: Seq<SnapshotView>) -> (lines: Seq<Seq<char>>)
    requires
        items.len() > 0,
    ensures
        snapshot_list(items) == join(lines, "\n"@),
        lines.len() == 2 + if items.len() < 20 {
            items.len() as int
        } else {
            20
        },
        lines[0] == "🗂 历史会话（"@ + decimal(items.len()) + "）"@,
        forall|i: int|
            0 <= i < items.len() && i < 20 ==> lines[i + 1] == #[trigger] shown_snapshot(
                (i + 1) as nat,
                items[i],
            ),
        lines.last() == "发送“载入会话 <id>”恢复并继续。"@,
{
    let lines = snapshot_lines(items);
    assert forall|i: int| 0 <= i < items.len() && i < 20 implies lines[i + 1]
        == #[trigger] shown_snapshot((i + 1) as nat, items[i]) by {
        assert(lines[i + 1] == snapshot_line(i, items[i]));
    }
    lines
}

} // verus!
