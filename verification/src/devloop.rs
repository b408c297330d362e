//! The development loop: building, logs, the terminal, and git.

use crate::actions::{CommandRun, RunView};
use crate::order::{in_order, is_before, lemma_place, text_lt};
use crate::text::{
    after_prefix, all_space, ascii_lower, contains, contains_any, decimal, decimal_int, decimal_of,
    decimal_of_i64, decimal_reads_back, ends_with, glue, has_any, is_bare, is_blank, join, joined,
    lines, lines_of, number, occurs_at, parse_number, piece_stands_between, rest_is_kept,
    starts_with, strip_prefix, trim, trimmed, trimming_keeps_the_rest, view_all, view_opt,
    view_strs,
};
use crate::unicode::{
    all_plain, is_plain, is_small_sigma, lemma_lower_prefix, lower, lower_first, lower_of_part,
    plain_text_is_lowered, same_letter, to_lower,
};
use vstd::prelude::*;

verus! {

// ---------------------------------------------------------------------------
// Cutting outputs
// ---------------------------------------------------------------------------

/// What stands behind an output that was cut.
pub const CUT_MARK: &'static str = "\n...(output truncated)";

/// The first characters of a text, and a mark where any are missing.
pub open spec fn cut(s: Seq<char>, max_chars: nat) -> Seq<char> {
    if s.len() <= max_chars {
        s
    } else {
        s.take(max_chars as int) + CUT_MARK@
    }
}

/// The first `max_chars` characters of `s`, and a mark where any are missing.
pub fn truncate_chars(s: &str, max_chars: usize) -> (r: String)
    ensures
        r@ == cut(s@, max_chars as nat),
{
    if s.unicode_len() <= max_chars {
        return s.to_owned();
    }
    glue(s.substring_char(0, max_chars), CUT_MARK)
}

/// The last lines of a text.
pub open spec fn tail_lines(s: Seq<char>, n: nat) -> Seq<char> {
    let ls = lines(s);
    let start = if ls.len() <= n {
        0
    } else {
        ls.len() - n
    };
    join(ls.skip(start), "\n"@)
}

/// The last `n` lines of `s`.
pub fn last_n_lines(s: &str, n: usize) -> (r: String)
    ensures
        r@ == tail_lines(s@, n as nat),
{
    let ls = lines_of(s);
    let ghost model = view_strs(ls@);
    let start: usize = if ls.len() <= n {
        0
    } else {
        ls.len() - n
    };
    let mut out: Vec<String> = Vec::new();
    let mut i: usize = start;
    while i < ls.len()
        invariant
            start <= i <= ls@.len(),
            model == view_strs(ls@),
            out@.len() == i - start,
            forall|j: int| 0 <= j < i - start ==> (#[trigger] out@[j])@ == model[start + j],
        decreases ls@.len() - i,
    {
        out.push(ls[i].to_owned());
        i += 1;
    }
    assert(view_all(out@) =~= model.skip(start as int));
    joined(&out, "\n")
}

// ---------------------------------------------------------------------------
// Building
// ---------------------------------------------------------------------------

/// What the names of the build directories start with.
pub const TARGET_PREFIX: &'static str = "target_feishu_";

/// The number of a build directory, or 0 for another name.
pub open spec fn target_number(name: Seq<char>) -> nat {
    match after_prefix(name, TARGET_PREFIX@) {
        Some(suffix) => match number(suffix, u32::MAX as nat) {
            Some(n) => n,
            None => 0,
        },
        None => 0,
    }
}

/// The greatest number of a build directory among some names.
pub open spec fn latest_number(names: Seq<Seq<char>>) -> nat
    decreases names.len(),
{
    if names.len() == 0 {
        0
    } else {
        let before = latest_number(names.drop_last());
        if target_number(names.last()) > before {
            target_number(names.last())
        } else {
            before
        }
    }
}

/// The greatest number of a build directory among `names`, or 0 where there is none.
pub fn latest_target(names: &Vec<String>) -> (r: u32)
    ensures
        r == latest_number(view_all(names@)),
{
    let ghost model = view_all(names@);
    let mut max_n: u32 = 0;
    let mut i: usize = 0;
    assert(model.take(0) =~= seq![]);
    while i < names.len()
        invariant
            i <= names@.len(),
            model == view_all(names@),
            max_n == latest_number(model.take(i as int)),
        decreases names@.len() - i,
    {
        proof {
            assert(model.take(i + 1).drop_last() =~= model.take(i as int));
            assert(model.take(i + 1).last() == names@[i as int]@);
        }
        match strip_prefix(names[i].as_str(), TARGET_PREFIX) {
            Some(suffix) => match parse_number(suffix, u32::MAX as u64) {
                Some(n) => {
                    if n as u32 > max_n {
                        max_n = n as u32;
                    }
                },
                None => {},
            },
            None => {},
        }
        i += 1;
    }
    assert(model.take(i as int) =~= model);
    max_n
}

/// The name of a build directory.
pub open spec fn target_dir(n: nat) -> Seq<char> {
    TARGET_PREFIX@ + decimal(n)
}

/// The name of the next build directory, given the greatest number so far.
pub fn next_target_dir(latest: u32) -> (r: String)
    requires
        latest < u32::MAX,
    ensures
        r@ == target_dir((latest + 1) as nat),
{
    glue(TARGET_PREFIX, decimal_of((latest + 1) as u128).as_str())
}

/// The arguments of `cargo` for a build.
pub open spec fn build_args(target: Seq<char>) -> Seq<Seq<char>> {
    seq!["build"@, "--target-dir"@, target, "-p"@, "harborbeacon-desktop-app"@]
}

/// The arguments of `cargo` that build into `target`.
pub fn cargo_build_args(target: &str) -> (r: Vec<String>)
    ensures
        view_all(r@) == build_args(target@),
{
    let r: Vec<String> = vec![
        "build".to_owned(),
        "--target-dir".to_owned(),
        target.to_owned(),
        "-p".to_owned(),
        "harborbeacon-desktop-app".to_owned(),
    ];
    assert(view_all(r@) =~= build_args(target@));
    r
}

/// The text of what kept a command from running, if anything did.
pub open spec fn start_error(run: RunView) -> Option<Seq<char>> {
    match run {
        RunView::NotStarted(e) => Some(e),
        RunView::NotFed(e) => Some(e),
        RunView::NotFinished(e) => Some(e),
        RunView::Finished { .. } => None,
    }
}

/// The reply about a build.
pub open spec fn build_reply(run: RunView, target: Seq<char>) -> Seq<char> {
    match run {
        RunView::Finished { success, stdout, stderr } => if success {
            "✅ 编译成功\ntarget: "@ + target + "\n"@ + tail_lines(stderr, 5)
        } else {
            "❌ 编译失败\n"@ + tail_lines(stderr, 30)
        },
        _ => "❌ 无法启动 cargo: "@ + start_error(run)->0,
    }
}

/// The reply about a build into `target`, given what came of it.
pub fn do_build(run: &CommandRun, target: &str) -> (r: String)
    ensures
        r@ == build_reply(run@, target@),
{
    match run {
        CommandRun::Finished { success, stdout, stderr } => if *success {
            let mut out = glue("✅ 编译成功\ntarget: ", target);
            out.append("\n");
            out.append(last_n_lines(stderr.as_str(), 5).as_str());
            out
        } else {
            glue("❌ 编译失败\n", last_n_lines(stderr.as_str(), 30).as_str())
        },
        CommandRun::NotStarted(e) => glue("❌ 无法启动 cargo: ", e.as_str()),
        CommandRun::NotFed(e) => glue("❌ 无法启动 cargo: ", e.as_str()),
        CommandRun::NotFinished(e) => glue("❌ 无法启动 cargo: ", e.as_str()),
    }
}

// ---------------------------------------------------------------------------
// Restarting
// ---------------------------------------------------------------------------

/// What the agent was started with.
#[derive(Debug, Clone, PartialEq, Eq)]
pub struct AgentContext {
    pub desktop_root: String,
    pub app_id: String,
    pub app_secret: String,
    pub domain: String,
    pub workspace: String,
}

/// How to start the agent anew.
#[derive(Debug, Clone, PartialEq, Eq)]
pub struct RestartInfo {
    pub exe_path: String,
    pub args: Vec<String>,
}

/// What a `RestartInfo` says.
#[verifier::ext_equal]
pub ghost struct RestartView {
    pub exe_path: Seq<char>,
    pub args: Seq<Seq<char>>,
}

impl View for RestartInfo {
    type V = RestartView;

    open spec fn view(&self) -> RestartView {
        RestartView { exe_path: self.exe_path@, args: view_all(self.args@) }
    }
}

/// The view of an optional restart.
pub open spec fn view_restart(o: Option<RestartInfo>) -> Option<RestartView> {
    match o {
        Some(i) => Some(i@),
        None => None,
    }
}

/// The arguments of the agent that hand on what it was started with.
pub open spec fn restart_args(ctx: AgentContext) -> Seq<Seq<char>> {
    seq![
        "--app-id"@,
        ctx.app_id@,
        "--app-secret"@,
        ctx.app_secret@,
        "--domain"@,
        ctx.domain@,
        "--workspace"@,
        ctx.workspace@,
    ]
}

/// Why a build does not lead to a restart, if it does not.
pub open spec fn restart_build_error(run: RunView) -> Option<Seq<char>> {
    match run {
        RunView::Finished { success, stdout, stderr } => if success {
            None
        } else {
            Some("❌ 编译失败，取消重启\n"@ + tail_lines(stderr, 30))
        },
        _ => Some("❌ 无法启动 cargo: "@ + start_error(run)->0),
    }
}

/// Why the build does not lead to a restart, if it does not.
pub fn check_restart_build(run: &CommandRun) -> (r: Option<String>)
    ensures
        view_opt(r) == restart_build_error(run@),
{
    match run {
        CommandRun::Finished { success, stdout, stderr } => if *success {
            None
        } else {
            Some(
                glue("❌ 编译失败，取消重启\n", last_n_lines(stderr.as_str(), 30).as_str()),
            )
        },
        CommandRun::NotStarted(e) => Some(glue("❌ 无法启动 cargo: ", e.as_str())),
        CommandRun::NotFed(e) => Some(glue("❌ 无法启动 cargo: ", e.as_str())),
        CommandRun::NotFinished(e) => Some(glue("❌ 无法启动 cargo: ", e.as_str())),
    }
}

/// The reply to a restart and the restart itself, where it comes to one: the build must
/// have succeeded and left a program.
pub open spec fn restart_outcome(
    ctx: AgentContext,
    run: RunView,
    target: Seq<char>,
    exe_path: Seq<char>,
    exe_exists: bool,
) -> (Seq<char>, Option<RestartView>) {
    match restart_build_error(run) {
        Some(e) => (e, None),
        None => if exe_exists {
            (
                "✅ 编译成功 ("@ + target + ")\n正在重启…飞书连接将短暂中断后自动恢复。"@,
                Some(RestartView { exe_path, args: restart_args(ctx) }),
            )
        } else {
            ("❌ 编译产物不存在: "@ + exe_path, None)
        },
    }
}

/// The reply to a restart, given what came of the build and whether it left a program.
pub fn do_build_and_restart(
    ctx: &AgentContext,
    run: &CommandRun,
    target: &str,
    exe_path: &str,
    exe_exists: bool,
) -> (r: (String, Option<RestartInfo>))
    ensures
        (r.0@, view_restart(r.1)) == restart_outcome(*ctx, run@, target@, exe_path@, exe_exists),
{
    match check_restart_build(run) {
        Some(e) => {
            return (e, None);
        },
        None => {},
    }
    if !exe_exists {
        return (glue("❌ 编译产物不存在: ", exe_path), None);
    }
    let args: Vec<String> = vec![
        "--app-id".to_owned(),
        ctx.app_id.clone(),
        "--app-secret".to_owned(),
        ctx.app_secret.clone(),
        "--domain".to_owned(),
        ctx.domain.clone(),
        "--workspace".to_owned(),
        ctx.workspace.clone(),
    ];
    assert(view_all(args@) =~= restart_args(*ctx));
    let mut reply = glue("✅ 编译成功 (", target);
    reply.append(")\n正在重启…飞书连接将短暂中断后自动恢复。");
    (reply, Some(RestartInfo { exe_path: exe_path.to_owned(), args }))
}

// ---------------------------------------------------------------------------
// Logs
// ---------------------------------------------------------------------------

/// A file of the log directory, and its text, if it could be read.
#[derive(Debug, Clone, PartialEq, Eq)]
pub struct LogFile {
    pub name: String,
    pub content: Option<String>,
}

/// What a `LogFile` says.
#[verifier::ext_equal]
pub ghost struct LogView {
    pub name: Seq<char>,
    pub content: Option<Seq<char>>,
}

impl View for LogFile {
    type V = LogView;

    open spec fn view(&self) -> LogView {
        LogView { name: self.name@, content: view_opt(self.content) }
    }
}

/// The views of some log files.
pub open spec fn view_logs(files: Seq<LogFile>) -> Seq<LogView> {
    files.map_values(|f: LogFile| f@)
}

/// The order of log files: by name, the last in front.
pub open spec fn by_latest_log() -> spec_fn(LogView, LogView) -> bool {
    |a: LogView, b: LogView| text_lt(b.name, a.name)
}

/// Whether a name is that of a log of the agent.
pub open spec fn is_agent_log(name: Seq<char>) -> bool {
    ".log"@.is_suffix_of(name) && "desktop-agent-"@.is_prefix_of(name)
}

pub fn is_agent_log_name(name: &str) -> (r: bool)
    ensures
        r == is_agent_log(name@),
{
    ends_with(name, ".log") && starts_with(name, "desktop-agent-")
}

/// How many logs are shown.
pub const LOG_COUNT: usize = 2;

/// How many lines of a log are shown.
pub const LOG_LINES: usize = 20;

/// The part of the reply about one file, where there is anything to show: the end of a
/// log of the agent that could be read and is not blank there.
pub open spec fn log_part(file: LogView) -> Option<Seq<char>> {
    if is_agent_log(file.name) && file.content is Some && !is_blank(
        tail_lines(file.content->0, LOG_LINES as nat),
    ) {
        Some(
            "── "@ + file.name + " ──\n"@ + tail_lines(file.content->0, LOG_LINES as nat) + "\n"@,
        )
    } else {
        None
    }
}

/// The parts about the first `count` files that have anything to show.
pub open spec fn log_parts(files: Seq<LogView>, count: nat) -> Seq<char>
    decreases files.len(),
{
    if files.len() == 0 || count == 0 {
        seq![]
    } else {
        match log_part(files[0]) {
            Some(part) => part + log_parts(files.skip(1), (count - 1) as nat),
            None => log_parts(files.skip(1), count),
        }
    }
}

/// The reply about the logs: the ends of the latest ones.
pub open spec fn logs_reply(dir_exists: bool, files: Seq<LogView>) -> Seq<char> {
    if !dir_exists {
        "日志目录不存在。"@
    } else if log_parts(in_order(files, by_latest_log()), LOG_COUNT as nat).len() == 0 {
        "最新日志为空。"@
    } else {
        log_parts(in_order(files, by_latest_log()), LOG_COUNT as nat)
    }
}

fn sort_logs(files: Vec<LogFile>) -> (r: Vec<LogFile>)
    ensures
        view_logs(r@) == in_order(view_logs(files@), by_latest_log()),
{
    let ghost model = view_logs(files@);
    let mut rest = files;
    let mut out: Vec<LogFile> = Vec::new();
    let mut k: usize = 0;
    let n: usize = rest.len();
    assert(model.take(0) =~= seq![]);
    assert(view_logs(out@) =~= seq![]);
    while rest.len() > 0
        invariant
            k + rest@.len() == n,
            n == model.len(),
            view_logs(rest@) =~= model.skip(k as int),
            view_logs(out@) == in_order(model.take(k as int), by_latest_log()),
        decreases rest@.len(),
    {
        let ghost left = view_logs(rest@);
        assert(left[0] == model[k as int]);
        let item = rest.remove(0);
        assert(view_logs(rest@) =~= left.skip(1));
        assert(left.skip(1) =~= model.skip(k + 1));
        let ghost before = view_logs(out@);
        let mut i: usize = 0;
        while i < out.len() && !is_before(out[i].name.as_str(), item.name.as_str())
            invariant
                i <= out@.len(),
                before == view_logs(out@),
                forall|j: int| 0 <= j < i ==> !by_latest_log()(item@, #[trigger] before[j]),
            decreases out@.len() - i,
        {
            assert(before[i as int] == out@[i as int]@);
            i += 1;
        }
        proof {
            lemma_place(before, item@, by_latest_log(), i as int);
            assert(model.take(k + 1).drop_last() =~= model.take(k as int));
            assert(model.take(k + 1).last() == item@);
        }
        out.insert(i, item);
        assert(view_logs(out@) =~= before.insert(i as int, item@));
        k += 1;
    }
    assert(model.take(k as int) =~= model);
    out
}

fn fmt_log_part(file: &LogFile) -> (r: Option<String>)
    ensures
        view_opt(r) == log_part(file@),
{
    if !is_agent_log_name(file.name.as_str()) {
        return None;
    }
    match &file.content {
        Some(content) => {
            let tail = last_n_lines(content.as_str(), LOG_LINES);
            if trimmed(tail.as_str()).is_empty() {
                return None;
            }
            let mut out = glue("── ", file.name.as_str());
            out.append(" ──\n");
            out.append(tail.as_str());
            out.append("\n");
            Some(out)
        },
        None => None,
    }
}

/// The reply about the logs, given what stands in the log directory.
pub fn do_view_logs(dir_exists: bool, files: Vec<LogFile>) -> (r: String)
    ensures
        r@ == logs_reply(dir_exists, view_logs(files@)),
{
    if !dir_exists {
        return "日志目录不存在。".to_owned();
    }
    let sorted = sort_logs(files);
    let ghost model = view_logs(sorted@);
    let ghost whole = log_parts(model, LOG_COUNT as nat);
    let mut result = String::new();
    let mut found: usize = 0;
    let mut i: usize = 0;
    assert(model.skip(0) =~= model);
    assert(result@ + whole =~= whole);
    while i < sorted.len() && found < LOG_COUNT
        invariant
            i <= sorted@.len(),
            found <= LOG_COUNT,
            model == view_logs(sorted@),
            result@ + log_parts(model.skip(i as int), (LOG_COUNT - found) as nat) == whole,
        decreases sorted@.len() - i,
    {
        let ghost before = result@;
        let ghost left = (LOG_COUNT - found) as nat;
        assert(model.skip(i as int)[0] == sorted@[i as int]@);
        assert(model.skip(i as int).skip(1) =~= model.skip(i + 1));
        match fmt_log_part(&sorted[i]) {
            Some(part) => {
                result.append(part.as_str());
                found += 1;
                proof {
                    let rest = log_parts(model.skip(i + 1), (left - 1) as nat);
                    assert(before + (part@ + rest) =~= (before + part@) + rest);
                }
            },
            None => {},
        }
        i += 1;
    }
    assert(result@ =~= whole);
    if result.as_str().is_empty() {
        "最新日志为空。".to_owned()
    } else {
        result
    }
}

// ---------------------------------------------------------------------------
// Git
// ---------------------------------------------------------------------------

/// The reply where `git add` stops a commit. A `git add` that could not be started
/// stops nothing.
pub open spec fn add_error(run: RunView) -> Option<Seq<char>> {
    match run {
        RunView::Finished { success, stdout, stderr } => if success {
            None
        } else {
            Some("❌ git add 失败: "@ + stderr)
        },
        _ => None,
    }
}

/// The reply where `git add` stops a commit.
pub fn check_git_add(run: &CommandRun) -> (r: Option<String>)
    ensures
        view_opt(r) == add_error(run@),
{
    match run {
        CommandRun::Finished { success, stdout, stderr } => if *success {
            None
        } else {
            Some(glue("❌ git add 失败: ", stderr.as_str()))
        },
        _ => None,
    }
}

/// The reply about a commit.
pub open spec fn commit_reply(run: RunView) -> Seq<char> {
    match run {
        RunView::Finished { success, stdout, stderr } => if success {
            "✅ 已提交\n"@ + tail_lines(stdout, 5)
        } else {
            "⚠️ git commit:\n"@ + trim(stdout) + "\n"@ + trim(stderr)
        },
        _ => "❌ 无法执行 git: "@ + start_error(run)->0,
    }
}

/// The reply about a commit, given what came of `git commit`.
pub fn do_git_commit(run: &CommandRun) -> (r: String)
    ensures
        r@ == commit_reply(run@),
{
    match run {
        CommandRun::Finished { success, stdout, stderr } => if *success {
            glue("✅ 已提交\n", last_n_lines(stdout.as_str(), 5).as_str())
        } else {
            let mut out = glue("⚠️ git commit:\n", trimmed(stdout.as_str()));
            out.append("\n");
            out.append(trimmed(stderr.as_str()));
            out
        },
        CommandRun::NotStarted(e) => glue("❌ 无法执行 git: ", e.as_str()),
        CommandRun::NotFed(e) => glue("❌ 无法执行 git: ", e.as_str()),
        CommandRun::NotFinished(e) => glue("❌ 无法执行 git: ", e.as_str()),
    }
}

/// The reply about a push.
pub open spec fn push_reply(run: RunView) -> Seq<char> {
    match run {
        RunView::Finished { success, stdout, stderr } => if success {
            "✅ 已推送\n"@ + trim(stdout) + trim(stderr)
        } else {
            "❌ git push 失败:\n"@ + trim(stderr)
        },
        _ => "❌ 无法执行 git: "@ + start_error(run)->0,
    }
}

/// The reply about a push, given what came of `git push`.
pub fn do_git_push(run: &CommandRun) -> (r: String)
    ensures
        r@ == push_reply(run@),
{
    match run {
        CommandRun::Finished { success, stdout, stderr } => if *success {
            let mut out = glue("✅ 已推送\n", trimmed(stdout.as_str()));
            out.append(trimmed(stderr.as_str()));
            out
        } else {
            glue("❌ git push 失败:\n", trimmed(stderr.as_str()))
        },
        CommandRun::NotStarted(e) => glue("❌ 无法执行 git: ", e.as_str()),
        CommandRun::NotFed(e) => glue("❌ 无法执行 git: ", e.as_str()),
        CommandRun::NotFinished(e) => glue("❌ 无法执行 git: ", e.as_str()),
    }
}

// ---------------------------------------------------------------------------
// The terminal
// ---------------------------------------------------------------------------

/// What a command that needs a second word holds.
pub const RISK_SIGNS: [&'static str; 16] = [
    "rm ",
    "rm -",
    "del ",
    "erase ",
    "rmdir ",
    "format ",
    "mkfs",
    "shutdown",
    "reboot",
    "stop-process",
    "taskkill",
    "sc delete",
    "reg delete",
    "git reset --hard",
    "git clean -fd",
    "remove-item",
];

/// Whether a terminal command must be confirmed before it is run.
pub open spec fn is_high_risk(command: Seq<char>) -> bool {
    contains_any(lower(command), RISK_SIGNS@)
}

/// Whether a terminal command must be confirmed before it is run.
pub fn is_high_risk_terminal_command(command: &str) -> (r: bool)
    ensures
        r == is_high_risk(command@),
{
    let low = to_lower(command);
    has_any(low.as_str(), RISK_SIGNS.as_slice())
}

/// What is handed to the shell for a command: the output is asked for in UTF-8.
pub open spec fn shell_command(command: Seq<char>) -> Seq<char> {
    "[Console]::OutputEncoding = [System.Text.Encoding]::UTF8; $OutputEncoding = [System.Text.Encoding]::UTF8; "@
        + command
}

/// What is handed to the shell for a command.
pub fn wrap_terminal_command(command: &str) -> (r: String)
    ensures
        r@ == shell_command(command@),
{
    glue(
        "[Console]::OutputEncoding = [System.Text.Encoding]::UTF8; $OutputEncoding = [System.Text.Encoding]::UTF8; ",
        command,
    )
}

/// What came of a terminal command.
#[derive(Debug, Clone, PartialEq, Eq)]
pub enum TerminalRun {
    NotStarted(String),
    Finished { success: bool, code: Option<i32>, stdout: String, stderr: String },
}

/// What a `TerminalRun` says.
#[verifier::ext_equal]
pub ghost enum TerminalView {
    NotStarted(Seq<char>),
    Finished { success: bool, code: Option<i32>, stdout: Seq<char>, stderr: Seq<char> },
}

impl View for TerminalRun {
    type V = TerminalView;

    open spec fn view(&self) -> TerminalView {
        match *self {
            TerminalRun::NotStarted(e) => TerminalView::NotStarted(e@),
            TerminalRun::Finished { success, code, stdout, stderr } => TerminalView::Finished {
                success,
                code,
                stdout: stdout@,
                stderr: stderr@,
            },
        }
    }
}

/// How many characters of an output are shown.
pub const OUTPUT_LIMIT: usize = 6000;

/// Two outputs as one; a blank one is left out.
pub open spec fn terminal_output(stdout: Seq<char>, stderr: Seq<char>) -> Seq<char> {
    if is_blank(stderr) {
        stdout
    } else if is_blank(stdout) {
        stderr
    } else {
        stdout + "\n"@ + stderr
    }
}

/// The number of an exit; -1 where there is none.
pub open spec fn exit_number(code: Option<i32>) -> int {
    match code {
        Some(n) => n as int,
        None => -1,
    }
}

/// The reply about a terminal command.
pub open spec fn terminal_reply(run: TerminalView) -> Seq<char> {
    match run {
        TerminalView::NotStarted(e) => "❌ /terminal 无法启动 shell: "@ + e,
        TerminalView::Finished { success, code, stdout, stderr } => {
            let shown = trim(cut(terminal_output(stdout, stderr), OUTPUT_LIMIT as nat));
            if success {
                "✅ /terminal 执行成功\n"@ + shown
            } else {
                "❌ /terminal 执行失败 (exit="@ + decimal_int(exit_number(code)) + ")\n"@ + shown
            }
        },
    }
}

/// The reply about a terminal command, given what came of it.
pub fn do_terminal_command(run: TerminalRun) -> (r: String)
    ensures
        r@ == terminal_reply(run@),
{
    match run {
        TerminalRun::NotStarted(e) => glue("❌ /terminal 无法启动 shell: ", e.as_str()),
        TerminalRun::Finished { success, code, stdout, stderr } => {
            let merged: String = if trimmed(stderr.as_str()).is_empty() {
                stdout
            } else if trimmed(stdout.as_str()).is_empty() {
                stderr
            } else {
                let mut both = glue(stdout.as_str(), "\n");
                both.append(stderr.as_str());
                both
            };
            let tail = truncate_chars(merged.as_str(), OUTPUT_LIMIT);
            let shown = trimmed(tail.as_str());
            if success {
                glue("✅ /terminal 执行成功\n", shown)
            } else {
                let number: i64 = match code {
                    Some(n) => n as i64,
                    None => -1,
                };
                let mut out = glue(
                    "❌ /terminal 执行失败 (exit=",
                    decimal_of_i64(number).as_str(),
                );
                out.append(")\n");
                out.append(shown);
                out
            }
        },
    }
}

// ---------------------------------------------------------------------------
// Laws
// ---------------------------------------------------------------------------

/// Cutting keeps a short text as it is, keeps the beginning of a long one, and never
/// shows more characters of it than asked for.
pub proof fn cut_keeps_beginning(s: Seq<char>, max_chars: nat)
    ensures
        s.len() <= max_chars ==> cut(s, max_chars) == s,
        s.len() > max_chars ==> {
            &&& cut(s, max_chars).take(max_chars as int) == s.take(max_chars as int)
            &&& cut(s, max_chars).skip(max_chars as int) == CUT_MARK@
        },
{
    if s.len() > max_chars {
        assert(cut(s, max_chars).take(max_chars as int) =~= s.take(max_chars as int));
        assert(cut(s, max_chars).skip(max_chars as int) =~= CUT_MARK@);
    }
}

proof fn lemma_latest_number(names: Seq<Seq<char>>, i: int)
    requires
        0 <= i < names.len(),
    ensures
        target_number(names[i]) <= latest_number(names),
    decreases names.len(),
{
    if i < names.len() - 1 {
        lemma_latest_number(names.drop_last(), i);
        assert(names.drop_last()[i] == names[i]);
    }
}

/// The next build directory is none of those that are there.
pub proof fn next_target_is_new(names: Seq<Seq<char>>, i: int)
    requires
        0 <= i < names.len(),
        latest_number(names) < u32::MAX,
    ensures
        names[i] != target_dir(latest_number(names) + 1),
{
    let n = latest_number(names) + 1;
    lemma_latest_number(names, i);
    decimal_reads_back(n, u32::MAX as nat);
    assert(TARGET_PREFIX@.is_prefix_of(target_dir(n)));
    assert(target_dir(n).skip(TARGET_PREFIX@.len() as int) =~= decimal(n));
    assert(target_number(target_dir(n)) == n);
}

/// A restart comes only of a build that succeeded and left a program, and hands on what
/// the agent was started with.
pub proof fn restart_needs_build(
    ctx: AgentContext,
    run: RunView,
    target: Seq<char>,
    exe_path: Seq<char>,
    exe_exists: bool,
)
    ensures
        restart_outcome(ctx, run, target, exe_path, exe_exists).1 matches Some(info) ==> {
            &&& run matches RunView::Finished { success, .. }
            &&& success
            &&& exe_exists
            &&& info.exe_path == exe_path
            &&& info.args == restart_args(ctx)
        },
{
}

/// Whether a text holds no small sigma.
spec fn without_sigma(s: Seq<char>) -> bool {
    forall|i: int| 0 <= i < s.len() ==> !is_small_sigma(#[trigger] s[i])
}

proof fn lemma_risk_signs()
    ensures
        forall|i: int| 0 <= i < RISK_SIGNS@.len() ==> without_sigma((#[trigger] RISK_SIGNS@[i])@),
{
    reveal_strlit("rm ");
    reveal_strlit("rm -");
    reveal_strlit("del ");
    reveal_strlit("erase ");
    reveal_strlit("rmdir ");
    reveal_strlit("format ");
    reveal_strlit("mkfs");
    reveal_strlit("shutdown");
    reveal_strlit("reboot");
    reveal_strlit("stop-process");
    reveal_strlit("taskkill");
    reveal_strlit("sc delete");
    reveal_strlit("reg delete");
    reveal_strlit("git reset --hard");
    reveal_strlit("git clean -fd");
    reveal_strlit("remove-item");
    assert forall|i: int| 0 <= i < RISK_SIGNS@.len() implies without_sigma(
        (#[trigger] RISK_SIGNS@[i])@,
    ) by {}
}

/// A risky command stays one with anything in front of it and behind it, and in any
/// case of its ASCII letters.
proof fn lemma_risk_in_text(s: Seq<char>, k: nat, c: Seq<char>)
    requires
        is_high_risk(c),
        k + c.len() <= s.len(),
        forall|i: int| 0 <= i < c.len() ==> same_letter(s[k + i], #[trigger] c[i]),
    ensures
        is_high_risk(s),
{
    lemma_risk_signs();
    let w = choose|w: int|
        0 <= w < RISK_SIGNS@.len() && contains(lower(c), (#[trigger] RISK_SIGNS@[w])@);
    let sign = RISK_SIGNS@[w]@;
    let at = choose|at: int| occurs_at(lower(c), sign, at);
    lower_of_part(s, k, c, c.len());
    let x = lower_first(s, k + c.len());
    let y = lower_first(s, k) + lower(c);
    let n = lower_first(s, k).len();
    lemma_lower_prefix(s, k + c.len(), s.len());
    assert(occurs_at(lower(s), sign, n + at)) by {
        assert forall|j: int| 0 <= j < sign.len() implies lower(s)[n + at + j] == sign[j] by {
            assert(lower(s)[n + at + j] == x[n + at + j]);
            assert(y[n + at + j] == lower(c)[at + j]);
            assert(lower(c).subrange(at, at + sign.len())[j] == lower(c)[at + j]);
            assert(!is_small_sigma(sign[j]));
            assert(x[n + at + j] == y[n + at + j] || is_small_sigma(x[n + at + j])
                && is_small_sigma(y[n + at + j]));
        }
        assert(lower(s).subrange(n + at, n + at + sign.len()) =~= sign);
    }
    assert(contains(lower(s), RISK_SIGNS@[w]@));
}

/// Added text cannot hide a risky command.
pub proof fn added_text_hides_no_risk(a: Seq<char>, c: Seq<char>, b: Seq<char>)
    requires
        is_high_risk(c),
    ensures
        is_high_risk(a + c + b),
{
    let s = a + c + b;
    assert forall|i: int| 0 <= i < c.len() implies same_letter(
        s[a.len() + i],
        #[trigger] c[i],
    ) by {
        assert(s[a.len() + i] == c[i]);
    }
    lemma_risk_in_text(s, a.len(), c);
}

/// The case of letters cannot hide a risky command.
pub proof fn letter_case_hides_no_risk(c: Seq<char>, d: Seq<char>)
    requires
        is_high_risk(c),
        d.len() == c.len(),
        forall|i: int| 0 <= i < c.len() ==> same_letter(d[i], #[trigger] c[i]),
    ensures
        is_high_risk(d),
{
    assert forall|i: int| 0 <= i < c.len() implies same_letter(d[0 + i], #[trigger] c[i]) by {}
    lemma_risk_in_text(d, 0, c);
}

/// A character as an ASCII capital, if it is an ASCII letter.
pub open spec fn ascii_upper(c: char) -> char {
    if 'a' <= c <= 'z' {
        (c as u32 - 32) as char
    } else {
        c
    }
}

/// A risky command is one in capitals too.
pub proof fn capitals_hide_no_risk(c: Seq<char>)
    requires
        is_high_risk(c),
    ensures
        is_high_risk(c.map_values(|x: char| ascii_upper(x))),
{
    let d = c.map_values(|x: char| ascii_upper(x));
    assert forall|i: int| 0 <= i < c.len() implies same_letter(d[i], #[trigger] c[i]) by {
        if 'a' <= c[i] <= 'z' {
            assert(is_plain(d[i]) && is_plain(c[i]));
            assert(ascii_lower(d[i]) == ascii_lower(c[i]));
        }
    }
    letter_case_hides_no_risk(c, d);
}

/// The words that make a command risky.
pub open spec fn is_risk_sign(s: Seq<char>) -> bool {
    ||| s == "rm "@
    ||| s == "rm -"@
    ||| s == "del "@
    ||| s == "erase "@
    ||| s == "rmdir "@
    ||| s == "format "@
    ||| s == "mkfs"@
    ||| s == "shutdown"@
    ||| s == "reboot"@
    ||| s == "stop-process"@
    ||| s == "taskkill"@
    ||| s == "sc delete"@
    ||| s == "reg delete"@
    ||| s == "git reset --hard"@
    ||| s == "git clean -fd"@
    ||| s == "remove-item"@
}

proof fn lemma_sign_is_listed(sign: Seq<char>)
    requires
        is_risk_sign(sign),
    ensures
        exists|w: int| 0 <= w < RISK_SIGNS@.len() && (#[trigger] RISK_SIGNS@[w])@ == sign,
{
    let all = RISK_SIGNS@;
    assert(all[0]@ == "rm "@);
    assert(all[1]@ == "rm -"@);
    assert(all[2]@ == "del "@);
    assert(all[3]@ == "erase "@);
    assert(all[4]@ == "rmdir "@);
    assert(all[5]@ == "format "@);
    assert(all[6]@ == "mkfs"@);
    assert(all[7]@ == "shutdown"@);
    assert(all[8]@ == "reboot"@);
    assert(all[9]@ == "stop-process"@);
    assert(all[10]@ == "taskkill"@);
    assert(all[11]@ == "sc delete"@);
    assert(all[12]@ == "reg delete"@);
    assert(all[13]@ == "git reset --hard"@);
    assert(all[14]@ == "git clean -fd"@);
    assert(all[15]@ == "remove-item"@);
}

proof fn lemma_signs_are_low(sign: Seq<char>)
    requires
        is_risk_sign(sign),
    ensures
        lower(sign) == sign,
        sign.len() > 0,
{
    reveal_strlit("rm ");
    reveal_strlit("rm -");
    reveal_strlit("del ");
    reveal_strlit("erase ");
    reveal_strlit("rmdir ");
    reveal_strlit("format ");
    reveal_strlit("mkfs");
    reveal_strlit("shutdown");
    reveal_strlit("reboot");
    reveal_strlit("stop-process");
    reveal_strlit("taskkill");
    reveal_strlit("sc delete");
    reveal_strlit("reg delete");
    reveal_strlit("git reset --hard");
    reveal_strlit("git clean -fd");
    reveal_strlit("remove-item");
    assert(all_plain(sign));
    plain_text_is_lowered(sign);
    assert(lower(sign) =~= sign);
}

/// A command that holds one of the risky words is risky, whatever stands round it.
pub proof fn risky_word_makes_risky(a: Seq<char>, sign: Seq<char>, b: Seq<char>)
    requires
        is_risk_sign(sign),
    ensures
        is_high_risk(a + sign + b),
{
    lemma_signs_are_low(sign);
    lemma_sign_is_listed(sign);
    let w = choose|w: int| 0 <= w < RISK_SIGNS@.len() && (#[trigger] RISK_SIGNS@[w])@ == sign;
    let none = Seq::<char>::empty();
    piece_stands_between(sign, none, sign, none);
    assert(none + sign + none =~= sign);
    assert(contains(lower(sign), RISK_SIGNS@[w]@));
    assert(is_high_risk(sign));
    added_text_hides_no_risk(a, sign, b);
}

/// A command of plain characters that holds none of the risky words, in any case of its
/// letters, is not risky.
pub proof fn command_without_risky_words_is_harmless(c: Seq<char>)
    requires
        all_plain(c),
        forall|a: Seq<char>, sign: Seq<char>, b: Seq<char>|
            is_risk_sign(sign) ==> c.map_values(|x: char| ascii_lower(x)) != #[trigger] (a + sign
                + b),
    ensures
        !is_high_risk(c),
{
    plain_text_is_lowered(c);
    if is_high_risk(c) {
        let w = choose|w: int|
            0 <= w < RISK_SIGNS@.len() && contains(lower(c), (#[trigger] RISK_SIGNS@[w])@);
        let sign = RISK_SIGNS@[w]@;
        lemma_listed_is_sign(w);
        piece_stands_between(lower(c), seq![], sign, seq![]);
        let (a, b) = choose|a: Seq<char>, b: Seq<char>| lower(c) == #[trigger] (a + sign + b);
        assert(c.map_values(|x: char| ascii_lower(x)) == a + sign + b);
    }
}

proof fn lemma_listed_is_sign(w: int)
    requires
        0 <= w < RISK_SIGNS@.len(),
    ensures
        is_risk_sign(RISK_SIGNS@[w]@),
{
    let all = RISK_SIGNS@;
    assert(all.len() == 16);
    assert(w == 0 || w == 1 || w == 2 || w == 3 || w == 4 || w == 5 || w == 6 || w == 7 || w == 8
        || w == 9 || w == 10 || w == 11 || w == 12 || w == 13 || w == 14 || w == 15);
}

/// The shell is handed the command as it is, at the end of what is handed to it.
pub proof fn shell_runs_the_command(command: Seq<char>)
    ensures
        command.is_suffix_of(shell_command(command)),
        shell_command(command) == shell_command(seq![]) + command,
{
    let whole = shell_command(command);
    assert(whole.skip(whole.len() - command.len()) =~= command);
    assert(shell_command(seq![]) =~= whole.take(whole.len() - command.len()));
    assert(whole =~= shell_command(seq![]) + command);
}

/// The end of a text is its last lines, in order, each whole.
pub proof fn tail_is_the_last_lines(s: Seq<char>, n: nat)
    ensures
        lines(s).len() <= n ==> tail_lines(s, n) == join(lines(s), "\n"@),
        lines(s).len() > n ==> tail_lines(s, n) == join(
            Seq::new(n, |i: int| lines(s)[lines(s).len() - n + i]),
            "\n"@,
        ),
{
    let ls = lines(s);
    if ls.len() <= n {
        assert(ls.skip(0) =~= ls);
    } else {
        assert(ls.skip(ls.len() - n) =~= Seq::new(n, |i: int| ls[ls.len() - n + i]));
    }
}

/// A build goes into the directory that it is given, and is told by whether it succeeded,
/// with the end of what it printed.
pub proof fn build_is_told(
    stdout: Seq<char>,
    stderr: Seq<char>,
    target: Seq<char>,
    why: Seq<char>,
)
    ensures
        build_args(target) == seq![
            "build"@,
            "--target-dir"@,
            target,
            "-p"@,
            "harborbeacon-desktop-app"@,
        ],
        build_reply((RunView::Finished { success: true, stdout, stderr }), target)
            == "✅ 编译成功\ntarget: "@ + target + "\n"@ + tail_lines(stderr, 5),
        build_reply((RunView::Finished { success: false, stdout, stderr }), target)
            == "❌ 编译失败\n"@ + tail_lines(stderr, 30),
        build_reply(RunView::NotStarted(why), target) == "❌ 无法启动 cargo: "@ + why,
{
}

/// After a build that succeeded and left a program, that program is started with what the
/// agent was started with; otherwise nothing is, and the reply says why.
pub proof fn restart_goes_on_as_before(
    ctx: AgentContext,
    stdout: Seq<char>,
    stderr: Seq<char>,
    target: Seq<char>,
    exe_path: Seq<char>,
    exe_exists: bool,
)
    ensures
        restart_outcome(
            ctx,
            (RunView::Finished { success: true, stdout, stderr }),
            target,
            exe_path,
            true,
        ) == (
            "✅ 编译成功 ("@ + target + ")\n正在重启…飞书连接将短暂中断后自动恢复。"@,
            Some(
                RestartView {
                    exe_path,
                    args: seq![
                        "--app-id"@,
                        ctx.app_id@,
                        "--app-secret"@,
                        ctx.app_secret@,
                        "--domain"@,
                        ctx.domain@,
                        "--workspace"@,
                        ctx.workspace@,
                    ],
                },
            ),
        ),
        restart_outcome(
            ctx,
            (RunView::Finished { success: true, stdout, stderr }),
            target,
            exe_path,
            false,
        ) == ("❌ 编译产物不存在: "@ + exe_path, None::<RestartView>),
        restart_outcome(
            ctx,
            (RunView::Finished { success: false, stdout, stderr }),
            target,
            exe_path,
            exe_exists,
        ) == ("❌ 编译失败，取消重启\n"@ + tail_lines(stderr, 30), None::<RestartView>),
{
}

/// The number of a build directory is the one that its name ends with, and the latest is
/// the greatest of those that are there.
pub proof fn build_directories_are_counted(names: Seq<Seq<char>>, n: nat)
    requires
        n <= u32::MAX,
    ensures
        target_number("target_feishu_"@ + decimal(n)) == n,
        target_dir(n) == "target_feishu_"@ + decimal(n),
        latest_number(names.push(target_dir(n))) == (if n > latest_number(names) {
            n
        } else {
            latest_number(names)
        }),
        latest_number(Seq::<Seq<char>>::empty()) == 0,
{
    decimal_reads_back(n, u32::MAX as nat);
    rest_is_kept(decimal(n), "target_feishu_"@);
    assert(names.push(target_dir(n)).drop_last() =~= names);
}

/// The logs of the agent are known by how their names start and end.
pub proof fn agent_logs_are_known_by_name(middle: Seq<char>, name: Seq<char>)
    ensures
        is_agent_log("desktop-agent-"@ + middle + ".log"@),
        !("desktop-agent-"@).is_prefix_of(name) ==> !is_agent_log(name),
        !(".log"@).is_suffix_of(name) ==> !is_agent_log(name),
{
    let whole = "desktop-agent-"@ + middle + ".log"@;
    assert(whole.take("desktop-agent-"@.len() as int) =~= "desktop-agent-"@);
    assert(whole.skip(whole.len() - ".log"@.len()) =~= ".log"@);
}

/// Of some log files the first that can be shown is shown with its name and its last
/// twenty lines, and then the rest, one less.
pub proof fn logs_are_shown_in_turn(
    skipped: Seq<LogView>,
    middle: Seq<char>,
    content: Seq<char>,
    rest: Seq<LogView>,
    count: nat,
)
    requires
        count > 0,
        !is_blank(tail_lines(content, 20)),
        forall|i: int|
            0 <= i < skipped.len() ==> !is_agent_log((#[trigger] skipped[i]).name)
                || skipped[i].content is None || is_blank(tail_lines(skipped[i].content->0, 20)),
    ensures
        ({
            let name = "desktop-agent-"@ + middle + ".log"@;
            log_parts(skipped + seq![LogView { name, content: Some(content) }] + rest, count)
                == "── "@ + name + " ──\n"@ + tail_lines(content, 20) + "\n"@ + log_parts(
                rest,
                (count - 1) as nat,
            )
        }),
        log_parts(skipped, count).len() == 0,
    decreases skipped.len(),
{
    let name = "desktop-agent-"@ + middle + ".log"@;
    agent_logs_are_known_by_name(middle, name);
    let shown = LogView { name, content: Some(content) };
    let all = skipped + seq![shown] + rest;
    if skipped.len() > 0 {
        assert(all[0] == skipped[0]);
        assert(all.skip(1) =~= skipped.skip(1) + seq![shown] + rest);
        assert forall|i: int| 0 <= i < skipped.skip(1).len() implies !is_agent_log(
            (#[trigger] skipped.skip(1)[i]).name,
        ) || skipped.skip(1)[i].content is None || is_blank(
            tail_lines(skipped.skip(1)[i].content->0, 20),
        ) by {
            assert(skipped.skip(1)[i] == skipped[i + 1]);
        }
        logs_are_shown_in_turn(skipped.skip(1), middle, content, rest, count);
        assert(log_part(skipped[0]) is None);
    } else {
        assert(all[0] == shown);
        assert(all.skip(1) =~= rest);
    }
}

/// The logs that are told are the latest two that can be shown: the files in the order
/// of their names, the last in front, none left out.
pub proof fn latest_logs_are_told(files: Seq<LogView>) -> (ordered: Seq<LogView>)
    ensures
        ordered.to_multiset() == files.to_multiset(),
        forall|i: int, j: int|
            #![trigger ordered[i], ordered[j]]
            0 <= i < j < ordered.len() ==> !text_lt(ordered[i].name, ordered[j].name),
        logs_reply(true, files) == (if log_parts(ordered, 2).len() == 0 {
            "最新日志为空。"@
        } else {
            log_parts(ordered, 2)
        }),
        logs_reply(false, files) == "日志目录不存在。"@,
{
    by_latest_log_orders();
    crate::order::in_order_is_ordered(files, by_latest_log());
    crate::order::in_order_permutes(files, by_latest_log());
    let ordered = in_order(files, by_latest_log());
    assert forall|i: int, j: int| #![trigger ordered[i], ordered[j]] 0 <= i < j
        < ordered.len() implies !text_lt(ordered[i].name, ordered[j].name) by {
        assert(!by_latest_log()(ordered[j], ordered[i]));
    }
    ordered
}

proof fn by_latest_log_orders()
    ensures
        crate::order::orders(by_latest_log()),
{
    crate::order::by_name_orders();
    let lt = crate::order::by_name();
    let latest = by_latest_log();
    assert forall|a: LogView, b: LogView| #[trigger] latest(a, b) implies !latest(b, a) by {
        assert(lt(b.name, a.name));
    }
    assert forall|a: LogView, b: LogView, c: LogView|
        #![trigger latest(a, b), latest(b, c)]
        !latest(a, b) && !latest(b, c) implies !latest(a, c) by {
        assert(!lt(c.name, b.name) && !lt(b.name, a.name));
        assert(!lt(c.name, a.name));
    }
}

/// A commit and a push are told with what `git` said, without the white space round it.
pub proof fn git_is_told(
    lead: Seq<char>,
    out: Seq<char>,
    err: Seq<char>,
    tail: Seq<char>,
    why: Seq<char>,
)
    requires
        all_space(lead),
        is_bare(out),
        is_bare(err),
        all_space(tail),
    ensures
        ({
            let (stdout, stderr) = (lead + out + tail, lead + err + tail);
            &&& commit_reply((RunView::Finished { success: true, stdout, stderr }))
                == "✅ 已提交\n"@ + tail_lines(stdout, 5)
            &&& commit_reply((RunView::Finished { success: false, stdout, stderr }))
                == "⚠️ git commit:\n"@ + out + "\n"@ + err
            &&& push_reply((RunView::Finished { success: true, stdout, stderr }))
                == "✅ 已推送\n"@ + out + err
            &&& push_reply((RunView::Finished { success: false, stdout, stderr }))
                == "❌ git push 失败:\n"@ + err
            &&& add_error((RunView::Finished { success: false, stdout, stderr })) == Some(
                "❌ git add 失败: "@ + stderr,
            )
            &&& add_error((RunView::Finished { success: true, stdout, stderr })) is None
            &&& add_error(RunView::NotStarted(why)) is None
            &&& commit_reply(RunView::NotStarted(why)) == "❌ 无法执行 git: "@ + why
            &&& push_reply(RunView::NotStarted(why)) == "❌ 无法执行 git: "@ + why
        }),
{
    trimming_keeps_the_rest(lead, out, tail);
    trimming_keeps_the_rest(lead, err, tail);
}

/// The outputs of a terminal command are told, both where both say anything, without the
/// white space round them; a failure is told with its number.
pub proof fn terminal_is_told(
    lead: Seq<char>,
    out: Seq<char>,
    err: Seq<char>,
    tail: Seq<char>,
    n: i32,
    why: Seq<char>,
)
    requires
        all_space(lead),
        is_bare(out),
        is_bare(err),
        all_space(tail),
        lead.len() + out.len() + 1 + err.len() + tail.len() <= 6000,
    ensures
        ({
            let done = |success: bool, code: Option<i32>, stdout: Seq<char>, stderr: Seq<char>|
                terminal_reply((TerminalView::Finished { success, code, stdout, stderr }));
            let failure = "❌ /terminal 执行失败 (exit="@ + decimal_int(n as int) + ")\n"@;
            &&& done(true, Some(0), lead + out + tail, tail) == "✅ /terminal 执行成功\n"@ + out
            &&& done(true, Some(0), tail, lead + err + tail) == "✅ /terminal 执行成功\n"@ + err
            &&& done(true, Some(0), lead + out, err + tail) == "✅ /terminal 执行成功\n"@ + (out
                + "\n"@ + err)
            &&& done(false, Some(n), lead + out + tail, tail) == failure + out
            &&& done(false, Some(n), tail, lead + err + tail) == failure + err
            &&& done(false, Some(n), lead + out, err + tail) == failure + (out + "\n"@ + err)
            &&& terminal_reply(TerminalView::NotStarted(why))
                == "❌ /terminal 无法启动 shell: "@ + why
        }),
{
    reveal_strlit("\n");
    let none = Seq::<char>::empty();
    trimming_keeps_the_rest(lead, out, tail);
    trimming_keeps_the_rest(lead, err, tail);
    trimming_keeps_the_rest(none, none, tail);
    assert(none + tail =~= tail);
    trimming_keeps_the_rest(lead, out, none);
    assert(lead + out + none =~= lead + out);
    trimming_keeps_the_rest(none, err, tail);
    assert(none + err + tail =~= err + tail);
    let both = out + "\n"@ + err;
    assert(both[0] == out[0] && both.last() == err.last());
    trimming_keeps_the_rest(lead, both, tail);
    assert(lead + out + "\n"@ + (err + tail) =~= lead + both + tail);
}

/// A number below zero is written with a dash in front.
pub proof fn negative_number_has_a_dash(n: nat)
    ensures
        decimal_int(n as int) == decimal(n),
        n > 0 ==> decimal_int(-n) == "-"@ + decimal(n),
{
}

} // verus!
