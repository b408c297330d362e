//! What a message asks for.

use crate::session::SessionMode;
use crate::text::{view_all, view_opt};
use vstd::prelude::*;

verus! {

/// What a message asks for.
#[derive(Debug, Clone, PartialEq, Eq)]
pub enum Intent {
    // Actions on the workspace.
    Read(String),
    List(String),
    Search { path: String, query: String },
    Diff(String),
    Patch(String),
    Test(String),
    // The development loop.
    WriteFile { path: String, content: String },
    ReplaceInFile { path: String, old_text: String, new_text: String },
    Build,
    SelfRestart,
    ViewLogs,
    TerminalRun(String),
    TerminalConfirm,
    TerminalCancel,
    GitCommit(String),
    GitPush,
    // The session.
    Continue,
    ContinueAll,
    Retry,
    Status,
    SetPlan { description: String, steps: Vec<String> },
    SwitchMode(SessionMode),
    SessionList,
    SessionSave(Option<String>),
    SessionLoad(String),
    // Copilot Chat.
    CopilotAsk(String),
    CopilotSessions,
    CopilotHistory(usize),
    AgentFix(String),
    SystemInstallHelp(String),
    Clear,
    Help,
}

/// What an `Intent` says.
#[verifier::ext_equal]
pub ghost enum IntentView {
    Read(Seq<char>),
    List(Seq<char>),
    Search { path: Seq<char>, query: Seq<char> },
    Diff(Seq<char>),
    Patch(Seq<char>),
    Test(Seq<char>),
    WriteFile { path: Seq<char>, content: Seq<char> },
    ReplaceInFile { path: Seq<char>, old_text: Seq<char>, new_text: Seq<char> },
    Build,
    SelfRestart,
    ViewLogs,
    TerminalRun(Seq<char>),
    TerminalConfirm,
    TerminalCancel,
    GitCommit(Seq<char>),
    GitPush,
    Continue,
    ContinueAll,
    Retry,
    Status,
    SetPlan { description: Seq<char>, steps: Seq<Seq<char>> },
    SwitchMode(SessionMode),
    SessionList,
    SessionSave(Option<Seq<char>>),
    SessionLoad(Seq<char>),
    CopilotAsk(Seq<char>),
    CopilotSessions,
    CopilotHistory(nat),
    AgentFix(Seq<char>),
    SystemInstallHelp(Seq<char>),
    Clear,
    Help,
}

impl View for Intent {
    type V = IntentView;

    open spec fn view(&self) -> IntentView {
        match *self {
            Intent::Read(path) => IntentView::Read(path@),
            Intent::List(path) => IntentView::List(path@),
            Intent::Search { path, query } => IntentView::Search { path: path@, query: query@ },
            Intent::Diff(path) => IntentView::Diff(path@),
            Intent::Patch(patch) => IntentView::Patch(patch@),
            Intent::Test(filter) => IntentView::Test(filter@),
            Intent::WriteFile { path, content } => IntentView::WriteFile {
                path: path@,
                content: content@,
            },
            Intent::ReplaceInFile { path, old_text, new_text } => IntentView::ReplaceInFile {
                path: path@,
                old_text: old_text@,
                new_text: new_text@,
            },
            Intent::Build => IntentView::Build,
            Intent::SelfRestart => IntentView::SelfRestart,
            Intent::ViewLogs => IntentView::ViewLogs,
            Intent::TerminalRun(command) => IntentView::TerminalRun(command@),
            Intent::TerminalConfirm => IntentView::TerminalConfirm,
            Intent::TerminalCancel => IntentView::TerminalCancel,
            Intent::GitCommit(message) => IntentView::GitCommit(message@),
            Intent::GitPush => IntentView::GitPush,
            Intent::Continue => IntentView::Continue,
            Intent::ContinueAll => IntentView::ContinueAll,
            Intent::Retry => IntentView::Retry,
            Intent::Status => IntentView::Status,
            Intent::SetPlan { description, steps } => IntentView::SetPlan {
                description: description@,
                steps: view_all(steps@),
            },
            Intent::SwitchMode(mode) => IntentView::SwitchMode(mode),
            Intent::SessionList => IntentView::SessionList,
            Intent::SessionSave(label) => IntentView::SessionSave(view_opt(label)),
            Intent::SessionLoad(id) => IntentView::SessionLoad(id@),
            Intent::CopilotAsk(question) => IntentView::CopilotAsk(question@),
            Intent::CopilotSessions => IntentView::CopilotSessions,
            Intent::CopilotHistory(n) => IntentView::CopilotHistory(n as nat),
            Intent::AgentFix(note) => IntentView::AgentFix(note@),
            Intent::SystemInstallHelp(task) => IntentView::SystemInstallHelp(task@),
            Intent::Clear => IntentView::Clear,
            Intent::Help => IntentView::Help,
        }
    }
}

/// The view of an optional intent.
pub open spec fn view_intent(o: Option<Intent>) -> Option<IntentView> {
    match o {
        Some(i) => Some(i@),
        None => None,
    }
}

/// Whether an intent is an action on the workspace.
pub open spec fn is_action(i: IntentView) -> bool {
    i is Read || i is List || i is Search || i is Diff || i is Patch || i is Test
}

} // verus!
