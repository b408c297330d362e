//! Per-user session state.
//!
//! Each user gets a persistent JSON file under a base directory that remembers
//! their current mode, active task, pending steps, and last action and result, so
//! that "继续" and "重试" work across restarts.

use crate::text::{view_all, view_opt};
use vstd::prelude::*;

verus! {

/// How the agent takes a message.
#[derive(Debug, Clone, Copy, PartialEq, Eq, Structural)]
pub enum SessionMode {
    /// Actions are executed directly.
    Coding,
    /// Tasks and steps are recorded and not executed.
    Planning,
}

impl Default for SessionMode {
    fn default() -> (r: Self)
        ensures
            r == SessionMode::Coding,
    {
        SessionMode::Coding
    }
}

/// What is remembered of one user.
#[derive(Debug, Clone)]
pub struct UserSession {
    /// The sender's id, the key of the file.
    pub user_id: String,
    /// The current mode.
    pub mode: SessionMode,
    /// The task that is going on, in words.
    pub current_task: Option<String>,
    /// The steps not yet executed; the first one is next.
    pub pending_steps: Vec<String>,
    /// What the last action gave out.
    pub last_result: Option<String>,
    /// The text of the last action, for "重试".
    pub last_action: Option<String>,
    /// A terminal command that waits for confirmation.
    pub pending_terminal_command: Option<String>,
    /// Unix time of the last update, in seconds.
    pub updated_at: u64,
}

/// What a `UserSession` says.
#[verifier::ext_equal]
pub ghost struct SessionView {
    pub user_id: Seq<char>,
    pub mode: SessionMode,
    pub current_task: Option<Seq<char>>,
    pub pending_steps: Seq<Seq<char>>,
    pub last_result: Option<Seq<char>>,
    pub last_action: Option<Seq<char>>,
    pub pending_terminal_command: Option<Seq<char>>,
    pub updated_at: u64,
}

impl View for UserSession {
    type V = SessionView;

    open spec fn view(&self) -> SessionView {
        SessionView {
            user_id: self.user_id@,
            mode: self.mode,
            current_task: view_opt(self.current_task),
            pending_steps: view_all(self.pending_steps@),
            last_result: view_opt(self.last_result),
            last_action: view_opt(self.last_action),
            pending_terminal_command: view_opt(self.pending_terminal_command),
            updated_at: self.updated_at,
        }
    }
}

/// The session of a user of whom nothing is known.
pub open spec fn blank_session(user_id: Seq<char>) -> SessionView {
    SessionView {
        user_id,
        mode: SessionMode::Coding,
        current_task: None,
        pending_steps: seq![],
        last_result: None,
        last_action: None,
        pending_terminal_command: None,
        updated_at: 0,
    }
}

impl Default for UserSession {
    fn default() -> (r: Self)
        ensures
            r@ == blank_session(seq![]),
    {
        let pending_steps: Vec<String> = Vec::new();
        assert(view_all(pending_steps@) =~= seq![]);
        UserSession {
            user_id: String::new(),
            mode: SessionMode::Coding,
            current_task: None,
            pending_steps,
            last_result: None,
            last_action: None,
            pending_terminal_command: None,
            updated_at: 0,
        }
    }
}

/// What a list of snapshots shows of one of them.
#[derive(Debug, Clone)]
pub struct SessionSnapshotMeta {
    pub id: String,
    pub label: Option<String>,
    pub updated_at: u64,
    pub current_task: Option<String>,
    pub pending_steps: usize,
}

/// What a `SessionSnapshotMeta` says.
#[verifier::ext_equal]
pub ghost struct SnapshotView {
    pub id: Seq<char>,
    pub label: Option<Seq<char>>,
    pub updated_at: u64,
    pub current_task: Option<Seq<char>>,
    pub pending_steps: nat,
}

impl View for SessionSnapshotMeta {
    type V = SnapshotView;

    open spec fn view(&self) -> SnapshotView {
        SnapshotView {
            id: self.id@,
            label: view_opt(self.label),
            updated_at: self.updated_at,
            current_task: view_opt(self.current_task),
            pending_steps: self.pending_steps as nat,
        }
    }
}

/// The views of some snapshots.
pub open spec fn view_snapshots(items: Seq<SessionSnapshotMeta>) -> Seq<SnapshotView> {
    items.map_values(|m: SessionSnapshotMeta| m@)
}

/// Whether there is anything in a session that is worth keeping.
pub open spec fn is_meaningful(s: SessionView) -> bool {
    s.current_task is Some || s.pending_steps.len() > 0 || s.last_action is Some || s.last_result
        is Some || s.pending_terminal_command is Some
}

/// Whether there is anything in `session` that is worth keeping.
pub fn has_meaningful_session(session: &UserSession) -> (r: bool)
    ensures
        r == is_meaningful(session@),
{
    session.current_task.is_some() || session.pending_steps.len() > 0
        || session.last_action.is_some() || session.last_result.is_some()
        || session.pending_terminal_command.is_some()
}

/// A session is worth keeping as soon as it has a task, a step, an action, a result or a
/// command that waits, and otherwise not; its user, its mode and its time do not count.
pub proof fn kept_is_what_was_done(s: SessionView)
    ensures
        s.current_task is Some ==> is_meaningful(s),
        s.pending_steps.len() > 0 ==> is_meaningful(s),
        s.last_action is Some ==> is_meaningful(s),
        s.last_result is Some ==> is_meaningful(s),
        s.pending_terminal_command is Some ==> is_meaningful(s),
        !is_meaningful(
            (SessionView {
                user_id: s.user_id,
                mode: s.mode,
                current_task: None,
                pending_steps: seq![],
                last_result: None,
                last_action: None,
                pending_terminal_command: None,
                updated_at: s.updated_at,
            }),
        ),
{
}

} // verus!
