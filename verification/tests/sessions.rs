//! Sessions, snapshots, and what is shown of them.

use harborbeacon_desktop::format::{
    fmt_plan_saved, fmt_session_status, fmt_snapshot_list, help_text, system_install_help_text,
};
use harborbeacon_desktop::session::{
    has_meaningful_session, SessionMode, SessionSnapshotMeta, UserSession,
};
use harborbeacon_desktop::store::{
    default_session_dir, now_secs, HistoryEntry, SessionError, SessionStore,
};
use std::collections::BTreeMap;

fn store() -> SessionStore {
    SessionStore::new("/base".to_string())
}

/// The files below the base directory.
type Files = BTreeMap<Vec<String>, UserSession>;

fn save(files: &mut Files, session: &UserSession) {
    files.insert(store().save(session), session.clone());
}

fn load(files: &Files, user_id: &str) -> UserSession {
    let store = store();
    store.load(user_id, files.get(&store.path_for(user_id)).cloned())
}

#[test]
fn load_fresh_session() {
    let s = store().load("user1", None);
    assert_eq!(s.user_id, "user1");
    assert_eq!(s.mode, SessionMode::Coding);
    assert!(s.pending_steps.is_empty());
    assert!(s.current_task.is_none());
}

#[test]
fn save_and_reload() {
    let mut files = Files::new();
    let session = UserSession {
        user_id: "user1".into(),
        mode: SessionMode::Planning,
        current_task: Some("write tests".into()),
        pending_steps: vec!["step a".into(), "step b".into()],
        last_result: Some("ok".into()),
        last_action: Some("test".into()),
        pending_terminal_command: None,
        updated_at: now_secs(),
    };
    save(&mut files, &session);
    let loaded = load(&files, "user1");
    assert_eq!(loaded.mode, SessionMode::Planning);
    assert_eq!(loaded.current_task.as_deref(), Some("write tests"));
    assert_eq!(loaded.pending_steps, vec!["step a", "step b"]);
    assert_eq!(loaded.last_action.as_deref(), Some("test"));
    // Nobody else sees it.
    assert!(load(&files, "user2").current_task.is_none());
}

#[test]
fn clear_deletes_session() {
    let mut files = Files::new();
    let session = UserSession {
        user_id: "user2".into(),
        current_task: Some("some task".into()),
        ..Default::default()
    };
    save(&mut files, &session);
    files.remove(&store().clear("user2"));
    let loaded = load(&files, "user2");
    assert!(loaded.current_task.is_none());
    assert!(files.is_empty());
}

#[test]
fn double_clear_is_noop() {
    let mut files = Files::new();
    files.remove(&store().clear("nobody"));
    files.remove(&store().clear("nobody"));
    assert!(files.is_empty());
}

#[test]
fn pending_steps_ordering() {
    let mut files = Files::new();
    let session = UserSession {
        user_id: "u3".into(),
        pending_steps: vec!["first".into(), "second".into(), "third".into()],
        ..Default::default()
    };
    save(&mut files, &session);
    let mut loaded = load(&files, "u3");
    let first = loaded.pending_steps.remove(0);
    assert_eq!(first, "first");
    assert_eq!(loaded.pending_steps.len(), 2);
    save(&mut files, &loaded);
    let reloaded = load(&files, "u3");
    assert_eq!(reloaded.pending_steps[0], "second");
}

#[test]
fn path_sanitization_stays_in_base_dir() {
    let store = store();
    assert_eq!(store.base_dir, "/base");
    let mut files = Files::new();
    let session = UserSession { user_id: "../../evil".into(), ..Default::default() };
    save(&mut files, &session);
    for path in files.keys() {
        assert_eq!(path, &vec!["______evil.json".to_string()]);
        for name in path {
            assert!(name != ".." && name != "." && !name.contains(['/', '\\', ':']));
        }
    }
    assert_eq!(store.path_for("../../evil"), vec!["______evil.json"]);
    assert_eq!(store.history_dir_for("a/b"), vec!["_history", "a_b"]);
    assert_eq!(
        store.snapshot_path_for("u", "..\\x:1"),
        vec!["_history", "u", "___x_1.json"]
    );
    assert_eq!(SessionStore::sanitize_key("ou_abc-1 你é."), "ou_abc-1_你é_");
    let once = SessionStore::sanitize_key("a.b/c");
    assert_eq!(SessionStore::sanitize_key(&once), once);
}

#[test]
fn snapshot_save_list_load_roundtrip() {
    let store = store();
    let session = UserSession {
        user_id: "traveler".into(),
        mode: SessionMode::Planning,
        current_task: Some("remote-work".into()),
        pending_steps: vec!["step1".into(), "step2".into()],
        last_result: Some("ok".into()),
        last_action: Some("plan".into()),
        pending_terminal_command: None,
        updated_at: now_secs(),
    };

    let mut files = Files::new();
    let (id, path) = store.save_snapshot(&session, Some("trip"));
    assert!(id.contains("trip"));
    files.insert(path.clone(), session.clone());

    let entries = vec![HistoryEntry::Snapshot { id: id.clone(), session: session.clone() }];
    let list = store.list_snapshots(entries).unwrap();
    assert!(!list.is_empty());
    assert_eq!(list[0].current_task.as_deref(), Some("remote-work"));
    assert_eq!(list[0].pending_steps, 2);
    assert_eq!(list[0].label.as_deref(), Some("trip"));

    let stored = files.get(&store.snapshot_path_for("traveler", &id)).cloned().unwrap();
    let loaded = store.load_snapshot("traveler", stored);
    assert_eq!(loaded.user_id, "traveler");
    assert_eq!(loaded.pending_steps.len(), 2);
    let loaded = store.load_snapshot("somebody", session);
    assert_eq!(loaded.user_id, "somebody");
}

#[test]
fn snapshots_of_others_stay() {
    let store = store();
    let of = |user: &str, task: &str| UserSession {
        user_id: user.into(),
        current_task: Some(task.into()),
        ..Default::default()
    };
    let mut files = Files::new();
    for s in [of("a/b", "one"), of("c", "two")] {
        let (_, path) = store.save_snapshot_at(&s, Some("x"), 7);
        files.insert(path, s);
    }
    let read = |user: &str| {
        let stored = files.get(&store.snapshot_path_for(user, "7-x")).cloned();
        stored.map(|s| store.load_snapshot(user, s))
    };
    assert_eq!(read("c").unwrap().current_task.as_deref(), Some("two"));
    // Another id with the same directory.
    let shared = read("a_b").unwrap();
    assert_eq!(shared.current_task.as_deref(), Some("one"));
    assert_eq!(shared.user_id, "a_b");
    assert!(read("d").is_none());
}

#[test]
fn snapshot_ids() {
    let store = store();
    let session = UserSession { user_id: "u".into(), ..Default::default() };
    let id = |label: Option<&str>| store.save_snapshot_at(&session, label, 1774430905).0;
    assert_eq!(id(None), "1774430905");
    assert_eq!(id(Some("  ")), "1774430905");
    assert_eq!(id(Some("/../")), "1774430905");
    assert_eq!(id(Some(" a b/c. ")), "1774430905-a-b-c");
    assert_eq!(id(Some("会话 1")), "1774430905-会话-1");
    assert_eq!(
        store.save_snapshot_at(&session, Some("x"), 7).1,
        vec!["_history", "u", "7-x.json"]
    );
}

#[test]
fn labels_in_ids() {
    let label = |id: &str| {
        SessionStore::describe_snapshot(id.to_string(), UserSession::default()).label
    };
    assert_eq!(label("1774430905"), None);
    assert_eq!(label("1774430905-a-b"), Some("a-b".to_string()));
}

fn entry(id: &str) -> HistoryEntry {
    HistoryEntry::Snapshot { id: id.to_string(), session: UserSession::default() }
}

#[test]
fn snapshots_are_listed_newest_first() {
    let ids: Vec<String> = store()
        .list_snapshots(vec![
            entry("1774430905-b"),
            entry("1774430907"),
            entry("1774430905"),
            entry("1774430906-z"),
        ])
        .unwrap()
        .into_iter()
        .map(|m| m.id)
        .collect();
    assert_eq!(ids, vec!["1774430907", "1774430906-z", "1774430905-b", "1774430905"]);
    assert!(store().list_snapshots(vec![]).unwrap().is_empty());
}

#[test]
fn one_failure_fails_the_list() {
    let r = store().list_snapshots(vec![
        entry("1"),
        HistoryEntry::Failed(SessionError::Json("bad".into())),
        HistoryEntry::Failed(SessionError::Io("gone".into())),
        entry("2"),
    ]);
    assert_eq!(r.unwrap_err(), SessionError::Json("bad".into()));
}

#[test]
fn snapshot_files() {
    assert_eq!(SessionStore::snapshot_in(Some("json"), Some("1-a")), Some("1-a".to_string()));
    assert_eq!(SessionStore::snapshot_in(Some("json"), None), Some(String::new()));
    assert_eq!(SessionStore::snapshot_in(Some("txt"), Some("1-a")), None);
    assert_eq!(SessionStore::snapshot_in(None, Some(".json")), None);
}

#[test]
fn store_errors() {
    assert_eq!(SessionError::Io("gone".into()).message(), "io: gone");
    assert_eq!(SessionError::Json("bad".into()).message(), "json: bad");
}

#[test]
fn session_directory_and_clock() {
    assert_eq!(default_session_dir("/w"), "/w/.harborbeacon/sessions");
    assert!(now_secs() > 1_700_000_000);
}

#[test]
fn meaningful_sessions() {
    assert!(!has_meaningful_session(&UserSession::default()));
    assert!(has_meaningful_session(&UserSession {
        last_result: Some("x".into()),
        ..Default::default()
    }));
    assert!(has_meaningful_session(&UserSession {
        pending_terminal_command: Some("x".into()),
        ..Default::default()
    }));
}

#[test]
fn session_status_text() {
    assert_eq!(
        fmt_session_status(&UserSession::default()),
        "📋 状态\n模式: 编码\n当前任务: （无当前任务）\n无待执行步骤\n上次操作: （无）"
    );
    let s = UserSession {
        mode: SessionMode::Planning,
        current_task: Some("t".into()),
        pending_steps: vec!["a".into(), "b".into()],
        last_action: Some("ls .".into()),
        pending_terminal_command: Some("rm -r x".into()),
        ..Default::default()
    };
    assert_eq!(
        fmt_session_status(&s),
        "📋 状态\n模式: 规划\n当前任务: t\n待执行步骤（2步）:\n  1. a\n  2. b\n上次操作: ls .\n待确认终端命令: rm -r x"
    );
}

#[test]
fn plan_texts() {
    assert_eq!(
        fmt_plan_saved("t", &vec![]),
        "✅ 计划已记录\n任务: t\n\n发送「继续」逐步执行，或「执行全部」一键执行。"
    );
    assert_eq!(
        fmt_plan_saved("t", &vec!["a".to_string()]),
        "✅ 计划已记录（共 1 步）\n任务: t\n\n  1. a\n\n发送「继续」逐步执行，或「执行全部」一键执行。"
    );
}

#[test]
fn snapshot_list_text() {
    assert_eq!(
        fmt_snapshot_list(&vec![]),
        "暂无历史会话。发送“保存会话 <名称>”可保存当前进度。"
    );
    let meta = SessionSnapshotMeta {
        id: "7-x".into(),
        label: Some("x".into()),
        updated_at: 7,
        current_task: None,
        pending_steps: 3,
    };
    assert_eq!(
        fmt_snapshot_list(&vec![meta.clone()]),
        "🗂 历史会话（1）\n1. （无任务） | x | 待办:3 | id:7-x\n发送“载入会话 <id>”恢复并继续。"
    );
    let many: Vec<SessionSnapshotMeta> = (0..25).map(|_| meta.clone()).collect();
    let text = fmt_snapshot_list(&many);
    assert!(text.starts_with("🗂 历史会话（25）\n"));
    assert_eq!(text.lines().count(), 22);
}

#[test]
fn help_texts() {
    let help = help_text();
    assert!(help.starts_with("HarborBeacon 可用命令如下:\n\n【🤖 Copilot 对话】\n/ask <问题>"));
    assert!(help.contains("\n\n  /replace 格式:\n/replace path/to/file\n<<<\n旧代码\n===\n新代码\n>>>\n"));
    assert!(help.ends_with("清除                 清除会话（自动归档）"));
    let text = system_install_help_text("install x");
    assert!(text.contains("\n\n请求: install x\n\n可选方案:\n"));
    assert!(text.contains("   winget install --id Microsoft.PowerShell --source winget\n"));
}
