//! Actions on the workspace.

use harborbeacon_desktop::actionrun::{
    action_kind, begin_action, fits, intent_action, reply_to_action, resume_action, Action,
    ActionEvent, ActionKind, ActionRequest, ActionState, ActionStep,
};
use harborbeacon_desktop::actions::{
    apply_patch, check_patch, git_diff, list_directory, read_file, run_tests, search_text,
    CommandRun, DirEntry, Listing, SearchFile,
};
use harborbeacon_desktop::bridge::{ActionResult, BridgeBinding, BridgeError, PathLookup, PathPart};
use harborbeacon_desktop::edit::{
    begin_edit, edit_fits, find_write_place, fmt_written, resume_edit, Edit, EditEvent,
    EditRequest, EditState, EditStep, WritePlace,
};
use harborbeacon_desktop::intent::Intent;
use harborbeacon_desktop::patch::validate_patch_paths;
use harborbeacon_desktop::walk::{collect_files, WalkEntry};

fn bridge() -> BridgeBinding {
    BridgeBinding::new("/ws".to_string(), "test-workspace".to_string())
}

fn parts(names: &[&str]) -> Vec<PathPart> {
    names
        .iter()
        .map(|n| PathPart { bytes: n.as_bytes().to_vec(), name: n.to_string() })
        .collect()
}

fn found(root: &[&str], target: &[&str]) -> PathLookup {
    PathLookup::Found { root: parts(root), target: parts(target) }
}

fn ran(success: bool, stdout: &str, stderr: &str) -> CommandRun {
    CommandRun::Finished { success, stdout: stdout.to_string(), stderr: stderr.to_string() }
}

fn ok(content: &str) -> Result<ActionResult, BridgeError> {
    Ok(ActionResult { success: true, content: content.to_string() })
}

fn io(message: &str) -> Result<ActionResult, BridgeError> {
    Err(BridgeError::Io(message.to_string()))
}

/// The workspace: files with a content, and directories without.
fn tree() -> Vec<(Vec<&'static str>, Option<&'static str>)> {
    vec![
        (vec!["/", "ws"], None),
        (vec!["/", "ws", "hello.txt"], Some("hello world\nline two\n")),
        (vec!["/", "ws", "src"], None),
        (vec!["/", "ws", "src", "main.rs"], Some("fn main() {\n    println!(\"hi\");\n}\n")),
        (vec!["/", "ws", "empty_dir"], None),
        (vec!["/", "etc", "passwd"], Some("root")),
    ]
}

fn look_up(rel: &str) -> PathLookup {
    let mut place = vec!["/", "ws"];
    for step in rel.split('/') {
        match step {
            "." | "" => {}
            ".." => {
                if place.len() > 1 {
                    place.pop();
                }
            }
            name => place.push(name),
        }
    }
    if tree().iter().any(|(at, _)| *at == place) {
        found(&["/", "ws"], &place)
    } else {
        PathLookup::PathMissing("No such file".to_string())
    }
}

fn names(place: &[PathPart]) -> Vec<String> {
    place.iter().map(|p| p.name.clone()).collect()
}

fn content_at(place: &[PathPart]) -> Result<String, String> {
    match tree().into_iter().find(|(at, _)| *at == names(place)) {
        Some((_, Some(content))) => Ok(content.to_string()),
        _ => Err("gone".to_string()),
    }
}

/// What lies directly in a directory.
fn below(place: &[PathPart]) -> Vec<(Vec<&'static str>, Option<&'static str>)> {
    let dir = names(place);
    tree()
        .into_iter()
        .filter(|(at, _)| at.len() == dir.len() + 1 && at[..dir.len()] == dir[..])
        .collect()
}

/// Carries out an action on the workspace.
fn act(action: Action) -> Result<ActionResult, BridgeError> {
    let b = bridge();
    let mut step = begin_action(action);
    loop {
        let (request, state) = match step {
            ActionStep::Done(outcome) => return outcome,
            ActionStep::Ask(request, state) => (request, state),
        };
        let event = match request {
            ActionRequest::Resolve(rel) => ActionEvent::Resolved(look_up(&rel)),
            ActionRequest::ReadFile(place) => ActionEvent::Read(content_at(&place)),
            ActionRequest::ListDirectory(place) => {
                ActionEvent::Listed(if content_at(&place).is_ok() {
                    Listing::NotADirectory
                } else {
                    Listing::Entries(
                        below(&place)
                            .into_iter()
                            .map(|(at, content)| DirEntry {
                                name: at[at.len() - 1].to_string(),
                                is_dir: content.is_none(),
                            })
                            .collect(),
                    )
                })
            }
            ActionRequest::CollectFiles(place, depth) => {
                assert_eq!(depth, 1);
                let files = below(&place)
                    .into_iter()
                    .filter_map(|(at, content)| {
                        content.map(|c| SearchFile {
                            display: at.join("/"),
                            content: Some(c.to_string()),
                        })
                    })
                    .collect();
                ActionEvent::Collected(Ok(files))
            }
            other => panic!("unexpected: {:?}", other),
        };
        assert!(fits(&state, &event));
        step = resume_action(&b, state, event);
    }
}

fn read(rel: &str) -> Result<ActionResult, BridgeError> {
    act(Action::Read(rel.to_string()))
}

fn ls(rel: &str) -> Result<ActionResult, BridgeError> {
    act(Action::List(rel.to_string()))
}

fn search(rel: &str, query: &str) -> Result<ActionResult, BridgeError> {
    act(Action::Search { path: rel.to_string(), query: query.to_string() })
}

#[test]
fn read_file_ok() {
    let result = read("hello.txt").unwrap();
    assert!(result.success);
    assert!(result.content.contains("hello world"));
}

#[test]
fn read_file_nested() {
    let result = read("src/main.rs").unwrap();
    assert!(result.success);
    assert!(result.content.contains("fn main()"));
}

#[test]
fn read_file_not_found() {
    let result = read("nope.txt");
    assert!(result.is_err());
    assert_eq!(result, io("path resolution failed: No such file"));
}

#[test]
fn list_directory_root() {
    let result = ls(".").unwrap();
    assert!(result.success);
    assert!(result.content.contains("hello.txt"));
    assert!(result.content.contains("src/"));
    assert!(result.content.contains("empty_dir/"));
    assert_eq!(result.content, "empty_dir/\nhello.txt\nsrc/");
}

#[test]
fn list_directory_subdir() {
    let result = ls("src").unwrap();
    assert!(result.success);
    assert!(result.content.contains("main.rs"));
}

#[test]
fn list_directory_empty() {
    let result = ls("empty_dir").unwrap();
    assert!(result.success);
    assert!(result.content.is_empty());
}

#[test]
fn list_directory_on_file_fails() {
    let result = ls("hello.txt");
    assert!(result.is_err());
}

#[test]
fn search_text_found() {
    let result = search(".", "hello").unwrap();
    assert!(result.success);
    assert!(result.content.contains("hello world"));
}

#[test]
fn search_text_not_found() {
    let result = search(".", "zzz_nonexistent_zzz").unwrap();
    assert!(result.success);
    assert!(result.content.contains("No matches"));
}

#[test]
fn search_text_in_subdir() {
    let result = search("src", "println").unwrap();
    assert!(result.success);
    assert!(result.content.contains("println"));
}

#[test]
fn sandbox_escape_blocked() {
    let result = read("../../etc/passwd");
    assert!(result.is_err());
    assert_eq!(result, Err(BridgeError::PathEscape("../../etc/passwd".to_string())));
}

#[test]
fn failed_reads_and_listings() {
    assert_eq!(read_file(Err("gone".to_string())), io("read failed: gone"));
    assert_eq!(list_directory(Listing::NotADirectory), io("not a directory"));
    assert_eq!(list_directory(Listing::Failed("denied".to_string())), io("denied"));
}

#[test]
fn matching_lines() {
    let file = |display: &str, content: Option<&str>| SearchFile {
        display: display.to_string(),
        content: content.map(|c| c.to_string()),
    };
    let files = vec![file("/ws/a", Some("hello world\nline two\nhello\n")), file("/ws/b", None)];
    let result = search_text(Ok(files), "hello").unwrap();
    assert_eq!(result.content, "/ws/a:1: hello world\n/ws/a:3: hello");
    let files = vec![file("/ws/c", Some("fn main() {\r\n    println!(\"hi\");\r\n}\r\n"))];
    let result = search_text(Ok(files), "println").unwrap();
    assert_eq!(result.content, "/ws/c:2:     println!(\"hi\");");
    assert_eq!(search_text(Err("denied".to_string()), "x"), io("denied"));
}

#[test]
fn whole_files_stay_in_the_workspace() {
    let b = bridge();
    let missing = || PathLookup::PathMissing("No such file".to_string());
    let inside = || found(&["/", "ws"], &["/", "ws", "src"]);
    let outside = || found(&["/", "ws"], &["/", "etc"]);
    assert_eq!(
        find_write_place(&b, "src", inside(), true, missing()),
        Ok(WritePlace::Existing(parts(&["/", "ws", "src"])))
    );
    assert_eq!(
        find_write_place(&b, "src/new", missing(), false, inside()),
        Ok(WritePlace::New(parts(&["/", "ws", "src"])))
    );
    // A link that leads nowhere.
    assert_eq!(
        find_write_place(&b, "src/link", missing(), true, inside()),
        Err(BridgeError::Io("path resolution failed: No such file".to_string()))
    );
    assert_eq!(
        find_write_place(&b, "../etc/new", missing(), false, outside()),
        Err(BridgeError::PathEscape("../etc/new".to_string()))
    );
    assert_eq!(
        find_write_place(&b, "../etc", outside(), true, inside()),
        Err(BridgeError::PathEscape("../etc".to_string()))
    );
    assert_eq!(fmt_written("a.md", "你a"), "a.md (4 bytes)");
}

#[test]
fn places_in_the_workspace() {
    let b = bridge();
    assert!(b.resolve("a", found(&["/", "ws"], &["/", "ws", "a"])).is_ok());
    assert!(b.resolve(".", found(&["/", "ws"], &["/", "ws"])).is_ok());
    assert!(b.resolve("../ws2", found(&["/", "ws"], &["/", "ws2"])).is_err());
    assert!(b.resolve("..", found(&["/", "ws"], &["/"])).is_err());
    assert_eq!(
        b.resolve("a", PathLookup::RootMissing("gone".to_string())),
        Err(BridgeError::Io("workspace root not found: gone".to_string()))
    );
}

#[test]
fn error_texts() {
    assert_eq!(BridgeError::Io("x".into()).message(), "io error: x");
    assert_eq!(
        BridgeError::PathEscape("x".into()).message(),
        "path escapes workspace sandbox: x"
    );
    assert_eq!(BridgeError::Denied("x".into()).message(), "action denied: x");
}

#[test]
fn git_diff_outcomes() {
    assert_eq!(git_diff(ran(true, "diff", "")), ok("diff"));
    assert_eq!(
        git_diff(ran(false, "", "fatal")),
        Ok(ActionResult { success: false, content: "fatal".to_string() })
    );
    assert_eq!(
        git_diff(CommandRun::NotStarted("no git".into())),
        io("git diff failed to start: no git")
    );
}

#[test]
fn patch_outcomes() {
    assert!(check_patch(ran(true, "", "")).is_none());
    assert_eq!(
        check_patch(ran(false, "", "bad")),
        Some(Ok(ActionResult { success: false, content: "bad".to_string() }))
    );
    assert_eq!(
        check_patch(CommandRun::NotFed("pipe".into())),
        Some(io("failed to write patch to git apply --check stdin: pipe"))
    );
    assert_eq!(apply_patch(ran(true, "", "")), ok("Patch applied successfully."));
    assert_eq!(
        apply_patch(CommandRun::NotFinished("x".into())),
        io("git apply failed: x")
    );
}

#[test]
fn test_outcomes() {
    assert_eq!(run_tests(ran(true, "out", "err")), ok("out\nerr"));
    assert_eq!(run_tests(ran(true, "", "err")), ok("err"));
    assert_eq!(
        run_tests(ran(false, "out", "")),
        Ok(ActionResult { success: false, content: "out".to_string() })
    );
    assert_eq!(
        run_tests(CommandRun::NotStarted("x".into())),
        io("cargo test failed to start: x")
    );
}

#[test]
fn patch_headers() {
    assert_eq!(validate_patch_paths("--- a/src/x.rs\n+++ b/src/x.rs\n@@ -1 +1 @@\n"), Ok(()));
    assert_eq!(validate_patch_paths("--- /dev/null\n+++ b/new.txt\n"), Ok(()));
    assert_eq!(
        validate_patch_paths("--- a/x\n+++ b/../y\n"),
        Err(BridgeError::Denied(
            "patch path is not allowed in workspace sandbox: ../y".to_string()
        ))
    );
    assert!(validate_patch_paths("+++ C:/x\n").is_err());
    assert!(validate_patch_paths("+++ /etc/x\n").is_err());
    assert!(validate_patch_paths("+++ \\\\x\n").is_err());
    assert_eq!(
        validate_patch_paths("--- \n"),
        Err(BridgeError::Denied("invalid patch header".to_string()))
    );
    // Only headers count.
    assert_eq!(validate_patch_paths("+ ../y\n"), Ok(()));
}

fn request(step: ActionStep) -> (ActionRequest, ActionState) {
    match step {
        ActionStep::Ask(request, state) => (request, state),
        ActionStep::Done(outcome) => panic!("over: {:?}", outcome),
    }
}

#[test]
fn reading_step_by_step() {
    let b = bridge();
    let (r, state) = request(begin_action(Action::Read("src/main.rs".to_string())));
    assert_eq!(r, ActionRequest::Resolve("src/main.rs".to_string()));
    let lookup = found(&["/", "ws"], &["/", "ws", "src", "main.rs"]);
    assert!(fits(&state, &ActionEvent::Resolved(lookup.clone())));
    assert!(!fits(&state, &ActionEvent::Read(Ok(String::new()))));
    let (r, state) = request(resume_action(&b, state, ActionEvent::Resolved(lookup)));
    assert_eq!(r, ActionRequest::ReadFile(parts(&["/", "ws", "src", "main.rs"])));
    let step = resume_action(&b, state, ActionEvent::Read(Ok("fn main() {}".to_string())));
    assert_eq!(step, ActionStep::Done(ok("fn main() {}")));
}

#[test]
fn listing_step_by_step() {
    let b = bridge();
    let (_, state) = request(begin_action(Action::List("src".to_string())));
    let lookup = found(&["/", "ws"], &["/", "ws", "src"]);
    let (r, state) = request(resume_action(&b, state, ActionEvent::Resolved(lookup)));
    assert_eq!(r, ActionRequest::ListDirectory(parts(&["/", "ws", "src"])));
    let listing =
        Listing::Entries(vec![DirEntry { name: "main.rs".to_string(), is_dir: false }]);
    let step = resume_action(&b, state, ActionEvent::Listed(listing));
    assert_eq!(step, ActionStep::Done(ok("main.rs")));
}

#[test]
fn nothing_is_read_outside() {
    let b = bridge();
    let (_, state) = request(begin_action(Action::Read("../x".to_string())));
    let step =
        resume_action(&b, state, ActionEvent::Resolved(found(&["/", "ws"], &["/", "x"])));
    assert_eq!(step, ActionStep::Done(Err(BridgeError::PathEscape("../x".to_string()))));
}

#[test]
fn search_looks_at_the_files_of_a_directory() {
    let b = bridge();
    let search = Action::Search { path: ".".to_string(), query: "x".to_string() };
    let (_, state) = request(begin_action(search));
    let (r, state) = request(resume_action(
        &b,
        state,
        ActionEvent::Resolved(found(&["/", "ws"], &["/", "ws"])),
    ));
    assert_eq!(r, ActionRequest::CollectFiles(parts(&["/", "ws"]), 1));
    let files = vec![SearchFile { display: "a".to_string(), content: Some("x".to_string()) }];
    let step = resume_action(&b, state, ActionEvent::Collected(Ok(files)));
    assert_eq!(step, ActionStep::Done(ok("a:1: x")));
}

#[test]
fn diff_paths() {
    let b = bridge();
    let (r, _) = request(begin_action(Action::Diff(".".to_string())));
    assert_eq!(r, ActionRequest::GitDiff(".".to_string()));
    let (r, _) = request(begin_action(Action::Diff(" ".to_string())));
    assert_eq!(r, ActionRequest::GitDiff(".".to_string()));
    let (_, state) = request(begin_action(Action::Diff("src/x".to_string())));
    let lookup = found(&["/", "ws"], &["/", "ws", "src", "x\\y"]);
    let (r, state) = request(resume_action(&b, state, ActionEvent::Resolved(lookup)));
    assert_eq!(r, ActionRequest::GitDiff("src/x/y".to_string()));
    let step = resume_action(&b, state, ActionEvent::Ran(ran(true, "d", "")));
    assert_eq!(step, ActionStep::Done(ok("d")));
}

#[test]
fn patch_is_checked_then_applied() {
    let b = bridge();
    let patch = "--- a/x\n+++ b/x\n".to_string();
    let (r, state) = request(begin_action(Action::Patch(patch.clone())));
    assert_eq!(r, ActionRequest::CheckPatch(patch.clone()));
    let (r, state) = request(resume_action(&b, state, ActionEvent::Ran(ran(true, "", ""))));
    assert_eq!(r, ActionRequest::ApplyPatch(patch));
    let step = resume_action(&b, state, ActionEvent::Ran(ran(true, "", "")));
    assert_eq!(step, ActionStep::Done(ok("Patch applied successfully.")));
    match begin_action(Action::Patch("+++ /x\n".to_string())) {
        ActionStep::Done(Err(BridgeError::Denied(_))) => {}
        other => panic!("unexpected: {:?}", other),
    }
}

#[test]
fn test_arguments() {
    let (r, _) = request(begin_action(Action::Test("  ".to_string())));
    assert_eq!(r, ActionRequest::RunTests(vec!["test".into(), "--workspace".into()]));
    let (r, _) = request(begin_action(Action::Test("foo".to_string())));
    assert_eq!(
        r,
        ActionRequest::RunTests(vec!["test".into(), "--workspace".into(), "foo".into()])
    );
}

#[test]
fn actions_of_intents() {
    assert_eq!(
        intent_action(Intent::Read(" a ".to_string())),
        Some(Action::Read("a".to_string()))
    );
    assert_eq!(
        intent_action(Intent::Diff("  ".to_string())),
        Some(Action::Diff(".".to_string()))
    );
    assert_eq!(intent_action(Intent::Help), None);
    assert_eq!(action_kind(&Action::Patch(String::new())), ActionKind::Patch);
    assert_eq!(action_kind(&Action::Read(String::new())), ActionKind::Show);
}

#[test]
fn action_replies() {
    let failed = || Ok(ActionResult { success: false, content: "c".to_string() });
    assert_eq!(reply_to_action(ActionKind::Show, failed()), "c");
    assert_eq!(reply_to_action(ActionKind::Patch, failed()), "Patch rejected: c");
    assert_eq!(reply_to_action(ActionKind::Patch, ok("c")), "c");
    assert_eq!(reply_to_action(ActionKind::Test, ok("c")), "Tests passed.\nc");
    assert_eq!(reply_to_action(ActionKind::Test, failed()), "Tests failed.\nc");
    assert_eq!(reply_to_action(ActionKind::Show, io("x")), "Error: io error: x");
}

#[test]
fn walk_meets_files_in_order() {
    let dir = |n: &str| WalkEntry::Dir(n.to_string());
    let file = |n: &str| WalkEntry::File(n.to_string());
    let mut walk = collect_files("r".to_string(), 2);
    assert_eq!(walk.next_dir(), Some("r".to_string()));
    walk.advance(vec![file("1"), dir("a"), WalkEntry::Other, file("4")]);
    assert_eq!(walk.next_dir(), Some("a".to_string()));
    walk.advance(vec![file("2"), dir("b"), file("3")]);
    assert_eq!(walk.next_dir(), None);
    assert_eq!(walk.found, vec!["1", "2", "3", "4"]);
    assert_eq!(collect_files("r".to_string(), 0).next_dir(), None);
}

fn edit_request(step: EditStep) -> (EditRequest, EditState) {
    match step {
        EditStep::Ask(request, state) => (request, state),
        EditStep::Reply(reply) => panic!("over: {}", reply),
    }
}

fn an_edit(old_text: &str) -> Edit {
    Edit { path: "a.txt".to_string(), old_text: old_text.to_string(), new_text: "é".to_string() }
}

fn reading(old_text: &str) -> EditState {
    let (_, state) = edit_request(begin_edit(an_edit(old_text)));
    let lookup = found(&["/", "ws"], &["/", "ws", "a.txt"]);
    edit_request(resume_edit(&bridge(), state, EditEvent::Resolved(lookup))).1
}

#[test]
fn replacing_text() {
    let b = bridge();
    let (r, state) =
        edit_request(resume_edit(&b, reading("ab"), EditEvent::Read(Ok("xababab".to_string()))));
    assert_eq!(
        r,
        EditRequest::WriteFile(parts(&["/", "ws", "a.txt"]), "xéabab".to_string())
    );
    assert!(edit_fits(&state, &EditEvent::Written(None)));
    assert_eq!(
        resume_edit(&b, state.clone(), EditEvent::Written(None)),
        EditStep::Reply(
            "✅ 已替换 a.txt 中 3 处匹配（已替换第1处）\n变更前 7 字节 → 变更后 7 字节".to_string()
        )
    );
    assert_eq!(
        resume_edit(&b, state, EditEvent::Written(Some("full".to_string()))),
        EditStep::Reply("❌ 写入失败: full".to_string())
    );
}

#[test]
fn replacing_what_is_not_there() {
    let b = bridge();
    assert_eq!(
        resume_edit(&b, reading("zz"), EditEvent::Read(Ok("x".to_string()))),
        EditStep::Reply("❌ 未找到匹配文本:\nzz".to_string())
    );
    assert_eq!(
        resume_edit(&b, reading("zz"), EditEvent::Read(Err("gone".to_string()))),
        EditStep::Reply("❌ 读取失败: gone".to_string())
    );
    let (_, state) = edit_request(begin_edit(an_edit("x")));
    let lookup = found(&["/", "ws"], &["/", "other"]);
    assert_eq!(
        resume_edit(&b, state, EditEvent::Resolved(lookup)),
        EditStep::Reply(
            "❌ 路径错误: path escapes workspace sandbox: a.txt".to_string()
        )
    );
}
