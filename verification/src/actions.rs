//! What each action on the workspace comes to, given what the host reports.

use crate::bridge::{
    view_outcome, ActionOutcome, ActionResult, ActionResultView, BridgeError, BridgeErrorView,
};
use crate::order::{
    by_name, by_name_orders, in_order, in_order_is_ordered, in_order_permutes, sort_names, text_lt,
};
use crate::text::{
    contains, decimal, decimal_of, glue, has_text, join, joined, lines, lines_of,
    part_stands_in_join, piece_stands_between, view_all, view_strs,
};
use vstd::prelude::*;

verus! {

// ---------------------------------------------------------------------------
// What the host reports
// ---------------------------------------------------------------------------

/// An entry of a directory.
#[derive(Debug, Clone, PartialEq, Eq)]
pub struct DirEntry {
    pub name: String,
    pub is_dir: bool,
}

/// What came of reading a directory.
#[derive(Debug, Clone, PartialEq, Eq)]
pub enum Listing {
    NotADirectory,
    Failed(String),
    Entries(Vec<DirEntry>),
}

/// What a `Listing` says. An entry is its name and whether it is a directory.
#[verifier::ext_equal]
pub ghost enum ListingView {
    NotADirectory,
    Failed(Seq<char>),
    Entries(Seq<(Seq<char>, bool)>),
}

/// The views of some entries.
pub open spec fn view_dir(entries: Seq<DirEntry>) -> Seq<(Seq<char>, bool)> {
    entries.map_values(|e: DirEntry| (e.name@, e.is_dir))
}

impl View for Listing {
    type V = ListingView;

    open spec fn view(&self) -> ListingView {
        match *self {
            Listing::NotADirectory => ListingView::NotADirectory,
            Listing::Failed(e) => ListingView::Failed(e@),
            Listing::Entries(entries) => ListingView::Entries(view_dir(entries@)),
        }
    }
}

/// A file to search: how it is shown, and its text, if it could be read.
#[derive(Debug, Clone, PartialEq, Eq)]
pub struct SearchFile {
    pub display: String,
    pub content: Option<String>,
}

/// What a `SearchFile` says.
#[verifier::ext_equal]
pub ghost struct SearchFileView {
    pub display: Seq<char>,
    pub content: Option<Seq<char>>,
}

impl View for SearchFile {
    type V = SearchFileView;

    open spec fn view(&self) -> SearchFileView {
        SearchFileView { display: self.display@, content: crate::text::view_opt(self.content) }
    }
}

/// The views of some files.
pub open spec fn view_files(files: Seq<SearchFile>) -> Seq<SearchFileView> {
    files.map_values(|f: SearchFile| f@)
}

/// What came of running a command.
#[derive(Debug, Clone, PartialEq, Eq)]
pub enum CommandRun {
    NotStarted(String),
    /// The input could not be handed over.
    NotFed(String),
    NotFinished(String),
    Finished { success: bool, stdout: String, stderr: String },
}

/// What a `CommandRun` says.
#[verifier::ext_equal]
pub ghost enum RunView {
    NotStarted(Seq<char>),
    NotFed(Seq<char>),
    NotFinished(Seq<char>),
    Finished { success: bool, stdout: Seq<char>, stderr: Seq<char> },
}

impl View for CommandRun {
    type V = RunView;

    open spec fn view(&self) -> RunView {
        match *self {
            CommandRun::NotStarted(e) => RunView::NotStarted(e@),
            CommandRun::NotFed(e) => RunView::NotFed(e@),
            CommandRun::NotFinished(e) => RunView::NotFinished(e@),
            CommandRun::Finished { success, stdout, stderr } => RunView::Finished {
                success,
                stdout: stdout@,
                stderr: stderr@,
            },
        }
    }
}

// ---------------------------------------------------------------------------
// What each action makes of it
// ---------------------------------------------------------------------------

/// What an action comes to, as seen in contracts.
pub type OutcomeView = Result<ActionResultView, BridgeErrorView>;

/// A success with some content.
pub open spec fn succeeded(content: Seq<char>) -> OutcomeView {
    Ok(ActionResultView { success: true, content })
}

/// A failure that was carried out, with some content.
pub open spec fn failed(content: Seq<char>) -> OutcomeView {
    Ok(ActionResultView { success: false, content })
}

/// An error of the host.
pub open spec fn io_error(message: Seq<char>) -> OutcomeView {
    Err(BridgeErrorView::Io(message))
}

fn done(success: bool, content: String) -> (r: ActionOutcome)
    ensures
        view_outcome(r) == Ok::<_, BridgeErrorView>(
            (ActionResultView { success, content: content@ }),
        ),
{
    Ok(ActionResult { success, content })
}

fn broken(what: &str, e: &str) -> (r: ActionOutcome)
    ensures
        view_outcome(r) == io_error(what@ + e@),
{
    Err(BridgeError::Io(glue(what, e)))
}

/// The view of what came of reading a file.
pub open spec fn view_read(read: Result<String, String>) -> Result<Seq<char>, Seq<char>> {
    match read {
        Ok(content) => Ok(content@),
        Err(e) => Err(e@),
    }
}

/// The outcome of reading a file.
pub open spec fn read_outcome(read: Result<Seq<char>, Seq<char>>) -> OutcomeView {
    match read {
        Ok(content) => succeeded(content),
        Err(e) => io_error("read failed: "@ + e),
    }
}

/// Reads a file inside the workspace, given what came of reading it.
pub fn read_file(read: Result<String, String>) -> (r: ActionOutcome)
    ensures
        view_outcome(r) == read_outcome(view_read(read)),
{
    match read {
        Ok(content) => done(true, content),
        Err(e) => broken("read failed: ", e.as_str()),
    }
}

/// How an entry is listed: a directory with a slash behind.
pub open spec fn listed_name(entry: (Seq<char>, bool)) -> Seq<char> {
    if entry.1 {
        entry.0 + "/"@
    } else {
        entry.0
    }
}

/// The outcome of listing a directory: the names in order, one on each line.
pub open spec fn list_outcome(listing: ListingView) -> OutcomeView {
    match listing {
        ListingView::NotADirectory => io_error("not a directory"@),
        ListingView::Failed(e) => io_error(e),
        ListingView::Entries(entries) => succeeded(
            join(
                in_order(entries.map_values(|e: (Seq<char>, bool)| listed_name(e)), by_name()),
                "\n"@,
            ),
        ),
    }
}

/// Lists a directory inside the workspace, given what came of reading it.
pub fn list_directory(listing: Listing) -> (r: ActionOutcome)
    ensures
        view_outcome(r) == list_outcome(listing@),
{
    match listing {
        Listing::NotADirectory => Err(BridgeError::Io("not a directory".to_owned())),
        Listing::Failed(e) => Err(BridgeError::Io(e)),
        Listing::Entries(entries) => {
            let ghost model = view_dir(entries@);
            let ghost shown = model.map_values(|e: (Seq<char>, bool)| listed_name(e));
            let mut names: Vec<String> = Vec::new();
            let mut i: usize = 0;
            while i < entries.len()
                invariant
                    i <= entries@.len(),
                    model == view_dir(entries@),
                    shown == model.map_values(|e: (Seq<char>, bool)| listed_name(e)),
                    names@.len() == i,
                    forall|j: int| 0 <= j < i ==> (#[trigger] names@[j])@ == shown[j],
                decreases entries@.len() - i,
            {
                let entry = &entries[i];
                if entry.is_dir {
                    names.push(glue(entry.name.as_str(), "/"));
                } else {
                    names.push(entry.name.clone());
                }
                i += 1;
            }
            assert(view_all(names@) =~= shown);
            done(true, joined(&sort_names(names), "\n"))
        },
    }
}

/// The lines of one file that hold `query`, each with where it stands.
pub open spec fn hits(display: Seq<char>, ls: Seq<Seq<char>>, query: Seq<char>) -> Seq<Seq<char>>
    decreases ls.len(),
{
    if ls.len() == 0 {
        seq![]
    } else {
        let before = hits(display, ls.drop_last(), query);
        if contains(ls.last(), query) {
            before.push(display + ":"@ + decimal(ls.len()) + ": "@ + ls.last())
        } else {
            before
        }
    }
}

/// The lines of some files that hold `query`. A file that could not be read has none.
pub open spec fn all_hits(files: Seq<SearchFileView>, query: Seq<char>) -> Seq<Seq<char>>
    decreases files.len(),
{
    if files.len() == 0 {
        seq![]
    } else {
        let before = all_hits(files.drop_last(), query);
        match files.last().content {
            Some(content) => before + hits(files.last().display, lines(content), query),
            None => before,
        }
    }
}

/// The view of what came of collecting files.
pub open spec fn view_collected(files: Result<Vec<SearchFile>, String>) -> Result<
    Seq<SearchFileView>,
    Seq<char>,
> {
    match files {
        Ok(v) => Ok(view_files(v@)),
        Err(e) => Err(e@),
    }
}

/// The outcome of a search.
pub open spec fn search_outcome(
    files: Result<Seq<SearchFileView>, Seq<char>>,
    query: Seq<char>,
) -> OutcomeView {
    match files {
        Err(e) => io_error(e),
        Ok(all) => if all_hits(all, query).len() == 0 {
            succeeded("No matches found."@)
        } else {
            succeeded(join(all_hits(all, query), "\n"@))
        },
    }
}

fn push_hits(out: &mut Vec<String>, display: &str, content: &str, query: &str)
    ensures
        view_all(final(out)@) == view_all(old(out)@) + hits(display@, lines(content@), query@),
{
    let ls = lines_of(content);
    let ghost model = view_strs(ls@);
    let ghost start = view_all(out@);
    let mut i: usize = 0;
    assert(model.take(0) =~= seq![]);
    assert(start + hits(display@, model.take(0), query@) =~= start);
    while i < ls.len()
        invariant
            i <= ls@.len(),
            model == view_strs(ls@),
            start == view_all(old(out)@),
            view_all(out@) == start + hits(display@, model.take(i as int), query@),
        decreases ls@.len() - i,
    {
        proof {
            assert(model.take(i + 1).drop_last() =~= model.take(i as int));
            assert(model.take(i + 1).last() == ls@[i as int]@);
        }
        if has_text(ls[i], query) {
            let mut line = glue(display, ":");
            line.append(decimal_of(i as u128 + 1).as_str());
            line.append(": ");
            line.append(ls[i]);
            let ghost before = view_all(out@);
            out.push(line);
            assert(view_all(out@) =~= before.push(line@));
            assert(view_all(out@) =~= start + hits(display@, model.take(i + 1), query@));
        }
        i += 1;
    }
    assert(model.take(i as int) =~= model);
}

/// Searches for `query` in some files, given what came of collecting and reading them.
pub fn search_text(files: Result<Vec<SearchFile>, String>, query: &str) -> (r: ActionOutcome)
    ensures
        view_outcome(r) == search_outcome(view_collected(files), query@),
{
    match files {
        Err(e) => Err(BridgeError::Io(e)),
        Ok(files) => {
            let ghost model = view_files(files@);
            let mut out: Vec<String> = Vec::new();
            let mut i: usize = 0;
            assert(model.take(0) =~= seq![]);
            assert(view_all(out@) =~= seq![]);
            while i < files.len()
                invariant
                    i <= files@.len(),
                    model == view_files(files@),
                    view_all(out@) == all_hits(model.take(i as int), query@),
                decreases files@.len() - i,
            {
                proof {
                    assert(model.take(i + 1).drop_last() =~= model.take(i as int));
                    assert(model.take(i + 1).last() == files@[i as int]@);
                }
                match &files[i].content {
                    Some(content) => {
                        push_hits(&mut out, files[i].display.as_str(), content.as_str(), query);
                    },
                    None => {},
                }
                i += 1;
            }
            assert(model.take(i as int) =~= model);
            if out.len() == 0 {
                assert(view_all(out@).len() == 0);
                done(true, "No matches found.".to_owned())
            } else {
                assert(view_all(out@).len() > 0);
                done(true, joined(&out, "\n"))
            }
        },
    }
}

/// The outcome of `git diff`.
pub open spec fn diff_outcome(run: RunView) -> OutcomeView {
    match run {
        RunView::Finished { success, stdout, stderr } => if success {
            succeeded(stdout)
        } else {
            failed(stderr)
        },
        RunView::NotStarted(e) => io_error("git diff failed to start: "@ + e),
        RunView::NotFed(e) => io_error("git diff failed to start: "@ + e),
        RunView::NotFinished(e) => io_error("git diff failed to start: "@ + e),
    }
}

/// Shows the changes, given what came of `git diff`.
pub fn git_diff(run: CommandRun) -> (r: ActionOutcome)
    ensures
        view_outcome(r) == diff_outcome(run@),
{
    match run {
        CommandRun::Finished { success, stdout, stderr } => if success {
            done(true, stdout)
        } else {
            done(false, stderr)
        },
        CommandRun::NotStarted(e) => broken("git diff failed to start: ", e.as_str()),
        CommandRun::NotFed(e) => broken("git diff failed to start: ", e.as_str()),
        CommandRun::NotFinished(e) => broken("git diff failed to start: ", e.as_str()),
    }
}

/// What stops a patch after `git apply --check`: nothing, if the check has passed.
pub open spec fn check_outcome(run: RunView) -> Option<OutcomeView> {
    match run {
        RunView::Finished { success, stdout, stderr } => if success {
            None
        } else {
            Some(failed(stderr))
        },
        RunView::NotStarted(e) => Some(io_error("git apply --check failed to start: "@ + e)),
        RunView::NotFed(e) => Some(
            io_error("failed to write patch to git apply --check stdin: "@ + e),
        ),
        RunView::NotFinished(e) => Some(io_error("git apply --check failed: "@ + e)),
    }
}

pub fn check_patch(run: CommandRun) -> (r: Option<ActionOutcome>)
    ensures
        match r {
            Some(o) => check_outcome(run@) == Some(view_outcome(o)),
            None => check_outcome(run@) is None,
        },
{
    match run {
        CommandRun::Finished { success, stdout, stderr } => if success {
            None
        } else {
            Some(done(false, stderr))
        },
        CommandRun::NotStarted(e) => Some(
            broken("git apply --check failed to start: ", e.as_str()),
        ),
        CommandRun::NotFed(e) => Some(
            broken("failed to write patch to git apply --check stdin: ", e.as_str()),
        ),
        CommandRun::NotFinished(e) => Some(broken("git apply --check failed: ", e.as_str())),
    }
}

/// The outcome of `git apply`.
pub open spec fn apply_outcome(run: RunView) -> OutcomeView {
    match run {
        RunView::Finished { success, stdout, stderr } => if success {
            succeeded("Patch applied successfully."@)
        } else {
            failed(stderr)
        },
        RunView::NotStarted(e) => io_error("git apply failed to start: "@ + e),
        RunView::NotFed(e) => io_error("failed to write patch to git apply stdin: "@ + e),
        RunView::NotFinished(e) => io_error("git apply failed: "@ + e),
    }
}

/// Applies a patch that has been checked, given what came of `git apply`.
pub fn apply_patch(run: CommandRun) -> (r: ActionOutcome)
    ensures
        view_outcome(r) == apply_outcome(run@),
{
    match run {
        CommandRun::Finished { success, stdout, stderr } => if success {
            done(true, "Patch applied successfully.".to_owned())
        } else {
            done(false, stderr)
        },
        CommandRun::NotStarted(e) => broken("git apply failed to start: ", e.as_str()),
        CommandRun::NotFed(e) => broken(
            "failed to write patch to git apply stdin: ",
            e.as_str(),
        ),
        CommandRun::NotFinished(e) => broken("git apply failed: ", e.as_str()),
    }
}

/// Two outputs as one, on lines of their own if both are there.
pub open spec fn merged_output(stdout: Seq<char>, stderr: Seq<char>) -> Seq<char> {
    if stderr.len() == 0 {
        stdout
    } else if stdout.len() == 0 {
        stderr
    } else {
        stdout + "\n"@ + stderr
    }
}

/// The outcome of the tests.
pub open spec fn test_outcome(run: RunView) -> OutcomeView {
    match run {
        RunView::Finished { success, stdout, stderr } => Ok(
            ActionResultView { success, content: merged_output(stdout, stderr) },
        ),
        RunView::NotStarted(e) => io_error("cargo test failed to start: "@ + e),
        RunView::NotFed(e) => io_error("cargo test failed to start: "@ + e),
        RunView::NotFinished(e) => io_error("cargo test failed to start: "@ + e),
    }
}

/// Runs the tests of the workspace, given what came of `cargo test`.
pub fn run_tests(run: CommandRun) -> (r: ActionOutcome)
    ensures
        view_outcome(r) == test_outcome(run@),
{
    match run {
        CommandRun::Finished { success, stdout, stderr } => {
            if stderr.as_str().is_empty() {
                done(success, stdout)
            } else if stdout.as_str().is_empty() {
                done(success, stderr)
            } else {
                let mut content = stdout;
                content.append("\n");
                content.append(stderr.as_str());
                done(success, content)
            }
        },
        CommandRun::NotStarted(e) => broken("cargo test failed to start: ", e.as_str()),
        CommandRun::NotFed(e) => broken("cargo test failed to start: ", e.as_str()),
        CommandRun::NotFinished(e) => broken("cargo test failed to start: ", e.as_str()),
    }
}

// ---------------------------------------------------------------------------
// Laws
// ---------------------------------------------------------------------------

/// Whether line `k` of file `f`, counted from zero, could be read and holds `query`.
pub open spec fn line_holds(
    files: Seq<SearchFileView>,
    query: Seq<char>,
    f: int,
    k: int,
) -> bool {
    &&& 0 <= f < files.len()
    &&& files[f].content is Some
    &&& 0 <= k < lines(files[f].content->0).len()
    &&& exists|x: Seq<char>, y: Seq<char>|
        lines(files[f].content->0)[k] == #[trigger] (x + query + y)
}

/// Whether `places` are the places of all lines that hold `query`, and of no other, file
/// by file and line by line.
pub open spec fn are_places(
    files: Seq<SearchFileView>,
    query: Seq<char>,
    places: Seq<(int, int)>,
) -> bool {
    &&& forall|i: int|
        0 <= i < places.len() ==> line_holds(files, query, (#[trigger] places[i]).0, places[i].1)
    &&& forall|f: int, k: int| #[trigger]
        line_holds(files, query, f, k) ==> places.contains((f, k))
    &&& forall|i: int, j: int|
        #![trigger places[i], places[j]]
        0 <= i < j < places.len() ==> places[i].0 < places[j].0 || (places[i].0 == places[j].0
            && places[i].1 < places[j].1)
}

/// The lines at some places, each behind its file and its number, counted from one.
pub open spec fn lines_at(files: Seq<SearchFileView>, places: Seq<(int, int)>) -> Seq<Seq<char>> {
    places.map_values(
        |p: (int, int)|
            files[p.0].display + ":"@ + decimal((p.1 + 1) as nat) + ": "@ + lines(
                files[p.0].content->0,
            )[p.1],
    )
}

spec fn places_in(f: int, ls: Seq<Seq<char>>, query: Seq<char>) -> Seq<(int, int)>
    decreases ls.len(),
{
    if ls.len() == 0 {
        seq![]
    } else {
        let before = places_in(f, ls.drop_last(), query);
        if contains(ls.last(), query) {
            before.push((f, ls.len() - 1))
        } else {
            before
        }
    }
}

spec fn all_places(files: Seq<SearchFileView>, query: Seq<char>) -> Seq<(int, int)>
    decreases files.len(),
{
    if files.len() == 0 {
        seq![]
    } else {
        let before = all_places(files.drop_last(), query);
        match files.last().content {
            Some(content) => before + places_in(files.len() - 1, lines(content), query),
            None => before,
        }
    }
}

proof fn lemma_places_in(display: Seq<char>, f: int, ls: Seq<Seq<char>>, query: Seq<char>)
    ensures
        ({
            let ps = places_in(f, ls, query);
            let hs = hits(display, ls, query);
            &&& hs.len() == ps.len()
            &&& forall|i: int|
                #![trigger ps[i]]
                0 <= i < ps.len() ==> ps[i].0 == f && 0 <= ps[i].1 < ls.len() && contains(
                    ls[ps[i].1],
                    query,
                ) && hs[i] == display + ":"@ + decimal((ps[i].1 + 1) as nat) + ": "@ + ls[ps[i].1]
            &&& forall|i: int, j: int|
                #![trigger ps[i], ps[j]]
                0 <= i < j < ps.len() ==> ps[i].1 < ps[j].1
            &&& forall|k: int|
                0 <= k < ls.len() && contains(#[trigger] ls[k], query) ==> ps.contains((f, k))
        }),
    decreases ls.len(),
{
    if ls.len() > 0 {
        let init = ls.drop_last();
        lemma_places_in(display, f, init, query);
        let ps = places_in(f, ls, query);
        let before = places_in(f, init, query);
        assert forall|k: int| 0 <= k < ls.len() && contains(#[trigger] ls[k], query) implies
            ps.contains((f, k)) by {
            if k < init.len() {
                assert(contains(init[k], query));
                assert(before.contains((f, k)));
                let i = choose|i: int| 0 <= i < before.len() && before[i] == (f, k);
                assert(ps[i] == (f, k));
            } else {
                assert(ps[ps.len() - 1] == (f, k));
            }
        }
        assert forall|i: int| #![trigger ps[i]] 0 <= i < ps.len() implies ps[i].0 == f && 0
            <= ps[i].1 < ls.len() && contains(ls[ps[i].1], query) && hits(display, ls, query)[i]
            == display + ":"@ + decimal((ps[i].1 + 1) as nat) + ": "@ + ls[ps[i].1] by {
            if i < before.len() {
                assert(ps[i] == before[i]);
                assert(ls[before[i].1] == init[before[i].1]);
            }
        }
        assert forall|i: int, j: int| #![trigger ps[i], ps[j]] 0 <= i < j < ps.len() implies ps[i].1
            < ps[j].1 by {
            assert(ps[i] == before[i]);
            if j < before.len() {
                assert(ps[j] == before[j]);
            }
        }
    }
}

proof fn lemma_holds_is_contains(
    files: Seq<SearchFileView>,
    query: Seq<char>,
    f: int,
    k: int,
)
    requires
        0 <= f < files.len(),
        files[f].content is Some,
        0 <= k < lines(files[f].content->0).len(),
    ensures
        line_holds(files, query, f, k) == contains(lines(files[f].content->0)[k], query),
{
    let line = lines(files[f].content->0)[k];
    piece_stands_between(line, seq![], query, seq![]);
    if line_holds(files, query, f, k) {
        let (x, y) = choose|x: Seq<char>, y: Seq<char>| line == #[trigger] (x + query + y);
        piece_stands_between(line, x, query, y);
    }
}

proof fn lemma_all_places(files: Seq<SearchFileView>, query: Seq<char>)
    ensures
        are_places(files, query, all_places(files, query)),
        all_hits(files, query) == lines_at(files, all_places(files, query)),
    decreases files.len(),
{
    let ps = all_places(files, query);
    if files.len() > 0 {
        let init = files.drop_last();
        let n = files.len() - 1;
        lemma_all_places(init, query);
        let before = all_places(init, query);
        let own = match files.last().content {
            Some(content) => places_in(n, lines(content), query),
            None => seq![],
        };
        assert(ps =~= before + own);
        if files.last().content is Some {
            lemma_places_in(files.last().display, n, lines(files.last().content->0), query);
        }
        assert forall|i: int| 0 <= i < before.len() implies line_holds(
            files,
            query,
            (#[trigger] before[i]).0,
            before[i].1,
        ) by {
            let p = before[i];
            assert(line_holds(init, query, p.0, p.1));
            lemma_holds_is_contains(init, query, p.0, p.1);
            lemma_holds_is_contains(files, query, p.0, p.1);
        }
        assert forall|i: int| 0 <= i < own.len() implies line_holds(
            files,
            query,
            (#[trigger] own[i]).0,
            own[i].1,
        ) by {
            lemma_holds_is_contains(files, query, n, own[i].1);
        }
        assert forall|i: int| 0 <= i < ps.len() implies line_holds(
            files,
            query,
            (#[trigger] ps[i]).0,
            ps[i].1,
        ) by {
            if i < before.len() {
                assert(ps[i] == before[i]);
            } else {
                assert(ps[i] == own[i - before.len()]);
            }
        }
        assert forall|f: int, k: int| #[trigger] line_holds(files, query, f, k) implies ps.contains(
            (f, k),
        ) by {
            lemma_holds_is_contains(files, query, f, k);
            if f < n {
                lemma_holds_is_contains(init, query, f, k);
                assert(before.contains((f, k)));
                let i = choose|i: int| 0 <= i < before.len() && before[i] == (f, k);
                assert(ps[i] == (f, k));
            } else {
                assert(contains(lines(files.last().content->0)[k], query));
                assert(own.contains((f, k)));
                let i = choose|i: int| 0 <= i < own.len() && own[i] == (f, k);
                assert(ps[before.len() + i] == (f, k));
            }
        }
        assert forall|i: int, j: int| #![trigger ps[i], ps[j]] 0 <= i < j < ps.len() implies ps[i].0
            < ps[j].0 || (ps[i].0 == ps[j].0 && ps[i].1 < ps[j].1) by {
            if j < before.len() {
                assert(ps[i] == before[i] && ps[j] == before[j]);
            } else if i < before.len() {
                assert(ps[i] == before[i]);
                assert(line_holds(init, query, before[i].0, before[i].1));
                assert(ps[j] == own[j - before.len()]);
            } else {
                assert(ps[i] == own[i - before.len()] && ps[j] == own[j - before.len()]);
            }
        }
        let shown = lines_at(files, ps);
        let found = all_hits(files, query);
        assert(shown.len() == found.len());
        assert forall|i: int| 0 <= i < ps.len() implies shown[i] == #[trigger] found[i] by {
            if i < before.len() {
                assert(ps[i] == before[i]);
                assert(line_holds(init, query, before[i].0, before[i].1));
                assert(found[i] == all_hits(init, query)[i]);
                assert(all_hits(init, query)[i] == lines_at(init, before)[i]);
            } else {
                assert(ps[i] == own[i - before.len()]);
            }
        }
        assert(found =~= shown);
    } else {
        assert(all_hits(files, query) =~= lines_at(files, ps));
    }
}

/// A search shows every line of every readable file that holds the query, behind its
/// file and number, and shows nothing else; where there is none it says so.
pub proof fn search_finds_exactly_the_lines(
    files: Seq<SearchFileView>,
    query: Seq<char>,
) -> (places: Seq<(int, int)>)
    ensures
        are_places(files, query, places),
        search_outcome(Ok(files), query) == Ok::<_, BridgeErrorView>(
            (ActionResultView {
                success: true,
                content: if places.len() == 0 {
                    "No matches found."@
                } else {
                    join(lines_at(files, places), "\n"@)
                },
            }),
        ),
{
    lemma_all_places(files, query);
    all_places(files, query)
}

/// Where a line of a readable file holds the query, what the search shows holds that
/// line, behind its file and its number.
pub proof fn found_line_is_shown(
    files: Seq<SearchFileView>,
    f: int,
    k: int,
    x: Seq<char>,
    query: Seq<char>,
    y: Seq<char>,
)
    requires
        0 <= f < files.len(),
        files[f].content is Some,
        0 <= k < lines(files[f].content->0).len(),
        lines(files[f].content->0)[k] == x + query + y,
    ensures
        exists|a: Seq<char>, b: Seq<char>| #[trigger]
            (a + (files[f].display + ":"@ + decimal((k + 1) as nat) + ": "@ + (x + query + y)) + b)
                == search_outcome(Ok(files), query)->Ok_0.content,
{
    let places = search_finds_exactly_the_lines(files, query);
    assert(line_holds(files, query, f, k));
    let i = choose|i: int| 0 <= i < places.len() && places[i] == (f, k);
    let shown = lines_at(files, places);
    assert(shown[i] == files[f].display + ":"@ + decimal((k + 1) as nat) + ": "@ + (x + query + y));
    part_stands_in_join(shown, "\n"@, i);
}

/// A search that could not be made is an error that says why.
pub proof fn failed_search_says_why(query: Seq<char>, why: Seq<char>)
    ensures
        search_outcome(Err(why), query) == Err::<ActionResultView, _>(BridgeErrorView::Io(why)),
{
}

/// A listing shows every entry once, on a line of its own, a directory with a slash
/// behind it, in the order of the names, and nothing else.
pub proof fn listing_shows_every_entry(entries: Seq<(Seq<char>, bool)>) -> (names: Seq<Seq<char>>)
    ensures
        list_outcome(ListingView::Entries(entries)) == Ok::<_, BridgeErrorView>(
            (ActionResultView { success: true, content: join(names, "\n"@) }),
        ),
        names.to_multiset() == Seq::new(
            entries.len(),
            |i: int|
                if entries[i].1 {
                    entries[i].0 + "/"@
                } else {
                    entries[i].0
                },
        ).to_multiset(),
        forall|i: int, j: int|
            #![trigger names[i], names[j]]
            0 <= i < j < names.len() ==> !text_lt(names[j], names[i]),
{
    let shown = entries.map_values(|e: (Seq<char>, bool)| listed_name(e));
    let names = in_order(shown, by_name());
    by_name_orders();
    in_order_is_ordered(shown, by_name());
    in_order_permutes(shown, by_name());
    assert(shown =~= Seq::new(
        entries.len(),
        |i: int|
            if entries[i].1 {
                entries[i].0 + "/"@
            } else {
                entries[i].0
            },
    ));
    assert forall|i: int, j: int| #![trigger names[i], names[j]] 0 <= i < j < names.len() implies
        !text_lt(names[j], names[i]) by {
        assert(!by_name()(names[j], names[i]));
    }
    names
}

/// A place that is no directory, or that cannot be read, is not listed, and the error
/// says why.
pub proof fn failed_listing_says_why(why: Seq<char>)
    ensures
        list_outcome(ListingView::NotADirectory) == Err::<ActionResultView, _>(
            BridgeErrorView::Io("not a directory"@),
        ),
        list_outcome(ListingView::Failed(why)) == Err::<ActionResultView, _>(
            BridgeErrorView::Io(why),
        ),
{
}

/// What was read is given out whole.
pub proof fn file_is_given_out_whole(content: Seq<char>, why: Seq<char>)
    ensures
        read_outcome(Ok(content)) == Ok::<_, BridgeErrorView>(
            (ActionResultView { success: true, content }),
        ),
        read_outcome(Err(why)) == Err::<ActionResultView, _>(
            BridgeErrorView::Io("read failed: "@ + why),
        ),
{
}

/// What a finished command printed is given out whole: the changes, why a patch was
/// refused, and both outputs of the tests.
pub proof fn output_is_given_out_whole(stdout: Seq<char>, stderr: Seq<char>)
    ensures
        diff_outcome((RunView::Finished { success: true, stdout, stderr })) == Ok::<
            _,
            BridgeErrorView,
        >((ActionResultView { success: true, content: stdout })),
        diff_outcome((RunView::Finished { success: false, stdout, stderr })) == Ok::<
            _,
            BridgeErrorView,
        >((ActionResultView { success: false, content: stderr })),
        check_outcome((RunView::Finished { success: true, stdout, stderr })) is None,
        check_outcome((RunView::Finished { success: false, stdout, stderr })) == Some(
            Ok::<_, BridgeErrorView>((ActionResultView { success: false, content: stderr })),
        ),
        apply_outcome((RunView::Finished { success: true, stdout, stderr })) == Ok::<
            _,
            BridgeErrorView,
        >((ActionResultView { success: true, content: "Patch applied successfully."@ })),
        apply_outcome((RunView::Finished { success: false, stdout, stderr })) == Ok::<
            _,
            BridgeErrorView,
        >((ActionResultView { success: false, content: stderr })),
        forall|success: bool|
            {
                let r = #[trigger] test_outcome((RunView::Finished { success, stdout, stderr }));
                &&& r is Ok
                &&& r->Ok_0.success == success
                &&& stdout.is_prefix_of(r->Ok_0.content)
                &&& stderr.is_suffix_of(r->Ok_0.content)
                &&& r->Ok_0.content.len() == stdout.len() + stderr.len() + if stdout.len() > 0
                    && stderr.len() > 0 {
                    1int
                } else {
                    0
                }
                &&& stdout.len() > 0 && stderr.len() > 0 ==> r->Ok_0.content[stdout.len() as int]
                    == '\n'
            },
{
    reveal_strlit("\n");
    let both = merged_output(stdout, stderr);
    assert(stdout =~= both.take(stdout.len() as int));
    assert(stderr =~= both.skip(both.len() - stderr.len()));
}

/// A command that did not run to its end is an error that says why.
pub proof fn failed_command_says_why(why: Seq<char>)
    ensures
        diff_outcome(RunView::NotStarted(why)) == Err::<ActionResultView, _>(
            BridgeErrorView::Io("git diff failed to start: "@ + why),
        ),
        check_outcome(RunView::NotStarted(why)) == Some(
            Err::<ActionResultView, _>(
                BridgeErrorView::Io("git apply --check failed to start: "@ + why),
            ),
        ),
        check_outcome(RunView::NotFed(why)) == Some(
            Err::<ActionResultView, _>(
                BridgeErrorView::Io("failed to write patch to git apply --check stdin: "@ + why),
            ),
        ),
        check_outcome(RunView::NotFinished(why)) == Some(
            Err::<ActionResultView, _>(
                BridgeErrorView::Io("git apply --check failed: "@ + why),
            ),
        ),
        apply_outcome(RunView::NotStarted(why)) == Err::<ActionResultView, _>(
            BridgeErrorView::Io("git apply failed to start: "@ + why),
        ),
        apply_outcome(RunView::NotFed(why)) == Err::<ActionResultView, _>(
            BridgeErrorView::Io("failed to write patch to git apply stdin: "@ + why),
        ),
        apply_outcome(RunView::NotFinished(why)) == Err::<ActionResultView, _>(
            BridgeErrorView::Io("git apply failed: "@ + why),
        ),
        test_outcome(RunView::NotStarted(why)) == Err::<ActionResultView, _>(
            BridgeErrorView::Io("cargo test failed to start: "@ + why),
        ),
{
}

} // verus!
