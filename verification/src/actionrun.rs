//! Carrying out an action, step by step.
//!
//! An action is a short talk with the host: the library says what is wanted next and
//! the host says what came of it, until the outcome is known. Nothing is read, listed
//! or searched before its place has been found to lie in the workspace.

use crate::actions::{
    apply_outcome, apply_patch, check_outcome, check_patch, diff_outcome, git_diff, list_directory,
    file_is_given_out_whole, list_outcome, output_is_given_out_whole, read_file, read_outcome,
    run_tests, search_outcome, search_text, test_outcome, view_collected, view_read, CommandRun,
    Listing, ListingView, OutcomeView, RunView, SearchFile, SearchFileView,
};
use crate::bridge::{
    bridge_error_text, lies_below, only_places_below_root_are_let_in, resolution, view_outcome,
    view_parts, ActionOutcome, ActionResultView, BridgeBinding, BridgeErrorView, LookupView,
    PartView, PathLookup, PathPart,
};
use crate::intent::{is_action, Intent, IntentView};
use crate::patch::{patch_error, validate_patch_paths};
use crate::text::{
    all_space, chars_of, glue, is_bare, is_blank, join, joined, same, trim, trimmed,
    trimming_keeps_the_rest, view_all,
};
use vstd::prelude::*;

verus! {

/// How many levels of a directory a search looks at: its files, and no directory
/// below.
pub const SEARCH_DEPTH: usize = 1;

/// An action on the workspace.
#[derive(Debug, Clone, PartialEq, Eq)]
pub enum Action {
    Read(String),
    List(String),
    Search { path: String, query: String },
    Diff(String),
    Patch(String),
    Test(String),
}

/// What an `Action` says.
#[verifier::ext_equal]
pub ghost enum ActionView {
    Read(Seq<char>),
    List(Seq<char>),
    Search { path: Seq<char>, query: Seq<char> },
    Diff(Seq<char>),
    Patch(Seq<char>),
    Test(Seq<char>),
}

impl View for Action {
    type V = ActionView;

    open spec fn view(&self) -> ActionView {
        match *self {
            Action::Read(path) => ActionView::Read(path@),
            Action::List(path) => ActionView::List(path@),
            Action::Search { path, query } => ActionView::Search { path: path@, query: query@ },
            Action::Diff(path) => ActionView::Diff(path@),
            Action::Patch(patch) => ActionView::Patch(patch@),
            Action::Test(filter) => ActionView::Test(filter@),
        }
    }
}

/// The view of an optional action.
pub open spec fn view_action(o: Option<Action>) -> Option<ActionView> {
    match o {
        Some(a) => Some(a@),
        None => None,
    }
}

/// The action that an intent stands for. A blank path to compare is the whole
/// workspace.
pub open spec fn action_for(intent: IntentView) -> Option<ActionView> {
    match intent {
        IntentView::Read(path) => Some(ActionView::Read(trim(path))),
        IntentView::List(path) => Some(ActionView::List(trim(path))),
        IntentView::Search { path, query } => Some(ActionView::Search { path, query }),
        IntentView::Diff(path) => Some(
            ActionView::Diff(
                if is_blank(path) {
                    "."@
                } else {
                    trim(path)
                },
            ),
        ),
        IntentView::Patch(patch) => Some(ActionView::Patch(patch)),
        IntentView::Test(filter) => Some(ActionView::Test(filter)),
        _ => None,
    }
}

/// The action that `intent` stands for, if it stands for one.
pub fn intent_action(intent: Intent) -> (r: Option<Action>)
    ensures
        view_action(r) == action_for(intent@),
        r is Some <==> is_action(intent@),
{
    match intent {
        Intent::Read(path) => Some(Action::Read(trimmed(path.as_str()).to_owned())),
        Intent::List(path) => Some(Action::List(trimmed(path.as_str()).to_owned())),
        Intent::Search { path, query } => Some(Action::Search { path, query }),
        Intent::Diff(path) => {
            let bare = trimmed(path.as_str());
            if bare.is_empty() {
                Some(Action::Diff(".".to_owned()))
            } else {
                Some(Action::Diff(bare.to_owned()))
            }
        },
        Intent::Patch(patch) => Some(Action::Patch(patch)),
        Intent::Test(filter) => Some(Action::Test(filter)),
        _ => None,
    }
}

// ---------------------------------------------------------------------------
// The talk with the host
// ---------------------------------------------------------------------------

/// What an action wants from the host.
#[derive(Debug, Clone, PartialEq, Eq)]
pub enum ActionRequest {
    /// Say where a path in the workspace leads.
    Resolve(String),
    /// Read the file at the place just resolved.
    ReadFile(Vec<PathPart>),
    /// Read the directory at the place just resolved.
    ListDirectory(Vec<PathPart>),
    /// Collect and read the file at the place just resolved, or the files below it,
    /// that many levels deep.
    CollectFiles(Vec<PathPart>, usize),
    /// Run `git diff` on a path.
    GitDiff(String),
    /// Run `git apply --check` on a patch.
    CheckPatch(String),
    /// Run `git apply` on a patch.
    ApplyPatch(String),
    /// Run `cargo` with some arguments.
    RunTests(Vec<String>),
}

/// What an `ActionRequest` says.
#[verifier::ext_equal]
pub ghost enum ActionRequestView {
    Resolve(Seq<char>),
    ReadFile(Seq<PartView>),
    ListDirectory(Seq<PartView>),
    CollectFiles(Seq<PartView>, nat),
    GitDiff(Seq<char>),
    CheckPatch(Seq<char>),
    ApplyPatch(Seq<char>),
    RunTests(Seq<Seq<char>>),
}

impl View for ActionRequest {
    type V = ActionRequestView;

    open spec fn view(&self) -> ActionRequestView {
        match *self {
            ActionRequest::Resolve(path) => ActionRequestView::Resolve(path@),
            ActionRequest::ReadFile(place) => ActionRequestView::ReadFile(view_parts(place@)),
            ActionRequest::ListDirectory(place) => ActionRequestView::ListDirectory(
                view_parts(place@),
            ),
            ActionRequest::CollectFiles(place, depth) => ActionRequestView::CollectFiles(
                view_parts(place@),
                depth as nat,
            ),
            ActionRequest::GitDiff(path) => ActionRequestView::GitDiff(path@),
            ActionRequest::CheckPatch(patch) => ActionRequestView::CheckPatch(patch@),
            ActionRequest::ApplyPatch(patch) => ActionRequestView::ApplyPatch(patch@),
            ActionRequest::RunTests(args) => ActionRequestView::RunTests(view_all(args@)),
        }
    }
}

/// What the host answers.
#[derive(Debug, PartialEq, Eq)]
pub enum ActionEvent {
    Resolved(PathLookup),
    Read(Result<String, String>),
    Listed(Listing),
    Collected(Result<Vec<SearchFile>, String>),
    Ran(CommandRun),
}

/// What an `ActionEvent` says.
#[verifier::ext_equal]
pub ghost enum ActionEventView {
    Resolved(LookupView),
    Read(Result<Seq<char>, Seq<char>>),
    Listed(ListingView),
    Collected(Result<Seq<SearchFileView>, Seq<char>>),
    Ran(RunView),
}

impl View for ActionEvent {
    type V = ActionEventView;

    open spec fn view(&self) -> ActionEventView {
        match *self {
            ActionEvent::Resolved(lookup) => ActionEventView::Resolved(lookup@),
            ActionEvent::Read(read) => ActionEventView::Read(view_read(read)),
            ActionEvent::Listed(listing) => ActionEventView::Listed(listing@),
            ActionEvent::Collected(files) => ActionEventView::Collected(view_collected(files)),
            ActionEvent::Ran(run) => ActionEventView::Ran(run@),
        }
    }
}

/// What a place is resolved for.
#[derive(Debug, Clone, PartialEq, Eq)]
pub enum PlaceUse {
    Read,
    List,
    Search(String),
    Diff,
}

/// What a `PlaceUse` says.
#[verifier::ext_equal]
pub ghost enum PlaceUseView {
    Read,
    List,
    Search(Seq<char>),
    Diff,
}

impl View for PlaceUse {
    type V = PlaceUseView;

    open spec fn view(&self) -> PlaceUseView {
        match *self {
            PlaceUse::Read => PlaceUseView::Read,
            PlaceUse::List => PlaceUseView::List,
            PlaceUse::Search(query) => PlaceUseView::Search(query@),
            PlaceUse::Diff => PlaceUseView::Diff,
        }
    }
}

/// What an action waits for.
#[derive(Debug, Clone, PartialEq, Eq)]
pub enum ActionState {
    Resolving(String, PlaceUse),
    Reading,
    Listing,
    Searching(String),
    Diffing,
    Checking(String),
    Applying,
    Testing,
}

/// What an `ActionState` says.
#[verifier::ext_equal]
pub ghost enum ActionStateView {
    Resolving(Seq<char>, PlaceUseView),
    Reading,
    Listing,
    Searching(Seq<char>),
    Diffing,
    Checking(Seq<char>),
    Applying,
    Testing,
}

impl View for ActionState {
    type V = ActionStateView;

    open spec fn view(&self) -> ActionStateView {
        match *self {
            ActionState::Resolving(path, purpose) => ActionStateView::Resolving(path@, purpose@),
            ActionState::Reading => ActionStateView::Reading,
            ActionState::Listing => ActionStateView::Listing,
            ActionState::Searching(query) => ActionStateView::Searching(query@),
            ActionState::Diffing => ActionStateView::Diffing,
            ActionState::Checking(patch) => ActionStateView::Checking(patch@),
            ActionState::Applying => ActionStateView::Applying,
            ActionState::Testing => ActionStateView::Testing,
        }
    }
}

/// Where an action stands: it wants something, or it is over.
#[derive(Debug, PartialEq, Eq)]
pub enum ActionStep {
    Ask(ActionRequest, ActionState),
    Done(ActionOutcome),
}

/// What an `ActionStep` says.
#[verifier::ext_equal]
pub ghost enum ActionStepView {
    Ask(ActionRequestView, ActionStateView),
    Done(OutcomeView),
}

impl View for ActionStep {
    type V = ActionStepView;

    open spec fn view(&self) -> ActionStepView {
        match *self {
            ActionStep::Ask(request, state) => ActionStepView::Ask(request@, state@),
            ActionStep::Done(outcome) => ActionStepView::Done(view_outcome(outcome)),
        }
    }
}

/// The arguments of `cargo` that run the tests that a filter picks; a blank filter
/// picks all.
pub open spec fn test_args(filter: Seq<char>) -> Seq<Seq<char>> {
    if is_blank(filter) {
        seq!["test"@, "--workspace"@]
    } else {
        seq!["test"@, "--workspace"@, filter]
    }
}

/// Asks where a path leads.
pub open spec fn ask_place(path: Seq<char>, purpose: PlaceUseView) -> ActionStepView {
    ActionStepView::Ask(
        ActionRequestView::Resolve(path),
        ActionStateView::Resolving(path, purpose),
    )
}

/// How an action starts.
pub open spec fn action_start(action: ActionView) -> ActionStepView {
    match action {
        ActionView::Read(path) => ask_place(path, PlaceUseView::Read),
        ActionView::List(path) => ask_place(path, PlaceUseView::List),
        ActionView::Search { path, query } => ask_place(path, PlaceUseView::Search(query)),
        ActionView::Diff(path) => if is_blank(path) || path == "."@ {
            ActionStepView::Ask(ActionRequestView::GitDiff("."@), ActionStateView::Diffing)
        } else {
            ask_place(path, PlaceUseView::Diff)
        },
        ActionView::Patch(patch) => match patch_error(patch) {
            Some(e) => ActionStepView::Done(Err(e)),
            None => ActionStepView::Ask(
                ActionRequestView::CheckPatch(patch),
                ActionStateView::Checking(patch),
            ),
        },
        ActionView::Test(filter) => ActionStepView::Ask(
            ActionRequestView::RunTests(test_args(filter)),
            ActionStateView::Testing,
        ),
    }
}

/// Whether an answer is of the kind that an action waits for.
pub open spec fn event_fits(state: ActionStateView, event: ActionEventView) -> bool {
    match state {
        ActionStateView::Resolving(_, _) => event is Resolved,
        ActionStateView::Reading => event is Read,
        ActionStateView::Listing => event is Listed,
        ActionStateView::Searching(_) => event is Collected,
        ActionStateView::Diffing => event is Ran,
        ActionStateView::Checking(_) => event is Ran,
        ActionStateView::Applying => event is Ran,
        ActionStateView::Testing => event is Ran,
    }
}

/// The names of the components of a path.
pub open spec fn part_names(parts: Seq<PartView>) -> Seq<Seq<char>> {
    parts.map_values(|p: PartView| p.name)
}

/// A text with slashes for backslashes.
pub open spec fn with_slashes(s: Seq<char>) -> Seq<char> {
    s.map_values(
        |c: char|
            if c == '\\' {
                '/'
            } else {
                c
            },
    )
}

/// A place in the workspace as `git` wants it: relative to the root, with slashes.
pub open spec fn pathspec(root: Seq<PartView>, target: Seq<PartView>) -> Seq<char> {
    with_slashes(join(part_names(target.skip(root.len() as int)), "/"@))
}

/// What an action wants once its place is known.
pub open spec fn after_resolving(
    path: Seq<char>,
    purpose: PlaceUseView,
    lookup: LookupView,
) -> ActionStepView {
    match resolution(path, lookup) {
        Err(e) => ActionStepView::Done(Err(e)),
        Ok(place) => match purpose {
            PlaceUseView::Read => ActionStepView::Ask(
                ActionRequestView::ReadFile(place),
                ActionStateView::Reading,
            ),
            PlaceUseView::List => ActionStepView::Ask(
                ActionRequestView::ListDirectory(place),
                ActionStateView::Listing,
            ),
            PlaceUseView::Search(query) => ActionStepView::Ask(
                ActionRequestView::CollectFiles(place, SEARCH_DEPTH as nat),
                ActionStateView::Searching(query),
            ),
            PlaceUseView::Diff => ActionStepView::Ask(
                ActionRequestView::GitDiff(pathspec(lookup->root, place)),
                ActionStateView::Diffing,
            ),
        },
    }
}

/// How an action goes on after an answer.
pub open spec fn action_next(state: ActionStateView, event: ActionEventView) -> ActionStepView {
    match state {
        ActionStateView::Resolving(path, purpose) => after_resolving(
            path,
            purpose,
            event->Resolved_0,
        ),
        ActionStateView::Reading => ActionStepView::Done(read_outcome(event->Read_0)),
        ActionStateView::Listing => ActionStepView::Done(list_outcome(event->Listed_0)),
        ActionStateView::Searching(query) => ActionStepView::Done(
            search_outcome(event->Collected_0, query),
        ),
        ActionStateView::Diffing => ActionStepView::Done(diff_outcome(event->Ran_0)),
        ActionStateView::Checking(patch) => match check_outcome(event->Ran_0) {
            Some(outcome) => ActionStepView::Done(outcome),
            None => ActionStepView::Ask(
                ActionRequestView::ApplyPatch(patch),
                ActionStateView::Applying,
            ),
        },
        ActionStateView::Applying => ActionStepView::Done(apply_outcome(event->Ran_0)),
        ActionStateView::Testing => ActionStepView::Done(test_outcome(event->Ran_0)),
    }
}

fn tests_to_run(filter: &str) -> (r: Vec<String>)
    ensures
        view_all(r@) == test_args(filter@),
{
    let mut args: Vec<String> = vec!["test".to_owned(), "--workspace".to_owned()];
    if !trimmed(filter).is_empty() {
        args.push(filter.to_owned());
    }
    assert(view_all(args@) =~= test_args(filter@));
    args
}

fn resolve_for(path: String, purpose: PlaceUse) -> (r: ActionStep)
    ensures
        r@ == ask_place(path@, purpose@),
{
    ActionStep::Ask(ActionRequest::Resolve(path.clone()), ActionState::Resolving(path, purpose))
}

/// Starts an action.
pub fn begin_action(action: Action) -> (r: ActionStep)
    ensures
        r@ == action_start(action@),
{
    match action {
        Action::Read(path) => resolve_for(path, PlaceUse::Read),
        Action::List(path) => resolve_for(path, PlaceUse::List),
        Action::Search { path, query } => resolve_for(path, PlaceUse::Search(query)),
        Action::Diff(path) => if trimmed(path.as_str()).is_empty() || same(path.as_str(), ".") {
            ActionStep::Ask(ActionRequest::GitDiff(".".to_owned()), ActionState::Diffing)
        } else {
            resolve_for(path, PlaceUse::Diff)
        },
        Action::Patch(patch) => match validate_patch_paths(patch.as_str()) {
            Err(e) => ActionStep::Done(Err(e)),
            Ok(()) => ActionStep::Ask(
                ActionRequest::CheckPatch(patch.clone()),
                ActionState::Checking(patch),
            ),
        },
        Action::Test(filter) => ActionStep::Ask(
            ActionRequest::RunTests(tests_to_run(filter.as_str())),
            ActionState::Testing,
        ),
    }
}

fn to_slashes(s: &str) -> (r: String)
    ensures
        r@ == with_slashes(s@),
{
    let cs = chars_of(s);
    let mut out = String::new();
    let mut i: usize = 0;
    while i < cs.len()
        invariant
            cs@ == s@,
            i <= cs@.len(),
            out@ =~= with_slashes(s@.take(i as int)),
        decreases cs@.len() - i,
    {
        if cs[i] == '\\' {
            out.push('/');
        } else {
            out.push(cs[i]);
        }
        i += 1;
    }
    assert(s@.take(i as int) =~= s@);
    out
}

/// A place in the workspace as `git` wants it, given how many components the root has.
pub fn normalize_pathspec(root_len: usize, target: &Vec<PathPart>) -> (r: String)
    requires
        root_len <= target@.len(),
    ensures
        r@ == with_slashes(join(part_names(view_parts(target@).skip(root_len as int)), "/"@)),
{
    let ghost names = part_names(view_parts(target@).skip(root_len as int));
    let mut out: Vec<String> = Vec::new();
    let mut i: usize = root_len;
    while i < target.len()
        invariant
            root_len <= i <= target@.len(),
            names == part_names(view_parts(target@).skip(root_len as int)),
            out@.len() == i - root_len,
            forall|j: int| 0 <= j < i - root_len ==> (#[trigger] out@[j])@ == names[j],
        decreases target@.len() - i,
    {
        out.push(target[i].name.clone());
        i += 1;
    }
    assert(view_all(out@) =~= names);
    to_slashes(joined(&out, "/").as_str())
}

fn root_depth(lookup: &PathLookup) -> (r: usize)
    ensures
        lookup@ matches LookupView::Found { root, target } ==> r == root.len(),
{
    match lookup {
        PathLookup::Found { root, target } => root.len(),
        _ => 0,
    }
}

fn resume_resolved(
    bridge: &BridgeBinding,
    path: String,
    purpose: PlaceUse,
    lookup: PathLookup,
) -> (r: ActionStep)
    ensures
        r@ == after_resolving(path@, purpose@, lookup@),
{
    let depth: usize = root_depth(&lookup);
    match bridge.resolve(path.as_str(), lookup) {
        Err(e) => ActionStep::Done(Err(e)),
        Ok(place) => match purpose {
            PlaceUse::Read => ActionStep::Ask(ActionRequest::ReadFile(place), ActionState::Reading),
            PlaceUse::List => ActionStep::Ask(
                ActionRequest::ListDirectory(place),
                ActionState::Listing,
            ),
            PlaceUse::Search(query) => ActionStep::Ask(
                ActionRequest::CollectFiles(place, SEARCH_DEPTH),
                ActionState::Searching(query),
            ),
            PlaceUse::Diff => {
                assert(view_parts(place@).len() == place@.len());
                ActionStep::Ask(
                    ActionRequest::GitDiff(normalize_pathspec(depth, &place)),
                    ActionState::Diffing,
                )
            },
        },
    }
}

/// Whether `event` is of the kind that `state` waits for.
pub fn fits(state: &ActionState, event: &ActionEvent) -> (r: bool)
    ensures
        r == event_fits(state@, event@),
{
    match (state, event) {
        (ActionState::Resolving(_, _), ActionEvent::Resolved(_)) => true,
        (ActionState::Reading, ActionEvent::Read(_)) => true,
        (ActionState::Listing, ActionEvent::Listed(_)) => true,
        (ActionState::Searching(_), ActionEvent::Collected(_)) => true,
        (ActionState::Diffing, ActionEvent::Ran(_)) => true,
        (ActionState::Checking(_), ActionEvent::Ran(_)) => true,
        (ActionState::Applying, ActionEvent::Ran(_)) => true,
        (ActionState::Testing, ActionEvent::Ran(_)) => true,
        _ => false,
    }
}

/// Goes on with an action after an answer of the kind that it waits for.
pub fn resume_action(bridge: &BridgeBinding, state: ActionState, event: ActionEvent) -> (r:
    ActionStep)
    requires
        event_fits(state@, event@),
    ensures
        r@ == action_next(state@, event@),
{
    match (state, event) {
        (ActionState::Resolving(path, purpose), ActionEvent::Resolved(lookup)) => resume_resolved(
            bridge,
            path,
            purpose,
            lookup,
        ),
        (ActionState::Reading, ActionEvent::Read(read)) => ActionStep::Done(read_file(read)),
        (ActionState::Listing, ActionEvent::Listed(listing)) => ActionStep::Done(
            list_directory(listing),
        ),
        (ActionState::Searching(query), ActionEvent::Collected(files)) => ActionStep::Done(
            search_text(files, query.as_str()),
        ),
        (ActionState::Diffing, ActionEvent::Ran(run)) => ActionStep::Done(git_diff(run)),
        (ActionState::Checking(patch), ActionEvent::Ran(run)) => match check_patch(run) {
            Some(outcome) => ActionStep::Done(outcome),
            None => ActionStep::Ask(ActionRequest::ApplyPatch(patch), ActionState::Applying),
        },
        (ActionState::Applying, ActionEvent::Ran(run)) => ActionStep::Done(apply_patch(run)),
        (ActionState::Testing, ActionEvent::Ran(run)) => ActionStep::Done(run_tests(run)),
        _ => vstd::pervasive::unreached(),
    }
}

// ---------------------------------------------------------------------------
// The reply
// ---------------------------------------------------------------------------

/// What an action is for, as far as the reply depends on it.
#[derive(Debug, Clone, Copy, PartialEq, Eq, Structural)]
pub enum ActionKind {
    Show,
    Patch,
    Test,
}

/// The kind of an action.
pub open spec fn kind_of(action: ActionView) -> ActionKind {
    match action {
        ActionView::Patch(_) => ActionKind::Patch,
        ActionView::Test(_) => ActionKind::Test,
        _ => ActionKind::Show,
    }
}

pub fn action_kind(action: &Action) -> (r: ActionKind)
    ensures
        r == kind_of(action@),
{
    match action {
        Action::Patch(_) => ActionKind::Patch,
        Action::Test(_) => ActionKind::Test,
        _ => ActionKind::Show,
    }
}

/// The reply about an action that is over.
pub open spec fn action_reply(kind: ActionKind, outcome: OutcomeView) -> Seq<char> {
    match outcome {
        Err(e) => "Error: "@ + bridge_error_text(e),
        Ok(r) => match kind {
            ActionKind::Show => r.content,
            ActionKind::Patch => if r.success {
                r.content
            } else {
                "Patch rejected: "@ + r.content
            },
            ActionKind::Test => if r.success {
                "Tests passed.\n"@ + r.content
            } else {
                "Tests failed.\n"@ + r.content
            },
        },
    }
}

/// The reply about an action that is over.
pub fn reply_to_action(kind: ActionKind, outcome: ActionOutcome) -> (r: String)
    ensures
        r@ == action_reply(kind, view_outcome(outcome)),
{
    match outcome {
        Err(e) => glue("Error: ", e.message().as_str()),
        Ok(result) => match kind {
            ActionKind::Show => result.content,
            ActionKind::Patch => if result.success {
                result.content
            } else {
                glue("Patch rejected: ", result.content.as_str())
            },
            ActionKind::Test => if result.success {
                glue("Tests passed.\n", result.content.as_str())
            } else {
                glue("Tests failed.\n", result.content.as_str())
            },
        },
    }
}

// ---------------------------------------------------------------------------
// Laws
// ---------------------------------------------------------------------------

/// The place that a request is about, where it is about one that was resolved.
pub open spec fn requested_place(request: ActionRequestView) -> Option<Seq<PartView>> {
    match request {
        ActionRequestView::ReadFile(place) => Some(place),
        ActionRequestView::ListDirectory(place) => Some(place),
        ActionRequestView::CollectFiles(place, _) => Some(place),
        _ => None,
    }
}

/// An action starts with no place in hand: it reads, lists and searches nothing before
/// a path has been resolved.
pub proof fn action_starts_without_place(action: ActionView)
    ensures
        action_start(action) matches ActionStepView::Ask(request, _) ==> requested_place(request)
            is None,
{
}

/// What is read, listed or searched lies in the workspace.
pub proof fn action_stays_in_workspace(state: ActionStateView, event: ActionEventView)
    requires
        event_fits(state, event),
    ensures
        action_next(state, event) matches ActionStepView::Ask(request, _) ==> (
        requested_place(request) matches Some(place) ==> {
            &&& event matches ActionEventView::Resolved(LookupView::Found { root, target })
            &&& place == target
            &&& lies_below(root, target)
        }),
{
}

/// A patch is applied only after it was found harmless and its check has passed: an
/// action starts with the check, and only for a patch without a bad header, and what is
/// applied after a check is the patch that was checked.
pub proof fn patch_is_checked_before_applied(
    action: ActionView,
    state: ActionStateView,
    event: ActionEventView,
    patch: Seq<char>,
    next: ActionStateView,
)
    requires
        event_fits(state, event),
    ensures
        action_start(action) != ActionStepView::Ask(ActionRequestView::ApplyPatch(patch), next),
        action_start(action) == ActionStepView::Ask(ActionRequestView::CheckPatch(patch), next)
            ==> patch_error(patch) is None && next == ActionStateView::Checking(patch),
        action_next(state, event) == ActionStepView::Ask(ActionRequestView::ApplyPatch(patch), next)
            ==> state == ActionStateView::Checking(patch) && check_outcome(event->Ran_0) is None,
{
}

/// Whether a step asks for `request`.
pub open spec fn asks_for(step: ActionStepView, request: ActionRequestView) -> bool {
    step matches ActionStepView::Ask(r, _) && r == request
}

/// What an action does next when a step that asks is answered.
pub open spec fn answered(step: ActionStepView, event: ActionEventView) -> ActionStepView {
    action_next(step->Ask_1, event)
}

/// What stands at a place below the root of the workspace.
pub open spec fn found_below(root: Seq<PartView>, rest: Seq<PartView>) -> ActionEventView {
    ActionEventView::Resolved(LookupView::Found { root, target: root + rest })
}

/// Reading a file asks where exactly its path leads, reads exactly that place, and gives
/// out exactly what stood there.
pub proof fn reading_gives_the_file(
    path: Seq<char>,
    root: Seq<PartView>,
    rest: Seq<PartView>,
    content: Seq<char>,
)
    ensures
        ({
            let first = action_start(ActionView::Read(path));
            let second = answered(first, found_below(root, rest));
            &&& asks_for(first, ActionRequestView::Resolve(path))
            &&& asks_for(second, ActionRequestView::ReadFile(root + rest))
            &&& answered(second, ActionEventView::Read(Ok(content))) == ActionStepView::Done(
                Ok((ActionResultView { success: true, content })),
            )
        }),
{
    only_places_below_root_are_let_in(path, root, rest, root);
    file_is_given_out_whole(content, content);
}

/// Listing a directory asks where exactly its path leads, reads exactly that directory,
/// and gives out the listing of what it holds.
pub proof fn listing_lists_the_directory(
    path: Seq<char>,
    root: Seq<PartView>,
    rest: Seq<PartView>,
    listing: ListingView,
)
    ensures
        ({
            let first = action_start(ActionView::List(path));
            let second = answered(first, found_below(root, rest));
            &&& asks_for(first, ActionRequestView::Resolve(path))
            &&& asks_for(second, ActionRequestView::ListDirectory(root + rest))
            &&& answered(second, ActionEventView::Listed(listing)) == ActionStepView::Done(
                list_outcome(listing),
            )
        }),
{
    only_places_below_root_are_let_in(path, root, rest, root);
}

/// A search asks where exactly its path leads, collects the files right there, and looks
/// in them for exactly its query.
pub proof fn search_looks_for_its_query(
    path: Seq<char>,
    query: Seq<char>,
    root: Seq<PartView>,
    rest: Seq<PartView>,
    files: Result<Seq<SearchFileView>, Seq<char>>,
)
    ensures
        ({
            let first = action_start(ActionView::Search { path, query });
            let second = answered(first, found_below(root, rest));
            &&& asks_for(first, ActionRequestView::Resolve(path))
            &&& asks_for(second, ActionRequestView::CollectFiles(root + rest, 1))
            &&& answered(second, ActionEventView::Collected(files)) == ActionStepView::Done(
                search_outcome(files, query),
            )
        }),
{
    only_places_below_root_are_let_in(path, root, rest, root);
}

/// The changes below a path are those that `git` is asked for with the names below the
/// root, parted by slashes, and what it prints is given out.
pub proof fn diff_is_about_its_path(
    path: Seq<char>,
    root: Seq<PartView>,
    rest: Seq<PartView>,
    stdout: Seq<char>,
    stderr: Seq<char>,
)
    requires
        !is_blank(path),
        path != "."@,
        forall|i: int|
            0 <= i < rest.len() ==> !(#[trigger] rest[i]).name.contains('\\'),
    ensures
        ({
            let first = action_start(ActionView::Diff(path));
            let second = answered(first, found_below(root, rest));
            &&& asks_for(first, ActionRequestView::Resolve(path))
            &&& asks_for(
                second,
                ActionRequestView::GitDiff(
                    join(Seq::new(rest.len(), |i: int| rest[i].name), "/"@),
                ),
            )
            &&& answered(
                second,
                ActionEventView::Ran(RunView::Finished { success: true, stdout, stderr }),
            ) == ActionStepView::Done(Ok((ActionResultView { success: true, content: stdout })))
        }),
{
    only_places_below_root_are_let_in(path, root, rest, root);
    output_is_given_out_whole(stdout, stderr);
    let names = Seq::new(rest.len(), |i: int| rest[i].name);
    assert((root + rest).skip(root.len() as int) =~= rest);
    assert(part_names(rest) =~= names);
    assert forall|i: int| 0 <= i < names.len() implies !(#[trigger] names[i]).contains('\\') by {
        assert(!rest[i].name.contains('\\'));
    }
    lemma_no_backslash(names);
    slashes_replace_backslashes(join(names, "/"@));
}

proof fn lemma_no_backslash(names: Seq<Seq<char>>)
    requires
        forall|i: int| 0 <= i < names.len() ==> !(#[trigger] names[i]).contains('\\'),
    ensures
        !join(names, "/"@).contains('\\'),
    decreases names.len(),
{
    reveal_strlit("/");
    let whole = join(names, "/"@);
    if names.len() > 0 {
        let init = names.drop_last();
        assert forall|i: int| 0 <= i < init.len() implies !(#[trigger] init[i]).contains('\\') by {
            assert(init[i] == names[i]);
        }
        lemma_no_backslash(init);
        let last = names.last();
        assert(last == names[names.len() - 1]);
        if names.len() > 1 {
            let before = join(init, "/"@);
            assert forall|i: int| 0 <= i < whole.len() implies whole[i] != '\\' by {
                if i < before.len() {
                    assert(whole[i] == before[i]);
                    assert(before.contains(before[i]));
                } else if i > before.len() {
                    assert(whole[i] == last[i - before.len() - 1]);
                    assert(last.contains(last[i - before.len() - 1]));
                }
            }
        }
    }
}

/// Only backslashes become slashes; a text without them stays as it is.
pub proof fn slashes_replace_backslashes(s: Seq<char>)
    ensures
        with_slashes(s).len() == s.len(),
        forall|i: int|
            0 <= i < s.len() ==> #[trigger] with_slashes(s)[i] == (if s[i] == '\\' {
                '/'
            } else {
                s[i]
            }),
        !s.contains('\\') ==> with_slashes(s) == s,
{
    if !s.contains('\\') {
        assert forall|i: int| 0 <= i < s.len() implies with_slashes(s)[i] == s[i] by {
            assert(s.contains(s[i]));
        }
        assert(with_slashes(s) =~= s);
    }
}

/// The changes of the whole workspace need no path.
pub proof fn diff_of_everything_asks_at_once(path: Seq<char>)
    requires
        is_blank(path) || path == "."@,
    ensures
        asks_for(action_start(ActionView::Diff(path)), ActionRequestView::GitDiff("."@)),
{
}

/// A patch whose headers are harmless is checked and then applied, both times exactly as
/// it was given; where the check fails nothing is applied, and what `git` said is given
/// out.
pub proof fn patch_is_applied_as_given(patch: Seq<char>, stdout: Seq<char>, stderr: Seq<char>)
    requires
        patch_error(patch) is None,
    ensures
        ({
            let passed = ActionEventView::Ran(RunView::Finished { success: true, stdout, stderr });
            let refused = ActionEventView::Ran(
                RunView::Finished { success: false, stdout, stderr },
            );
            let first = action_start(ActionView::Patch(patch));
            let second = answered(first, passed);
            &&& asks_for(first, ActionRequestView::CheckPatch(patch))
            &&& asks_for(second, ActionRequestView::ApplyPatch(patch))
            &&& answered(second, passed) == ActionStepView::Done(
                Ok(
                    (ActionResultView {
                        success: true,
                        content: "Patch applied successfully."@,
                    }),
                ),
            )
            &&& answered(first, refused) == ActionStepView::Done(
                Ok((ActionResultView { success: false, content: stderr })),
            )
            &&& answered(second, refused) == ActionStepView::Done(
                Ok((ActionResultView { success: false, content: stderr })),
            )
        }),
{
    output_is_given_out_whole(stdout, stderr);
}

/// The tests that are run are those that the filter picks, or all where it is blank.
pub proof fn tests_are_picked_by_the_filter(filter: Seq<char>)
    ensures
        !is_blank(filter) ==> asks_for(
            action_start(ActionView::Test(filter)),
            ActionRequestView::RunTests(seq!["test"@, "--workspace"@, filter]),
        ),
        is_blank(filter) ==> asks_for(
            action_start(ActionView::Test(filter)),
            ActionRequestView::RunTests(seq!["test"@, "--workspace"@]),
        ),
{
}

/// A path that leads out of the workspace ends an action with a refusal that names it.
pub proof fn escaping_action_is_refused(
    action: ActionView,
    path: Seq<char>,
    query: Seq<char>,
    root: Seq<PartView>,
    target: Seq<PartView>,
)
    requires
        action == ActionView::Read(path) || action == ActionView::List(path) || action == (
        ActionView::Search { path, query }) || (action == ActionView::Diff(path) && !is_blank(path)
            && path != "."@),
        target.len() < root.len() || exists|i: int|
            0 <= i < root.len() && root[i].bytes != (#[trigger] target[i]).bytes,
    ensures
        answered(
            action_start(action),
            ActionEventView::Resolved(LookupView::Found { root, target }),
        ) == ActionStepView::Done(Err(BridgeErrorView::PathEscape(path))),
{
    only_places_below_root_are_let_in(path, root, seq![], target);
}

/// What an intent names is what the action is about: paths without the white space round
/// them, everything else as it is.
pub proof fn action_is_what_was_meant(
    lead: Seq<char>,
    path: Seq<char>,
    tail: Seq<char>,
    text: Seq<char>,
)
    requires
        all_space(lead),
        is_bare(path),
        all_space(tail),
    ensures
        action_for(IntentView::Read(lead + path + tail)) == Some(ActionView::Read(path)),
        action_for(IntentView::List(lead + path + tail)) == Some(ActionView::List(path)),
        action_for(IntentView::Diff(lead + path + tail)) == Some(ActionView::Diff(path)),
        action_for(IntentView::Diff(lead + tail)) == Some(ActionView::Diff("."@)),
        action_for(IntentView::Search { path: text, query: path }) == Some(
            (ActionView::Search { path: text, query: path }),
        ),
        action_for(IntentView::Patch(text)) == Some(ActionView::Patch(text)),
        action_for(IntentView::Test(text)) == Some(ActionView::Test(text)),
{
    trimming_keeps_the_rest(lead, path, tail);
}

/// The reply tells all that an action gave out, and nothing of it is changed.
pub proof fn reply_tells_what_came_out(content: Seq<char>, success: bool, e: BridgeErrorView)
    ensures
        action_reply(ActionKind::Show, Ok((ActionResultView { success, content }))) == content,
        action_reply(ActionKind::Patch, Ok((ActionResultView { success: true, content })))
            == content,
        action_reply(ActionKind::Patch, Ok((ActionResultView { success: false, content })))
            == "Patch rejected: "@ + content,
        action_reply(ActionKind::Test, Ok((ActionResultView { success: true, content })))
            == "Tests passed.\n"@ + content,
        action_reply(ActionKind::Test, Ok((ActionResultView { success: false, content })))
            == "Tests failed.\n"@ + content,
        forall|kind: ActionKind| #[trigger]
            action_reply(kind, Err(e)) == "Error: "@ + bridge_error_text(e),
{
}

/// Only a patch and a test change or run anything; every other action shows something.
pub proof fn action_is_of_its_kind(action: ActionView)
    ensures
        kind_of(action) == ActionKind::Patch <==> action is Patch,
        kind_of(action) == ActionKind::Test <==> action is Test,
        kind_of(action) == ActionKind::Show <==> !(action is Patch || action is Test),
{
}

} // verus!
