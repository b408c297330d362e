//! Writing files of the workspace: replacing text in one, and putting down a whole one.

use crate::bridge::{
    bridge_error_text, lies_below, only_places_below_root_are_let_in, resolution, view_parts,
    BridgeBinding, BridgeError, BridgeErrorView, LookupView, PartView, PathLookup, PathPart,
};
use crate::actions::view_read;
use crate::text::{
    absent_text_is_not_replaced, byte_len, byte_len_of, count_of, decimal, decimal_of,
    first_place_is_replaced, glue, occurrences, replace_first, replaced_first, stands_first_behind,
};
use vstd::prelude::*;
use vstd::utf8::encode_utf8;

verus! {

/// A replacement to make: in the file at `path`, the first `old_text` by `new_text`.
#[derive(Debug, Clone, PartialEq, Eq)]
pub struct Edit {
    pub path: String,
    pub old_text: String,
    pub new_text: String,
}

/// What an `Edit` says.
#[verifier::ext_equal]
pub ghost struct EditView {
    pub path: Seq<char>,
    pub old_text: Seq<char>,
    pub new_text: Seq<char>,
}

impl View for Edit {
    type V = EditView;

    open spec fn view(&self) -> EditView {
        EditView { path: self.path@, old_text: self.old_text@, new_text: self.new_text@ }
    }
}

/// What an edit wants from the host.
#[derive(Debug, Clone, PartialEq, Eq)]
pub enum EditRequest {
    /// Say where a path in the workspace leads.
    Resolve(String),
    /// Read the file at the place just resolved.
    ReadFile(Vec<PathPart>),
    /// Write a text to the file at the place that was resolved.
    WriteFile(Vec<PathPart>, String),
}

/// What an `EditRequest` says.
#[verifier::ext_equal]
pub ghost enum EditRequestView {
    Resolve(Seq<char>),
    ReadFile(Seq<PartView>),
    WriteFile(Seq<PartView>, Seq<char>),
}

impl View for EditRequest {
    type V = EditRequestView;

    open spec fn view(&self) -> EditRequestView {
        match *self {
            EditRequest::Resolve(path) => EditRequestView::Resolve(path@),
            EditRequest::ReadFile(place) => EditRequestView::ReadFile(view_parts(place@)),
            EditRequest::WriteFile(place, text) => EditRequestView::WriteFile(
                view_parts(place@),
                text@,
            ),
        }
    }
}

/// What the host answers.
#[derive(Debug, PartialEq, Eq)]
pub enum EditEvent {
    Resolved(PathLookup),
    Read(Result<String, String>),
    /// The error, if writing failed.
    Written(Option<String>),
}

/// What an `EditEvent` says.
#[verifier::ext_equal]
pub ghost enum EditEventView {
    Resolved(LookupView),
    Read(Result<Seq<char>, Seq<char>>),
    Written(Option<Seq<char>>),
}

impl View for EditEvent {
    type V = EditEventView;

    open spec fn view(&self) -> EditEventView {
        match *self {
            EditEvent::Resolved(lookup) => EditEventView::Resolved(lookup@),
            EditEvent::Read(read) => EditEventView::Read(view_read(read)),
            EditEvent::Written(e) => EditEventView::Written(crate::text::view_opt(e)),
        }
    }
}

/// What an edit waits for.
#[derive(Debug, Clone, PartialEq, Eq)]
pub enum EditState {
    Resolving(Edit),
    Reading(Edit, Vec<PathPart>),
    /// The new text is being written; the reply if that succeeds is known.
    Writing(String),
}

/// What an `EditState` says.
#[verifier::ext_equal]
pub ghost enum EditStateView {
    Resolving(EditView),
    Reading(EditView, Seq<PartView>),
    Writing(Seq<char>),
}

impl View for EditState {
    type V = EditStateView;

    open spec fn view(&self) -> EditStateView {
        match *self {
            EditState::Resolving(edit) => EditStateView::Resolving(edit@),
            EditState::Reading(edit, place) => EditStateView::Reading(edit@, view_parts(place@)),
            EditState::Writing(reply) => EditStateView::Writing(reply@),
        }
    }
}

/// Where an edit stands: it wants something, or it is over and there is a reply.
#[derive(Debug, Clone, PartialEq, Eq)]
pub enum EditStep {
    Ask(EditRequest, EditState),
    Reply(String),
}

/// What an `EditStep` says.
#[verifier::ext_equal]
pub ghost enum EditStepView {
    Ask(EditRequestView, EditStateView),
    Reply(Seq<char>),
}

impl View for EditStep {
    type V = EditStepView;

    open spec fn view(&self) -> EditStepView {
        match *self {
            EditStep::Ask(request, state) => EditStepView::Ask(request@, state@),
            EditStep::Reply(reply) => EditStepView::Reply(reply@),
        }
    }
}

/// How an edit starts: with the place of the file.
pub open spec fn edit_start(edit: EditView) -> EditStepView {
    EditStepView::Ask(EditRequestView::Resolve(edit.path), EditStateView::Resolving(edit))
}

/// Whether an answer is of the kind that an edit waits for.
pub open spec fn edit_event_fits(state: EditStateView, event: EditEventView) -> bool {
    match state {
        EditStateView::Resolving(_) => event is Resolved,
        EditStateView::Reading(_, _) => event is Read,
        EditStateView::Writing(_) => event is Written,
    }
}

/// The reply about an edit that was made.
pub open spec fn edited_reply(edit: EditView, content: Seq<char>) -> Seq<char> {
    "✅ 已替换 "@ + edit.path + " 中 "@ + decimal(occurrences(content, edit.old_text))
        + " 处匹配（已替换第1处）\n变更前 "@ + decimal(byte_len(content)) + " 字节 → 变更后 "@
        + decimal(byte_len(replace_first(content, edit.old_text, edit.new_text))) + " 字节"@
}

/// How an edit goes on once the file has been read.
pub open spec fn after_reading(
    edit: EditView,
    place: Seq<PartView>,
    read: Result<Seq<char>, Seq<char>>,
) -> EditStepView {
    match read {
        Err(e) => EditStepView::Reply("❌ 读取失败: "@ + e),
        Ok(content) => if occurrences(content, edit.old_text) == 0 {
            EditStepView::Reply("❌ 未找到匹配文本:\n"@ + edit.old_text)
        } else {
            EditStepView::Ask(
                EditRequestView::WriteFile(
                    place,
                    replace_first(content, edit.old_text, edit.new_text),
                ),
                EditStateView::Writing(edited_reply(edit, content)),
            )
        },
    }
}

/// How an edit goes on after an answer.
pub open spec fn edit_next(state: EditStateView, event: EditEventView) -> EditStepView {
    match state {
        EditStateView::Resolving(edit) => match resolution(edit.path, event->Resolved_0) {
            Err(e) => EditStepView::Reply("❌ 路径错误: "@ + bridge_error_text(e)),
            Ok(place) => EditStepView::Ask(
                EditRequestView::ReadFile(place),
                EditStateView::Reading(edit, place),
            ),
        },
        EditStateView::Reading(edit, place) => after_reading(edit, place, event->Read_0),
        EditStateView::Writing(reply) => match event->Written_0 {
            Some(e) => EditStepView::Reply("❌ 写入失败: "@ + e),
            None => EditStepView::Reply(reply),
        },
    }
}

/// Starts a replacement.
pub fn begin_edit(edit: Edit) -> (r: EditStep)
    ensures
        r@ == edit_start(edit@),
{
    EditStep::Ask(EditRequest::Resolve(edit.path.clone()), EditState::Resolving(edit))
}

fn copy_parts(parts: &Vec<PathPart>) -> (r: Vec<PathPart>)
    ensures
        view_parts(r@) == view_parts(parts@),
{
    let mut out: Vec<PathPart> = Vec::new();
    let mut i: usize = 0;
    while i < parts.len()
        invariant
            i <= parts@.len(),
            out@.len() == i,
            forall|j: int| 0 <= j < i ==> (#[trigger] out@[j])@ == parts@[j]@,
        decreases parts@.len() - i,
    {
        let part = &parts[i];
        let bytes = part.bytes.clone();
        assert(bytes@ =~= part.bytes@);
        out.push(PathPart { bytes, name: part.name.clone() });
        i += 1;
    }
    assert(view_parts(out@) =~= view_parts(parts@));
    out
}

/// How a replacement goes on once the file has been read.
pub fn do_replace_in_file(edit: Edit, place: Vec<PathPart>, read: Result<String, String>) -> (r:
    EditStep)
    ensures
        r@ == after_reading(edit@, view_parts(place@), view_read(read)),
{
    match read {
        Err(e) => EditStep::Reply(glue("❌ 读取失败: ", e.as_str())),
        Ok(content) => {
            let count: u128 = count_of(content.as_str(), edit.old_text.as_str());
            if count == 0 {
                return EditStep::Reply(
                    glue("❌ 未找到匹配文本:\n", edit.old_text.as_str()),
                );
            }
            let updated = replaced_first(
                content.as_str(),
                edit.old_text.as_str(),
                edit.new_text.as_str(),
            );
            let mut reply = glue("✅ 已替换 ", edit.path.as_str());
            reply.append(" 中 ");
            reply.append(decimal_of(count).as_str());
            reply.append(" 处匹配（已替换第1处）\n变更前 ");
            reply.append(decimal_of(byte_len_of(content.as_str()) as u128).as_str());
            reply.append(" 字节 → 变更后 ");
            reply.append(decimal_of(byte_len_of(updated.as_str()) as u128).as_str());
            reply.append(" 字节");
            EditStep::Ask(EditRequest::WriteFile(place, updated), EditState::Writing(reply))
        },
    }
}

/// Whether `event` is of the kind that `state` waits for.
pub fn edit_fits(state: &EditState, event: &EditEvent) -> (r: bool)
    ensures
        r == edit_event_fits(state@, event@),
{
    match (state, event) {
        (EditState::Resolving(_), EditEvent::Resolved(_)) => true,
        (EditState::Reading(_, _), EditEvent::Read(_)) => true,
        (EditState::Writing(_), EditEvent::Written(_)) => true,
        _ => false,
    }
}

/// Goes on with a replacement after an answer of the kind that it waits for.
pub fn resume_edit(bridge: &BridgeBinding, state: EditState, event: EditEvent) -> (r: EditStep)
    requires
        edit_event_fits(state@, event@),
    ensures
        r@ == edit_next(state@, event@),
{
    match (state, event) {
        (EditState::Resolving(edit), EditEvent::Resolved(lookup)) => match bridge.resolve(
            edit.path.as_str(),
            lookup,
        ) {
            Err(e) => EditStep::Reply(glue("❌ 路径错误: ", e.message().as_str())),
            Ok(place) => EditStep::Ask(
                EditRequest::ReadFile(copy_parts(&place)),
                EditState::Reading(edit, place),
            ),
        },
        (EditState::Reading(edit, place), EditEvent::Read(read)) => do_replace_in_file(
            edit,
            place,
            read,
        ),
        (EditState::Writing(reply), EditEvent::Written(failure)) => match failure {
            Some(e) => EditStep::Reply(glue("❌ 写入失败: ", e.as_str())),
            None => EditStep::Reply(reply),
        },
        _ => vstd::pervasive::unreached(),
    }
}

// ---------------------------------------------------------------------------
// Whole files
// ---------------------------------------------------------------------------

/// Where a whole file is written.
#[derive(Debug, Clone, PartialEq, Eq)]
pub enum WritePlace {
    /// Over the file at this place.
    Existing(Vec<PathPart>),
    /// Into this directory, under a name that is not taken.
    New(Vec<PathPart>),
}

/// What a `WritePlace` says.
#[verifier::ext_equal]
pub ghost enum WritePlaceView {
    Existing(Seq<PartView>),
    New(Seq<PartView>),
}

impl View for WritePlace {
    type V = WritePlaceView;

    open spec fn view(&self) -> WritePlaceView {
        match *self {
            WritePlace::Existing(place) => WritePlaceView::Existing(view_parts(place@)),
            WritePlace::New(dir) => WritePlaceView::New(view_parts(dir@)),
        }
    }
}

/// Where a whole file is written, given what the file system says of its path and of
/// the directory that it is in. A path that is taken but leads nowhere, such as a
/// broken link, is refused.
pub open spec fn write_place(
    path: Seq<char>,
    whole: LookupView,
    is_taken: bool,
    dir: LookupView,
) -> Result<WritePlaceView, BridgeErrorView> {
    if whole is PathMissing && !is_taken {
        match resolution(path, dir) {
            Ok(place) => Ok(WritePlaceView::New(place)),
            Err(e) => Err(e),
        }
    } else {
        match resolution(path, whole) {
            Ok(place) => Ok(WritePlaceView::Existing(place)),
            Err(e) => Err(e),
        }
    }
}

/// The view of where a file is written.
pub open spec fn view_write_place(r: Result<WritePlace, BridgeError>) -> Result<
    WritePlaceView,
    BridgeErrorView,
> {
    match r {
        Ok(place) => Ok(place@),
        Err(e) => Err(e@),
    }
}

/// Finds where a whole file is written.
pub fn find_write_place(
    bridge: &BridgeBinding,
    path: &str,
    whole: PathLookup,
    is_taken: bool,
    dir: PathLookup,
) -> (r: Result<WritePlace, BridgeError>)
    ensures
        view_write_place(r) == write_place(path@, whole@, is_taken, dir@),
{
    let is_missing = match &whole {
        PathLookup::PathMissing(_) => true,
        _ => false,
    };
    if is_missing && !is_taken {
        match bridge.resolve(path, dir) {
            Ok(place) => Ok(WritePlace::New(place)),
            Err(e) => Err(e),
        }
    } else {
        match bridge.resolve(path, whole) {
            Ok(place) => Ok(WritePlace::Existing(place)),
            Err(e) => Err(e),
        }
    }
}

/// What is said of a whole file that was written.
pub open spec fn written_note(path: Seq<char>, content: Seq<char>) -> Seq<char> {
    path + " ("@ + decimal(byte_len(content)) + " bytes)"@
}

/// What is said of a whole file that was written.
pub fn fmt_written(path: &str, content: &str) -> (r: String)
    ensures
        r@ == written_note(path@, content@),
{
    let mut out = glue(path, " (");
    out.append(decimal_of(byte_len_of(content) as u128).as_str());
    out.append(" bytes)");
    out
}

// ---------------------------------------------------------------------------
// Laws
// ---------------------------------------------------------------------------

/// A whole file is written only over a file in the workspace, or under a free name into
/// a directory in the workspace.
pub proof fn written_file_stays_in_workspace(
    path: Seq<char>,
    whole: LookupView,
    is_taken: bool,
    dir: LookupView,
)
    ensures
        match write_place(path, whole, is_taken, dir) {
            Ok(WritePlaceView::Existing(place)) => {
                &&& whole matches LookupView::Found { root, target }
                &&& place == target
                &&& lies_below(root, target)
            },
            Ok(WritePlaceView::New(place)) => {
                &&& !is_taken
                &&& dir matches LookupView::Found { root, target }
                &&& place == target
                &&& lies_below(root, target)
            },
            Err(_) => true,
        },
{
}

/// A file is read only where its place was found to lie in the workspace, and written
/// only at the place that was read and only if the text to replace stands in it.
pub proof fn edit_stays_in_workspace(
    state: EditStateView,
    event: EditEventView,
    place: Seq<PartView>,
    text: Seq<char>,
    next: EditStateView,
)
    requires
        edit_event_fits(state, event),
    ensures
        edit_next(state, event) == EditStepView::Ask(EditRequestView::ReadFile(place), next) ==> {
            &&& event matches EditEventView::Resolved(LookupView::Found { root, target })
            &&& place == target
            &&& lies_below(root, target)
            &&& next matches EditStateView::Reading(_, p)
            &&& p == place
        },
        edit_next(state, event) == EditStepView::Ask(EditRequestView::WriteFile(place, text), next)
            ==> {
            &&& state matches EditStateView::Reading(edit, p)
            &&& p == place
            &&& event matches EditEventView::Read(Ok(content))
            &&& occurrences(content, edit.old_text) > 0
            &&& text == replace_first(content, edit.old_text, edit.new_text)
        },
{
}

/// A replacement puts the new text where the old one first stood and leaves the rest
/// as it was.
pub proof fn replacement_keeps_rest(content: Seq<char>, old_text: Seq<char>, new_text: Seq<char>)
    requires
        crate::text::contains(content, old_text),
    ensures
        exists|i: int|
            {
                &&& #[trigger] crate::text::occurs_at(content, old_text, i)
                &&& forall|j: int| 0 <= j < i ==> !crate::text::occurs_at(content, old_text, j)
                &&& replace_first(content, old_text, new_text) == content.take(i) + new_text
                    + content.skip(i + old_text.len())
            },
{
    crate::text::lemma_find_from(content, old_text, 0);
    let i = crate::text::find(content, old_text)->0;
    assert(crate::text::occurs_at(content, old_text, i));
}

/// What an edit does next when a step that asks is answered.
pub open spec fn edit_answered(step: EditStepView, event: EditEventView) -> EditStepView {
    edit_next(step->Ask_1, event)
}

/// An edit asks where its path leads, reads the file there, and writes back to that place
/// what it read with the new text where the old one first stood, and all else as it was.
pub proof fn edit_changes_only_the_old_text(
    edit: EditView,
    root: Seq<PartView>,
    rest: Seq<PartView>,
    a: Seq<char>,
    b: Seq<char>,
    e: Seq<char>,
)
    requires
        edit.old_text.len() > 0,
        stands_first_behind(a, edit.old_text),
    ensures
        ({
            let content = a + edit.old_text + b;
            let first = edit_start(edit);
            let second = edit_answered(
                first,
                EditEventView::Resolved(LookupView::Found { root, target: root + rest }),
            );
            let third = edit_answered(second, EditEventView::Read(Ok(content)));
            &&& first is Ask && first->Ask_0 == EditRequestView::Resolve(edit.path)
            &&& second is Ask && second->Ask_0 == EditRequestView::ReadFile(root + rest)
            &&& third is Ask && third->Ask_0 == EditRequestView::WriteFile(
                root + rest,
                a + edit.new_text + b,
            )
            &&& edit_answered(third, EditEventView::Written(None)) == EditStepView::Reply(
                "✅ 已替换 "@ + edit.path + " 中 "@ + decimal(1 + occurrences(b, edit.old_text))
                    + " 处匹配（已替换第1处）\n变更前 "@ + decimal(byte_len(content))
                    + " 字节 → 变更后 "@ + decimal(byte_len(a + edit.new_text + b)) + " 字节"@,
            )
            &&& edit_answered(third, EditEventView::Written(Some(e))) == EditStepView::Reply(
                "❌ 写入失败: "@ + e,
            )
            &&& edit_answered(second, EditEventView::Read(Err(e))) == EditStepView::Reply(
                "❌ 读取失败: "@ + e,
            )
        }),
{
    only_places_below_root_are_let_in(edit.path, root, rest, root);
    first_place_is_replaced(a, edit.old_text, b, edit.new_text);
}

/// Where the old text does not stand in the file, nothing is written, and the reply shows
/// what was looked for.
pub proof fn edit_without_a_match_writes_nothing(
    edit: EditView,
    place: Seq<PartView>,
    content: Seq<char>,
)
    requires
        edit.old_text.len() > 0,
        forall|a: Seq<char>, b: Seq<char>| content != #[trigger] (a + edit.old_text + b),
    ensures
        edit_next(EditStateView::Reading(edit, place), EditEventView::Read(Ok(content)))
            == EditStepView::Reply("❌ 未找到匹配文本:\n"@ + edit.old_text),
{
    absent_text_is_not_replaced(content, edit.old_text, edit.new_text);
}

/// An edit of a file outside the workspace, or of one that is not found, reads nothing.
pub proof fn edit_outside_is_refused(
    edit: EditView,
    root: Seq<PartView>,
    target: Seq<PartView>,
    e: Seq<char>,
)
    requires
        target.len() < root.len() || exists|i: int|
            0 <= i < root.len() && root[i].bytes != (#[trigger] target[i]).bytes,
    ensures
        edit_answered(
            edit_start(edit),
            EditEventView::Resolved(LookupView::Found { root, target }),
        ) == EditStepView::Reply(
            "❌ 路径错误: "@ + bridge_error_text(BridgeErrorView::PathEscape(edit.path)),
        ),
        edit_answered(
            edit_start(edit),
            EditEventView::Resolved(LookupView::PathMissing(e)),
        ) is Reply,
        edit_answered(
            edit_start(edit),
            EditEventView::Resolved(LookupView::RootMissing(e)),
        ) is Reply,
{
    only_places_below_root_are_let_in(edit.path, root, seq![], target);
}

/// A whole file goes over the file that is there, or into the directory where its name is
/// free, and nowhere else.
pub proof fn file_goes_where_it_belongs(
    path: Seq<char>,
    root: Seq<PartView>,
    rest: Seq<PartView>,
    is_taken: bool,
    dir: LookupView,
    e: Seq<char>,
)
    ensures
        write_place(path, (LookupView::Found { root, target: root + rest }), is_taken, dir) == Ok::<
            _,
            BridgeErrorView,
        >(WritePlaceView::Existing(root + rest)),
        write_place(
            path,
            LookupView::PathMissing(e),
            false,
            (LookupView::Found { root, target: root + rest }),
        ) == Ok::<_, BridgeErrorView>(WritePlaceView::New(root + rest)),
        write_place(path, LookupView::PathMissing(e), true, dir) is Err,
        write_place(path, LookupView::RootMissing(e), is_taken, dir) is Err,
{
    only_places_below_root_are_let_in(path, root, rest, root);
}

/// What is said of a file that was written names it and tells how long it is, in bytes.
pub proof fn written_note_names_the_file(path: Seq<char>, content: Seq<char>)
    ensures
        written_note(path, content) == path + " ("@ + decimal(encode_utf8(content).len())
            + " bytes)"@,
{
}

} // verus!
