//! The workspace as a sandbox: what may be touched, and how it is said that it may not.

use crate::contracts::WorkspaceTarget;
use crate::text::glue;
use vstd::prelude::*;

verus! {

/// Why an action was not carried out.
#[derive(Debug, Clone, PartialEq, Eq)]
pub enum BridgeError {
    Io(String),
    PathEscape(String),
    Denied(String),
}

/// What a `BridgeError` says.
#[verifier::ext_equal]
pub ghost enum BridgeErrorView {
    Io(Seq<char>),
    PathEscape(Seq<char>),
    Denied(Seq<char>),
}

impl View for BridgeError {
    type V = BridgeErrorView;

    open spec fn view(&self) -> BridgeErrorView {
        match *self {
            BridgeError::Io(message) => BridgeErrorView::Io(message@),
            BridgeError::PathEscape(path) => BridgeErrorView::PathEscape(path@),
            BridgeError::Denied(reason) => BridgeErrorView::Denied(reason@),
        }
    }
}

/// The text of an error.
pub open spec fn bridge_error_text(e: BridgeErrorView) -> Seq<char> {
    match e {
        BridgeErrorView::Io(message) => "io error: "@ + message,
        BridgeErrorView::PathEscape(path) => "path escapes workspace sandbox: "@ + path,
        BridgeErrorView::Denied(reason) => "action denied: "@ + reason,
    }
}

impl BridgeError {
    pub fn message(&self) -> (r: String)
        ensures
            r@ == bridge_error_text(self@),
    {
        match self {
            BridgeError::Io(message) => glue("io error: ", message.as_str()),
            BridgeError::PathEscape(path) => glue(
                "path escapes workspace sandbox: ",
                path.as_str(),
            ),
            BridgeError::Denied(reason) => glue("action denied: ", reason.as_str()),
        }
    }
}

/// What an action gave out.
#[derive(Debug, Clone, PartialEq, Eq)]
pub struct ActionResult {
    pub success: bool,
    pub content: String,
}

/// What an `ActionResult` says.
#[verifier::ext_equal]
pub ghost struct ActionResultView {
    pub success: bool,
    pub content: Seq<char>,
}

impl View for ActionResult {
    type V = ActionResultView;

    open spec fn view(&self) -> ActionResultView {
        ActionResultView { success: self.success, content: self.content@ }
    }
}

/// What an action came to.
pub type ActionOutcome = Result<ActionResult, BridgeError>;

/// The view of what an action came to.
pub open spec fn view_outcome(o: ActionOutcome) -> Result<ActionResultView, BridgeErrorView> {
    match o {
        Ok(r) => Ok(r@),
        Err(e) => Err(e@),
    }
}

/// One component of a path: its bytes, by which paths are compared, and its name for
/// display.
#[derive(Debug, Clone, PartialEq, Eq)]
pub struct PathPart {
    pub bytes: Vec<u8>,
    pub name: String,
}

/// What a `PathPart` says.
#[verifier::ext_equal]
pub ghost struct PartView {
    pub bytes: Seq<u8>,
    pub name: Seq<char>,
}

impl View for PathPart {
    type V = PartView;

    open spec fn view(&self) -> PartView {
        PartView { bytes: self.bytes@, name: self.name@ }
    }
}

/// The views of the components of a path.
pub open spec fn view_parts(parts: Seq<PathPart>) -> Seq<PartView> {
    parts.map_values(|p: PathPart| p@)
}

/// What the file system says of a path in the workspace, links followed.
#[derive(Debug, Clone, PartialEq, Eq)]
pub enum PathLookup {
    /// The root of the workspace cannot be resolved.
    RootMissing(String),
    /// The path cannot be resolved.
    PathMissing(String),
    /// Where the root and the path really are.
    Found { root: Vec<PathPart>, target: Vec<PathPart> },
}

/// What a `PathLookup` says.
#[verifier::ext_equal]
pub ghost enum LookupView {
    RootMissing(Seq<char>),
    PathMissing(Seq<char>),
    Found { root: Seq<PartView>, target: Seq<PartView> },
}

impl View for PathLookup {
    type V = LookupView;

    open spec fn view(&self) -> LookupView {
        match *self {
            PathLookup::RootMissing(e) => LookupView::RootMissing(e@),
            PathLookup::PathMissing(e) => LookupView::PathMissing(e@),
            PathLookup::Found { root, target } => LookupView::Found {
                root: view_parts(root@),
                target: view_parts(target@),
            },
        }
    }
}

/// Whether `target` is `root` or lies below it, by the bytes of the components.
pub open spec fn lies_below(root: Seq<PartView>, target: Seq<PartView>) -> bool {
    root.len() <= target.len() && forall|i: int|
        0 <= i < root.len() ==> (#[trigger] root[i]).bytes == target[i].bytes
}

fn same_bytes(a: &Vec<u8>, b: &Vec<u8>) -> (r: bool)
    ensures
        r == (a@ == b@),
{
    if a.len() != b.len() {
        return false;
    }
    let mut i: usize = 0;
    while i < a.len()
        invariant
            i <= a@.len(),
            a@.len() == b@.len(),
            forall|j: int| 0 <= j < i ==> a@[j] == b@[j],
        decreases a@.len() - i,
    {
        if a[i] != b[i] {
            return false;
        }
        i += 1;
    }
    assert(a@ =~= b@);
    true
}

fn is_below(root: &Vec<PathPart>, target: &Vec<PathPart>) -> (r: bool)
    ensures
        r == lies_below(view_parts(root@), view_parts(target@)),
{
    if root.len() > target.len() {
        return false;
    }
    let ghost rs = view_parts(root@);
    let ghost ts = view_parts(target@);
    let mut i: usize = 0;
    while i < root.len()
        invariant
            i <= root@.len() <= target@.len(),
            rs == view_parts(root@),
            ts == view_parts(target@),
            forall|j: int| 0 <= j < i ==> (#[trigger] rs[j]).bytes == ts[j].bytes,
        decreases root@.len() - i,
    {
        if !same_bytes(&root[i].bytes, &target[i].bytes) {
            assert(rs[i as int].bytes != ts[i as int].bytes);
            return false;
        }
        i += 1;
    }
    true
}

/// What a path in the workspace resolves to: the components of the place, if it lies
/// in the workspace.
pub open spec fn resolution(rel: Seq<char>, lookup: LookupView) -> Result<
    Seq<PartView>,
    BridgeErrorView,
> {
    match lookup {
        LookupView::RootMissing(e) => Err(BridgeErrorView::Io("workspace root not found: "@ + e)),
        LookupView::PathMissing(e) => Err(BridgeErrorView::Io("path resolution failed: "@ + e)),
        LookupView::Found { root, target } => if lies_below(root, target) {
            Ok(target)
        } else {
            Err(BridgeErrorView::PathEscape(rel))
        },
    }
}

/// The agent's hold on one workspace.
#[derive(Debug, Clone)]
pub struct BridgeBinding {
    pub workspace: WorkspaceTarget,
}

impl BridgeBinding {
    pub fn new(path: String, label: String) -> (r: Self)
        ensures
            r.workspace.path == path,
            r.workspace.label == label,
    {
        BridgeBinding { workspace: WorkspaceTarget { path, label } }
    }

    /// Resolves `rel`, given what the file system says of it, and makes sure that the
    /// place lies in the workspace.
    pub fn resolve(&self, rel: &str, lookup: PathLookup) -> (r: Result<Vec<PathPart>, BridgeError>)
        ensures
            match r {
                Ok(parts) => resolution(rel@, lookup@) == Ok::<_, BridgeErrorView>(
                    view_parts(parts@),
                ),
                Err(e) => resolution(rel@, lookup@) == Err::<Seq<PartView>, _>(e@),
            },
    {
        match lookup {
            PathLookup::RootMissing(e) => Err(
                BridgeError::Io(glue("workspace root not found: ", e.as_str())),
            ),
            PathLookup::PathMissing(e) => Err(
                BridgeError::Io(glue("path resolution failed: ", e.as_str())),
            ),
            PathLookup::Found { root, target } => if is_below(&root, &target) {
                Ok(target)
            } else {
                Err(BridgeError::PathEscape(rel.to_owned()))
            },
        }
    }
}

/// What resolves lies in the workspace, wherever the path led.
pub proof fn resolved_stays_in_workspace(rel: Seq<char>, root: Seq<PartView>, target: Seq<PartView>)
    requires
        resolution(rel, (LookupView::Found { root, target })) is Ok,
    ensures
        lies_below(root, target),
{
}

/// A path that leads out of the workspace is refused by its own name.
pub proof fn escape_is_refused(rel: Seq<char>, root: Seq<PartView>, target: Seq<PartView>)
    requires
        !lies_below(root, target),
    ensures
        resolution(rel, (LookupView::Found { root, target })) == Err::<Seq<PartView>, _>(
            BridgeErrorView::PathEscape(rel),
        ),
{
}

/// A place below the root is let in as it is; a place that is not as long as the root,
/// or that leaves it anywhere, is refused.
pub proof fn only_places_below_root_are_let_in(
    rel: Seq<char>,
    root: Seq<PartView>,
    rest: Seq<PartView>,
    other: Seq<PartView>,
)
    ensures
        resolution(rel, (LookupView::Found { root, target: root + rest })) == Ok::<
            _,
            BridgeErrorView,
        >(root + rest),
        other.len() < root.len() || (exists|i: int|
            0 <= i < root.len() && root[i].bytes != (#[trigger] other[i]).bytes) ==> resolution(
            rel,
            (LookupView::Found { root, target: other }),
        ) == Err::<Seq<PartView>, _>(BridgeErrorView::PathEscape(rel)),
{
    assert(lies_below(root, root + rest));
    if other.len() < root.len() {
        assert(!lies_below(root, other));
    } else if exists|i: int| 0 <= i < root.len() && root[i].bytes != (#[trigger] other[i]).bytes {
        let i = choose|i: int| 0 <= i < root.len() && root[i].bytes != (#[trigger] other[i]).bytes;
        assert(root[i].bytes != other[i].bytes);
        assert(!lies_below(root, other));
    }
}

/// A place that cannot be found is an error that says why.
pub proof fn missing_place_is_an_error(rel: Seq<char>, why: Seq<char>)
    ensures
        resolution(rel, LookupView::RootMissing(why)) == Err::<Seq<PartView>, _>(
            BridgeErrorView::Io("workspace root not found: "@ + why),
        ),
        resolution(rel, LookupView::PathMissing(why)) == Err::<Seq<PartView>, _>(
            BridgeErrorView::Io("path resolution failed: "@ + why),
        ),
{
}

/// The text of an error ends with what went wrong, whole, and its start tells the kind.
pub proof fn error_text_says_what_went_wrong(what: Seq<char>)
    ensures
        bridge_error_text(BridgeErrorView::Io(what)) == "io error: "@ + what,
        bridge_error_text(BridgeErrorView::PathEscape(what)) == "path escapes workspace sandbox: "@
            + what,
        bridge_error_text(BridgeErrorView::Denied(what)) == "action denied: "@ + what,
{
}

} // verus!
