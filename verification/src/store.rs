//! Where sessions and their snapshots are kept.
//!
//! The store decides on names, ids and order. Places are given as the components of a
//! path below the base directory; reading and writing them is left to the host.

use crate::order::{in_order, is_before, lemma_place, orders, text_lt};
use crate::session::{
    blank_session, view_snapshots, SessionMode, SessionSnapshotMeta, SessionView, SnapshotView,
    UserSession,
};
use crate::text::{
    all_space, chars_of, decimal, decimal_of, is_bare, is_digit, split_at_first, split_once, trim,
    trim_set, trimmed, trimmed_set, trimming_keeps_the_rest, view_all, view_opt, view_opt_str,
};
use crate::unicode::{alphanumeric, is_alphanumeric};
use vstd::prelude::*;

verus! {

/// What can go wrong in the store.
#[derive(Debug, Clone, PartialEq, Eq)]
pub enum SessionError {
    Io(String),
    Json(String),
}

/// What an error of the store says.
pub open spec fn session_error_text(e: SessionError) -> Seq<char> {
    match e {
        SessionError::Io(message) => "io: "@ + message@,
        SessionError::Json(message) => "json: "@ + message@,
    }
}

impl SessionError {
    pub fn message(&self) -> (r: String)
        ensures
            r@ == session_error_text(*self),
    {
        match self {
            SessionError::Io(message) => {
                let mut out = "io: ".to_owned();
                out.append(message.as_str());
                out
            },
            SessionError::Json(message) => {
                let mut out = "json: ".to_owned();
                out.append(message.as_str());
                out
            },
        }
    }
}

/// The store of the sessions below one directory.
#[derive(Debug, Clone)]
pub struct SessionStore {
    pub base_dir: String,
}

/// Whether a character can stand in a file name as it is.
pub open spec fn is_safe(c: char) -> bool {
    alphanumeric(c) || c == '-' || c == '_'
}

fn is_safe_char(c: char) -> (r: bool)
    ensures
        r == is_safe(c),
{
    c == '-' || c == '_' || is_alphanumeric(c)
}

/// A text with `stand_in` for every character that cannot stand in a file name.
pub open spec fn with_safe_chars(s: Seq<char>, stand_in: char) -> Seq<char> {
    s.map_values(
        |c: char|
            if is_safe(c) {
                c
            } else {
                stand_in
            },
    )
}

fn replace_unsafe(s: &str, stand_in: char) -> (r: String)
    ensures
        r@ == with_safe_chars(s@, stand_in),
{
    let cs = chars_of(s);
    let mut out = String::new();
    let mut i: usize = 0;
    while i < cs.len()
        invariant
            cs@ == s@,
            i <= cs@.len(),
            out@ =~= with_safe_chars(s@.take(i as int), stand_in),
        decreases cs@.len() - i,
    {
        if is_safe_char(cs[i]) {
            out.push(cs[i]);
        } else {
            out.push(stand_in);
        }
        i += 1;
    }
    assert(s@.take(i as int) =~= s@);
    out
}

/// The key of a user or a snapshot as a part of a file name.
pub open spec fn sanitized(key: Seq<char>) -> Seq<char> {
    with_safe_chars(key, '_')
}

/// The components of the file of a user's session.
pub open spec fn session_path(user_id: Seq<char>) -> Seq<Seq<char>> {
    seq![sanitized(user_id) + ".json"@]
}

/// The session of a user of whom this much is stored.
pub open spec fn opened(user_id: Seq<char>, stored: Option<SessionView>) -> SessionView {
    match stored {
        Some(s) => s,
        None => blank_session(user_id),
    }
}

/// A session as that of another user.
pub open spec fn bound_to(user_id: Seq<char>, s: SessionView) -> SessionView {
    SessionView { user_id, ..s }
}

/// The components of the directory of a user's snapshots.
pub open spec fn history_path(user_id: Seq<char>) -> Seq<Seq<char>> {
    seq!["_history"@, sanitized(user_id)]
}

/// The components of the file that a snapshot is written to.
pub open spec fn written_snapshot_path(user_id: Seq<char>, id: Seq<char>) -> Seq<Seq<char>> {
    history_path(user_id).push(id + ".json"@)
}

/// The components of the file that a snapshot is read from. The id comes from a user.
pub open spec fn read_snapshot_path(user_id: Seq<char>, id: Seq<char>) -> Seq<Seq<char>> {
    history_path(user_id).push(sanitized(id) + ".json"@)
}

/// A label as a part of an id.
pub open spec fn label_slug(label: Option<Seq<char>>) -> Seq<char> {
    let text = match label {
        Some(s) => s,
        None => ""@,
    };
    trim_set(with_safe_chars(trim(text), '-'), DASHES@)
}

pub const DASHES: [char; 1] = ['-'];

/// The id of a snapshot: when it was made, and its label where there is one.
pub open spec fn snapshot_id(ts: nat, label: Option<Seq<char>>) -> Seq<char> {
    if label_slug(label).len() == 0 {
        decimal(ts)
    } else {
        decimal(ts) + "-"@ + label_slug(label)
    }
}

/// The label in an id: what follows the first dash.
pub open spec fn label_in(id: Seq<char>) -> Option<Seq<char>> {
    match split_once(id, "-"@) {
        Some(parts) => Some(parts.1),
        None => None,
    }
}

/// What the list shows of a snapshot.
pub open spec fn snapshot_meta(id: Seq<char>, session: SessionView) -> SnapshotView {
    SnapshotView {
        id,
        label: label_in(id),
        updated_at: session.updated_at,
        current_task: session.current_task,
        pending_steps: session.pending_steps.len(),
    }
}

/// What came of one entry of a history directory that names a snapshot: its session, or
/// why it could not be had.
pub enum HistoryEntry {
    Failed(SessionError),
    Snapshot { id: String, session: UserSession },
}

/// The failure that comes first.
pub open spec fn first_failure(entries: Seq<HistoryEntry>) -> Option<SessionError>
    decreases entries.len(),
{
    if entries.len() == 0 {
        None
    } else {
        match entries[0] {
            HistoryEntry::Failed(e) => Some(e),
            HistoryEntry::Snapshot { .. } => first_failure(entries.skip(1)),
        }
    }
}

/// What the list shows of the entries, as they come, where none failed.
pub open spec fn view_entries(entries: Seq<HistoryEntry>) -> Option<Seq<SnapshotView>>
    decreases entries.len(),
{
    if entries.len() == 0 {
        Some(seq![])
    } else {
        match (entries[0], view_entries(entries.skip(1))) {
            (HistoryEntry::Snapshot { id, session }, Some(more)) => Some(
                seq![snapshot_meta(id@, session@)] + more,
            ),
            _ => None,
        }
    }
}

/// The order of snapshots: by their ids, the last in front.
pub open spec fn by_newest() -> spec_fn(SnapshotView, SnapshotView) -> bool {
    |a: SnapshotView, b: SnapshotView| text_lt(b.id, a.id)
}

impl SessionStore {
    pub fn new(base_dir: String) -> (r: Self)
        ensures
            r.base_dir == base_dir,
    {
        SessionStore { base_dir }
    }

    /// `key` with `_` for every character that is not alphanumeric, `-` or `_`.
    pub fn sanitize_key(key: &str) -> (r: String)
        ensures
            r@ == sanitized(key@),
    {
        replace_unsafe(key, '_')
    }

    /// Where the session of a user is kept, below the base directory.
    pub fn path_for(&self, user_id: &str) -> (r: Vec<String>)
        ensures
            view_all(r@) == session_path(user_id@),
    {
        let mut name = Self::sanitize_key(user_id);
        name.append(".json");
        let r = vec![name];
        assert(view_all(r@) =~= session_path(user_id@));
        r
    }

    /// Where the snapshots of a user are kept, below the base directory.
    pub fn history_dir_for(&self, user_id: &str) -> (r: Vec<String>)
        ensures
            view_all(r@) == history_path(user_id@),
    {
        let r = vec!["_history".to_owned(), Self::sanitize_key(user_id)];
        assert(view_all(r@) =~= history_path(user_id@));
        r
    }

    /// The session of a user, given what was read from the file that `path_for` names:
    /// a blank one if nothing could be read.
    pub fn load(&self, user_id: &str, stored: Option<UserSession>) -> (r: UserSession)
        ensures
            r@ == opened(
                user_id@,
                match stored {
                    Some(s) => Some(s@),
                    None => None,
                },
            ),
    {
        match stored {
            Some(s) => s,
            None => {
                let pending_steps: Vec<String> = Vec::new();
                assert(view_all(pending_steps@) =~= seq![]);
                UserSession {
                    user_id: user_id.to_owned(),
                    mode: SessionMode::Coding,
                    current_task: None,
                    pending_steps,
                    last_result: None,
                    last_action: None,
                    pending_terminal_command: None,
                    updated_at: 0,
                }
            },
        }
    }

    /// Where a session is written, below the base directory. What was there before is
    /// replaced.
    pub fn save(&self, session: &UserSession) -> (r: Vec<String>)
        ensures
            view_all(r@) == session_path(session@.user_id),
    {
        self.path_for(session.user_id.as_str())
    }

    /// The file that is removed, below the base directory, so that nothing is known of
    /// a user. It need not be there.
    pub fn clear(&self, user_id: &str) -> (r: Vec<String>)
        ensures
            view_all(r@) == session_path(user_id@),
    {
        self.path_for(user_id)
    }

    /// The id of a snapshot made now, and where it is written.
    pub fn save_snapshot(&self, session: &UserSession, label: Option<&str>) -> (r: (
        String,
        Vec<String>,
    ))
        ensures
            exists|ts: u64|
                r.0@ == #[trigger] snapshot_id(ts as nat, view_opt_str(label)),
            view_all(r.1@) == written_snapshot_path(session@.user_id, r.0@),
    {
        self.save_snapshot_at(session, label, now_secs())
    }

    /// The id of a snapshot made at `ts`, and where it is written.
    pub fn save_snapshot_at(&self, session: &UserSession, label: Option<&str>, ts: u64) -> (r: (
        String,
        Vec<String>,
    ))
        ensures
            r.0@ == snapshot_id(ts as nat, view_opt_str(label)),
            view_all(r.1@) == written_snapshot_path(session@.user_id, r.0@),
    {
        let text: &str = match label {
            Some(s) => s,
            None => "",
        };
        let safe = replace_unsafe(trimmed(text), '-');
        let slug = trimmed_set(safe.as_str(), DASHES.as_slice());
        let mut id = decimal_of(ts as u128);
        if !slug.is_empty() {
            id.append("-");
            id.append(slug);
        }
        let mut name = id.clone();
        name.append(".json");
        let mut path = self.history_dir_for(session.user_id.as_str());
        let ghost dir = view_all(path@);
        path.push(name);
        assert(view_all(path@) =~= dir.push(name@));
        (id, path)
    }

    /// The id of the snapshot in a file, given the ending of the file's name and what
    /// stands before it. Only `.json` files hold snapshots.
    pub fn snapshot_in(extension: Option<&str>, stem: Option<&str>) -> (r: Option<String>)
        ensures
            view_opt(r) == if view_opt_str(extension) == Some("json"@) {
                Some(
                    match stem {
                        Some(s) => s@,
                        None => ""@,
                    },
                )
            } else {
                None
            },
    {
        match extension {
            Some(e) => if crate::text::same(e, "json") {
                match stem {
                    Some(s) => Some(s.to_owned()),
                    None => Some("".to_owned()),
                }
            } else {
                None
            },
            None => None,
        }
    }

    /// What the list shows of the snapshot `id`.
    pub fn describe_snapshot(id: String, session: UserSession) -> (r: SessionSnapshotMeta)
        ensures
            r@ == snapshot_meta(id@, session@),
    {
        let label: Option<String> = match split_at_first(id.as_str(), "-") {
            Some((_, rest)) => Some(rest.to_owned()),
            None => None,
        };
        let pending_steps: usize = session.pending_steps.len();
        SessionSnapshotMeta {
            id,
            label,
            updated_at: session.updated_at,
            current_task: session.current_task,
            pending_steps,
        }
    }

    /// What the list shows of the entries of a history directory, newest first, or the
    /// first failure.
    pub fn list_snapshots(&self, entries: Vec<HistoryEntry>) -> (r: Result<
        Vec<SessionSnapshotMeta>,
        SessionError,
    >)
        ensures
            match r {
                Ok(items) => view_entries(entries@) matches Some(found) && view_snapshots(items@)
                    == in_order(found, by_newest()),
                Err(e) => first_failure(entries@) == Some(e),
            },
            r is Ok <==> first_failure(entries@) is None,
    {
        let mut rest = entries;
        let ghost all = entries@;
        let mut found: Vec<SessionSnapshotMeta> = Vec::new();
        let ghost mut done: Seq<SnapshotView> = seq![];
        assert(view_snapshots(found@) =~= done);
        while rest.len() > 0
            invariant
                all == entries@,
                view_snapshots(found@) == done,
                first_failure(all) == first_failure(rest@),
                view_entries(all) == match view_entries(rest@) {
                    Some(more) => Some(done + more),
                    None => None,
                },
            decreases rest@.len(),
        {
            let ghost left = rest@;
            let entry = rest.remove(0);
            assert(rest@ =~= left.skip(1));
            match entry {
                HistoryEntry::Failed(e) => {
                    return Err(e);
                },
                HistoryEntry::Snapshot { id, session } => {
                    let meta = Self::describe_snapshot(id, session);
                    let ghost before = done;
                    proof {
                        done = done.push(meta@);
                        if let Some(more) = view_entries(rest@) {
                            assert(before + (seq![meta@] + more) =~= done + more);
                        }
                    }
                    found.push(meta);
                    assert(view_snapshots(found@) =~= done);
                },
            }
        }
        assert(done + Seq::<SnapshotView>::empty() =~= done);
        Ok(Self::sort_snapshots(found))
    }

    fn sort_snapshots(found: Vec<SessionSnapshotMeta>) -> (r: Vec<SessionSnapshotMeta>)
        ensures
            view_snapshots(r@) == in_order(view_snapshots(found@), by_newest()),
    {
        let mut rest = found;
        let ghost model = view_snapshots(found@);
        let mut out: Vec<SessionSnapshotMeta> = Vec::new();
        let mut k: usize = 0;
        let n: usize = rest.len();
        assert(model.take(0) =~= seq![]);
        assert(view_snapshots(out@) =~= seq![]);
        while rest.len() > 0
            invariant
                k + rest@.len() == n,
                n == model.len(),
                view_snapshots(rest@) =~= model.skip(k as int),
                view_snapshots(out@) == in_order(model.take(k as int), by_newest()),
            decreases rest@.len(),
        {
            let ghost left = view_snapshots(rest@);
            assert(left[0] == model[k as int]);
            let item = rest.remove(0);
            assert(view_snapshots(rest@) =~= left.skip(1));
            assert(left.skip(1) =~= model.skip(k + 1));
            let ghost before = view_snapshots(out@);
            let mut i: usize = 0;
            while i < out.len() && !is_before(out[i].id.as_str(), item.id.as_str())
                invariant
                    i <= out@.len(),
                    before == view_snapshots(out@),
                    forall|j: int|
                        0 <= j < i ==> !by_newest()(item@, #[trigger] before[j]),
                decreases out@.len() - i,
            {
                assert(before[i as int] == out@[i as int]@);
                i += 1;
            }
            proof {
                lemma_place(before, item@, by_newest(), i as int);
                assert(model.take(k + 1).drop_last() =~= model.take(k as int));
                assert(model.take(k + 1).last() == item@);
            }
            out.insert(i, item);
            assert(view_snapshots(out@) =~= before.insert(i as int, item@));
            k += 1;
        }
        assert(model.take(k as int) =~= model);
        out
    }

    /// Where the snapshot `snapshot_id` of a user is read from.
    pub fn snapshot_path_for(&self, user_id: &str, snapshot_id: &str) -> (r: Vec<String>)
        ensures
            view_all(r@) == read_snapshot_path(user_id@, snapshot_id@),
    {
        let mut name = Self::sanitize_key(snapshot_id);
        name.append(".json");
        let mut path = self.history_dir_for(user_id);
        let ghost dir = view_all(path@);
        path.push(name);
        assert(view_all(path@) =~= dir.push(name@));
        path
    }

    /// A snapshot as the session of the user who loads it.
    pub fn load_snapshot(&self, user_id: &str, stored: UserSession) -> (r: UserSession)
        ensures
            r@ == bound_to(user_id@, stored@),
    {
        let mut s = stored;
        s.user_id = user_id.to_owned();
        s
    }
}

/// The time in seconds since 1970, by the clock of the machine, through
/// `std::time::SystemTime`. A clock that stands before that year gives 0.
#[verifier::external_body]
pub fn now_secs() -> (r: u64)
{
    std::time::SystemTime::now()
        .duration_since(std::time::UNIX_EPOCH)
        .unwrap_or_default()
        .as_secs()
}

/// The directory for sessions below a workspace.
pub open spec fn session_dir(workspace: Seq<char>) -> Seq<char> {
    workspace + "/.harborbeacon/sessions"@
}

/// `{workspace}/.harborbeacon/sessions`.
pub fn default_session_dir(workspace: &str) -> (r: String)
    ensures
        r@ == session_dir(workspace@),
{
    let mut out = workspace.to_owned();
    out.append("/.harborbeacon/sessions");
    out
}

// ---------------------------------------------------------------------------
// Laws
// ---------------------------------------------------------------------------

/// Whether every character can stand in a file name as it is.
pub open spec fn all_safe(s: Seq<char>) -> bool {
    forall|i: int| 0 <= i < s.len() ==> is_safe(#[trigger] s[i])
}

/// Whether a path stays below the directory that it starts from: no component holds a
/// separator or leads upwards or nowhere.
pub open spec fn stays_below(path: Seq<Seq<char>>) -> bool {
    forall|i: int|
        #![trigger path[i]]
        0 <= i < path.len() ==> {
            &&& !path[i].contains('/')
            &&& !path[i].contains('\\')
            &&& !path[i].contains(':')
            &&& path[i] != "."@
            &&& path[i] != ".."@
        }
}

/// A sanitized key holds no separator, no dot and no colon, whatever the key holds.
pub proof fn sanitized_is_safe(key: Seq<char>)
    ensures
        sanitized(key).len() == key.len(),
        all_safe(sanitized(key)),
        !sanitized(key).contains('/'),
        !sanitized(key).contains('\\'),
        !sanitized(key).contains('.'),
        !sanitized(key).contains(':'),
{
    let r = sanitized(key);
    assert forall|i: int| 0 <= i < r.len() implies is_safe(#[trigger] r[i]) by {
        assert(r[i] == key[i] || r[i] == '_');
    }
}

/// Sanitizing what is sanitized changes nothing.
pub proof fn sanitized_twice(key: Seq<char>)
    ensures
        sanitized(sanitized(key)) == sanitized(key),
{
    sanitized_is_safe(key);
    sanitized_keeps_safe(sanitized(key));
}

/// A key that is safe is kept as it is.
pub proof fn sanitized_keeps_safe(key: Seq<char>)
    requires
        all_safe(key),
    ensures
        sanitized(key) == key,
{
    assert(sanitized(key) =~= key);
}

proof fn lemma_json_name(stem: Seq<char>)
    requires
        all_safe(stem),
    ensures
        !(stem + ".json"@).contains('/'),
        !(stem + ".json"@).contains('\\'),
        !(stem + ".json"@).contains(':'),
        stem + ".json"@ != "."@,
        stem + ".json"@ != ".."@,
{
    reveal_strlit(".json");
    reveal_strlit(".");
    reveal_strlit("..");
    let name = stem + ".json"@;
    assert(".json"@.len() == 5 && "."@.len() == 1 && ".."@.len() == 2);
    assert(name.len() == stem.len() + 5);
    assert forall|i: int| 0 <= i < name.len() implies #[trigger] name[i] != '/' && name[i] != '\\'
        && name[i] != ':' by {
        if i < stem.len() {
            assert(name[i] == stem[i]);
        } else {
            assert(name[i] == ".json"@[i - stem.len()]);
        }
    }
}

/// The session of any user and the snapshots of any user stay below the base
/// directory, whatever the ids hold.
pub proof fn paths_stay_below(user_id: Seq<char>, id: Seq<char>)
    ensures
        stays_below(session_path(user_id)),
        stays_below(history_path(user_id)),
        stays_below(read_snapshot_path(user_id, id)),
{
    reveal_strlit("_history");
    reveal_strlit(".");
    reveal_strlit("..");
    sanitized_is_safe(user_id);
    sanitized_is_safe(id);
    lemma_json_name(sanitized(user_id));
    lemma_json_name(sanitized(id));
    let safe = sanitized(user_id);
    assert(safe != "."@ && safe != ".."@) by {
        assert("."@[0] == '.');
        assert(".."@[0] == '.');
    }
    let top = "_history"@;
    assert(top.len() == 8 && "."@.len() == 1 && ".."@.len() == 2);
    assert(forall|i: int| 0 <= i < top.len() ==> #[trigger] top[i] != '/' && top[i] != '\\' && top[i] != ':');
}

proof fn lemma_decimal_digits(n: nat)
    ensures
        decimal(n).len() > 0,
        forall|i: int| 0 <= i < decimal(n).len() ==> is_digit(#[trigger] decimal(n)[i]),
    decreases n,
{
    if n >= 10 {
        lemma_decimal_digits(n / 10);
    }
}

proof fn lemma_trim_set_safe(s: Seq<char>, set: Seq<char>)
    requires
        all_safe(s),
    ensures
        all_safe(trim_set(s, set)),
{
    lemma_trim_start_set_safe(s, set);
    lemma_trim_end_set_safe(crate::text::trim_start_set(s, set), set);
}

proof fn lemma_trim_start_set_safe(s: Seq<char>, set: Seq<char>)
    requires
        all_safe(s),
    ensures
        all_safe(crate::text::trim_start_set(s, set)),
    decreases s.len(),
{
    if s.len() > 0 {
        lemma_trim_start_set_safe(s.skip(1), set);
    }
}

proof fn lemma_trim_end_set_safe(s: Seq<char>, set: Seq<char>)
    requires
        all_safe(s),
    ensures
        all_safe(crate::text::trim_end_set(s, set)),
    decreases s.len(),
{
    if s.len() > 0 {
        lemma_trim_end_set_safe(s.drop_last(), set);
    }
}

/// An id that the store gives out is safe, whatever the label holds.
pub proof fn snapshot_id_is_safe(ts: nat, label: Option<Seq<char>>)
    ensures
        all_safe(snapshot_id(ts, label)),
{
    reveal_strlit("-");
    lemma_decimal_digits(ts);
    let text = match label {
        Some(s) => s,
        None => ""@,
    };
    let safe = with_safe_chars(trim(text), '-');
    assert forall|i: int| 0 <= i < safe.len() implies is_safe(#[trigger] safe[i]) by {
        assert(safe[i] == trim(text)[i] || safe[i] == '-');
    }
    lemma_trim_set_safe(safe, DASHES@);
    let slug = label_slug(label);
    let id = snapshot_id(ts, label);
    assert forall|i: int| 0 <= i < id.len() implies is_safe(#[trigger] id[i]) by {
        let d = decimal(ts);
        if i < d.len() {
            assert(id[i] == d[i]);
        } else if i > d.len() {
            assert(id[i] == slug[i - d.len() - 1]);
        }
    }
}

/// A snapshot is read from where it was written.
pub proof fn snapshot_is_read_where_written(
    user_id: Seq<char>,
    ts: nat,
    label: Option<Seq<char>>,
)
    ensures
        read_snapshot_path(user_id, snapshot_id(ts, label)) == written_snapshot_path(
            user_id,
            snapshot_id(ts, label),
        ),
{
    snapshot_id_is_safe(ts, label);
    sanitized_keeps_safe(snapshot_id(ts, label));
}

/// The label that the list shows is the one that the snapshot was saved with, as far
/// as it can stand in a file name, and none where nothing of it can.
pub proof fn label_survives(ts: nat, label: Option<Seq<char>>)
    ensures
        label_in(snapshot_id(ts, label)) == if label_slug(label).len() == 0 {
            None::<Seq<char>>
        } else {
            Some(label_slug(label))
        },
{
    reveal_strlit("-");
    lemma_decimal_digits(ts);
    let d = decimal(ts);
    let id = snapshot_id(ts, label);
    crate::text::lemma_find_from(id, "-"@, 0);
    assert forall|j: int| 0 <= j < d.len() implies !crate::text::occurs_at(id, "-"@, j) by {
        assert(id[j] == d[j]);
        if crate::text::occurs_at(id, "-"@, j) {
            assert(id.subrange(j, j + 1)[0] == id[j]);
        }
    }
    if label_slug(label).len() > 0 {
        assert(id.subrange(d.len() as int, d.len() as int + 1) =~= "-"@);
        assert(crate::text::occurs_at(id, "-"@, d.len() as int));
        assert(id.skip(d.len() as int + 1) =~= label_slug(label));
    } else {
        assert forall|j: int| 0 <= j implies !crate::text::occurs_at(id, "-"@, j) by {}
    }
}

proof fn lemma_decimal_order(a: nat, b: nat, s: Seq<char>, t: Seq<char>)
    requires
        a < b,
        decimal(a).len() == decimal(b).len(),
    ensures
        text_lt(decimal(a) + s, decimal(b) + t),
    decreases b,
{
    if b >= 10 {
        lemma_decimal_digits(b / 10);
        if a < 10 {
            assert(decimal(b).len() > 1);
        }
        let (x, y) = (a / 10, b / 10);
        let (u, v) = (seq![crate::text::digit(a % 10)] + s, seq![crate::text::digit(b % 10)] + t);
        assert(decimal(a) + s =~= decimal(x) + u);
        assert(decimal(b) + t =~= decimal(y) + v);
        if x < y {
            lemma_decimal_order(x, y, u, v);
        } else {
            assert(x == y);
            assert(text_lt(u, v));
            lemma_common_front(decimal(x), u, v);
        }
    } else {
        assert((decimal(a) + s)[0] == crate::text::digit(a));
        assert((decimal(b) + t)[0] == crate::text::digit(b));
    }
}

proof fn lemma_common_front(front: Seq<char>, s: Seq<char>, t: Seq<char>)
    requires
        text_lt(s, t),
    ensures
        text_lt(front + s, front + t),
    decreases front.len(),
{
    if front.len() == 0 {
        assert(front + s =~= s);
        assert(front + t =~= t);
    } else {
        lemma_common_front(front.skip(1), s, t);
        assert((front + s).skip(1) =~= front.skip(1) + s);
        assert((front + t).skip(1) =~= front.skip(1) + t);
        assert((front + s)[0] == front[0] && (front + t)[0] == front[0]);
    }
}

/// Of two snapshots the one made later goes before the other in the list, as long as
/// both times have the same number of digits. (Those of the years from 2002 to 2286
/// have.)
pub proof fn later_snapshot_goes_before(
    earlier: nat,
    later: nat,
    a: SnapshotView,
    b: SnapshotView,
    label_a: Option<Seq<char>>,
    label_b: Option<Seq<char>>,
)
    requires
        earlier < later,
        decimal(earlier).len() == decimal(later).len(),
        a.id == snapshot_id(earlier, label_a),
        b.id == snapshot_id(later, label_b),
    ensures
        by_newest()(b, a),
{
    let s = if label_slug(label_a).len() == 0 {
        seq![]
    } else {
        "-"@ + label_slug(label_a)
    };
    let t = if label_slug(label_b).len() == 0 {
        seq![]
    } else {
        "-"@ + label_slug(label_b)
    };
    assert(a.id =~= decimal(earlier) + s);
    assert(b.id =~= decimal(later) + t);
    lemma_decimal_order(earlier, later, s, t);
}

/// The list of snapshots is in order, the greatest id in front, and holds what was
/// found and nothing else.
pub proof fn snapshots_are_listed_newest_first(found: Seq<SnapshotView>)
    ensures
        crate::order::is_ordered(in_order(found, by_newest()), by_newest()),
        in_order(found, by_newest()).to_multiset() == found.to_multiset(),
{
    by_newest_orders();
    crate::order::in_order_is_ordered(found, by_newest());
    crate::order::in_order_permutes(found, by_newest());
}

proof fn by_newest_orders()
    ensures
        orders(by_newest()),
{
    crate::order::by_name_orders();
    let lt = crate::order::by_name();
    let newest = by_newest();
    assert forall|a: SnapshotView, b: SnapshotView| #[trigger] newest(a, b) implies !newest(
        b,
        a,
    ) by {
        assert(lt(b.id, a.id));
    }
    assert forall|a: SnapshotView, b: SnapshotView, c: SnapshotView|
        #![trigger newest(a, b), newest(b, c)]
        !newest(a, b) && !newest(b, c) implies !newest(a, c) by {
        assert(!lt(c.id, b.id) && !lt(b.id, a.id));
        assert(!lt(c.id, a.id));
    }
}

/// What stands in the file at `path`.
pub open spec fn stored_at(
    files: Map<Seq<Seq<char>>, SessionView>,
    path: Seq<Seq<char>>,
) -> Option<SessionView> {
    if files.contains_key(path) {
        Some(files[path])
    } else {
        None
    }
}

/// The files after a session is written where `save` says.
pub open spec fn after_save(
    files: Map<Seq<Seq<char>>, SessionView>,
    s: SessionView,
) -> Map<Seq<Seq<char>>, SessionView> {
    files.insert(session_path(s.user_id), s)
}

/// The files after the one that `clear` names is removed.
pub open spec fn after_clear(
    files: Map<Seq<Seq<char>>, SessionView>,
    user_id: Seq<char>,
) -> Map<Seq<Seq<char>>, SessionView> {
    files.remove(session_path(user_id))
}

/// The files after a snapshot is written where `save_snapshot_at` says.
pub open spec fn after_snapshot(
    files: Map<Seq<Seq<char>>, SessionView>,
    s: SessionView,
    label: Option<Seq<char>>,
    ts: nat,
) -> Map<Seq<Seq<char>>, SessionView> {
    files.insert(written_snapshot_path(s.user_id, snapshot_id(ts, label)), s)
}

/// What `load` gives for a user.
pub open spec fn loaded(
    files: Map<Seq<Seq<char>>, SessionView>,
    user_id: Seq<char>,
) -> SessionView {
    opened(user_id, stored_at(files, session_path(user_id)))
}

/// What `load_snapshot` gives for a user, where there is such a snapshot.
pub open spec fn loaded_snapshot(
    files: Map<Seq<Seq<char>>, SessionView>,
    user_id: Seq<char>,
    id: Seq<char>,
) -> Option<SessionView> {
    match stored_at(files, read_snapshot_path(user_id, id)) {
        Some(s) => Some(bound_to(user_id, s)),
        None => None,
    }
}

proof fn lemma_session_paths(a: Seq<char>, b: Seq<char>)
    requires
        session_path(a) == session_path(b),
    ensures
        sanitized(a) == sanitized(b),
{
    let (x, y) = (sanitized(a), sanitized(b));
    let (p, q) = (x + ".json"@, y + ".json"@);
    assert(session_path(a)[0] == p && session_path(b)[0] == q);
    assert(p.take(p.len() - ".json"@.len()) =~= x);
    assert(q.take(q.len() - ".json"@.len()) =~= y);
}

/// A session that was saved is loaded as it was, by every user whose id gives the same
/// file name, and every other user finds what was there before.
pub proof fn saved_session_is_loaded(
    files: Map<Seq<Seq<char>>, SessionView>,
    s: SessionView,
    other: Seq<char>,
)
    ensures
        loaded(after_save(files, s), s.user_id) == s,
        sanitized(other) == sanitized(s.user_id) ==> loaded(after_save(files, s), other) == opened(
            other,
            Some(s),
        ),
        sanitized(other) != sanitized(s.user_id) ==> loaded(after_save(files, s), other) == loaded(
            files,
            other,
        ),
{
    if session_path(other) == session_path(s.user_id) {
        lemma_session_paths(other, s.user_id);
    }
}

/// Nothing is known of a user whose session was cleared, whatever was there before.
/// Clearing it again changes nothing, and every user whose id gives another file name
/// keeps theirs.
pub proof fn cleared_session_is_blank(
    files: Map<Seq<Seq<char>>, SessionView>,
    user_id: Seq<char>,
    other: Seq<char>,
)
    ensures
        loaded(after_clear(files, user_id), user_id) == blank_session(user_id),
        after_clear(after_clear(files, user_id), user_id) == after_clear(files, user_id),
        sanitized(other) != sanitized(user_id) ==> loaded(after_clear(files, user_id), other)
            == loaded(files, other),
{
    assert(after_clear(after_clear(files, user_id), user_id) =~= after_clear(files, user_id));
    if session_path(other) == session_path(user_id) {
        lemma_session_paths(other, user_id);
    }
}

/// A snapshot that was saved is loaded under its id as it was, by every user whose id
/// gives the same directory, and is then theirs. Saving it touches no other snapshot of
/// theirs, none of another user, and no session, and neither saving nor clearing a
/// session touches a snapshot.
pub proof fn saved_snapshot_is_loaded(
    files: Map<Seq<Seq<char>>, SessionView>,
    s: SessionView,
    label: Option<Seq<char>>,
    ts: nat,
    user_id: Seq<char>,
    id: Seq<char>,
)
    ensures
        loaded_snapshot(after_snapshot(files, s, label, ts), s.user_id, snapshot_id(ts, label))
            == Some(s),
        sanitized(user_id) == sanitized(s.user_id) ==> loaded_snapshot(
            after_snapshot(files, s, label, ts),
            user_id,
            snapshot_id(ts, label),
        ) == Some(bound_to(user_id, s)),
        sanitized(user_id) != sanitized(s.user_id) || sanitized(id) != snapshot_id(ts, label)
            ==> loaded_snapshot(after_snapshot(files, s, label, ts), user_id, id)
            == loaded_snapshot(files, user_id, id),
        loaded(after_snapshot(files, s, label, ts), user_id) == loaded(files, user_id),
        loaded_snapshot(after_save(files, s), user_id, id) == loaded_snapshot(files, user_id, id),
        loaded_snapshot(after_clear(files, s.user_id), user_id, id) == loaded_snapshot(
            files,
            user_id,
            id,
        ),
{
    snapshot_is_read_where_written(s.user_id, ts, label);
    snapshot_is_read_where_written(user_id, ts, label);
    let (mine, theirs) = (
        written_snapshot_path(s.user_id, snapshot_id(ts, label)),
        read_snapshot_path(user_id, id),
    );
    assert(mine[1] == sanitized(s.user_id) && theirs[1] == sanitized(user_id));
    let (p, q) = (snapshot_id(ts, label) + ".json"@, sanitized(id) + ".json"@);
    assert(mine[2] == p && theirs[2] == q);
    assert(p.take(p.len() - ".json"@.len()) =~= snapshot_id(ts, label));
    assert(q.take(q.len() - ".json"@.len()) =~= sanitized(id));
    assert(session_path(user_id).len() == 1);
    assert(session_path(s.user_id).len() == 1);
    assert(written_snapshot_path(s.user_id, snapshot_id(ts, label)).len() == 3);
    assert(read_snapshot_path(user_id, id).len() == 3);
}

/// Letters, digits, dashes and underscores of ASCII are kept in a file name, and each
/// other ASCII character is replaced, one for one.
pub proof fn sanitizing_goes_by_character(key: Seq<char>, i: int)
    requires
        0 <= i < key.len(),
        key[i] <= '\u{7f}',
    ensures
        sanitized(key).len() == key.len(),
        'a' <= key[i] <= 'z' || 'A' <= key[i] <= 'Z' || '0' <= key[i] <= '9' || key[i] == '-'
            || key[i] == '_' ==> sanitized(key)[i] == key[i],
        !('a' <= key[i] <= 'z' || 'A' <= key[i] <= 'Z' || '0' <= key[i] <= '9' || key[i] == '-'
            || key[i] == '_') ==> sanitized(key)[i] == '_',
{
}

/// The session of a user is kept in a file named after the user, and the snapshots in a
/// directory named after the user, as far as the id can stand in a name.
pub proof fn files_are_named_after_the_user(user_id: Seq<char>, id: Seq<char>)
    requires
        all_safe(user_id),
        all_safe(id),
    ensures
        session_path(user_id) == seq![user_id + ".json"@],
        history_path(user_id) == seq!["_history"@, user_id],
        written_snapshot_path(user_id, id) == seq!["_history"@, user_id, id + ".json"@],
        read_snapshot_path(user_id, id) == seq!["_history"@, user_id, id + ".json"@],
{
    sanitized_keeps_safe(user_id);
    sanitized_keeps_safe(id);
}

/// The id of a snapshot is its time, and behind it its label, as far as the label can
/// stand in a name; a label that can is kept as it is.
pub proof fn snapshot_id_tells_time_and_label(
    ts: nat,
    lead: Seq<char>,
    label: Seq<char>,
    tail: Seq<char>,
)
    requires
        all_space(lead),
        all_space(tail),
        is_bare(label),
        all_safe(label),
        label[0] != '-',
        label.last() != '-',
    ensures
        snapshot_id(ts, Some(lead + label + tail)) == decimal(ts) + "-"@ + label,
        snapshot_id(ts, Some(lead + tail)) == decimal(ts),
        snapshot_id(ts, None) == decimal(ts),
{
    reveal_strlit("");
    assert(DASHES@ =~= seq!['-']);
    trimming_keeps_the_rest(lead, label, tail);
    assert(with_safe_chars(label, '-') =~= label);
    assert(trim_set(label, DASHES@) == label);
    assert(trim(lead + tail) =~= seq![]);
    let none = Seq::<char>::empty();
    assert(with_safe_chars(none, '-') =~= none);
    assert(trim_set(none, DASHES@) =~= none);
    assert(trim(""@) =~= none);
    assert(""@ =~= none);
}

/// What the list shows of a snapshot is what stands in it.
pub proof fn list_shows_what_was_saved(id: Seq<char>, session: SessionView)
    ensures
        snapshot_meta(id, session).id == id,
        snapshot_meta(id, session).updated_at == session.updated_at,
        snapshot_meta(id, session).current_task == session.current_task,
        snapshot_meta(id, session).pending_steps == session.pending_steps.len(),
{
}

/// Every snapshot in a directory is shown, in the order in which the entries come, where
/// none failed; else the first failure is what is told.
pub proof fn every_entry_is_shown(entries: Seq<HistoryEntry>, i: int)
    requires
        0 <= i <= entries.len(),
        forall|j: int| 0 <= j < i ==> (#[trigger] entries[j]) is Snapshot,
    ensures
        i < entries.len() && entries[i] is Failed ==> first_failure(entries) == Some(
            entries[i]->Failed_0,
        ) && view_entries(entries) is None,
        i == entries.len() ==> first_failure(entries) is None,
        i == entries.len() ==> (view_entries(entries) matches Some(found) && found.len() == i
            && forall|j: int|
            0 <= j < i ==> #[trigger] found[j] == snapshot_meta(
                entries[j]->id@,
                entries[j]->session@,
            )),
    decreases entries.len(),
{
    if entries.len() > 0 && i > 0 {
        assert(entries[0] is Snapshot);
        let rest = entries.skip(1);
        assert forall|j: int| 0 <= j < i - 1 implies (#[trigger] rest[j]) is Snapshot by {
            assert(rest[j] == entries[j + 1]);
        }
        every_entry_is_shown(rest, i - 1);
        if i == entries.len() {
            let found = view_entries(entries)->0;
            let more = view_entries(rest)->0;
            assert forall|j: int| 0 <= j < i implies #[trigger] found[j] == snapshot_meta(
                entries[j]->id@,
                entries[j]->session@,
            ) by {
                if j > 0 {
                    assert(found[j] == more[j - 1]);
                    assert(rest[j - 1] == entries[j]);
                }
            }
        }
    }
}

/// A user of whom nothing is stored starts with an empty session in coding mode; one of
/// whom something is stored goes on with that.
pub proof fn session_is_what_was_stored(user_id: Seq<char>, stored: SessionView)
    ensures
        opened(user_id, Some(stored)) == stored,
        opened(user_id, None) == (SessionView {
            user_id,
            mode: SessionMode::Coding,
            current_task: None,
            pending_steps: seq![],
            last_result: None,
            last_action: None,
            pending_terminal_command: None,
            updated_at: 0,
        }),
        bound_to(user_id, stored) == (SessionView { user_id, ..stored }),
{
}

/// An error of the store says where it comes from and ends with what went wrong.
pub proof fn store_error_says_what_went_wrong(message: String)
    ensures
        session_error_text(SessionError::Io(message)) == "io: "@ + message@,
        session_error_text(SessionError::Json(message)) == "json: "@ + message@,
{
}

/// Sessions are kept below the workspace, so two workspaces never share them.
pub proof fn sessions_lie_below_the_workspace(workspace: Seq<char>, other: Seq<char>)
    ensures
        session_dir(workspace) == workspace + "/.harborbeacon/sessions"@,
        session_dir(workspace) == session_dir(other) ==> workspace == other,
{
    if session_dir(workspace) == session_dir(other) {
        let n = session_dir(workspace).len() - "/.harborbeacon/sessions"@.len();
        assert(session_dir(workspace).take(n) =~= workspace);
        assert(session_dir(other).take(n) =~= other);
    }
}

} // verus!
