//! Collecting the files below a directory, a few levels deep.
//!
//! The walk decides which directory is read next. The host reads it and says what is
//! in it, in the order in which it finds it.

use crate::text::view_all;
use vstd::prelude::*;

verus! {

/// What stands in a directory.
#[derive(Debug, Clone, PartialEq, Eq)]
pub enum WalkEntry {
    File(String),
    Dir(String),
    /// Neither a file nor a directory.
    Other,
}

/// What a `WalkEntry` says.
#[verifier::ext_equal]
pub ghost enum EntryView {
    File(Seq<char>),
    Dir(Seq<char>),
    Other,
}

impl View for WalkEntry {
    type V = EntryView;

    open spec fn view(&self) -> EntryView {
        match *self {
            WalkEntry::File(path) => EntryView::File(path@),
            WalkEntry::Dir(path) => EntryView::Dir(path@),
            WalkEntry::Other => EntryView::Other,
        }
    }
}

/// The views of what stands in a directory.
pub open spec fn view_entries(entries: Seq<WalkEntry>) -> Seq<EntryView> {
    entries.map_values(|e: WalkEntry| e@)
}

/// An entry that the walk has still to look at. A directory is read if there are
/// levels left for it.
#[derive(Debug, Clone)]
pub struct WalkItem {
    pub entry: WalkEntry,
    pub levels: usize,
}

/// What a `WalkItem` says.
#[verifier::ext_equal]
pub ghost struct ItemView {
    pub entry: EntryView,
    pub levels: nat,
}

impl View for WalkItem {
    type V = ItemView;

    open spec fn view(&self) -> ItemView {
        ItemView { entry: self.entry@, levels: self.levels as nat }
    }
}

/// The views of some items, the next one first. The walk holds the next one last.
pub open spec fn view_todo(items: Seq<WalkItem>) -> Seq<ItemView> {
    Seq::new(items.len(), |i: int| items[items.len() - 1 - i]@)
}

/// A walk under way.
#[derive(Debug, Clone)]
pub struct Walk {
    /// The files found so far, in order.
    pub found: Vec<String>,
    /// What is left to look at, the next item last.
    pub todo: Vec<WalkItem>,
}

/// What a `Walk` says.
#[verifier::ext_equal]
pub ghost struct WalkView {
    pub found: Seq<Seq<char>>,
    pub todo: Seq<ItemView>,
}

impl View for Walk {
    type V = WalkView;

    open spec fn view(&self) -> WalkView {
        WalkView { found: view_all(self.found@), todo: view_todo(self.todo@) }
    }
}

/// The entries of a directory that has been read, as items.
pub open spec fn items_of(entries: Seq<EntryView>, levels: nat) -> Seq<ItemView> {
    entries.map_values(|e: EntryView| ItemView { entry: e, levels })
}

/// The walk up to the next directory that must be read: files are found, and what is
/// no directory with levels left is passed over.
pub open spec fn settled(w: WalkView) -> WalkView
    decreases w.todo.len(),
{
    if w.todo.len() == 0 {
        w
    } else {
        match w.todo[0].entry {
            EntryView::File(path) => settled(
                WalkView { found: w.found.push(path), todo: w.todo.skip(1) },
            ),
            EntryView::Dir(path) => if w.todo[0].levels > 0 {
                w
            } else {
                settled(WalkView { todo: w.todo.skip(1), ..w })
            },
            EntryView::Other => settled(WalkView { todo: w.todo.skip(1), ..w }),
        }
    }
}

/// The directory that a walk must read next, if it has not ended.
pub open spec fn wanted(w: WalkView) -> Option<Seq<char>> {
    if w.todo.len() == 0 {
        None
    } else {
        match w.todo[0].entry {
            EntryView::Dir(path) => Some(path),
            _ => None,
        }
    }
}

/// The walk after the directory that it asked for has been read.
pub open spec fn advanced(w: WalkView, entries: Seq<EntryView>) -> WalkView {
    settled(
        WalkView {
            todo: items_of(entries, (w.todo[0].levels - 1) as nat) + w.todo.skip(1),
            ..w
        },
    )
}

/// Whether a walk has ended or asks for a directory that there are levels for.
pub open spec fn is_settled(w: WalkView) -> bool {
    w.todo.len() > 0 ==> w.todo[0].entry is Dir && w.todo[0].levels > 0
}

proof fn lemma_settled(w: WalkView)
    ensures
        is_settled(settled(w)),
    decreases w.todo.len(),
{
    if w.todo.len() > 0 {
        match w.todo[0].entry {
            EntryView::File(path) => {
                lemma_settled(WalkView { found: w.found.push(path), todo: w.todo.skip(1) });
            },
            EntryView::Dir(path) => {
                if w.todo[0].levels == 0 {
                    lemma_settled(WalkView { todo: w.todo.skip(1), ..w });
                }
            },
            EntryView::Other => {
                lemma_settled(WalkView { todo: w.todo.skip(1), ..w });
            },
        }
    }
}

/// The walk that has yet to read `dir`, `max_depth` levels deep.
pub open spec fn walk_from(dir: Seq<char>, max_depth: nat) -> WalkView {
    settled(
        WalkView {
            found: seq![],
            todo: seq![ItemView { entry: EntryView::Dir(dir), levels: max_depth }],
        },
    )
}

/// Starts collecting the files below `dir`, up to `max_depth` levels deep.
pub fn collect_files(dir: String, max_depth: usize) -> (r: Walk)
    ensures
        r@ == walk_from(dir@, max_depth as nat),
        is_settled(r@),
{
    let todo: Vec<WalkItem> = vec![WalkItem { entry: WalkEntry::Dir(dir), levels: max_depth }];
    let found: Vec<String> = Vec::new();
    let mut walk = Walk { found, todo };
    proof {
        assert(view_all(walk.found@) =~= seq![]);
        assert(walk@.todo =~= seq![
            ItemView { entry: EntryView::Dir(dir@), levels: max_depth as nat },
        ]);
    }
    walk.settle();
    walk
}

impl Walk {
    fn settle(&mut self)
        ensures
            final(self)@ == settled(old(self)@),
            is_settled(final(self)@),
    {
        let ghost goal = settled(self@);
        proof {
            lemma_settled(self@);
        }
        while self.todo.len() > 0
            invariant
                settled(self@) == goal,
                is_settled(goal),
                goal == settled(old(self)@),
            decreases self.todo@.len(),
        {
            let last: usize = self.todo.len() - 1;
            let ghost before = self@;
            assert(before.todo[0] == self.todo@[last as int]@);
            let is_wanted: bool = match &self.todo[last].entry {
                WalkEntry::Dir(_) => self.todo[last].levels > 0,
                _ => false,
            };
            if is_wanted {
                return;
            }
            let ghost items = self.todo@;
            match self.todo.pop() {
                Some(item) => {
                    assert(view_todo(self.todo@) =~= before.todo.skip(1)) by {
                        assert(self.todo@ =~= items.drop_last());
                    }
                    match item.entry {
                        WalkEntry::File(path) => {
                            let ghost found = self.found@;
                            self.found.push(path);
                            assert(view_all(self.found@) =~= view_all(found).push(path@));
                        },
                        _ => {},
                    }
                },
                None => {},
            }
        }
    }

    /// The directory to read next, or nothing when the walk has ended.
    pub fn next_dir(&self) -> (r: Option<String>)
        ensures
            crate::text::view_opt(r) == wanted(self@),
    {
        let n: usize = self.todo.len();
        if n == 0 {
            return None;
        }
        assert(self@.todo[0] == self.todo@[n - 1]@);
        match &self.todo[n - 1].entry {
            WalkEntry::Dir(path) => Some(path.clone()),
            _ => None,
        }
    }

    /// Goes on with what stands in the directory that was asked for.
    pub fn advance(&mut self, entries: Vec<WalkEntry>)
        requires
            wanted(old(self)@) is Some,
            is_settled(old(self)@),
        ensures
            final(self)@ == advanced(old(self)@, view_entries(entries@)),
            is_settled(final(self)@),
    {
        let ghost before = self@;
        let ghost all = view_entries(entries@);
        let ghost items = self.todo@;
        let last: usize = self.todo.len() - 1;
        assert(before.todo[0] == self.todo@[last as int]@);
        let levels: usize = self.todo[last].levels - 1;
        let mut rest = entries;
        self.todo.pop();
        assert(view_todo(self.todo@) =~= before.todo.skip(1)) by {
            assert(self.todo@ =~= items.drop_last());
        }
        let mut k: usize = rest.len();
        let n: usize = rest.len();
        assert(all.skip(n as int) =~= seq![]);
        assert(items_of(all.skip(n as int), levels as nat) + before.todo.skip(1)
            =~= before.todo.skip(1));
        while rest.len() > 0
            invariant
                k == rest@.len(),
                k <= n,
                n == all.len(),
                view_entries(rest@) =~= all.take(k as int),
                self@.found == before.found,
                self@.todo =~= items_of(all.skip(k as int), levels as nat) + before.todo.skip(1),
            decreases rest@.len(),
        {
            let ghost left = rest@;
            let ghost todo = self.todo@;
            match rest.pop() {
                Some(entry) => {
                    assert(left.last()@ == view_entries(left)[k - 1]);
                    assert(entry@ == all[k - 1]);
                    self.todo.push(WalkItem { entry, levels });
                    proof {
                        assert(rest@ =~= left.drop_last());
                        assert(view_entries(rest@) =~= all.take(k - 1));
                        let item = ItemView { entry: entry@, levels: levels as nat };
                        assert(view_todo(self.todo@) =~= seq![item] + view_todo(todo));
                        assert(all.skip(k - 1) =~= seq![all[k - 1]] + all.skip(k as int));
                        assert(items_of(all.skip(k - 1), levels as nat) =~= seq![item] + items_of(
                            all.skip(k as int),
                            levels as nat,
                        ));
                    }
                },
                None => {},
            }
            k -= 1;
        }
        assert(all.skip(0) =~= all);
        self.settle();
    }
}

// ---------------------------------------------------------------------------
// Laws
// ---------------------------------------------------------------------------

/// What a directory tree looks like: for each directory, what stands in it.
pub type Tree = spec_fn(Seq<char>) -> Seq<EntryView>;

/// The files among some entries and below them, in the order in which they are met:
/// a file stands for itself, a directory for what is in it, as deep as there are levels.
pub open spec fn files_in(tree: Tree, entries: Seq<EntryView>, levels: nat) -> Seq<Seq<char>>
    decreases levels, entries.len(),
{
    if entries.len() == 0 {
        seq![]
    } else {
        let first = match entries[0] {
            EntryView::File(path) => seq![path],
            EntryView::Dir(path) => if levels == 0 {
                seq![]
            } else {
                files_in(tree, tree(path), (levels - 1) as nat)
            },
            EntryView::Other => seq![],
        };
        first + files_in(tree, entries.skip(1), levels)
    }
}

/// The files that are still to be found.
pub open spec fn files_left(tree: Tree, todo: Seq<ItemView>) -> Seq<Seq<char>>
    decreases todo.len(),
{
    if todo.len() == 0 {
        seq![]
    } else {
        files_in(tree, seq![todo[0].entry], todo[0].levels) + files_left(tree, todo.skip(1))
    }
}

/// The files that a walk has found and will find.
pub open spec fn files_of(tree: Tree, w: WalkView) -> Seq<Seq<char>> {
    w.found + files_left(tree, w.todo)
}

proof fn lemma_settled_keeps_files(tree: Tree, w: WalkView)
    ensures
        files_of(tree, settled(w)) == files_of(tree, w),
    decreases w.todo.len(),
{
    reveal_with_fuel(files_in, 2);
    if w.todo.len() > 0 {
        let item = w.todo[0];
        assert(seq![item.entry].skip(1) =~= seq![]);
        match item.entry {
            EntryView::File(path) => {
                let next = WalkView { found: w.found.push(path), todo: w.todo.skip(1) };
                lemma_settled_keeps_files(tree, next);
                assert(files_in(tree, seq![item.entry], item.levels) =~= seq![path]);
                assert(files_of(tree, next) =~= files_of(tree, w));
            },
            EntryView::Dir(path) => {
                if item.levels == 0 {
                    let next = WalkView { todo: w.todo.skip(1), ..w };
                    lemma_settled_keeps_files(tree, next);
                    assert(files_in(tree, seq![item.entry], item.levels) =~= seq![]);
                    assert(files_of(tree, next) =~= files_of(tree, w));
                }
            },
            EntryView::Other => {
                let next = WalkView { todo: w.todo.skip(1), ..w };
                lemma_settled_keeps_files(tree, next);
                assert(files_in(tree, seq![item.entry], item.levels) =~= seq![]);
                assert(files_of(tree, next) =~= files_of(tree, w));
            },
        }
    }
}

proof fn lemma_items_left(tree: Tree, entries: Seq<EntryView>, levels: nat, rest: Seq<ItemView>)
    ensures
        files_left(tree, items_of(entries, levels) + rest) == files_in(tree, entries, levels)
            + files_left(tree, rest),
    decreases entries.len(),
{
    reveal_with_fuel(files_in, 2);
    let all = items_of(entries, levels) + rest;
    if entries.len() == 0 {
        assert(all =~= rest);
        assert(files_left(tree, all) =~= files_in(tree, entries, levels) + files_left(tree, rest));
    } else {
        lemma_items_left(tree, entries.skip(1), levels, rest);
        assert(all.skip(1) =~= items_of(entries.skip(1), levels) + rest);
        assert(seq![entries[0]].skip(1) =~= seq![]);
        assert(files_left(tree, all) =~= files_in(tree, entries, levels) + files_left(tree, rest));
    }
}

/// A walk starts with all files below the directory ahead of it.
pub proof fn walk_starts_with_all_files(tree: Tree, dir: Seq<char>, max_depth: nat)
    ensures
        files_of(tree, walk_from(dir, max_depth)) == files_in(
            tree,
            seq![EntryView::Dir(dir)],
            max_depth,
        ),
{
    reveal_with_fuel(files_left, 2);
    let item = ItemView { entry: EntryView::Dir(dir), levels: max_depth };
    let start = WalkView { found: seq![], todo: seq![item] };
    lemma_settled_keeps_files(tree, start);
    assert(start.todo.skip(1) =~= seq![]);
    assert(files_of(tree, start) =~= files_in(tree, seq![item.entry], max_depth));
}

/// Reading the directory that was asked for loses no file and adds none.
pub proof fn walk_keeps_all_files(tree: Tree, w: WalkView)
    requires
        is_settled(w),
        wanted(w) is Some,
    ensures
        files_of(tree, advanced(w, tree(wanted(w)->0))) == files_of(tree, w),
{
    reveal_with_fuel(files_in, 2);
    let item = w.todo[0];
    let entries = tree(wanted(w)->0);
    let levels = (item.levels - 1) as nat;
    let next = WalkView { todo: items_of(entries, levels) + w.todo.skip(1), ..w };
    lemma_settled_keeps_files(tree, next);
    lemma_items_left(tree, entries, levels, w.todo.skip(1));
    assert(seq![item.entry].skip(1) =~= seq![]);
    assert(files_in(tree, seq![item.entry], item.levels) =~= files_in(tree, entries, levels));
    assert(files_of(tree, next) =~= files_of(tree, w));
}

/// A walk that asks for nothing more has found all its files.
pub proof fn walk_ends_with_all_files(tree: Tree, w: WalkView)
    requires
        is_settled(w),
        wanted(w) is None,
    ensures
        w.found == files_of(tree, w),
{
    assert(w.found =~= files_of(tree, w));
}

proof fn lemma_files_join(tree: Tree, a: Seq<EntryView>, b: Seq<EntryView>, levels: nat)
    ensures
        files_in(tree, a + b, levels) == files_in(tree, a, levels) + files_in(tree, b, levels),
    decreases a.len(),
{
    if a.len() == 0 {
        assert(a + b =~= b);
        assert(files_in(tree, a, levels) + files_in(tree, b, levels) =~= files_in(tree, b, levels));
    } else {
        lemma_files_join(tree, a.skip(1), b, levels);
        assert((a + b).skip(1) =~= a.skip(1) + b);
        assert(files_in(tree, a + b, levels) =~= files_in(tree, a, levels) + files_in(
            tree,
            b,
            levels,
        ));
    }
}

/// Wherever a file stands among some entries, it is met in its place, once. A directory is
/// replaced by what is in it, one level deeper, or by nothing where no level is left, and
/// anything else by nothing.
pub proof fn entries_are_met_in_their_place(
    tree: Tree,
    a: Seq<EntryView>,
    path: Seq<char>,
    b: Seq<EntryView>,
    levels: nat,
)
    ensures
        files_in(tree, a + seq![EntryView::File(path)] + b, levels) == files_in(tree, a, levels)
            + seq![path] + files_in(tree, b, levels),
        levels > 0 ==> files_in(tree, a + seq![EntryView::Dir(path)] + b, levels) == files_in(
            tree,
            a,
            levels,
        ) + files_in(tree, tree(path), (levels - 1) as nat) + files_in(tree, b, levels),
        levels == 0 ==> files_in(tree, a + seq![EntryView::Dir(path)] + b, levels) == files_in(
            tree,
            a + b,
            levels,
        ),
        files_in(tree, a + seq![EntryView::Other] + b, levels) == files_in(tree, a + b, levels),
{
    reveal_with_fuel(files_in, 2);
    lemma_files_join(tree, a, b, levels);
    let (file, dir, other) = (
        seq![EntryView::File(path)],
        seq![EntryView::Dir(path)],
        seq![EntryView::Other],
    );
    lemma_files_join(tree, a + file, b, levels);
    lemma_files_join(tree, a, file, levels);
    lemma_files_join(tree, a + dir, b, levels);
    lemma_files_join(tree, a, dir, levels);
    lemma_files_join(tree, a + other, b, levels);
    lemma_files_join(tree, a, other, levels);
    assert(file.skip(1) =~= seq![] && dir.skip(1) =~= seq![] && other.skip(1) =~= seq![]);
    assert(files_in(tree, file, levels) =~= seq![path]);
    assert(files_in(tree, other, levels) =~= seq![]);
    if levels > 0 {
        assert(files_in(tree, dir, levels) =~= files_in(tree, tree(path), (levels - 1) as nat));
    } else {
        assert(files_in(tree, dir, levels) =~= seq![]);
    }
    assert(files_in(tree, a, levels) + seq![] =~= files_in(tree, a, levels));
}

} // verus!
