use vstd::prelude::*;

use crate::render::{
    clear_entries, clear_view, draw_entries, draw_view, lemma_redraw_idempotent, line_entry, line_view,
    ops_view, run, Op, Screen, Status, Style, TermOp, Viewport,
};
use crate::snapshot::{
    copy_names, find_name, index_in, is_child_path, is_parent_path, lemma_sorted_index, names,
    DirectorySnapshot,
};

verus! {

/// Why a transition was refused; the tab is then left as it was.
#[derive(Clone, Copy, Debug, PartialEq, Eq, Structural)]
pub enum NavError {
    /// The entry under the cursor is not a directory, or the listing is empty.
    NotADirectory,
    /// The directory that the transition needs has not been read: its read
    /// failed or was not made.
    Unread,
    /// The listing offered belongs to a directory other than the one needed.
    WrongDirectory,
}

/// The cursor of a fresh listing of `total` entries: the first entry, or
/// `None` when there is none.
pub open spec fn first_cursor(total: int) -> Option<usize> {
    if total > 0 {
        Some(0usize)
    } else {
        None
    }
}

/// A cursor over `total` entries is on one of them, or is `None` exactly when
/// there are none.
pub open spec fn cursor_in_range(cursor: Option<usize>, total: int) -> bool {
    match cursor {
        Some(i) => i < total,
        None => total == 0,
    }
}

/// A directory being browsed: its listing, the cursor, the pane it is shown in,
/// the tabs of its subdirectories read so far (one slot per subdirectory, in
/// listing order), and the tab of its parent directory if that has been read.
/// Each tab owns the tabs it holds; no two tabs share one.
pub struct Tab {
    pub(crate) snapshot: DirectorySnapshot,
    pub(crate) current_entry_index: Option<usize>,
    pub(crate) status: Status,
    pub(crate) child_tabs: Vec<Option<Tab>>,
    pub(crate) parent_tab: Option<Box<Tab>>,
}

impl Tab {
    pub open(crate) spec fn listing(&self) -> DirectorySnapshot {
        self.snapshot
    }

    /// The index of the entry under the cursor; `None` when the listing is empty.
    pub open(crate) spec fn cursor(&self) -> Option<usize> {
        self.current_entry_index
    }

    pub open(crate) spec fn role(&self) -> Status {
        self.status
    }

    pub open(crate) spec fn children(&self) -> Seq<Option<Tab>> {
        self.child_tabs@
    }

    pub open(crate) spec fn parent(&self) -> Option<Box<Tab>> {
        self.parent_tab
    }

    pub open(crate) spec fn path(&self) -> Seq<Seq<char>> {
        self.snapshot.path_view()
    }

    pub open(crate) spec fn dirs(&self) -> Seq<Seq<char>> {
        self.snapshot.dirs()
    }

    /// The listing: the subdirectories, then the other entries.
    pub open(crate) spec fn entries(&self) -> Seq<Seq<char>> {
        self.snapshot.dirs() + self.snapshot.files()
    }

    pub open(crate) spec fn total(&self) -> int {
        self.entries().len() as int
    }

    /// The cached tab of subdirectory `i`.
    pub open(crate) spec fn child(&self, i: int) -> Tab {
        self.child_tabs@[i]->Some_0
    }

    pub open(crate) spec fn has_child(&self, i: int) -> bool {
        0 <= i < self.child_tabs@.len() && self.child_tabs@[i] is Some
    }

    /// The tab's invariant, down through the tabs it holds: the cursor is on
    /// an entry (or `None` exactly for an empty listing); there is one slot per
    /// subdirectory, and a cached tab in a slot is a preview of that very
    /// subdirectory with no parent of its own; a cached parent is the tab of
    /// the directory one level up.
    pub open(crate) spec fn wf(&self) -> bool
        decreases self,
    {
        &&& self.snapshot.wf()
        &&& cursor_in_range(self.current_entry_index, self.total())
        &&& self.child_tabs@.len() == self.dirs().len()
        &&& forall|i: int|
            #![trigger self.child_tabs@[i]]
            0 <= i < self.child_tabs@.len() && self.child_tabs@[i] is Some ==> {
                &&& self.child_tabs@[i]->Some_0.wf()
                &&& self.child_tabs@[i]->Some_0.path() == self.path().push(self.dirs()[i])
                &&& self.child_tabs@[i]->Some_0.status == Status::Secondary
                &&& self.child_tabs@[i]->Some_0.parent_tab is None
            }
        &&& match self.parent_tab {
            Some(p) => {
                &&& p.wf()
                &&& self.path().len() > 0
                &&& p.path() == self.path().drop_last()
                &&& p.status == Status::Parent
            },
            None => true,
        }
    }

    /// `self` is a tab just made from `snapshot`: cursor on the first entry,
    /// no subdirectory read yet, no parent.
    pub open(crate) spec fn is_fresh(&self, snapshot: DirectorySnapshot, status: Status) -> bool {
        &&& self.snapshot == snapshot
        &&& self.current_entry_index == first_cursor(self.total())
        &&& self.status == status
        &&& self.child_tabs@.len() == snapshot.dirs().len()
        &&& forall|i: int| 0 <= i < self.child_tabs@.len() ==> #[trigger] self.child_tabs@[i] is None
        &&& self.parent_tab is None
    }

    /// A tab for a directory that has just been read.
    pub fn new(snapshot: DirectorySnapshot, status: Status) -> (r: Tab)
        requires
            snapshot.wf(),
        ensures
            r.wf(),
            r.is_fresh(snapshot, status),
            cursor_in_range(r.cursor(), r.total()),
    {
        let n = snapshot.dir_entries.len();
        let total = n + snapshot.file_entries.len();
        let mut child_tabs: Vec<Option<Tab>> = Vec::new();
        let mut i: usize = 0;
        while i < n
            invariant
                i <= n,
                child_tabs@.len() == i,
                forall|k: int| 0 <= k < i ==> #[trigger] child_tabs@[k] is None,
            decreases n - i,
        {
            child_tabs.push(None);
            i += 1;
        }
        let cursor = if total > 0 {
            Some(0)
        } else {
            None
        };
        Tab { snapshot, current_entry_index: cursor, status, child_tabs, parent_tab: None }
    }
}

/// Descending: the cached tab of the subdirectory under the cursor of `old`
/// becomes the primary tab `new`, with its cursor on its first entry, and keeps
/// `old` as its parent, less that subdirectory's tab.
pub open(crate) spec fn descends(old: Tab, new: Tab) -> bool {
    let i = old.cursor()->Some_0 as int;
    let c = old.child(i);
    let p = new.parent()->Some_0;
    &&& old.on_dir()
    &&& old.has_child(i)
    &&& new.listing() == c.listing()
    &&& new.cursor() == first_cursor(c.total())
    &&& new.role() == Status::Primary
    &&& new.children() == c.children()
    &&& new.parent() is Some
    &&& p.listing() == old.listing()
    &&& p.cursor() == old.cursor()
    &&& p.role() == Status::Parent
    &&& p.children() == old.children().update(i, None)
    &&& p.parent() == old.parent()
}

/// `d` is the tab `old` as its parent keeps it after ascending.
pub open(crate) spec fn kept_as_child(d: Tab, old: Tab) -> bool {
    &&& d.listing() == old.listing()
    &&& d.cursor() == old.cursor()
    &&& d.role() == Status::Secondary
    &&& d.children() == old.children()
    &&& d.parent() is None
}

/// Ascending: the cached parent of `old` becomes the primary tab `new`. Where
/// the parent lists `old`'s directory, its cursor goes to that entry and it
/// keeps `old` as the tab of that subdirectory; otherwise its cursor stays.
pub open(crate) spec fn ascends(old: Tab, new: Tab) -> bool {
    let p = old.parent()->Some_0;
    let name = old.path().last();
    let k = index_in(p.dirs(), name);
    &&& old.parent() is Some
    &&& new.listing() == p.listing()
    &&& new.role() == Status::Primary
    &&& new.parent() == p.parent()
    &&& if p.dirs().contains(name) {
        &&& new.cursor() == Some(k as usize)
        &&& new.children().len() == p.children().len()
        &&& forall|j: int| 0 <= j < p.children().len() && j != k ==> #[trigger] new.children()[j] == p.children()[j]
        &&& new.children()[k] is Some
        &&& kept_as_child(new.children()[k]->Some_0, old)
    } else {
        &&& new.cursor() == p.cursor()
        &&& new.children() == p.children()
    }
}

impl Tab {
    /// The cursor is on a subdirectory.
    pub open(crate) spec fn on_dir(&self) -> bool {
        self.cursor() is Some && (self.cursor()->Some_0 as int) < self.dirs().len()
    }

    /// Descends into the subdirectory under the cursor, whose tab must have
    /// been read into this one; the tab is unchanged where that is refused.
    pub fn go_to_child_tab(&mut self) -> (r: Result<(), NavError>)
        requires
            old(self).wf(),
        ensures
            final(self).wf(),
            !old(self).on_dir() ==> r == Err::<(), NavError>(NavError::NotADirectory) && *final(self) == *old(self),
            old(self).on_dir() && !old(self).has_child(old(self).cursor()->Some_0 as int) ==> r == Err::<(), NavError>(NavError::Unread) && *final(self) == *old(self),
            old(self).on_dir() && old(self).has_child(old(self).cursor()->Some_0 as int) ==> r == Ok::<(), NavError>(()) && descends(*old(self), *final(self)),
    {
        let i = match self.current_entry_index {
            Some(i) => i,
            None => return Err(NavError::NotADirectory),
        };
        if i >= self.snapshot.dir_entries.len() {
            return Err(NavError::NotADirectory);
        }
        if self.child_tabs[i].is_none() {
            return Err(NavError::Unread);
        }
        let ghost old_self = *self;
        let mut slot: Option<Tab> = None;
        std::mem::swap(&mut self.child_tabs[i], &mut slot);
        let mut child = match slot {
            Some(c) => c,
            None => return Err(NavError::Unread),
        };
        assert(child.wf());
        let first = if child.snapshot.dir_entries.len() + child.snapshot.file_entries.len() > 0 {
            Some(0)
        } else {
            None
        };
        child.current_entry_index = first;
        child.status = Status::Primary;
        std::mem::swap(self, &mut child);
        child.status = Status::Parent;
        assert(child.child_tabs@ == old_self.child_tabs@.update(i as int, None));
        assert forall|j: int|
            #![trigger child.child_tabs@[j]]
            0 <= j < child.child_tabs@.len() && child.child_tabs@[j] is Some implies {
                &&& child.child_tabs@[j]->Some_0.wf()
                &&& child.child_tabs@[j]->Some_0.path() == child.path().push(child.dirs()[j])
                &&& child.child_tabs@[j]->Some_0.status == Status::Secondary
                &&& child.child_tabs@[j]->Some_0.parent_tab is None
            } by {
            assert(old_self.child_tabs@[j] == child.child_tabs@[j]);
        }
        assert(child.wf());
        assert(self.path().drop_last() =~= child.path());
        self.parent_tab = Some(Box::new(child));
        assert(self.wf());
        Ok(())
    }

    /// Ascends to the parent directory, whose tab must have been read into
    /// this one. At the filesystem root there is no parent: nothing changes.
    pub fn go_to_parent_tab(&mut self) -> (r: Result<(), NavError>)
        requires
            old(self).wf(),
        ensures
            final(self).wf(),
            old(self).path().len() == 0 ==> r == Ok::<(), NavError>(()) && *final(self) == *old(self),
            old(self).path().len() > 0 && old(self).parent() is None ==> r == Err::<(), NavError>(NavError::Unread) && *final(self) == *old(self),
            old(self).path().len() > 0 && old(self).parent() is Some ==> r == Ok::<(), NavError>(()) && ascends(*old(self), *final(self)),
    {
        let depth = self.snapshot.path.len();
        if depth == 0 {
            return Ok(());
        }
        if self.parent_tab.is_none() {
            return Err(NavError::Unread);
        }
        let ghost old_self = *self;
        let mut taken: Option<Box<Tab>> = None;
        std::mem::swap(&mut self.parent_tab, &mut taken);
        let mut parent: Tab = match taken {
            Some(b) => *b,
            None => return Err(NavError::Unread),
        };
        assert(parent.wf());
        let found = find_name(&parent.snapshot.dir_entries, &self.snapshot.path[depth - 1]);
        parent.status = Status::Primary;
        std::mem::swap(self, &mut parent);
        match found {
            Some(k) => {
                proof {
                    lemma_sorted_index(self.dirs(), k as int);
                }
                parent.status = Status::Secondary;
                assert(parent.wf());
                assert(parent.path() =~= self.path().push(self.dirs()[k as int]));
                let ghost before = self.child_tabs@;
                self.child_tabs[k] = Some(parent);
                self.current_entry_index = Some(k);
                assert forall|j: int|
                    #![trigger self.child_tabs@[j]]
                    0 <= j < self.child_tabs@.len() && self.child_tabs@[j] is Some implies {
                        &&& self.child_tabs@[j]->Some_0.wf()
                        &&& self.child_tabs@[j]->Some_0.path() == self.path().push(self.dirs()[j])
                        &&& self.child_tabs@[j]->Some_0.status == Status::Secondary
                        &&& self.child_tabs@[j]->Some_0.parent_tab is None
                    } by {
                    if j != k {
                        assert(before[j] == self.child_tabs@[j]);
                    }
                }
                assert(self.wf());
            },
            None => {},
        }
        Ok(())
    }
}

/// Descending into a subdirectory and ascending again comes back to the same
/// directory, with the cursor on that subdirectory as before, the same cached
/// parent, the other subdirectories' tabs as they were, and the visited
/// subdirectory's tab back in its slot.
pub proof fn lemma_round_trip(t0: Tab, t1: Tab, t2: Tab)
    requires
        t0.wf(),
        descends(t0, t1),
        ascends(t1, t2),
    ensures
        t2.listing() == t0.listing(),
        t2.cursor() == t0.cursor(),
        t2.parent() == t0.parent(),
        t2.children().len() == t0.children().len(),
        forall|j: int|
            0 <= j < t0.children().len() && j != t0.cursor()->Some_0 ==> #[trigger] t2.children()[j]
                == t0.children()[j],
        t2.has_child(t0.cursor()->Some_0 as int),
        t2.child(t0.cursor()->Some_0 as int).listing() == t0.child(t0.cursor()->Some_0 as int).listing(),
{
    let i = t0.cursor()->Some_0 as int;
    let c = t0.child(i);
    assert(t0.children()[i] is Some);
    assert(c.path() == t0.path().push(t0.dirs()[i]));
    let p = t1.parent()->Some_0;
    assert(t1.path().last() == t0.dirs()[i]);
    assert(p.dirs().contains(t0.dirs()[i]));
    lemma_sorted_index(t0.dirs(), i);
    assert forall|j: int|
        0 <= j < t0.children().len() && j != i implies #[trigger] t2.children()[j] == t0.children()[j] by {
        assert(p.children()[j] == t0.children()[j]);
    }
}

impl Tab {
    /// The directory's path, as its components from the filesystem root.
    pub fn dir_path(&self) -> (r: Vec<String>)
        ensures
            names(r@) == self.path(),
    {
        copy_names(&self.snapshot.path)
    }

    /// The path of the parent directory; `None` at the filesystem root.
    pub fn parent_path(&self) -> (r: Option<Vec<String>>)
        ensures
            match r {
                Some(p) => self.path().len() > 0 && names(p@) == self.path().drop_last(),
                None => self.path().len() == 0,
            },
    {
        let n = self.snapshot.path.len();
        if n == 0 {
            return None;
        }
        let mut p = copy_names(&self.snapshot.path);
        p.pop();
        assert(names(p@) =~= self.path().drop_last());
        Some(p)
    }

    /// Whether the parent directory's tab is cached.
    pub fn has_parent_tab(&self) -> (r: bool)
        ensures
            r == self.parent() is Some,
    {
        self.parent_tab.is_some()
    }

    /// For each subdirectory, in listing order: its path if its tab has not
    /// been read yet, else `None`.
    pub fn missing_child_paths(&self) -> (r: Vec<Option<Vec<String>>>)
        requires
            self.wf(),
        ensures
            r@.len() == self.dirs().len(),
            forall|i: int|
                0 <= i < r@.len() ==> match #[trigger] r@[i] {
                    Some(p) => !self.has_child(i) && names(p@) == self.path().push(self.dirs()[i]),
                    None => self.has_child(i),
                },
    {
        let n = self.snapshot.dir_entries.len();
        let mut r: Vec<Option<Vec<String>>> = Vec::new();
        let mut i: usize = 0;
        while i < n
            invariant
                i <= n,
                n == self.dirs().len(),
                self.wf(),
                r@.len() == i,
                forall|j: int|
                    0 <= j < i ==> match #[trigger] r@[j] {
                        Some(p) => !self.has_child(j) && names(p@) == self.path().push(self.dirs()[j]),
                        None => self.has_child(j),
                    },
            decreases n - i,
        {
            if self.child_tabs[i].is_some() {
                r.push(None);
            } else {
                let mut p = copy_names(&self.snapshot.path);
                let name = self.snapshot.dir_entries[i].clone();
                p.push(name);
                assert(names(p@) =~= self.path().push(self.dirs()[i as int]));
                r.push(Some(p));
            }
            i += 1;
        }
        r
    }

    /// Caches the tab of each subdirectory that has none yet, from the listing
    /// in the same place of `listings`, where that listing is of that
    /// subdirectory. Tabs already cached stay as they are.
    pub fn update_child_tabs(&mut self, listings: Vec<Option<DirectorySnapshot>>)
        requires
            old(self).wf(),
            forall|i: int| 0 <= i < listings@.len() && listings@[i] is Some ==> (#[trigger] listings@[i])->Some_0.wf(),
        ensures
            final(self).wf(),
            final(self).listing() == old(self).listing(),
            final(self).cursor() == old(self).cursor(),
            final(self).role() == old(self).role(),
            final(self).parent() == old(self).parent(),
            final(self).children().len() == old(self).children().len(),
            forall|i: int|
                0 <= i < old(self).children().len() ==> {
                    if old(self).has_child(i) {
                        #[trigger] final(self).children()[i] == old(self).children()[i]
                    } else if i < listings@.len() && listings@[i] is Some && listings@[i]->Some_0.path_view()
                        == old(self).path().push(old(self).dirs()[i]) {
                        final(self).has_child(i) && final(self).child(i).is_fresh(listings@[i]->Some_0, Status::Secondary)
                    } else {
                        !final(self).has_child(i)
                    }
                },
    {
        let ghost old_self = *self;
        let ghost given = listings@;
        let mut listings = listings;
        let n = self.snapshot.dir_entries.len();
        let mut i: usize = 0;
        while i < n
            invariant
                i <= n,
                n == self.dirs().len(),
                self.wf(),
                listings@.len() == given.len(),
                forall|j: int| i <= j < given.len() ==> #[trigger] listings@[j] == given[j],
                forall|j: int| 0 <= j < given.len() && given[j] is Some ==> (#[trigger] given[j])->Some_0.wf(),
                self.snapshot == old_self.snapshot,
                self.current_entry_index == old_self.current_entry_index,
                self.status == old_self.status,
                self.parent_tab == old_self.parent_tab,
                self.child_tabs@.len() == old_self.child_tabs@.len(),
                forall|j: int| i <= j < n ==> #[trigger] self.child_tabs@[j] == old_self.child_tabs@[j],
                forall|j: int|
                    0 <= j < i ==> {
                        if old_self.has_child(j) {
                            #[trigger] self.child_tabs@[j] == old_self.child_tabs@[j]
                        } else if j < given.len() && given[j] is Some && given[j]->Some_0.path_view()
                            == old_self.path().push(old_self.dirs()[j]) {
                            self.has_child(j) && self.child(j).is_fresh(given[j]->Some_0, Status::Secondary)
                        } else {
                            !self.has_child(j)
                        }
                    },
            decreases n - i,
        {
            if self.child_tabs[i].is_none() && i < listings.len() {
                let mut slot: Option<DirectorySnapshot> = None;
                std::mem::swap(&mut listings[i], &mut slot);
                match slot {
                    Some(l) => {
                        if is_child_path(&l.path, &self.snapshot.path, &self.snapshot.dir_entries[i]) {
                            let t = Tab::new(l, Status::Secondary);
                            let ghost before = self.child_tabs@;
                            self.child_tabs[i] = Some(t);
                            assert forall|j: int|
                                #![trigger self.child_tabs@[j]]
                                0 <= j < self.child_tabs@.len() && self.child_tabs@[j] is Some implies {
                                    &&& self.child_tabs@[j]->Some_0.wf()
                                    &&& self.child_tabs@[j]->Some_0.path() == self.path().push(self.dirs()[j])
                                    &&& self.child_tabs@[j]->Some_0.status == Status::Secondary
                                    &&& self.child_tabs@[j]->Some_0.parent_tab is None
                                } by {
                                if j != i {
                                    assert(before[j] == self.child_tabs@[j]);
                                }
                            }
                            assert(self.wf());
                        }
                    },
                    None => {},
                }
            }
            i += 1;
        }
    }

    /// Caches the tab of the parent directory, made from `parent`, its
    /// listing. Refused at the filesystem root and for a listing of another
    /// directory.
    pub fn update_parent(&mut self, parent: DirectorySnapshot) -> (r: Result<(), NavError>)
        requires
            old(self).wf(),
            parent.wf(),
        ensures
            final(self).wf(),
            old(self).path().len() > 0 && parent.path_view() == old(self).path().drop_last() ==> {
                &&& r == Ok::<(), NavError>(())
                &&& final(self).listing() == old(self).listing()
                &&& final(self).cursor() == old(self).cursor()
                &&& final(self).role() == old(self).role()
                &&& final(self).children() == old(self).children()
                &&& final(self).parent() is Some
                &&& final(self).parent()->Some_0.is_fresh(parent, Status::Parent)
            },
            !(old(self).path().len() > 0 && parent.path_view() == old(self).path().drop_last()) ==> r
                == Err::<(), NavError>(NavError::WrongDirectory) && *final(self) == *old(self),
    {
        if !is_parent_path(&parent.path, &self.snapshot.path) {
            return Err(NavError::WrongDirectory);
        }
        let t = Tab::new(parent, Status::Parent);
        self.parent_tab = Some(Box::new(t));
        Ok(())
    }
}

/// The row that a cursor marks; -1, which marks none, for the empty cursor.
pub open spec fn cursor_row(cursor: Option<usize>) -> int {
    match cursor {
        Some(i) => i as int,
        None => -1,
    }
}

/// The cursor after one move down over `total` entries: one entry further,
/// except on the last entry, where it stays.
pub open spec fn step_down(cursor: Option<usize>, total: int) -> Option<usize> {
    match cursor {
        Some(i) => if i + 1 < total {
            Some((i + 1) as usize)
        } else {
            cursor
        },
        None => cursor,
    }
}

/// The cursor after one move up: one entry back, except on the first entry,
/// where it stays.
pub open spec fn step_up(cursor: Option<usize>) -> Option<usize> {
    match cursor {
        Some(i) => if i > 0 {
            Some((i - 1) as usize)
        } else {
            cursor
        },
        None => cursor,
    }
}

/// The cursor after `k` moves down.
pub open spec fn steps_down(cursor: Option<usize>, total: int, k: nat) -> Option<usize>
    decreases k,
{
    if k == 0 {
        cursor
    } else {
        step_down(steps_down(cursor, total, (k - 1) as nat), total)
    }
}

/// The cursor after `k` moves up.
pub open spec fn steps_up(cursor: Option<usize>, k: nat) -> Option<usize>
    decreases k,
{
    if k == 0 {
        cursor
    } else {
        step_up(steps_up(cursor, (k - 1) as nat))
    }
}

/// Moves keep the cursor on an entry, however many are made; from the last
/// entry moving down stays there, and from the first moving up stays there.
pub proof fn lemma_moves_clamped(cursor: Option<usize>, total: int, k: nat)
    requires
        cursor_in_range(cursor, total),
        total <= usize::MAX,
    ensures
        cursor_in_range(steps_down(cursor, total, k), total),
        cursor_in_range(steps_up(cursor, k), total),
        cursor == Some((total - 1) as usize) ==> steps_down(cursor, total, k) == cursor,
        cursor == Some(0usize) ==> steps_up(cursor, k) == cursor,
    decreases k,
{
    if k > 0 {
        lemma_moves_clamped(cursor, total, (k - 1) as nat);
    }
}

/// Drawing a tab, clearing it and drawing it again leaves the screen as a
/// single drawing of it does.
pub proof fn lemma_tab_redraw(t: Tab, s: Screen, vp: Viewport)
    ensures
        run(s, t.draw_spec(vp) + t.clear_spec(vp) + t.draw_spec(vp)) == run(s, t.draw_spec(vp)),
{
    lemma_redraw_idempotent(s, t.entries(), t.role(), vp);
}

/// Appends the commands `b` to `a`.
fn append_ops(a: &mut Vec<TermOp>, b: Vec<TermOp>)
    ensures
        ops_view(final(a)@) == ops_view(old(a)@) + ops_view(b@),
{
    let mut b = b;
    let ghost given = b@;
    a.append(&mut b);
    assert(ops_view(a@) =~= ops_view(old(a)@) + ops_view(given));
}

impl Tab {
    /// The commands that draw this tab's listing in its pane.
    pub open(crate) spec fn draw_spec(&self, vp: Viewport) -> Seq<Op> {
        draw_view(self.entries(), self.role(), vp)
    }

    /// The commands that blank the rows this tab's listing takes in its pane.
    pub open(crate) spec fn clear_spec(&self, vp: Viewport) -> Seq<Op> {
        clear_view(self.total(), self.role(), vp)
    }

    pub open(crate) spec fn line_spec(&self, row: int, vp: Viewport, style: Style) -> Seq<Op> {
        line_view(self.entries(), row, self.role(), vp, style)
    }

    /// Drawing the preview of entry `i`: the listing of its tab, where it is a
    /// subdirectory whose tab has been read.
    pub open(crate) spec fn preview_draw(&self, i: int, vp: Viewport) -> Seq<Op> {
        if self.has_child(i) {
            self.child(i).draw_spec(vp)
        } else {
            seq![]
        }
    }

    pub open(crate) spec fn preview_clear(&self, i: int, vp: Viewport) -> Seq<Op> {
        if self.has_child(i) {
            self.child(i).clear_spec(vp)
        } else {
            seq![]
        }
    }

    /// The repaint for a cursor that goes to `cursor`: the old preview is
    /// cleared, the old row drawn plain, the new row highlighted and the new
    /// preview drawn. Nothing, when the cursor stays.
    pub open(crate) spec fn move_spec(&self, cursor: Option<usize>, vp: Viewport) -> Seq<Op> {
        let i = cursor_row(self.cursor());
        let j = cursor_row(cursor);
        if cursor == self.cursor() {
            seq![]
        } else {
            self.preview_clear(i, vp) + self.line_spec(i, vp, Style::Listing) + self.line_spec(
                j,
                vp,
                Style::Highlight,
            ) + self.preview_draw(j, vp)
        }
    }

    /// The listing: the subdirectories' names, then the other entries' names.
    pub fn get_entries(&self) -> (r: Vec<String>)
        ensures
            names(r@) == self.entries(),
    {
        let mut entries = copy_names(&self.snapshot.dir_entries);
        let mut files = copy_names(&self.snapshot.file_entries);
        let ghost d = entries@;
        let ghost f = files@;
        entries.append(&mut files);
        assert(names(entries@) =~= names(d) + names(f));
        entries
    }

    fn total_entries(&self) -> (r: usize)
        requires
            self.wf(),
        ensures
            r == self.total(),
    {
        self.snapshot.dir_entries.len() + self.snapshot.file_entries.len()
    }

    /// Draws the listing in the tab's pane; a parent's pane is not drawn.
    pub fn draw(&self, vp: &Viewport) -> (r: Vec<TermOp>)
        ensures
            ops_view(r@) == self.draw_spec(*vp),
    {
        let entries = self.get_entries();
        draw_entries(&entries, self.status, vp)
    }

    /// Blanks every row the listing takes in the tab's pane.
    pub fn clear(&self, vp: &Viewport) -> (r: Vec<TermOp>)
        requires
            self.wf(),
        ensures
            ops_view(r@) == self.clear_spec(*vp),
    {
        clear_entries(self.total_entries(), self.status, vp)
    }

    /// Blanks the whole screen.
    pub fn clear2() -> (r: Vec<TermOp>)
        ensures
            ops_view(r@) == seq![Op::ClearAll],
    {
        let r = vec![TermOp::ClearAll];
        assert(ops_view(r@) =~= seq![Op::ClearAll]);
        r
    }

    /// Rewrites the row under the cursor highlighted.
    pub fn highlight_line(&self, vp: &Viewport) -> (r: Vec<TermOp>)
        ensures
            ops_view(r@) == self.line_spec(cursor_row(self.cursor()), *vp, Style::Highlight),
    {
        self.cursor_line(vp, Style::Highlight)
    }

    /// Rewrites the row under the cursor as a plain listing row.
    pub fn unhighlight_line(&self, vp: &Viewport) -> (r: Vec<TermOp>)
        ensures
            ops_view(r@) == self.line_spec(cursor_row(self.cursor()), *vp, Style::Listing),
    {
        self.cursor_line(vp, Style::Listing)
    }

    fn cursor_line(&self, vp: &Viewport, style: Style) -> (r: Vec<TermOp>)
        ensures
            ops_view(r@) == self.line_spec(cursor_row(self.cursor()), *vp, style),
    {
        match self.current_entry_index {
            Some(i) => {
                let entries = self.get_entries();
                line_entry(&entries, i, self.status, vp, style)
            },
            None => {
                let r: Vec<TermOp> = Vec::new();
                assert(ops_view(r@) =~= seq![]);
                r
            },
        }
    }

    fn preview(&self, i: usize, vp: &Viewport, show: bool) -> (r: Vec<TermOp>)
        requires
            self.wf(),
        ensures
            ops_view(r@) == if show {
                self.preview_draw(i as int, *vp)
            } else {
                self.preview_clear(i as int, *vp)
            },
    {
        if i < self.child_tabs.len() {
            match &self.child_tabs[i] {
                Some(c) => {
                    return if show {
                        c.draw(vp)
                    } else {
                        c.clear(vp)
                    };
                },
                None => {},
            }
        }
        let r: Vec<TermOp> = Vec::new();
        assert(ops_view(r@) =~= seq![]);
        r
    }

    fn repaint_move(&self, from: usize, to: usize, vp: &Viewport) -> (r: Vec<TermOp>)
        requires
            self.wf(),
        ensures
            ops_view(r@) == self.preview_clear(from as int, *vp) + self.line_spec(from as int, *vp, Style::Listing)
                + self.line_spec(to as int, *vp, Style::Highlight) + self.preview_draw(to as int, *vp),
    {
        let entries = self.get_entries();
        let mut ops = self.preview(from, vp, false);
        append_ops(&mut ops, line_entry(&entries, from, self.status, vp, Style::Listing));
        append_ops(&mut ops, line_entry(&entries, to, self.status, vp, Style::Highlight));
        append_ops(&mut ops, self.preview(to, vp, true));
        ops
    }

    /// Moves the cursor one entry down, and repaints what that changes;
    /// on the last entry, or in an empty listing, nothing happens.
    pub fn move_down(&mut self, vp: &Viewport) -> (r: Vec<TermOp>)
        requires
            old(self).wf(),
        ensures
            final(self).wf(),
            final(self).cursor() == step_down(old(self).cursor(), old(self).total()),
            final(self).listing() == old(self).listing(),
            final(self).role() == old(self).role(),
            final(self).children() == old(self).children(),
            final(self).parent() == old(self).parent(),
            ops_view(r@) == old(self).move_spec(final(self).cursor(), *vp),
    {
        let total = self.total_entries();
        match self.current_entry_index {
            Some(i) => {
                if i + 1 < total {
                    let ops = self.repaint_move(i, i + 1, vp);
                    self.current_entry_index = Some(i + 1);
                    return ops;
                }
            },
            None => {},
        }
        let r: Vec<TermOp> = Vec::new();
        assert(ops_view(r@) =~= seq![]);
        r
    }

    /// Moves the cursor one entry up, and repaints what that changes; on the
    /// first entry, or in an empty listing, nothing happens.
    pub fn move_up(&mut self, vp: &Viewport) -> (r: Vec<TermOp>)
        requires
            old(self).wf(),
        ensures
            final(self).wf(),
            final(self).cursor() == step_up(old(self).cursor()),
            final(self).listing() == old(self).listing(),
            final(self).role() == old(self).role(),
            final(self).children() == old(self).children(),
            final(self).parent() == old(self).parent(),
            ops_view(r@) == old(self).move_spec(final(self).cursor(), *vp),
    {
        match self.current_entry_index {
            Some(i) => {
                if i > 0 {
                    let ops = self.repaint_move(i, i - 1, vp);
                    self.current_entry_index = Some(i - 1);
                    return ops;
                }
            },
            None => {},
        }
        let r: Vec<TermOp> = Vec::new();
        assert(ops_view(r@) =~= seq![]);
        r
    }

    /// Shows the tab as primary: its listing, the preview of the entry under
    /// the cursor, and the highlighted row.
    pub fn draw_panes(&self, vp: &Viewport) -> (r: Vec<TermOp>)
        requires
            self.wf(),
        ensures
            ops_view(r@) == self.draw_spec(*vp) + self.preview_draw(cursor_row(self.cursor()), *vp)
                + self.line_spec(cursor_row(self.cursor()), *vp, Style::Highlight),
    {
        let mut ops = self.draw(vp);
        match self.current_entry_index {
            Some(i) => append_ops(&mut ops, self.preview(i, vp, true)),
            None => {
                assert(ops_view(ops@) + seq![] =~= ops_view(ops@));
            },
        }
        append_ops(&mut ops, self.highlight_line(vp));
        ops
    }

    /// Takes the tab off the screen: the preview of the entry under the cursor,
    /// then the listing.
    pub fn clear_panes(&self, vp: &Viewport) -> (r: Vec<TermOp>)
        requires
            self.wf(),
        ensures
            ops_view(r@) == self.preview_clear(cursor_row(self.cursor()), *vp) + self.clear_spec(*vp),
    {
        let mut ops: Vec<TermOp> = Vec::new();
        assert(ops_view(ops@) =~= seq![]);
        match self.current_entry_index {
            Some(i) => append_ops(&mut ops, self.preview(i, vp, false)),
            None => {},
        }
        append_ops(&mut ops, self.clear(vp));
        ops
    }
}

impl Tab {
    /// The index of the entry under the cursor; `None` when the listing is
    /// empty.
    pub fn current_entry_index(&self) -> (r: Option<usize>)
        ensures
            r == self.cursor(),
    {
        self.current_entry_index
    }

    pub fn status(&self) -> (r: Status)
        ensures
            r == self.role(),
    {
        self.status
    }

    /// The subdirectories' names, in listing order.
    pub fn dir_entries(&self) -> (r: Vec<String>)
        ensures
            names(r@) == self.dirs(),
    {
        copy_names(&self.snapshot.dir_entries)
    }

    /// The other entries' names, in listing order.
    pub fn file_entries(&self) -> (r: Vec<String>)
        ensures
            names(r@) == self.listing().files(),
    {
        copy_names(&self.snapshot.file_entries)
    }
}

} // verus!
