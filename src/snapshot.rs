use vstd::prelude::*;

use crate::order::{
    lemma_name_lt_asymmetric, lemma_name_lt_irreflexive, lemma_name_lt_total,
    lemma_name_lt_transitive, name_lt, name_precedes,
};

verus! {

/// One child of a directory as a read of the directory reported it.
pub struct ScanEntry {
    pub name: String,
    pub is_dir: bool,
}

/// The views of a sequence of strings.
pub open spec fn names(v: Seq<String>) -> Seq<Seq<char>> {
    v.map_values(|s: String| s@)
}

/// Every name comes strictly before the ones after it; so no name occurs twice.
pub open spec fn strictly_sorted(s: Seq<Seq<char>>) -> bool {
    forall|i: int, j: int| 0 <= i < j < s.len() ==> #[trigger] name_lt(s[i], s[j])
}

/// The names that a scan reports as directories (`dirs`) or as other entries.
pub open spec fn listed(scan: Seq<ScanEntry>, dirs: bool) -> Set<Seq<char>> {
    Set::new(
        |n: Seq<char>|
            exists|i: int| 0 <= i < scan.len() && scan[i].is_dir == dirs && #[trigger] scan[i].name@ == n,
    )
}

/// A one-time read of a directory's immediate children: its subdirectories and
/// its other entries, each group in listing order.
pub struct DirectorySnapshot {
    pub(crate) path: Vec<String>,
    pub(crate) dir_entries: Vec<String>,
    pub(crate) file_entries: Vec<String>,
}

impl DirectorySnapshot {
    /// The directory's path, as its components from the filesystem root.
    pub open(crate) spec fn path_view(&self) -> Seq<Seq<char>> {
        names(self.path@)
    }

    pub open(crate) spec fn dirs(&self) -> Seq<Seq<char>> {
        names(self.dir_entries@)
    }

    pub open(crate) spec fn files(&self) -> Seq<Seq<char>> {
        names(self.file_entries@)
    }

    pub open(crate) spec fn wf(&self) -> bool {
        &&& strictly_sorted(self.dirs())
        &&& strictly_sorted(self.files())
        &&& self.dir_entries@.len() + self.file_entries@.len() <= usize::MAX
    }

    /// This is the listing of directory `path` that `scan` reports: the
    /// directories and the other entries, each group exactly once and in order.
    pub open(crate) spec fn lists(&self, path: Seq<Seq<char>>, scan: Seq<ScanEntry>) -> bool {
        &&& self.wf()
        &&& self.path_view() == path
        &&& self.dirs().to_set() == listed(scan, true)
        &&& self.files().to_set() == listed(scan, false)
    }

    /// Builds the listing of directory `path` from what a read of it reported.
    pub fn from_scan(path: Vec<String>, scan: Vec<ScanEntry>) -> (r: DirectorySnapshot)
        ensures
            r.lists(names(path@), scan@),
    {
        let mut dir_entries: Vec<String> = Vec::new();
        let mut file_entries: Vec<String> = Vec::new();
        let mut i: usize = 0;
        assert(names(dir_entries@).to_set() =~= listed(scan@.take(0), true));
        assert(names(file_entries@).to_set() =~= listed(scan@.take(0), false));
        while i < scan.len()
            invariant
                i <= scan.len(),
                strictly_sorted(names(dir_entries@)),
                strictly_sorted(names(file_entries@)),
                names(dir_entries@).to_set() == listed(scan@.take(i as int), true),
                names(file_entries@).to_set() == listed(scan@.take(i as int), false),
                dir_entries@.len() + file_entries@.len() <= i,
            decreases scan.len() - i,
        {
            let name = scan[i].name.clone();
            proof {
                lemma_listed_push(scan@.take(i as int), scan@[i as int]);
                assert(scan@.take(i as int).push(scan@[i as int]) =~= scan@.take(i + 1));
            }
            if scan[i].is_dir {
                insert_sorted(&mut dir_entries, name);
            } else {
                insert_sorted(&mut file_entries, name);
            }
            i += 1;
        }
        assert(scan@.take(scan@.len() as int) =~= scan@);
        DirectorySnapshot { path, dir_entries, file_entries }
    }
}

proof fn lemma_listed_push(scan: Seq<ScanEntry>, e: ScanEntry)
    ensures
        listed(scan.push(e), e.is_dir) == listed(scan, e.is_dir).insert(e.name@),
        listed(scan.push(e), !e.is_dir) == listed(scan, !e.is_dir),
{
    let s2 = scan.push(e);
    assert forall|n: Seq<char>| listed(scan, e.is_dir).insert(e.name@).contains(n) implies #[trigger] listed(
        s2,
        e.is_dir,
    ).contains(n) by {
        if n == e.name@ {
            assert(s2[scan.len() as int].name@ == n);
        } else {
            let i = choose|i: int| 0 <= i < scan.len() && scan[i].is_dir == e.is_dir && #[trigger] scan[i].name@ == n;
            assert(s2[i].name@ == n);
        }
    }
    let other = !e.is_dir;
    assert forall|n: Seq<char>| listed(scan, other).contains(n) implies #[trigger] listed(
        s2,
        other,
    ).contains(n) by {
        let i = choose|i: int| 0 <= i < scan.len() && scan[i].is_dir == !e.is_dir && #[trigger] scan[i].name@ == n;
        assert(s2[i].name@ == n);
    }
    assert(listed(s2, e.is_dir) =~= listed(scan, e.is_dir).insert(e.name@));
    assert(listed(s2, !e.is_dir) =~= listed(scan, !e.is_dir));
}

/// Adds `name` to a sorted vector at its place, unless it is there already.
fn insert_sorted(v: &mut Vec<String>, name: String)
    requires
        strictly_sorted(names(old(v)@)),
    ensures
        strictly_sorted(names(final(v)@)),
        final(v)@.len() <= old(v)@.len() + 1,
        names(final(v)@).to_set() == names(old(v)@).to_set().insert(name@),
{
    let ghost old_names = names(v@);
    let ghost old_len = v@.len();
    let mut p: usize = 0;
    while p < v.len()
        invariant
            p <= v.len(),
            names(v@) == old_names,
            v@.len() == old_len,
            forall|k: int| 0 <= k < p ==> name_lt(#[trigger] old_names[k], name@),
        ensures
            p <= v.len(),
            names(v@) == old_names,
            v@.len() == old_len,
            forall|k: int| 0 <= k < p ==> name_lt(#[trigger] old_names[k], name@),
            p < v.len() ==> !name_lt(old_names[p as int], name@),
        decreases v.len() - p,
    {
        if !name_precedes(&v[p], &name) {
            break;
        }
        p += 1;
    }
    if p < v.len() && v[p] == name {
        assert(old_names.to_set().insert(name@) =~= old_names.to_set()) by {
            assert(old_names[p as int] == name@);
        }
        return;
    }
    proof {
        if p < v.len() {
            lemma_name_lt_total(old_names[p as int], name@);
        }
    }
    v.insert(p, name);
    let ghost new_names = names(v@);
    assert(new_names =~= old_names.insert(p as int, name@));
    assert forall|i: int, j: int| 0 <= i < j < new_names.len() implies #[trigger] name_lt(
        new_names[i],
        new_names[j],
    ) by {
        if i < p && j > p {
            assert(name_lt(old_names[i], old_names[j - 1]));
        } else if i == p && j > p {
            if j - 1 > p {
                assert(name_lt(old_names[p as int], old_names[j - 1]));
                lemma_name_lt_transitive(name@, old_names[p as int], old_names[j - 1]);
            }
        } else if i > p {
            assert(name_lt(old_names[i - 1], old_names[j - 1]));
        }
    }
    assert(new_names.to_set() =~= old_names.to_set().insert(name@)) by {
        assert forall|n: Seq<char>| old_names.to_set().insert(name@).contains(n) implies #[trigger] new_names.to_set().contains(n) by {
            if n == name@ {
                assert(new_names[p as int] == n);
            } else {
                let k = choose|k: int| 0 <= k < old_names.len() && old_names[k] == n;
                if k < p {
                    assert(new_names[k] == n);
                } else {
                    assert(new_names[k + 1] == n);
                }
            }
        }
        assert forall|n: Seq<char>| new_names.to_set().contains(n) implies #[trigger] old_names.to_set().insert(name@).contains(n) by {
            let k = choose|k: int| 0 <= k < new_names.len() && new_names[k] == n;
            if k < p {
                assert(old_names[k] == n);
            } else if k > p {
                assert(old_names[k - 1] == n);
            }
        }
    }
}

/// Two strictly sorted sequences that hold the same names are equal.
proof fn lemma_sorted_unique(a: Seq<Seq<char>>, b: Seq<Seq<char>>)
    requires
        strictly_sorted(a),
        strictly_sorted(b),
        a.to_set() == b.to_set(),
    ensures
        a == b,
    decreases a.len(),
{
    if a.len() == 0 || b.len() == 0 {
        if a.len() > 0 {
            assert(a.to_set().contains(a[0]));
        }
        if b.len() > 0 {
            assert(b.to_set().contains(b[0]));
        }
        assert(a =~= b);
    } else {
        if a[0] != b[0] {
            assert(b.to_set().contains(a[0]));
            let k = choose|k: int| 0 <= k < b.len() && b[k] == a[0];
            assert(name_lt(b[0], b[k]));
            assert(a.to_set().contains(b[0]));
            let m = choose|m: int| 0 <= m < a.len() && a[m] == b[0];
            assert(name_lt(a[0], a[m]));
            lemma_name_lt_asymmetric(a[0], b[0]);
        }
        let a1 = a.drop_first();
        let b1 = b.drop_first();
        assert forall|x: Seq<char>| a1.to_set().contains(x) implies #[trigger] b1.to_set().contains(x) by {
            let k = choose|k: int| 0 <= k < a1.len() && a1[k] == x;
            assert(name_lt(a[0], a[k + 1]));
            lemma_name_lt_irreflexive(a[0]);
            assert(b.to_set().contains(x));
            let j = choose|j: int| 0 <= j < b.len() && b[j] == x;
            assert(b1[j - 1] == x);
        }
        assert forall|x: Seq<char>| b1.to_set().contains(x) implies #[trigger] a1.to_set().contains(x) by {
            let k = choose|k: int| 0 <= k < b1.len() && b1[k] == x;
            assert(name_lt(b[0], b[k + 1]));
            lemma_name_lt_irreflexive(b[0]);
            assert(a.to_set().contains(x));
            let j = choose|j: int| 0 <= j < a.len() && a[j] == x;
            assert(a1[j - 1] == x);
        }
        assert(a1.to_set() =~= b1.to_set());
        lemma_sorted_unique(a1, b1);
        assert(a =~= seq![a[0]] + a1);
        assert(b =~= seq![b[0]] + b1);
    }
}

/// A listing depends on which entries a read reports, not on the order in
/// which it reports them: two reads of a directory that report the same
/// directories and the same other entries give the same listing.
pub proof fn lemma_listing_reproducible(
    path: Seq<Seq<char>>,
    scan1: Seq<ScanEntry>,
    scan2: Seq<ScanEntry>,
    r1: DirectorySnapshot,
    r2: DirectorySnapshot,
)
    requires
        r1.lists(path, scan1),
        r2.lists(path, scan2),
        listed(scan1, true) == listed(scan2, true),
        listed(scan1, false) == listed(scan2, false),
    ensures
        r1.path_view() == r2.path_view(),
        r1.dirs() == r2.dirs(),
        r1.files() == r2.files(),
{
    lemma_sorted_unique(r1.dirs(), r2.dirs());
    lemma_sorted_unique(r1.files(), r2.files());
}

/// The position of `x` in `s`.
pub open spec fn index_in(s: Seq<Seq<char>>, x: Seq<char>) -> int {
    choose|k: int| 0 <= k < s.len() && s[k] == x
}

/// In a strictly sorted sequence each name stands at one place only.
pub proof fn lemma_sorted_index(s: Seq<Seq<char>>, k: int)
    requires
        strictly_sorted(s),
        0 <= k < s.len(),
    ensures
        index_in(s, s[k]) == k,
{
    let j = index_in(s, s[k]);
    assert(0 <= j < s.len() && s[j] == s[k]);
    lemma_name_lt_irreflexive(s[k]);
    if j < k {
        assert(name_lt(s[j], s[k]));
    } else if j > k {
        assert(name_lt(s[k], s[j]));
    }
}

/// Where `name` stands in `v`, if anywhere.
pub(crate) fn find_name(v: &Vec<String>, name: &String) -> (r: Option<usize>)
    ensures
        match r {
            Some(k) => k < v@.len() && names(v@)[k as int] == name@,
            None => !names(v@).contains(name@),
        },
{
    let mut k: usize = 0;
    while k < v.len()
        invariant
            k <= v@.len(),
            forall|j: int| 0 <= j < k ==> names(v@)[j] != name@,
        decreases v.len() - k,
    {
        if v[k] == *name {
            return Some(k);
        }
        k += 1;
    }
    None
}

/// A copy of a vector of strings.
pub(crate) fn copy_names(v: &Vec<String>) -> (r: Vec<String>)
    ensures
        names(r@) == names(v@),
{
    let mut r: Vec<String> = Vec::new();
    let mut k: usize = 0;
    while k < v.len()
        invariant
            k <= v@.len(),
            r@.len() == k,
            forall|j: int| 0 <= j < k ==> #[trigger] r@[j]@ == v@[j]@,
        decreases v.len() - k,
    {
        let c = v[k].clone();
        r.push(c);
        k += 1;
    }
    assert(names(r@) =~= names(v@));
    r
}

/// Whether the first `n` components of two paths agree.
fn same_prefix(a: &Vec<String>, b: &Vec<String>, n: usize) -> (r: bool)
    requires
        n <= a@.len(),
        n <= b@.len(),
    ensures
        r == (names(a@).take(n as int) == names(b@).take(n as int)),
{
    let mut k: usize = 0;
    while k < n
        invariant
            k <= n,
            n <= a@.len(),
            n <= b@.len(),
            forall|j: int| 0 <= j < k ==> #[trigger] a@[j]@ == b@[j]@,
        decreases n - k,
    {
        if a[k] != b[k] {
            assert(names(a@).take(n as int)[k as int] != names(b@).take(n as int)[k as int]);
            return false;
        }
        k += 1;
    }
    assert(names(a@).take(n as int) =~= names(b@).take(n as int));
    true
}

/// Whether `p` is the path of entry `name` of directory `dir`.
pub(crate) fn is_child_path(p: &Vec<String>, dir: &Vec<String>, name: &String) -> (r: bool)
    ensures
        r == (names(p@) == names(dir@).push(name@)),
{
    if p.len() == 0 || p.len() - 1 != dir.len() {
        assert(names(p@).len() != names(dir@).push(name@).len());
        return false;
    }
    let n = dir.len();
    let prefix = same_prefix(p, dir, n);
    let last = p[n] == *name;
    assert(names(dir@).take(n as int) =~= names(dir@));
    if prefix && last {
        assert(names(p@) =~= names(dir@).push(name@));
    } else if !prefix {
        assert(names(dir@).push(name@).take(n as int) =~= names(dir@).take(n as int));
        assert(names(p@).take(n as int) != names(dir@).push(name@).take(n as int));
    } else {
        assert(names(p@)[n as int] != names(dir@).push(name@)[n as int]);
    }
    prefix && last
}

/// Whether `p` is the path of the directory that holds directory `dir`.
pub(crate) fn is_parent_path(p: &Vec<String>, dir: &Vec<String>) -> (r: bool)
    ensures
        r == (names(dir@).len() > 0 && names(p@) == names(dir@).drop_last()),
{
    if dir.len() == 0 || p.len() != dir.len() - 1 {
        assert(dir@.len() == 0 || names(p@).len() != names(dir@).drop_last().len());
        return false;
    }
    let n = p.len();
    let prefix = same_prefix(p, dir, n);
    assert(names(p@).take(n as int) =~= names(p@));
    assert(names(dir@).take(n as int) =~= names(dir@).drop_last());
    prefix
}

} // verus!
