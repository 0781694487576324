//! Small collections keyed by paths: a map from paths to values, a set of
//! paths, and a set of routes (source and destination pairs).
use vstd::prelude::*;
use crate::fs_path::{FsPath, PathView};

verus! {

/// The entries of a table by their keys' and values' views.
pub open spec fn keyed<V: View>(s: Seq<(FsPath, V)>) -> Seq<(PathView, V::V)> {
    s.map_values(|e: (FsPath, V)| (e.0@, e.1@))
}

/// No key occurs twice.
pub open spec fn distinct_keys<W>(s: Seq<(PathView, W)>) -> bool {
    forall|i: int, j: int| 0 <= i < s.len() && 0 <= j < s.len() && i != j ==> s[i].0 != s[j].0
}

/// The map that a list of key and value pairs stands for.
pub open spec fn table_map<W>(s: Seq<(PathView, W)>) -> Map<PathView, W> {
    Map::new(
        |k: PathView| exists|i: int| 0 <= i < s.len() && s[i].0 == k,
        |k: PathView| s[choose|i: int| 0 <= i < s.len() && s[i].0 == k].1,
    )
}

/// Each listed pair is in the map.
pub proof fn lemma_table_at<W>(s: Seq<(PathView, W)>, i: int)
    requires
        distinct_keys(s),
        0 <= i < s.len(),
    ensures
        table_map(s).contains_key(s[i].0),
        table_map(s)[s[i].0] == s[i].1,
{
    let k = s[i].0;
    assert(0 <= i < s.len() && s[i].0 == k);
    let j = choose|j: int| 0 <= j < s.len() && s[j].0 == k;
    assert(j == i);
}

/// A key that is not listed is not in the map.
pub proof fn lemma_table_absent<W>(s: Seq<(PathView, W)>, k: PathView)
    requires
        forall|i: int| 0 <= i < s.len() ==> s[i].0 != k,
    ensures
        !table_map(s).contains_key(k),
{
}

/// Appending a new key adds it to the map.
pub proof fn lemma_table_push<W>(s: Seq<(PathView, W)>, k: PathView, v: W)
    requires
        distinct_keys(s),
        !table_map(s).contains_key(k),
    ensures
        distinct_keys(s.push((k, v))),
        table_map(s.push((k, v))) == table_map(s).insert(k, v),
{
    let t = s.push((k, v));
    assert forall|i: int| 0 <= i < s.len() implies s[i].0 != k by {
        if s[i].0 == k {
            lemma_table_at(s, i);
        }
    }
    assert(distinct_keys(t));
    assert forall|key: PathView| #[trigger] table_map(t).contains_key(key) <==> table_map(s).insert(k, v).contains_key(key) by {
        if table_map(t).contains_key(key) {
            let i = choose|i: int| 0 <= i < t.len() && t[i].0 == key;
            if i < s.len() {
                assert(s[i].0 == key);
            }
        }
        if table_map(s).contains_key(key) {
            let i = choose|i: int| 0 <= i < s.len() && s[i].0 == key;
            assert(t[i].0 == key);
        }
        if key == k {
            assert(t[s.len() as int].0 == key);
        }
    }
    assert forall|key: PathView| #[trigger] table_map(t).contains_key(key) implies table_map(t)[key]
        == table_map(s).insert(k, v)[key] by {
        let i = choose|i: int| 0 <= i < t.len() && t[i].0 == key;
        lemma_table_at(t, i);
        if i < s.len() {
            lemma_table_at(s, i);
        }
    }
    assert(table_map(t) =~= table_map(s).insert(k, v));
}

/// Replacing the value at a listed key replaces it in the map.
pub proof fn lemma_table_update<W>(s: Seq<(PathView, W)>, i: int, v: W)
    requires
        distinct_keys(s),
        0 <= i < s.len(),
    ensures
        distinct_keys(s.update(i, (s[i].0, v))),
        table_map(s.update(i, (s[i].0, v))) == table_map(s).insert(s[i].0, v),
{
    let k = s[i].0;
    let t = s.update(i, (k, v));
    assert(distinct_keys(t));
    lemma_table_at(s, i);
    assert forall|key: PathView| #[trigger] table_map(t).contains_key(key) <==> table_map(s).insert(k, v).contains_key(key) by {
        if table_map(t).contains_key(key) {
            let j = choose|j: int| 0 <= j < t.len() && t[j].0 == key;
            assert(s[j].0 == key);
        }
        if table_map(s).contains_key(key) {
            let j = choose|j: int| 0 <= j < s.len() && s[j].0 == key;
            assert(t[j].0 == key);
        }
    }
    assert forall|key: PathView| #[trigger] table_map(t).contains_key(key) implies table_map(t)[key]
        == table_map(s).insert(k, v)[key] by {
        let j = choose|j: int| 0 <= j < t.len() && t[j].0 == key;
        lemma_table_at(t, j);
        lemma_table_at(s, j);
    }
    assert(table_map(t) =~= table_map(s).insert(k, v));
}

/// Removing a listed pair removes its key from the map.
pub proof fn lemma_table_remove<W>(s: Seq<(PathView, W)>, i: int)
    requires
        distinct_keys(s),
        0 <= i < s.len(),
    ensures
        distinct_keys(s.remove(i)),
        table_map(s.remove(i)) == table_map(s).remove(s[i].0),
{
    let k = s[i].0;
    let t = s.remove(i);
    assert forall|a: int, b: int| 0 <= a < t.len() && 0 <= b < t.len() && a != b implies t[a].0
        != t[b].0 by {
        let a2 = if a < i { a } else { a + 1 };
        let b2 = if b < i { b } else { b + 1 };
        assert(t[a] == s[a2]);
        assert(t[b] == s[b2]);
    }
    assert forall|key: PathView| #[trigger] table_map(t).contains_key(key) <==> table_map(s).remove(k).contains_key(key) by {
        if table_map(t).contains_key(key) {
            let j = choose|j: int| 0 <= j < t.len() && t[j].0 == key;
            let j2 = if j < i { j } else { j + 1 };
            assert(s[j2].0 == key);
            assert(j2 != i);
        }
        if table_map(s).contains_key(key) && key != k {
            let j = choose|j: int| 0 <= j < s.len() && s[j].0 == key;
            assert(j != i);
            let j2 = if j < i { j } else { j - 1 };
            assert(t[j2].0 == key);
        }
    }
    assert forall|key: PathView| #[trigger] table_map(t).contains_key(key) implies table_map(t)[key]
        == table_map(s).remove(k)[key] by {
        let j = choose|j: int| 0 <= j < t.len() && t[j].0 == key;
        let j2 = if j < i { j } else { j + 1 };
        assert(t[j] == s[j2]);
        lemma_table_at(t, j);
        lemma_table_at(s, j2);
    }
    assert(table_map(t) =~= table_map(s).remove(k));
}

/// A map from paths to values, kept as a list with distinct keys.
pub struct PathTable<V> {
    pub entries: Vec<(FsPath, V)>,
}

impl<V: View> View for PathTable<V> {
    type V = Map<PathView, V::V>;

    open spec fn view(&self) -> Map<PathView, V::V> {
        table_map(keyed(self.entries@))
    }
}

impl<V: View> PathTable<V> {
    /// No key is listed twice.
    pub open spec fn wf(&self) -> bool {
        distinct_keys(keyed(self.entries@))
    }

    /// An empty table.
    pub fn new() -> (t: PathTable<V>)
        ensures
            t.wf(),
            t@ == Map::<PathView, V::V>::empty(),
    {
        let t = PathTable { entries: Vec::new() };
        assert(t@ =~= Map::<PathView, V::V>::empty());
        t
    }

    /// The number of keys.
    pub fn len(&self) -> (n: usize)
        requires
            self.wf(),
        ensures
            n == self@.len(),
    {
        let ghost s = keyed(self.entries@);
        let ghost keys = s.map_values(|e: (PathView, V::V)| e.0);
        proof {
            assert(keys.no_duplicates());
            assert forall|k: PathView| #[trigger] self@.dom().contains(k) <==> keys.to_set().contains(k) by {
                if self@.dom().contains(k) {
                    let i = choose|i: int| 0 <= i < s.len() && s[i].0 == k;
                    assert(keys[i] == k);
                }
                if keys.to_set().contains(k) {
                    let i = choose|i: int| 0 <= i < keys.len() && keys[i] == k;
                    assert(s[i].0 == k);
                }
            }
            assert(self@.dom() =~= keys.to_set());
            keys.unique_seq_to_set();
        }
        self.entries.len()
    }

    /// The index of `key`, if it is listed.
    pub fn find(&self, key: &FsPath) -> (found: Option<usize>)
        requires
            self.wf(),
        ensures
            found is Some <==> self@.contains_key(key@),
            found matches Some(i) ==> i < self.entries@.len() && self.entries@[i as int].0@ == key@
                && self@[key@] == self.entries@[i as int].1@,
    {
        let ghost s = keyed(self.entries@);
        let mut i: usize = 0;
        while i < self.entries.len()
            invariant
                s == keyed(self.entries@),
                distinct_keys(s),
                i <= self.entries@.len(),
                forall|j: int| 0 <= j < i ==> s[j].0 != key@,
            decreases self.entries.len() - i,
        {
            if self.entries[i].0.same_as(key) {
                proof {
                    lemma_table_at(s, i as int);
                }
                return Some(i);
            }
            i = i + 1;
        }
        proof {
            lemma_table_absent(s, key@);
        }
        None
    }

    /// The value at `key`, if any.
    pub fn get(&self, key: &FsPath) -> (value: Option<&V>)
        requires
            self.wf(),
        ensures
            value is Some <==> self@.contains_key(key@),
            value matches Some(v) ==> v@ == self@[key@],
    {
        match self.find(key) {
            Some(i) => Some(&self.entries[i].1),
            None => None,
        }
    }

    /// Sets the value at `key`.
    pub fn insert(&mut self, key: FsPath, value: V)
        requires
            old(self).wf(),
        ensures
            final(self).wf(),
            final(self)@ == old(self)@.insert(key@, value@),
    {
        let ghost s = keyed(self.entries@);
        match self.find(&key) {
            Some(i) => {
                proof {
                    lemma_table_update(s, i as int, value@);
                }
                self.entries.set(i, (key, value));
                assert(keyed(self.entries@) =~= s.update(i as int, (s[i as int].0, value@)));
            },
            None => {
                proof {
                    lemma_table_push(s, key@, value@);
                }
                self.entries.push((key, value));
                assert(keyed(self.entries@) =~= s.push((key@, value@)));
            },
        }
    }

    /// Removes `key` and its value.
    pub fn remove(&mut self, key: &FsPath)
        requires
            old(self).wf(),
        ensures
            final(self).wf(),
            final(self)@ == old(self)@.remove(key@),
    {
        let ghost s = keyed(self.entries@);
        match self.find(key) {
            Some(i) => {
                proof {
                    lemma_table_remove(s, i as int);
                }
                self.entries.remove(i);
                assert(keyed(self.entries@) =~= s.remove(i as int));
            },
            None => {
                assert(self@ =~= self@.remove(key@));
            },
        }
    }

    /// Keeps only the keys in `keep`.
    pub fn retain_in(&mut self, keep: &PathSet)
        requires
            old(self).wf(),
        ensures
            final(self).wf(),
            final(self)@ == old(self)@.restrict(keep@),
    {
        let ghost original = self@;
        let mut i: usize = 0;
        while i < self.entries.len()
            invariant
                self.wf(),
                i <= self.entries@.len(),
                forall|j: int| 0 <= j < i ==> keep@.contains(#[trigger] self.entries@[j].0@),
                forall|k: PathView| #[trigger] self@.contains_key(k) ==> original.contains_key(k)
                    && self@[k] == original[k],
                forall|k: PathView|
                    #![trigger original.contains_key(k)]
                    original.contains_key(k) && keep@.contains(k) ==> self@.contains_key(k),
            decreases self.entries.len() - i,
        {
            if keep.contains(&self.entries[i].0) {
                i = i + 1;
            } else {
                let ghost s = keyed(self.entries@);
                let ghost gone = s[i as int].0;
                let ghost prev_map = self@;
                proof {
                    lemma_table_remove(s, i as int);
                }
                self.entries.remove(i);
                assert(keyed(self.entries@) =~= s.remove(i as int));
                assert(self@ == prev_map.remove(gone));
                assert forall|k: PathView| #[trigger] self@.contains_key(k) implies original.contains_key(k)
                    && self@[k] == original[k] by {
                    assert(prev_map.contains_key(k));
                }
                assert forall|k: PathView| original.contains_key(k) && keep@.contains(k) implies #[trigger] self@.contains_key(k) by {
                    assert(prev_map.contains_key(k));
                }
            }
        }
        proof {
            let s = keyed(self.entries@);
            assert forall|k: PathView| self@.contains_key(k) implies keep@.contains(k) by {
                let j = choose|j: int| 0 <= j < s.len() && s[j].0 == k;
                assert(self.entries@[j].0@ == k);
            }
            assert(self@ =~= original.restrict(keep@));
        }
    }
}

/// A set of paths, kept as a list.
pub struct PathSet {
    pub items: Vec<FsPath>,
}

impl View for PathSet {
    type V = Set<PathView>;

    open spec fn view(&self) -> Set<PathView> {
        Set::new(|p: PathView| exists|i: int| 0 <= i < self.items@.len() && self.items@[i]@ == p)
    }
}

impl PathSet {
    /// An empty set.
    pub fn new() -> (s: PathSet)
        ensures
            s@ == Set::<PathView>::empty(),
    {
        let s = PathSet { items: Vec::new() };
        assert(s@ =~= Set::<PathView>::empty());
        s
    }

    /// Whether `path` is in the set.
    pub fn contains(&self, path: &FsPath) -> (found: bool)
        ensures
            found == self@.contains(path@),
    {
        let mut i: usize = 0;
        while i < self.items.len()
            invariant
                i <= self.items@.len(),
                forall|j: int| 0 <= j < i ==> self.items@[j]@ != path@,
            decreases self.items.len() - i,
        {
            if self.items[i].same_as(path) {
                return true;
            }
            i = i + 1;
        }
        false
    }

    /// Adds `path` to the set.
    pub fn insert(&mut self, path: FsPath)
        ensures
            final(self)@ == old(self)@.insert(path@),
    {
        if !self.contains(&path) {
            let ghost before = self.items@;
            self.items.push(path);
            proof {
                assert forall|p: PathView| #[trigger] self@.contains(p) <==> old(self)@.insert(path@).contains(p) by {
                    if old(self)@.contains(p) {
                        let i = choose|i: int| 0 <= i < before.len() && before[i]@ == p;
                        assert(self.items@[i]@ == p);
                    }
                    if self@.contains(p) && p != path@ {
                        let i = choose|i: int| 0 <= i < self.items@.len() && self.items@[i]@ == p;
                        assert(i < before.len());
                        assert(before[i]@ == p);
                    }
                    if p == path@ {
                        assert(self.items@[before.len() as int]@ == p);
                    }
                }
            }
            assert(self@ =~= old(self)@.insert(path@));
        } else {
            assert(self@ =~= old(self)@.insert(path@));
        }
    }
}

/// A pair of an orders folder and a destination folder.
pub struct Route {
    pub source: FsPath,
    pub destination: FsPath,
}

/// The mathematical value of a route.
pub type RouteView = (PathView, PathView);

impl View for Route {
    type V = RouteView;

    open spec fn view(&self) -> RouteView {
        (self.source@, self.destination@)
    }
}

impl Route {
    /// Whether two routes are the same.
    pub fn same_as(&self, other: &Route) -> (same: bool)
        ensures
            same == (self@ == other@),
    {
        self.source.same_as(&other.source) && self.destination.same_as(&other.destination)
    }
}

/// A set of routes, kept as a list.
pub struct RouteSet {
    pub items: Vec<Route>,
}

impl View for RouteSet {
    type V = Set<RouteView>;

    open spec fn view(&self) -> Set<RouteView> {
        Set::new(|r: RouteView| exists|i: int| 0 <= i < self.items@.len() && self.items@[i]@ == r)
    }
}

impl RouteSet {
    /// An empty set.
    pub fn new() -> (s: RouteSet)
        ensures
            s@ == Set::<RouteView>::empty(),
    {
        let s = RouteSet { items: Vec::new() };
        assert(s@ =~= Set::<RouteView>::empty());
        s
    }

    /// Whether `route` is in the set.
    pub fn contains(&self, route: &Route) -> (found: bool)
        ensures
            found == self@.contains(route@),
    {
        let mut i: usize = 0;
        while i < self.items.len()
            invariant
                i <= self.items@.len(),
                forall|j: int| 0 <= j < i ==> self.items@[j]@ != route@,
            decreases self.items.len() - i,
        {
            if self.items[i].same_as(route) {
                return true;
            }
            i = i + 1;
        }
        false
    }

    /// Adds `route` to the set.
    pub fn insert(&mut self, route: Route)
        ensures
            final(self)@ == old(self)@.insert(route@),
    {
        if !self.contains(&route) {
            let ghost before = self.items@;
            self.items.push(route);
            proof {
                assert forall|r: RouteView| #[trigger] self@.contains(r) <==> old(self)@.insert(route@).contains(r) by {
                    if old(self)@.contains(r) {
                        let i = choose|i: int| 0 <= i < before.len() && before[i]@ == r;
                        assert(self.items@[i]@ == r);
                    }
                    if self@.contains(r) && r != route@ {
                        let i = choose|i: int| 0 <= i < self.items@.len() && self.items@[i]@ == r;
                        assert(i < before.len());
                        assert(before[i]@ == r);
                    }
                    if r == route@ {
                        assert(self.items@[before.len() as int]@ == r);
                    }
                }
            }
            assert(self@ =~= old(self)@.insert(route@));
        } else {
            assert(self@ =~= old(self)@.insert(route@));
        }
    }
}

} // verus!
