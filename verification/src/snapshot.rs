//! What an order looks like on disk, entry by entry, and when two looks agree.
use vstd::prelude::*;
use crate::fs_path::{FsPath, PathView};

verus! {

/// What the filesystem says an entry is, links first.
pub enum EntryKind {
    /// A symbolic link, or on Windows any reparse point such as a junction.
    Link,
    Directory,
    File,
    /// Anything else: sockets, devices, pipes.
    Other,
}

impl EntryKind {
    /// What an entry is from the three facts its metadata gives. A link wins
    /// over whatever it points at, so that a link to a directory is never
    /// walked into.
    pub fn classify(is_link: bool, is_dir: bool, is_file: bool) -> (kind: EntryKind)
        ensures
            is_link ==> kind is Link,
            !is_link && is_dir ==> kind is Directory,
            !is_link && !is_dir && is_file ==> kind is File,
            !is_link && !is_dir && !is_file ==> kind is Other,
    {
        if is_link {
            EntryKind::Link
        } else if is_dir {
            EntryKind::Directory
        } else if is_file {
            EntryKind::File
        } else {
            EntryKind::Other
        }
    }
}

/// One entry of a directory walk, as the filesystem reported it.
pub struct RawEntry {
    pub path: FsPath,
    /// The path as the user sees it, for messages.
    pub display: String,
    pub kind: EntryKind,
    pub size: u64,
    /// The modification time in nanoseconds since the Unix epoch, or the
    /// reason it could not be read.
    pub modified: Result<i128, String>,
}

/// One step of a directory walk: an entry, or why it could not be read.
pub enum WalkItem {
    Found(RawEntry),
    /// The walk itself failed here.
    WalkFailed(String),
    /// The entry's metadata could not be read.
    MetadataFailed(String),
}

/// The recorded state of one file or directory of an order.
pub struct EntryState {
    pub path: FsPath,
    /// The path as the user sees it, for messages; not part of the state.
    pub display: String,
    pub directory: bool,
    pub size: u64,
    pub modified: i128,
}

/// The mathematical value of an entry's state.
pub struct EntryView {
    pub path: PathView,
    pub directory: bool,
    pub size: u64,
    pub modified: int,
}

impl View for EntryState {
    type V = EntryView;

    open spec fn view(&self) -> EntryView {
        EntryView {
            path: self.path@,
            directory: self.directory,
            size: self.size,
            modified: self.modified as int,
        }
    }
}

/// The states of all entries of an order, in walk order.
pub struct Snapshot {
    pub entries: Vec<EntryState>,
}

impl View for Snapshot {
    type V = Seq<EntryView>;

    open spec fn view(&self) -> Seq<EntryView> {
        self.entries@.map_values(|e: EntryState| e@)
    }
}

/// The display of a found entry.
pub open spec fn found_display(item: WalkItem) -> Option<Seq<char>> {
    match item {
        WalkItem::Found(raw) => Some(raw.display@),
        _ => None,
    }
}

/// What one walk item contributes to a snapshot: the entry's state, or the
/// message that stops the snapshot. Links and special files are refused.
pub open spec fn spec_entry(item: WalkItem) -> Result<EntryView, Seq<char>> {
    match item {
        WalkItem::WalkFailed(e) => Err("Cannot read an order entry: "@ + e@),
        WalkItem::MetadataFailed(e) => Err(e@),
        WalkItem::Found(raw) => match raw.kind {
            EntryKind::Link => Err(
                "Symbolic links and junctions are unsupported: "@ + raw.display@,
            ),
            EntryKind::Other => Err("Unsupported file type: "@ + raw.display@),
            _ => match raw.modified {
                Err(e) => Err(e@),
                Ok(t) => Ok(
                    EntryView {
                        path: raw.path@,
                        directory: raw.kind is Directory,
                        size: raw.size,
                        modified: t as int,
                    },
                ),
            },
        },
    }
}

/// The snapshot that a walk gives: every item's entry in order, or the
/// message of the first item that has none.
pub open spec fn spec_snapshot(items: Seq<WalkItem>) -> Result<Seq<EntryView>, Seq<char>>
    decreases items.len(),
{
    if items.len() == 0 {
        Ok(Seq::empty())
    } else {
        match spec_snapshot(items.drop_last()) {
            Err(e) => Err(e),
            Ok(entries) => match spec_entry(items.last()) {
                Err(e) => Err(e),
                Ok(entry) => Ok(entries.push(entry)),
            },
        }
    }
}

/// An error in the snapshot of a prefix of `items` is the error of all of them.
proof fn lemma_snapshot_error_extends(items: Seq<WalkItem>, n: int)
    requires
        0 <= n <= items.len(),
        spec_snapshot(items.subrange(0, n)) is Err,
    ensures
        spec_snapshot(items) == spec_snapshot(items.subrange(0, n)),
    decreases items.len() - n,
{
    if n == items.len() {
        assert(items.subrange(0, n) =~= items);
    } else {
        let next = items.subrange(0, n + 1);
        assert(next.drop_last() =~= items.subrange(0, n));
        lemma_snapshot_error_extends(items, n + 1);
    }
}

/// Joins two strings.
pub fn concat(a: &str, b: &str) -> (out: String)
    ensures
        out@ == a@ + b@,
{
    let mut out = String::from_str(a);
    out.append(b);
    out
}

/// Records the walk of an order: each entry's kind, size and modification
/// time, refusing links and special files.
pub fn snapshot_entries(items: Vec<WalkItem>) -> (snap: Result<Snapshot, String>)
    ensures
        match (snap, spec_snapshot(items@)) {
            (Ok(s), Ok(v)) => s@ == v,
            (Err(m), Err(e)) => m@ == e,
            _ => false,
        },
        snap matches Ok(s) ==> s.entries@.len() == items@.len() && forall|i: int|
            0 <= i < items@.len() ==> found_display(items@[i]) == Some(
                #[trigger] s.entries@[i].display@,
            ),
{
    let ghost all = items@;
    let mut entries: Vec<EntryState> = Vec::new();
    let mut rest = items;
    let total = rest.len();
    let mut i: usize = 0;
    assert(all.subrange(0, 0) =~= Seq::<WalkItem>::empty());
    assert(entries@.map_values(|e: EntryState| e@) =~= Seq::<EntryView>::empty());
    while rest.len() > 0
        invariant
            all.len() <= usize::MAX,
            all == items@,
            entries@.len() == i,
            forall|j: int|
                0 <= j < i ==> found_display(all[j]) == Some(#[trigger] entries@[j].display@),
            all.len() == i + rest@.len(),
            rest@ == all.subrange(i as int, all.len() as int),
            spec_snapshot(all.subrange(0, i as int)) == Ok::<Seq<EntryView>, Seq<char>>(
                entries@.map_values(|e: EntryState| e@),
            ),
        decreases rest.len(),
    {
        let item = rest.remove(0);
        let ghost prev = all.subrange(0, i as int);
        let ghost next = all.subrange(0, i + 1);
        assert(item == all[i as int]);
        assert(next.drop_last() =~= prev);
        assert(next.last() == item);
        let ghost expected = spec_entry(item);
        let ghost given = item;
        let ghost before_push = entries@;
        let failure = match item {
            WalkItem::WalkFailed(e) => Some(concat("Cannot read an order entry: ", e.as_str())),
            WalkItem::MetadataFailed(e) => Some(e),
            WalkItem::Found(raw) => match raw.kind {
                EntryKind::Link => Some(
                    concat("Symbolic links and junctions are unsupported: ", raw.display.as_str()),
                ),
                EntryKind::Other => Some(concat("Unsupported file type: ", raw.display.as_str())),
                EntryKind::Directory | EntryKind::File => match raw.modified {
                    Err(e) => Some(e),
                    Ok(t) => {
                        let directory = match raw.kind {
                            EntryKind::Directory => true,
                            _ => false,
                        };
                        let ghost before = entries@;
                        entries.push(EntryState { path: raw.path, display: raw.display, directory, size: raw.size, modified: t });
                        assert(entries@.map_values(|e: EntryState| e@) =~= before.map_values(
                            |e: EntryState| e@,
                        ).push(entries@.last()@));
                        assert(entries@[i as int].display@ == given->Found_0.display@);
                        None
                    },
                },
            },
        };
        match failure {
            Some(m) => {
                assert(expected == Err::<EntryView, Seq<char>>(m@));
                assert(spec_snapshot(next) == Err::<Seq<EntryView>, Seq<char>>(m@));
                proof {
                    lemma_snapshot_error_extends(all, i + 1);
                }
                assert(spec_snapshot(all) == Err::<Seq<EntryView>, Seq<char>>(m@));
                return Err(m);
            },
            None => {},
        }
        assert forall|j: int| 0 <= j < i + 1 implies found_display(all[j]) == Some(
            #[trigger] entries@[j].display@,
        ) by {
            if j < i {
                assert(entries@[j] == before_push[j]);
            }
        }
        i = i + 1;
    }
    assert(all.subrange(0, all.len() as int) =~= all);
    assert(i == all.len());
    Ok(Snapshot { entries })
}

impl EntryState {
    /// Whether two entry states are the same.
    pub fn same_as(&self, other: &EntryState) -> (same: bool)
        ensures
            same == (self@ == other@),
    {
        self.directory == other.directory && self.size == other.size && self.modified
            == other.modified && self.path.same_as(&other.path)
    }

    /// Copies an entry state.
    pub fn duplicate(&self) -> (out: EntryState)
        ensures
            out@ == self@,
            out.display@ == self.display@,
    {
        EntryState {
            path: self.path.duplicate(),
            display: self.display.clone(),
            directory: self.directory,
            size: self.size,
            modified: self.modified,
        }
    }
}

impl Snapshot {
    /// Whether two snapshots record the same entries in the same order.
    pub fn same_as(&self, other: &Snapshot) -> (same: bool)
        ensures
            same == (self@ == other@),
    {
        if self.entries.len() != other.entries.len() {
            assert(self@.len() != other@.len());
            return false;
        }
        let mut i: usize = 0;
        while i < self.entries.len()
            invariant
                self.entries@.len() == other.entries@.len(),
                i <= self.entries@.len(),
                forall|j: int| 0 <= j < i ==> self@[j] == other@[j],
            decreases self.entries.len() - i,
        {
            if !self.entries[i].same_as(&other.entries[i]) {
                assert(self@[i as int] != other@[i as int]);
                return false;
            }
            i = i + 1;
        }
        assert(self@ =~= other@);
        true
    }

    /// Copies a snapshot.
    pub fn duplicate(&self) -> (out: Snapshot)
        ensures
            out@ == self@,
    {
        let mut entries: Vec<EntryState> = Vec::new();
        let mut i: usize = 0;
        while i < self.entries.len()
            invariant
                i <= self.entries@.len(),
                entries@.len() == i,
                forall|j: int| 0 <= j < i ==> #[trigger] entries@[j]@ == self.entries@[j]@,
            decreases self.entries.len() - i,
        {
            entries.push(self.entries[i].duplicate());
            i = i + 1;
        }
        let out = Snapshot { entries };
        assert(out@ =~= self@);
        out
    }
}

} // verus!
