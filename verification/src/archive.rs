//! Packaging one order into one ZIP.
//!
//! An [`ArchiveJob`] decides every step of packaging an order; the caller
//! performs each step on the filesystem and reports what happened. The job
//! reads the order, checks that nothing changed while it was packed, names
//! the ZIP after the order, places the order's files at the ZIP root, and
//! publishes only to a destination outside the order where no archive of
//! that name exists yet.
use vstd::prelude::*;
use crate::fs_path::{FsPath, PartView, PathView, spec_starts_with, spec_file_name, spec_parent};
use crate::snapshot::{EntryState, EntryView, EntryKind, Snapshot, WalkItem, spec_snapshot, snapshot_entries, concat};
use crate::entry_name::{spec_archive_path, archive_path};

verus! {

/// What an archive job waits for next.
#[derive(PartialEq, Eq, Structural, Clone, Copy, Debug)]
pub enum ArchiveStage {
    InspectingSource,
    ResolvingSource,
    WalkingSource,
    CreatingDestination,
    ResolvingDestination,
    CheckingTarget,
    Staging,
    Writing,
    Finishing,
    Rewalking,
    Flushing,
    Publishing,
    Done,
}

/// The order of the stages; a finished job has none.
pub open spec fn rank(stage: ArchiveStage) -> int {
    match stage {
        ArchiveStage::InspectingSource => 0,
        ArchiveStage::ResolvingSource => 1,
        ArchiveStage::WalkingSource => 2,
        ArchiveStage::CreatingDestination => 3,
        ArchiveStage::ResolvingDestination => 4,
        ArchiveStage::CheckingTarget => 5,
        ArchiveStage::Staging => 6,
        ArchiveStage::Writing => 7,
        ArchiveStage::Finishing => 8,
        ArchiveStage::Rewalking => 9,
        ArchiveStage::Flushing => 10,
        ArchiveStage::Publishing => 11,
        ArchiveStage::Done => -1,
    }
}

/// What the caller must do next for an archive job.
pub enum ArchiveAction {
    /// Read the metadata of this order path itself, without following links.
    InspectSource(FsPath),
    /// Resolve this order path to its canonical form.
    ResolveSource(FsPath),
    /// Walk the resolved order, links not followed, sorted by file name.
    WalkSource(FsPath),
    /// Create this destination folder and its parents.
    CreateDestination(FsPath),
    /// Resolve this destination folder to its canonical form.
    ResolveDestination(FsPath),
    /// Report whether this path exists.
    CheckTarget(FsPath),
    /// Create a temporary archive inside this resolved destination folder.
    Stage(FsPath),
    /// Add a directory entry of this name to the archive.
    AddDirectory(String),
    /// Add a file entry of this name, with the contents of the file at `path`.
    AddFile { name: String, path: FsPath },
    /// Finish writing the archive.
    Finish,
    /// Flush the temporary archive to disk.
    Flush,
    /// Move the temporary archive to this path, never replacing a file there.
    Publish(FsPath),
    /// The archive is published at this path.
    Delivered(FsPath),
    /// The job failed with this message; the temporary archive is discarded.
    Failed(String),
}

/// The mathematical value of an action.
pub enum ArchiveActionView {
    InspectSource(PathView),
    ResolveSource(PathView),
    WalkSource(PathView),
    CreateDestination(PathView),
    ResolveDestination(PathView),
    CheckTarget(PathView),
    Stage(PathView),
    AddDirectory(Seq<char>),
    AddFile(Seq<char>, PathView),
    Finish,
    Flush,
    Publish(PathView),
    Delivered(PathView),
    Failed(Seq<char>),
}

impl View for ArchiveAction {
    type V = ArchiveActionView;

    open spec fn view(&self) -> ArchiveActionView {
        match self {
            ArchiveAction::InspectSource(p) => ArchiveActionView::InspectSource(p@),
            ArchiveAction::ResolveSource(p) => ArchiveActionView::ResolveSource(p@),
            ArchiveAction::WalkSource(p) => ArchiveActionView::WalkSource(p@),
            ArchiveAction::CreateDestination(p) => ArchiveActionView::CreateDestination(p@),
            ArchiveAction::ResolveDestination(p) => ArchiveActionView::ResolveDestination(p@),
            ArchiveAction::CheckTarget(p) => ArchiveActionView::CheckTarget(p@),
            ArchiveAction::Stage(p) => ArchiveActionView::Stage(p@),
            ArchiveAction::AddDirectory(n) => ArchiveActionView::AddDirectory(n@),
            ArchiveAction::AddFile { name, path } => ArchiveActionView::AddFile(name@, path@),
            ArchiveAction::Finish => ArchiveActionView::Finish,
            ArchiveAction::Flush => ArchiveActionView::Flush,
            ArchiveAction::Publish(p) => ArchiveActionView::Publish(p@),
            ArchiveAction::Delivered(p) => ArchiveActionView::Delivered(p@),
            ArchiveAction::Failed(m) => ArchiveActionView::Failed(m@),
        }
    }
}

/// Why a file could not be added to the archive.
pub enum FileFailure {
    /// The archive entry could not be started.
    Start(String),
    /// The order's file could not be opened.
    Open(String),
    /// The file's contents could not be copied into the archive.
    Copy(String),
}

/// The bytes `.zip`.
pub open spec fn zip_suffix() -> Seq<u8> {
    seq![0x2eu8, 0x7au8, 0x69u8, 0x70u8]
}

/// Where the archive of the order at `source` goes inside `destination`:
/// the order's name with `.zip` appended.
pub open spec fn spec_target(destination: PathView, source: PathView) -> PathView {
    destination.push(PartView::Name(spec_file_name(source)->0 + zip_suffix()))
}

/// The folder that archive names are relative to: the order itself when it
/// is a directory, else the folder that holds it.
pub open spec fn spec_root(source: PathView, is_dir: bool) -> Option<PathView> {
    if is_dir {
        Some(source)
    } else {
        spec_parent(source)
    }
}

/// What one recorded entry becomes in the archive.
pub enum ItemView {
    /// Nothing: the entry is the archive root itself.
    Skip,
    /// A directory entry of this name.
    Directory(Seq<char>),
    /// A file entry of this name, read from this path.
    File(Seq<char>, PathView),
    /// The entry has no name in the archive, for this reason.
    Fail(Seq<char>),
}

/// What the entry `e` becomes in an archive rooted at `root`. Directory
/// names end with `/`.
pub open spec fn spec_item(root: PathView, e: EntryView) -> ItemView {
    if !spec_starts_with(e.path, root) {
        ItemView::Fail("prefix not found"@)
    } else {
        let rel = e.path.subrange(root.len() as int, e.path.len() as int);
        if rel.len() == 0 {
            ItemView::Skip
        } else {
            match spec_archive_path(rel) {
                Err(x) => ItemView::Fail(x.spec_message()),
                Ok(n) => if e.directory {
                    ItemView::Directory(n + seq!['/'])
                } else {
                    ItemView::File(n, e.path)
                },
            }
        }
    }
}

/// The first entry from index `i` on that is not skipped, with the index
/// after it; `Skip` when none is left.
pub open spec fn spec_next_item(root: PathView, entries: Seq<EntryView>, i: int) -> (int, ItemView)
    decreases entries.len() - i,
{
    if i < 0 || i >= entries.len() {
        (entries.len() as int, ItemView::Skip)
    } else {
        match spec_item(root, entries[i]) {
            ItemView::Skip => spec_next_item(root, entries, i + 1),
            it => (i + 1, it),
        }
    }
}

/// The items of the first `n` recorded entries that are not skipped, in
/// walk order: what the archive holds once they are written.
pub open spec fn spec_planned(root: PathView, entries: Seq<EntryView>, n: int) -> Seq<ItemView>
    decreases n,
{
    if n <= 0 {
        Seq::empty()
    } else {
        let prev = spec_planned(root, entries, n - 1);
        match spec_item(root, entries[n - 1]) {
            ItemView::Skip => prev,
            it => prev.push(it),
        }
    }
}

/// Every item is a directory or a file entry.
pub open spec fn all_written(items: Seq<ItemView>) -> bool {
    forall|k: int| 0 <= k < items.len() ==> (#[trigger] items[k] is Directory || items[k] is File)
}

/// The action that writes an item, or finishes when none is left.
pub open spec fn write_action(it: ItemView) -> ArchiveActionView {
    match it {
        ItemView::Skip => ArchiveActionView::Finish,
        ItemView::Directory(n) => ArchiveActionView::AddDirectory(n),
        ItemView::File(n, p) => ArchiveActionView::AddFile(n, p),
        ItemView::Fail(m) => ArchiveActionView::Failed(m),
    }
}

/// What one recorded entry becomes in the archive.
enum Item {
    Skip,
    Directory(String),
    File(String, FsPath),
    Fail(String),
}

impl View for Item {
    type V = ItemView;

    closed spec fn view(&self) -> ItemView {
        match self {
            Item::Skip => ItemView::Skip,
            Item::Directory(n) => ItemView::Directory(n@),
            Item::File(n, p) => ItemView::File(n@, p@),
            Item::Fail(m) => ItemView::Fail(m@),
        }
    }
}

fn plan_item(root: &FsPath, e: &EntryState) -> (it: Item)
    ensures
        it@ == spec_item(root@, e@),
{
    match e.path.strip_prefix(root) {
        None => Item::Fail(String::from_str("prefix not found")),
        Some(rel) => {
            assert(rel@.len() == rel.parts@.len());
            if rel.parts.len() == 0 {
                Item::Skip
            } else {
                match archive_path(&rel) {
                    Err(x) => Item::Fail(x.message()),
                    Ok(n) => {
                        if e.directory {
                            let mut n = n;
                            let ghost base = n@;
                            n.append("/");
                            proof {
                                reveal_strlit("/");
                            }
                            assert(n@ == base + seq!['/']);
                            Item::Directory(n)
                        } else {
                            Item::File(n, e.path.duplicate())
                        }
                    },
                }
            }
        },
    }
}

/// Appends three strings.
fn concat3(a: &str, b: &str, c: &str) -> (out: String)
    ensures
        out@ == a@ + b@ + c@,
{
    let mut out = concat(a, b);
    out.append(c);
    out
}

/// The state of packaging one order.
pub struct ArchiveJob {
    pub stage: ArchiveStage,
    /// The order path as given.
    pub order: FsPath,
    /// The order path as the user sees it, for messages.
    pub source_display: String,
    /// The destination folder as given.
    pub folder: FsPath,
    /// The recorded state the order must still have, if any.
    pub expected: Option<Snapshot>,
    pub is_dir: bool,
    /// The resolved order path.
    pub source: FsPath,
    /// The order's state when packaging began.
    pub before: Snapshot,
    /// The resolved destination folder.
    pub destination: FsPath,
    pub target: FsPath,
    pub target_display: String,
    /// The folder that archive names are relative to.
    pub root: FsPath,
    /// The next recorded entry to consider.
    pub next: usize,
    /// The recorded entry being written.
    pub writing: usize,
    /// The archive path was reported absent.
    pub target_absent: Ghost<bool>,
    /// The order's state when packaging ended.
    pub after: Ghost<Seq<EntryView>>,
    /// The entries handed out for writing so far.
    pub written: Ghost<Seq<ItemView>>,
}

/// A failed job's action.
pub open spec fn failed(m: Seq<char>) -> ArchiveActionView {
    ArchiveActionView::Failed(m)
}

impl ArchiveJob {
    /// What holds of a job at each stage: the ZIP is named after the order
    /// and lies outside it, the order matched the expected state, and the
    /// entries are named relative to the archive root.
    pub open spec fn wf(&self) -> bool {
        &&& rank(self.stage) >= rank(ArchiveStage::CreatingDestination) ==> self.matches_expected()
        &&& rank(self.stage) >= rank(ArchiveStage::CheckingTarget) ==> self.target_named()
        &&& rank(self.stage) >= rank(ArchiveStage::Staging) ==> self.target_absent@
        &&& rank(self.stage) >= rank(ArchiveStage::Writing) ==> self.ready()
        &&& self.stage == ArchiveStage::Writing ==> self.writing < self.next
        &&& rank(self.stage) >= rank(ArchiveStage::Finishing) ==> self.next == self.before@.len()
        &&& rank(self.stage) >= rank(ArchiveStage::Flushing) ==> self.after@ == self.before@
    }

    /// The order's state matched the expected one, if any.
    pub open spec fn matches_expected(&self) -> bool {
        self.expected matches Some(x) ==> x@ == self.before@
    }

    /// The archive is named after the order and lies in a destination
    /// outside the order.
    pub open spec fn target_named(&self) -> bool {
        &&& spec_file_name(self.source@) is Some
        &&& !spec_starts_with(self.destination@, self.source@)
        &&& self.target@ == spec_target(self.destination@, self.source@)
    }

    /// Entries can be written: the target was checked and found absent, and
    /// names are taken relative to the archive root.
    pub open spec fn ready(&self) -> bool {
        &&& self.matches_expected()
        &&& self.target_named()
        &&& self.target_absent@
        &&& spec_root(self.source@, self.is_dir) == Some(self.root@)
        &&& self.next <= self.before@.len()
        &&& self.written@ == spec_planned(self.root@, self.before@, self.next as int)
        &&& all_written(self.written@)
    }

    /// The inputs of the job are kept from `old` to `self`.
    pub open spec fn keeps_inputs(self, old: ArchiveJob) -> bool {
        &&& self.order@ == old.order@
        &&& self.folder@ == old.folder@
        &&& self.source_display@ == old.source_display@
        &&& self.expected.is_some() == old.expected.is_some()
        &&& (self.expected matches Some(x) ==> x@ == old.expected->0@)
    }

    /// Everything but the stage and the final state is kept from `old` to
    /// `self`.
    pub open spec fn keeps_all(self, old: ArchiveJob) -> bool {
        &&& self.keeps_inputs(old)
        &&& self.is_dir == old.is_dir
        &&& self.source@ == old.source@
        &&& self.before@ == old.before@
        &&& self.destination@ == old.destination@
        &&& self.target@ == old.target@
        &&& self.target_display@ == old.target_display@
        &&& self.root@ == old.root@
        &&& self.next == old.next
        &&& self.target_absent@ == old.target_absent@
        &&& self.written@ == old.written@
    }

    fn fail(&mut self, message: String) -> (action: ArchiveAction)
        ensures
            final(self).stage == ArchiveStage::Done,
            final(self).keeps_all(*old(self)),
            final(self).wf(),
            action@ == failed(message@),
    {
        self.stage = ArchiveStage::Done;
        ArchiveAction::Failed(message)
    }

    /// Writes the next entry that is not skipped, or finishes.
    fn write_next(&mut self) -> (action: ArchiveAction)
        requires
            old(self).ready(),
        ensures
            final(self).wf(),
            final(self).keeps_inputs(*old(self)),
            final(self).source@ == old(self).source@,
            final(self).before@ == old(self).before@,
            final(self).target@ == old(self).target@,
            final(self).target_display@ == old(self).target_display@,
            final(self).root@ == old(self).root@,
            ({
                let (n, it) = spec_next_item(old(self).root@, old(self).before@, old(self).next as int);
                &&& action@ == write_action(it)
                &&& final(self).stage == match it {
                    ItemView::Skip => ArchiveStage::Finishing,
                    ItemView::Fail(_) => ArchiveStage::Done,
                    _ => ArchiveStage::Writing,
                }
                &&& (!(it is Fail) ==> final(self).next == n)
                &&& (final(self).stage == ArchiveStage::Writing ==> final(self).writing == n - 1)
            }),
    {
        let ghost start = self.next as int;
        let ghost entries = self.before@;
        let ghost root = self.root@;
        while self.next < self.before.entries.len()
            invariant
                self.ready(),
                self.keeps_inputs(*old(self)),
                self.target_absent@ == old(self).target_absent@,
                self.after@ == old(self).after@,
                self.source@ == old(self).source@,
                self.before@ == entries,
                self.root@ == root,
                entries == old(self).before@,
                root == old(self).root@,
                start == old(self).next as int,
                self.target@ == old(self).target@,
                self.target_display@ == old(self).target_display@,
                self.is_dir == old(self).is_dir,
                self.destination@ == old(self).destination@,
                spec_root(self.source@, self.is_dir) == Some(self.root@),
                self.next <= self.before@.len(),
                spec_next_item(root, entries, self.next as int) == spec_next_item(root, entries, start),
            decreases self.before.entries.len() - self.next,
        {
            let i = self.next;
            let ghost old_written = self.written@;
            let it = plan_item(&self.root, &self.before.entries[i]);
            assert(entries[i as int] == self.before.entries@[i as int]@);
            match it {
                Item::Skip => {
                    self.next = i + 1;
                    assert(spec_planned(root, entries, i + 1) == spec_planned(root, entries, i as int));
                },
                Item::Fail(m) => {
                    self.stage = ArchiveStage::Done;
                    return ArchiveAction::Failed(m);
                },
                Item::Directory(n) => {
                    let ghost it = ItemView::Directory(n@);
                    proof {
                        assert(spec_planned(root, entries, i + 1) == spec_planned(root, entries, i as int).push(it));
                        self.written@ = self.written@.push(it);
                        assert forall|k: int| 0 <= k < self.written@.len() implies (#[trigger] self.written@[k] is Directory || self.written@[k] is File) by {
                            if k < self.written@.len() - 1 {
                                assert(self.written@[k] == old_written[k]);
                            }
                        }
                    }
                    self.next = i + 1;
                    self.writing = i;
                    self.stage = ArchiveStage::Writing;
                    return ArchiveAction::AddDirectory(n);
                },
                Item::File(n, p) => {
                    let ghost it = ItemView::File(n@, p@);
                    proof {
                        assert(spec_planned(root, entries, i + 1) == spec_planned(root, entries, i as int).push(it));
                        self.written@ = self.written@.push(it);
                        assert forall|k: int| 0 <= k < self.written@.len() implies (#[trigger] self.written@[k] is Directory || self.written@[k] is File) by {
                            if k < self.written@.len() - 1 {
                                assert(self.written@[k] == old_written[k]);
                            }
                        }
                    }
                    self.next = i + 1;
                    self.writing = i;
                    self.stage = ArchiveStage::Writing;
                    return ArchiveAction::AddFile { name: n, path: p };
                },
            }
        }
        self.stage = ArchiveStage::Finishing;
        ArchiveAction::Finish
    }

    /// A job that packages the order at `source` (shown as `source_display`)
    /// into the folder `destination`, provided its walk still gives
    /// `expected` when one is given.
    pub fn archive_checked(
        source: FsPath,
        source_display: String,
        destination: FsPath,
        expected: Option<Snapshot>,
    ) -> (out: (ArchiveJob, ArchiveAction))
        ensures
            out.0.wf(),
            out.0.stage == ArchiveStage::InspectingSource,
            out.0.order@ == source@,
            out.0.folder@ == destination@,
            out.0.source_display@ == source_display@,
            out.0.expected.is_some() == expected.is_some(),
            out.0.expected matches Some(x) ==> x@ == expected->0@,
            out.1@ == ArchiveActionView::InspectSource(source@),
    {
        let inspect = source.duplicate();
        let job = ArchiveJob {
            stage: ArchiveStage::InspectingSource,
            order: source,
            source_display,
            folder: destination,
            expected,
            is_dir: false,
            source: FsPath { parts: Vec::new() },
            before: Snapshot { entries: Vec::new() },
            destination: FsPath { parts: Vec::new() },
            target: FsPath { parts: Vec::new() },
            target_display: String::new(),
            root: FsPath { parts: Vec::new() },
            next: 0,
            writing: 0,
            target_absent: Ghost(false),
            after: Ghost(Seq::empty()),
            written: Ghost(Seq::empty()),
        };
        (job, ArchiveAction::InspectSource(inspect))
    }

    /// Handles the metadata of the order path: links and special files are
    /// refused.
    pub fn source_inspected(&mut self, kind: Result<EntryKind, String>) -> (action: ArchiveAction)
        requires
            old(self).wf(),
            old(self).stage == ArchiveStage::InspectingSource,
        ensures
            final(self).wf(),
            final(self).keeps_inputs(*old(self)),
            match kind {
                Err(e) => action@ == failed(
                    "Cannot read order "@ + old(self).source_display@ + ": "@ + e@,
                ),
                Ok(EntryKind::Link) => action@ == failed(
                    "Order must not be a symbolic link or junction"@,
                ),
                Ok(EntryKind::Other) => action@ == failed("Order must be a file or directory"@),
                Ok(k) => action@ == ArchiveActionView::ResolveSource(old(self).order@) && final(self).stage
                    == ArchiveStage::ResolvingSource && final(self).is_dir == (k is Directory),
            },
            action@ is Failed ==> final(self).stage == ArchiveStage::Done,
    {
        match kind {
            Err(e) => {
                let m = concat3("Cannot read order ", self.source_display.as_str(), ": ");
                let m = concat(m.as_str(), e.as_str());
                self.fail(m)
            },
            Ok(EntryKind::Link) => self.fail(
                String::from_str("Order must not be a symbolic link or junction"),
            ),
            Ok(EntryKind::Other) => self.fail(String::from_str("Order must be a file or directory")),
            Ok(EntryKind::Directory) => {
                self.is_dir = true;
                self.stage = ArchiveStage::ResolvingSource;
                ArchiveAction::ResolveSource(self.order.duplicate())
            },
            Ok(EntryKind::File) => {
                self.is_dir = false;
                self.stage = ArchiveStage::ResolvingSource;
                ArchiveAction::ResolveSource(self.order.duplicate())
            },
        }
    }

    /// Handles the resolved order path: the order is walked there.
    pub fn source_resolved(&mut self, resolved: Result<FsPath, String>) -> (action: ArchiveAction)
        requires
            old(self).wf(),
            old(self).stage == ArchiveStage::ResolvingSource,
        ensures
            final(self).wf(),
            final(self).keeps_inputs(*old(self)),
            final(self).is_dir == old(self).is_dir,
            match resolved {
                Err(e) => action@ == failed("Cannot resolve order path: "@ + e@) && final(self).stage
                    == ArchiveStage::Done,
                Ok(p) => action@ == ArchiveActionView::WalkSource(p@) && final(self).stage
                    == ArchiveStage::WalkingSource && final(self).source@ == p@,
            },
    {
        match resolved {
            Err(e) => self.fail(concat("Cannot resolve order path: ", e.as_str())),
            Ok(p) => {
                let walk = p.duplicate();
                self.source = p;
                self.stage = ArchiveStage::WalkingSource;
                ArchiveAction::WalkSource(walk)
            },
        }
    }

    /// Handles the first walk of the order: it becomes the state that the
    /// archive must match, and must equal the expected state if one was
    /// given.
    pub fn source_walked(&mut self, items: Vec<WalkItem>) -> (action: ArchiveAction)
        requires
            old(self).wf(),
            old(self).stage == ArchiveStage::WalkingSource,
        ensures
            final(self).wf(),
            final(self).keeps_inputs(*old(self)),
            final(self).is_dir == old(self).is_dir,
            final(self).source@ == old(self).source@,
            match spec_snapshot(items@) {
                Err(m) => action@ == failed(m) && final(self).stage == ArchiveStage::Done,
                Ok(v) => if (old(self).expected matches Some(x) && x@ != v) {
                    action@ == failed("Order changed before packaging; waiting for it to settle"@)
                        && final(self).stage == ArchiveStage::Done
                } else {
                    action@ == ArchiveActionView::CreateDestination(old(self).folder@) && final(self).stage
                        == ArchiveStage::CreatingDestination && final(self).before@ == v
                },
            },
    {
        match snapshot_entries(items) {
            Err(m) => self.fail(m),
            Ok(s) => {
                let changed = match &self.expected {
                    Some(x) => !x.same_as(&s),
                    None => false,
                };
                if changed {
                    self.fail(
                        String::from_str("Order changed before packaging; waiting for it to settle"),
                    )
                } else {
                    self.before = s;
                    self.stage = ArchiveStage::CreatingDestination;
                    ArchiveAction::CreateDestination(self.folder.duplicate())
                }
            },
        }
    }

    /// Handles the creation of the destination folder.
    pub fn destination_created(&mut self, created: Result<(), String>) -> (action: ArchiveAction)
        requires
            old(self).wf(),
            old(self).stage == ArchiveStage::CreatingDestination,
        ensures
            final(self).wf(),
            final(self).keeps_all(*old(self)),
            match created {
                Err(e) => action@ == failed("Cannot create destination folder: "@ + e@)
                    && final(self).stage == ArchiveStage::Done,
                Ok(_) => action@ == ArchiveActionView::ResolveDestination(old(self).folder@) && final(self).stage
                    == ArchiveStage::ResolvingDestination,
            },
    {
        match created {
            Err(e) => self.fail(concat("Cannot create destination folder: ", e.as_str())),
            Ok(_) => {
                self.stage = ArchiveStage::ResolvingDestination;
                ArchiveAction::ResolveDestination(self.folder.duplicate())
            },
        }
    }

    /// Handles the resolved destination folder: it must lie outside the
    /// order, and the archive there is named after the order.
    pub fn destination_resolved(&mut self, resolved: Result<FsPath, String>) -> (action:
        ArchiveAction)
        requires
            old(self).wf(),
            old(self).stage == ArchiveStage::ResolvingDestination,
        ensures
            final(self).wf(),
            final(self).keeps_inputs(*old(self)),
            final(self).is_dir == old(self).is_dir,
            final(self).source@ == old(self).source@,
            final(self).before@ == old(self).before@,
            match resolved {
                Err(e) => action@ == failed("Cannot resolve destination path: "@ + e@)
                    && final(self).stage == ArchiveStage::Done,
                Ok(d) => if spec_starts_with(d@, old(self).source@) {
                    action@ == failed("Destination must be outside the order folder"@)
                        && final(self).stage == ArchiveStage::Done
                } else if spec_file_name(old(self).source@) is None {
                    action@ == failed("Cannot archive a filesystem root"@) && final(self).stage
                        == ArchiveStage::Done
                } else {
                    &&& action@ == ArchiveActionView::CheckTarget(
                        spec_target(d@, old(self).source@),
                    )
                    &&& final(self).stage == ArchiveStage::CheckingTarget
                    &&& final(self).destination@ == d@
                },
            },
    {
        match resolved {
            Err(e) => self.fail(concat("Cannot resolve destination path: ", e.as_str())),
            Ok(d) => {
                if d.starts_with(&self.source) {
                    return self.fail(String::from_str("Destination must be outside the order folder"));
                }
                match self.source.file_name() {
                    None => self.fail(String::from_str("Cannot archive a filesystem root")),
                    Some(name) => {
                        let mut name = name;
                        name.push(0x2eu8);
                        name.push(0x7au8);
                        name.push(0x69u8);
                        name.push(0x70u8);
                        let ghost base = spec_file_name(self.source@)->0;
                        assert(name@ =~= base + zip_suffix());
                        let target = d.join_name(name);
                        let check = target.duplicate();
                        self.destination = d;
                        self.target = target;
                        self.stage = ArchiveStage::CheckingTarget;
                        ArchiveAction::CheckTarget(check)
                    },
                }
            },
        }
    }

    /// Handles whether the archive path exists: an existing archive is never
    /// replaced.
    pub fn target_checked(&mut self, present: Result<bool, String>, display: String) -> (action:
        ArchiveAction)
        requires
            old(self).wf(),
            old(self).stage == ArchiveStage::CheckingTarget,
        ensures
            final(self).wf(),
            final(self).keeps_inputs(*old(self)),
            final(self).is_dir == old(self).is_dir,
            final(self).source@ == old(self).source@,
            final(self).before@ == old(self).before@,
            final(self).destination@ == old(self).destination@,
            final(self).target@ == old(self).target@,
            match present {
                Err(e) => action@ == failed(e@) && final(self).stage == ArchiveStage::Done,
                Ok(true) => action@ == failed("Archive already exists: "@ + display@)
                    && final(self).stage == ArchiveStage::Done,
                Ok(false) => action@ == ArchiveActionView::Stage(old(self).destination@) && final(self).stage
                    == ArchiveStage::Staging && final(self).target_display@ == display@,
            },
    {
        match present {
            Err(e) => self.fail(e),
            Ok(true) => self.fail(concat("Archive already exists: ", display.as_str())),
            Ok(false) => {
                self.target_absent = Ghost(true);
                self.target_display = display;
                self.stage = ArchiveStage::Staging;
                ArchiveAction::Stage(self.destination.duplicate())
            },
        }
    }

    /// Handles the creation of the temporary archive, then writes the first
    /// entry.
    pub fn staged(&mut self, created: Result<(), String>) -> (action: ArchiveAction)
        requires
            old(self).wf(),
            old(self).stage == ArchiveStage::Staging,
        ensures
            final(self).wf(),
            final(self).keeps_inputs(*old(self)),
            final(self).source@ == old(self).source@,
            final(self).before@ == old(self).before@,
            final(self).target@ == old(self).target@,
            final(self).target_display@ == old(self).target_display@,
            match created {
                Err(e) => action@ == failed("Cannot create temporary archive: "@ + e@)
                    && final(self).stage == ArchiveStage::Done,
                Ok(_) => match spec_root(old(self).source@, old(self).is_dir) {
                    None => action@ == failed("Order has no parent directory"@) && final(self).stage
                        == ArchiveStage::Done,
                    Some(root) => {
                        let (n, it) = spec_next_item(root, old(self).before@, 0);
                        &&& final(self).root@ == root
                        &&& action@ == write_action(it)
                        &&& (!(it is Fail) ==> final(self).next == n)
                        &&& (final(self).stage == ArchiveStage::Writing ==> final(self).writing == n
                            - 1)
                        &&& final(self).stage == match it {
                            ItemView::Skip => ArchiveStage::Finishing,
                            ItemView::Fail(_) => ArchiveStage::Done,
                            _ => ArchiveStage::Writing,
                        }
                    },
                },
            },
    {
        match created {
            Err(e) => self.fail(concat("Cannot create temporary archive: ", e.as_str())),
            Ok(_) => {
                let root = if self.is_dir {
                    Some(self.source.duplicate())
                } else {
                    self.source.parent()
                };
                match root {
                    None => self.fail(String::from_str("Order has no parent directory")),
                    Some(r) => {
                        self.root = r;
                        self.next = 0;
                        self.written = Ghost(Seq::empty());
                        self.write_next()
                    },
                }
            },
        }
    }

    /// Handles the result of adding a directory entry, then writes the next
    /// entry.
    pub fn directory_added(&mut self, added: Result<(), String>) -> (action: ArchiveAction)
        requires
            old(self).wf(),
            old(self).stage == ArchiveStage::Writing,
        ensures
            final(self).wf(),
            final(self).keeps_inputs(*old(self)),
            final(self).source@ == old(self).source@,
            final(self).before@ == old(self).before@,
            final(self).target@ == old(self).target@,
            final(self).target_display@ == old(self).target_display@,
            final(self).root@ == old(self).root@,
            match added {
                Err(e) => action@ == failed(e@) && final(self).stage == ArchiveStage::Done,
                Ok(_) => {
                    let (n, it) = spec_next_item(old(self).root@, old(self).before@, old(self).next as int);
                    &&& action@ == write_action(it)
                    &&& (!(it is Fail) ==> final(self).next == n)
                    &&& (final(self).stage == ArchiveStage::Writing ==> final(self).writing == n - 1)
                    &&& final(self).stage == match it {
                        ItemView::Skip => ArchiveStage::Finishing,
                        ItemView::Fail(_) => ArchiveStage::Done,
                        _ => ArchiveStage::Writing,
                    }
                },
            },
    {
        match added {
            Err(e) => self.fail(e),
            Ok(_) => self.write_next(),
        }
    }

    /// Handles the result of adding a file entry, then writes the next entry.
    pub fn file_added(&mut self, added: Result<(), FileFailure>) -> (action: ArchiveAction)
        requires
            old(self).wf(),
            old(self).stage == ArchiveStage::Writing,
        ensures
            final(self).wf(),
            final(self).keeps_inputs(*old(self)),
            final(self).source@ == old(self).source@,
            final(self).before@ == old(self).before@,
            final(self).target@ == old(self).target@,
            final(self).target_display@ == old(self).target_display@,
            final(self).root@ == old(self).root@,
            match added {
                Err(FileFailure::Start(e)) => action@ == failed(e@) && final(self).stage
                    == ArchiveStage::Done,
                Err(FileFailure::Open(e)) => action@ == failed(
                    "Cannot open "@ + old(self).before.entries@[old(self).writing as int].display@
                        + ": "@ + e@,
                ) && final(self).stage == ArchiveStage::Done,
                Err(FileFailure::Copy(e)) => action@ == failed(
                    "Cannot write file into archive: "@ + e@,
                ) && final(self).stage == ArchiveStage::Done,
                Ok(_) => {
                    let (n, it) = spec_next_item(old(self).root@, old(self).before@, old(self).next as int);
                    &&& action@ == write_action(it)
                    &&& (!(it is Fail) ==> final(self).next == n)
                    &&& (final(self).stage == ArchiveStage::Writing ==> final(self).writing == n - 1)
                    &&& final(self).stage == match it {
                        ItemView::Skip => ArchiveStage::Finishing,
                        ItemView::Fail(_) => ArchiveStage::Done,
                        _ => ArchiveStage::Writing,
                    }
                },
            },
    {
        match added {
            Err(FileFailure::Start(e)) => self.fail(e),
            Err(FileFailure::Open(e)) => {
                let m = concat3(
                    "Cannot open ",
                    self.before.entries[self.writing].display.as_str(),
                    ": ",
                );
                let m = concat(m.as_str(), e.as_str());
                self.fail(m)
            },
            Err(FileFailure::Copy(e)) => self.fail(concat("Cannot write file into archive: ", e.as_str())),
            Ok(_) => self.write_next(),
        }
    }

    /// Handles finishing the archive: the order is walked again.
    pub fn finished(&mut self, done: Result<(), String>) -> (action: ArchiveAction)
        requires
            old(self).wf(),
            old(self).stage == ArchiveStage::Finishing,
        ensures
            final(self).wf(),
            final(self).keeps_all(*old(self)),
            match done {
                Err(e) => action@ == failed("Cannot finish archive: "@ + e@) && final(self).stage
                    == ArchiveStage::Done,
                Ok(_) => action@ == ArchiveActionView::WalkSource(old(self).source@)
                    && final(self).stage == ArchiveStage::Rewalking,
            },
    {
        match done {
            Err(e) => self.fail(concat("Cannot finish archive: ", e.as_str())),
            Ok(_) => {
                self.stage = ArchiveStage::Rewalking;
                ArchiveAction::WalkSource(self.source.duplicate())
            },
        }
    }

    /// Handles the second walk of the order: the archive is kept only if the
    /// order did not change while it was packed.
    pub fn source_rewalked(&mut self, items: Vec<WalkItem>) -> (action: ArchiveAction)
        requires
            old(self).wf(),
            old(self).stage == ArchiveStage::Rewalking,
        ensures
            final(self).wf(),
            final(self).keeps_all(*old(self)),
            match spec_snapshot(items@) {
                Err(m) => action@ == failed(m) && final(self).stage == ArchiveStage::Done,
                Ok(v) => if v != old(self).before@ {
                    action@ == failed(
                        "Order changed during packaging; please retry after it settles"@,
                    ) && final(self).stage == ArchiveStage::Done
                } else {
                    action@ == ArchiveActionView::Flush && final(self).stage
                        == ArchiveStage::Flushing
                },
            },
    {
        match snapshot_entries(items) {
            Err(m) => self.fail(m),
            Ok(after) => {
                if !after.same_as(&self.before) {
                    self.fail(
                        String::from_str(
                            "Order changed during packaging; please retry after it settles",
                        ),
                    )
                } else {
                    self.after = Ghost(after@);
                    self.stage = ArchiveStage::Flushing;
                    ArchiveAction::Flush
                }
            },
        }
    }

    /// Handles flushing the archive: it is then published at the target.
    pub fn flushed(&mut self, done: Result<(), String>) -> (action: ArchiveAction)
        requires
            old(self).wf(),
            old(self).stage == ArchiveStage::Flushing,
        ensures
            final(self).wf(),
            final(self).keeps_all(*old(self)),
            match done {
                Err(e) => action@ == failed("Cannot flush archive: "@ + e@) && final(self).stage
                    == ArchiveStage::Done,
                Ok(_) => action@ == ArchiveActionView::Publish(old(self).target@)
                    && final(self).stage == ArchiveStage::Publishing,
            },
    {
        match done {
            Err(e) => self.fail(concat("Cannot flush archive: ", e.as_str())),
            Ok(_) => {
                self.stage = ArchiveStage::Publishing;
                ArchiveAction::Publish(self.target.duplicate())
            },
        }
    }

    /// Handles publishing the archive: the job ends with its path.
    pub fn published(&mut self, done: Result<(), String>) -> (action: ArchiveAction)
        requires
            old(self).wf(),
            old(self).stage == ArchiveStage::Publishing,
        ensures
            final(self).wf(),
            final(self).keeps_all(*old(self)),
            final(self).stage == ArchiveStage::Done,
            match done {
                Err(e) => action@ == failed(
                    "Cannot publish archive "@ + old(self).target_display@ + ": "@ + e@,
                ),
                Ok(_) => action@ == ArchiveActionView::Delivered(old(self).target@),
            },
    {
        match done {
            Err(e) => {
                let m = concat3("Cannot publish archive ", self.target_display.as_str(), ": ");
                self.fail(concat(m.as_str(), e.as_str()))
            },
            Ok(_) => {
                self.stage = ArchiveStage::Done;
                ArchiveAction::Delivered(self.target.duplicate())
            },
        }
    }
}

/// A job that packages the order at `source` (shown as `source_display`)
/// into one ZIP in the folder `destination`.
pub fn archive_order(source: FsPath, source_display: String, destination: FsPath) -> (out: (
    ArchiveJob,
    ArchiveAction,
))
    ensures
        out.0.wf(),
        out.0.stage == ArchiveStage::InspectingSource,
        out.0.order@ == source@,
        out.0.folder@ == destination@,
        out.0.source_display@ == source_display@,
        out.0.expected is None,
        out.1@ == ArchiveActionView::InspectSource(source@),
{
    ArchiveJob::archive_checked(source, source_display, destination, None)
}

} // verus!
