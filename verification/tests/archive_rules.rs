use sir_zips_a_lot::archive::{ArchiveAction, ArchiveJob, ArchiveStage, FileFailure};
use sir_zips_a_lot::archive_order;
use sir_zips_a_lot::entry_name::{archive_path, ArchivePathError};
use sir_zips_a_lot::fs_path::{FsPath, PathPart};
use sir_zips_a_lot::snapshot::{snapshot_entries, EntryKind, RawEntry, Snapshot, WalkItem};

fn abs(names: &[&str]) -> FsPath {
    let mut parts = vec![PathPart::Root];
    for n in names {
        parts.push(PathPart::Name(n.as_bytes().to_vec()));
    }
    FsPath { parts }
}

fn rel(names: &[&str]) -> FsPath {
    FsPath {
        parts: names
            .iter()
            .map(|n| PathPart::Name(n.as_bytes().to_vec()))
            .collect(),
    }
}

fn shown(names: &[&str]) -> String {
    format!("/{}", names.join("/"))
}

fn found(names: &[&str], kind: EntryKind, size: u64, modified: i128) -> WalkItem {
    WalkItem::Found(RawEntry {
        path: abs(names),
        display: shown(names),
        kind,
        size,
        modified: Ok(modified),
    })
}

fn order_walk() -> Vec<WalkItem> {
    let root = ["tmp", "Order 100 — café"];
    vec![
        found(&root, EntryKind::Directory, 0, 10),
        found(&["tmp", "Order 100 — café", "artwork"], EntryKind::Directory, 0, 11),
        found(
            &["tmp", "Order 100 — café", "artwork", "proof.txt"],
            EntryKind::File,
            11,
            12,
        ),
        found(&["tmp", "Order 100 — café", "empty"], EntryKind::Directory, 0, 13),
    ]
}

fn order(names: &[&str]) -> (ArchiveJob, ArchiveAction) {
    archive_order(abs(names), shown(names), abs(&["tmp", "out"]))
}

fn name_of(path: &FsPath) -> Vec<u8> {
    match path.parts.last() {
        Some(PathPart::Name(b)) => b.clone(),
        _ => Vec::new(),
    }
}

fn failed(action: ArchiveAction) -> String {
    match action {
        ArchiveAction::Failed(m) => m,
        _ => panic!("expected a failure"),
    }
}

/// Runs a directory order up to the point where the archive is staged.
fn stage_directory_order(job: &mut ArchiveJob) -> ArchiveAction {
    let order = abs(&["tmp", "Order 100 — café"]);
    let resolve = job.source_inspected(Ok(EntryKind::Directory));
    assert!(matches!(resolve, ArchiveAction::ResolveSource(ref p) if p.same_as(&order)));
    let walk = job.source_resolved(Ok(order));
    assert!(matches!(walk, ArchiveAction::WalkSource(_)));
    let create = job.source_walked(order_walk());
    assert!(matches!(create, ArchiveAction::CreateDestination(ref p) if p.same_as(&abs(&["tmp", "out"]))));
    let resolve = job.destination_created(Ok(()));
    assert!(matches!(resolve, ArchiveAction::ResolveDestination(ref p) if p.same_as(&abs(&["tmp", "out"]))));
    job.destination_resolved(Ok(abs(&["tmp", "out"])))
}

#[test]
fn archive_names_join_components_with_slashes() {
    assert_eq!(
        archive_path(&rel(&["artwork", "proof.txt"])).ok().unwrap(),
        "artwork/proof.txt"
    );
    assert_eq!(archive_path(&rel(&["order.csv"])).ok().unwrap(), "order.csv");
    assert_eq!(archive_path(&rel(&[])).ok().unwrap(), "");
}

#[test]
fn archive_names_refuse_backslashes_invalid_unicode_and_roots() {
    let e = archive_path(&rel(&["a\\b"])).err().unwrap();
    assert!(matches!(e, ArchivePathError::Backslash));
    assert_eq!(e.message(), "Backslashes in filenames are unsupported");
    let bad = FsPath { parts: vec![PathPart::Name(vec![0x66, 0xff])] };
    let e = archive_path(&bad).err().unwrap();
    assert_eq!(e.message(), "Order filenames must be valid Unicode");
    let e = archive_path(&abs(&["x"])).err().unwrap();
    assert_eq!(e.message(), "Archive paths must be relative");
}

#[test]
fn snapshot_refuses_links_and_special_files() {
    let items = vec![
        found(&["o"], EntryKind::Directory, 0, 1),
        found(&["o", "z-link"], EntryKind::Link, 0, 1),
    ];
    assert_eq!(
        snapshot_entries(items).err().unwrap(),
        "Symbolic links and junctions are unsupported: /o/z-link"
    );
    let items = vec![found(&["o", "fifo"], EntryKind::Other, 0, 1)];
    assert_eq!(
        snapshot_entries(items).err().unwrap(),
        "Unsupported file type: /o/fifo"
    );
    let items = vec![WalkItem::WalkFailed("denied".to_string())];
    assert_eq!(
        snapshot_entries(items).err().unwrap(),
        "Cannot read an order entry: denied"
    );
}

#[test]
fn snapshot_records_entries_in_walk_order() {
    let snap = snapshot_entries(order_walk()).ok().unwrap();
    assert_eq!(snap.entries.len(), 4);
    assert!(snap.entries[0].directory);
    assert!(!snap.entries[2].directory);
    assert_eq!(snap.entries[2].size, 11);
    assert_eq!(snap.entries[3].modified, 13);
    let again = snapshot_entries(order_walk()).ok().unwrap();
    assert!(snap.same_as(&again));
}

#[test]
fn directory_order_contents_sit_at_the_zip_root() {
    let (mut job, first) = order(&["tmp", "Order 100 — café"]);
    assert!(matches!(first, ArchiveAction::InspectSource(ref p) if p.same_as(&abs(&["tmp", "Order 100 — café"]))));
    let check = stage_directory_order(&mut job);
    let target = match check {
        ArchiveAction::CheckTarget(t) => t,
        _ => panic!("expected a target check"),
    };
    assert!(target.same_as(&abs(&["tmp", "out", "Order 100 — café.zip"])));
    let stage = job.target_checked(Ok(false), "/tmp/out/Order 100 — café.zip".to_string());
    assert!(matches!(stage, ArchiveAction::Stage(ref p) if p.same_as(&abs(&["tmp", "out"]))));
    let mut names = Vec::new();
    let mut action = job.staged(Ok(()));
    loop {
        action = match action {
            ArchiveAction::AddDirectory(n) => {
                names.push(n);
                job.directory_added(Ok(()))
            }
            ArchiveAction::AddFile { name, path } => {
                assert!(path.same_as(&abs(&["tmp", "Order 100 — café", "artwork", "proof.txt"])));
                names.push(name);
                job.file_added(Ok(()))
            }
            other => {
                action = other;
                break;
            }
        };
    }
    assert_eq!(names, vec!["artwork/", "artwork/proof.txt", "empty/"]);
    assert!(matches!(action, ArchiveAction::Finish));
    assert!(matches!(job.finished(Ok(())), ArchiveAction::WalkSource(_)));
    assert!(matches!(job.source_rewalked(order_walk()), ArchiveAction::Flush));
    let publish = job.flushed(Ok(()));
    assert!(matches!(publish, ArchiveAction::Publish(ref t) if t.same_as(&abs(&["tmp", "out", "Order 100 — café.zip"]))));
    let done = job.published(Ok(()));
    assert!(matches!(done, ArchiveAction::Delivered(ref t) if name_of(t) == "Order 100 — café.zip".as_bytes()));
    assert_eq!(job.stage, ArchiveStage::Done);
}

#[test]
fn single_file_order_is_named_after_the_file() {
    let (mut job, _) = order(&["tmp", "order.csv"]);
    let resolve = job.source_inspected(Ok(EntryKind::File));
    assert!(matches!(resolve, ArchiveAction::ResolveSource(ref p) if p.same_as(&abs(&["tmp", "order.csv"]))));
    job.source_resolved(Ok(abs(&["tmp", "order.csv"])));
    let walk = vec![found(&["tmp", "order.csv"], EntryKind::File, 23, 5)];
    job.source_walked(walk);
    job.destination_created(Ok(()));
    let check = job.destination_resolved(Ok(abs(&["tmp", "out"])));
    assert!(matches!(check, ArchiveAction::CheckTarget(ref t) if t.same_as(&abs(&["tmp", "out", "order.csv.zip"]))));
    job.target_checked(Ok(false), "/tmp/out/order.csv.zip".to_string());
    let add = job.staged(Ok(()));
    assert!(matches!(add, ArchiveAction::AddFile { ref name, .. } if name == "order.csv"));
    assert!(matches!(job.file_added(Ok(())), ArchiveAction::Finish));
}

#[test]
fn existing_archive_is_never_replaced() {
    let (mut job, _) = order(&["tmp", "order.csv"]);
    job.source_inspected(Ok(EntryKind::File));
    job.source_resolved(Ok(abs(&["tmp", "order.csv"])));
    job.source_walked(vec![found(&["tmp", "order.csv"], EntryKind::File, 23, 5)]);
    job.destination_created(Ok(()));
    job.destination_resolved(Ok(abs(&["tmp", "out"])));
    let m = failed(job.target_checked(Ok(true), "/tmp/out/order.csv.zip".to_string()));
    assert_eq!(m, "Archive already exists: /tmp/out/order.csv.zip");
    assert_eq!(job.stage, ArchiveStage::Done);
}

#[test]
fn destination_inside_the_order_is_refused() {
    let (mut job, _) = order(&["tmp", "order"]);
    job.source_inspected(Ok(EntryKind::Directory));
    job.source_resolved(Ok(abs(&["tmp", "order"])));
    job.source_walked(vec![found(&["tmp", "order"], EntryKind::Directory, 0, 1)]);
    job.destination_created(Ok(()));
    let m = failed(job.destination_resolved(Ok(abs(&["tmp", "order", "out"]))));
    assert_eq!(m, "Destination must be outside the order folder");

    let (mut job, _) = order(&["tmp", "order"]);
    job.source_inspected(Ok(EntryKind::Directory));
    job.source_resolved(Ok(abs(&["tmp", "order"])));
    job.source_walked(vec![found(&["tmp", "order"], EntryKind::Directory, 0, 1)]);
    job.destination_created(Ok(()));
    let m = failed(job.destination_resolved(Ok(abs(&["tmp", "order"]))));
    assert_eq!(m, "Destination must be outside the order folder");
}

#[test]
fn links_inside_an_order_stop_packaging() {
    let (mut job, _) = order(&["tmp", "order"]);
    job.source_inspected(Ok(EntryKind::Directory));
    job.source_resolved(Ok(abs(&["tmp", "order"])));
    let walk = vec![
        found(&["tmp", "order"], EntryKind::Directory, 0, 1),
        found(&["tmp", "order", "a.txt"], EntryKind::File, 14, 1),
        found(&["tmp", "order", "z-link"], EntryKind::Link, 0, 1),
    ];
    let m = failed(job.source_walked(walk));
    assert_eq!(m, "Symbolic links and junctions are unsupported: /tmp/order/z-link");
}

#[test]
fn order_source_must_be_a_plain_file_or_folder() {
    let (mut job, _) = order(&["tmp", "x"]);
    assert_eq!(
        failed(job.source_inspected(Ok(EntryKind::Link))),
        "Order must not be a symbolic link or junction"
    );
    let (mut job, _) = order(&["tmp", "x"]);
    assert_eq!(
        failed(job.source_inspected(Ok(EntryKind::Other))),
        "Order must be a file or directory"
    );
    let (mut job, _) = order(&["tmp", "x"]);
    assert_eq!(
        failed(job.source_inspected(Err("No such file or directory (os error 2)".to_string()))),
        "Cannot read order /tmp/x: No such file or directory (os error 2)"
    );
}

#[test]
fn changed_orders_are_not_published() {
    let expected = Snapshot { entries: snapshot_entries(order_walk()).ok().unwrap().entries };
    let (mut job, _) = ArchiveJob::archive_checked(
        abs(&["tmp", "Order 100 — café"]),
        shown(&["tmp", "Order 100 — café"]),
        abs(&["tmp", "out"]),
        Some(expected),
    );
    job.source_inspected(Ok(EntryKind::Directory));
    job.source_resolved(Ok(abs(&["tmp", "Order 100 — café"])));
    let mut changed = order_walk();
    changed[2] = found(
        &["tmp", "Order 100 — café", "artwork", "proof.txt"],
        EntryKind::File,
        99,
        12,
    );
    assert_eq!(
        failed(job.source_walked(changed)),
        "Order changed before packaging; waiting for it to settle"
    );

    let (mut job, _) = order(&["tmp", "Order 100 — café"]);
    stage_directory_order(&mut job);
    job.target_checked(Ok(false), "/tmp/out/Order 100 — café.zip".to_string());
    let mut action = job.staged(Ok(()));
    while !matches!(action, ArchiveAction::Finish) {
        action = match action {
            ArchiveAction::AddDirectory(_) => job.directory_added(Ok(())),
            _ => job.file_added(Ok(())),
        };
    }
    job.finished(Ok(()));
    let mut changed = order_walk();
    changed.pop();
    assert_eq!(
        failed(job.source_rewalked(changed)),
        "Order changed during packaging; please retry after it settles"
    );
}

#[test]
fn write_failures_name_their_cause() {
    let (mut job, _) = order(&["tmp", "Order 100 — café"]);
    stage_directory_order(&mut job);
    job.target_checked(Ok(false), "/tmp/out/Order 100 — café.zip".to_string());
    assert!(matches!(job.staged(Ok(())), ArchiveAction::AddDirectory(_)));
    assert!(matches!(job.directory_added(Ok(())), ArchiveAction::AddFile { .. }));
    assert_eq!(
        failed(job.file_added(Err(FileFailure::Open("denied".to_string())))),
        "Cannot open /tmp/Order 100 — café/artwork/proof.txt: denied"
    );
}
