use sir_zips_a_lot::fs_path::{FsPath, PathPart};
use sir_zips_a_lot::order_list::{sort_by_name, Listed};
use sir_zips_a_lot::snapshot::{EntryKind, RawEntry, WalkItem};
use sir_zips_a_lot::status::Status;
use sir_zips_a_lot::tables::Route;
use sir_zips_a_lot::watcher::{
    Activity, Config, DestinationFailure, History, ListFailure, OpenAction, OpenStage, Opening,
    PollAction, Watcher,
};

const SECOND: u64 = 1_000_000_000;

fn abs(names: &[&str]) -> FsPath {
    let mut parts = vec![PathPart::Root];
    for n in names {
        parts.push(PathPart::Name(n.as_bytes().to_vec()));
    }
    FsPath { parts }
}

fn config(quiet_seconds: u64) -> Config {
    Config { source: abs(&["orders"]), destination: abs(&["out"]), quiet_seconds, poll_seconds: 10 }
}

fn history_file() -> FsPath {
    abs(&["state", "history.json"])
}

/// Opens a watcher on `history`; a new route finds the orders folder empty.
fn open(quiet_seconds: u64, history: History) -> Watcher {
    let (mut opening, mut action) = Opening::start(config(quiet_seconds), history, history_file());
    loop {
        action = match action {
            OpenAction::ListExisting(_) => opening.existing_listed(Ok(Vec::new())),
            OpenAction::SaveHistory(_) => opening.history_saved(Ok(())),
            OpenAction::Ready => return opening.into_watcher(),
            OpenAction::Failed(m) => panic!("opening failed: {m}"),
        };
    }
}

fn listed(name: &str) -> Listed {
    Listed {
        name: name.as_bytes().to_vec(),
        path: abs(&["orders", name]),
        display: format!("/orders/{name}"),
    }
}

fn name_of(path: &FsPath) -> String {
    match path.parts.last() {
        Some(PathPart::Name(b)) => String::from_utf8(b.clone()).unwrap(),
        _ => String::new(),
    }
}

/// An entry of the orders folder: its name, whether it is a folder, and
/// the size of the one file inside a folder.
struct Entry {
    name: &'static str,
    folder: bool,
    size: u64,
}

fn kind(e: &Entry) -> EntryKind {
    if e.folder {
        EntryKind::Directory
    } else {
        EntryKind::File
    }
}

fn walk(e: &Entry) -> Vec<WalkItem> {
    vec![
        WalkItem::Found(RawEntry {
            path: abs(&["orders", e.name]),
            display: format!("/orders/{}", e.name),
            kind: EntryKind::Directory,
            size: 0,
            modified: Ok(1),
        }),
        WalkItem::Found(RawEntry {
            path: abs(&["orders", e.name, "invoice.txt"]),
            display: format!("/orders/{}/invoice.txt", e.name),
            kind: EntryKind::File,
            size: e.size,
            modified: Ok(e.size as i128),
        }),
    ]
}

/// Runs one scan, packaging with `archive`, and returns its activities and
/// the orders inspected, in order.
fn scan(
    w: &mut Watcher,
    now: u64,
    entries: &[Entry],
    archive: &mut dyn FnMut(&str) -> Result<String, String>,
) -> (Vec<Activity>, Vec<String>) {
    let mut inspected = Vec::new();
    let (mut pass, mut action) = w.poll(now);
    loop {
        action = match action {
            PollAction::ListOrders(p) => {
                assert!(p.same_as(&abs(&["orders"])));
                w.orders_listed(&mut pass, Ok(entries.iter().map(|e| listed(e.name)).collect()))
            }
            PollAction::AskKeepRunning => w.running_checked(&mut pass, true),
            PollAction::Inspect(p) => {
                let name = name_of(&p);
                inspected.push(name.clone());
                let e = entries.iter().find(|e| e.name == name).unwrap();
                w.order_inspected(&mut pass, Ok(kind(e)))
            }
            PollAction::Walk(p) => {
                let name = name_of(&p);
                let e = entries.iter().find(|e| e.name == name).unwrap();
                w.order_walked(&mut pass, walk(e))
            }
            PollAction::Archive { path, destination, .. } => {
                assert!(destination.same_as(&abs(&["out"])));
                let result = archive(&name_of(&path));
                w.order_archived(&mut pass, result)
            }
            PollAction::SaveHistory(p) => {
                assert!(p.same_as(&history_file()));
                w.history_saved(&mut pass, Ok(()))
            }
            PollAction::Finished(a) => return (a, inspected),
            PollAction::Failed(m) => panic!("scan failed: {m}"),
        };
    }
}

fn deliver(name: &str) -> Result<String, String> {
    Ok(format!("/out/{name}.zip"))
}

#[test]
fn orders_are_packaged_after_the_quiet_period_and_never_again() {
    let mut w = open(5, History::new());
    let mut order = vec![Entry { name: "100", folder: true, size: 5 }];
    let (a, _) = scan(&mut w, 0, &order, &mut deliver);
    assert!(a.is_empty());
    order[0].size = 26;
    let (a, _) = scan(&mut w, 4 * SECOND, &order, &mut deliver);
    assert!(a.is_empty());
    let (a, _) = scan(&mut w, 8 * SECOND, &order, &mut deliver);
    assert!(a.is_empty());
    assert_eq!(w.pending(), 1);
    let (a, _) = scan(&mut w, 10 * SECOND, &order, &mut deliver);
    assert_eq!(a.len(), 1);
    assert_eq!(a[0].kind, "success");
    assert_eq!(a[0].message, "Delivered /out/100.zip");
    assert_eq!(w.pending(), 0);

    let history = History {
        initialized_routes: w.history.initialized_routes,
        completed: w.history.completed,
    };
    let mut restarted = Watcher::new(config(5), history, history_file());
    let (a, inspected) = scan(&mut restarted, 0, &order, &mut deliver);
    assert!(a.is_empty());
    assert!(inspected.is_empty());
    let (a, _) = scan(&mut restarted, 20 * SECOND, &order, &mut deliver);
    assert!(a.is_empty());
    assert_eq!(restarted.pending(), 0);
}

#[test]
fn a_failing_order_reports_once_and_does_not_block_others() {
    let mut w = open(5, History::new());
    let entries = [
        Entry { name: "100", folder: true, size: 1 },
        Entry { name: "200", folder: true, size: 1 },
        Entry { name: "loose.txt", folder: false, size: 1 },
    ];
    let mut archive = |name: &str| {
        if name == "100" {
            Err("Archive already exists: /out/100.zip".to_string())
        } else {
            deliver(name)
        }
    };
    scan(&mut w, 0, &entries, &mut archive);
    let (a, _) = scan(&mut w, 6 * SECOND, &entries, &mut archive);
    assert_eq!(a.iter().filter(|x| x.kind == "error").count(), 1);
    assert_eq!(a.iter().filter(|x| x.kind == "success").count(), 1);
    assert_eq!(a[0].message, "/orders/100: Archive already exists: /out/100.zip");
    let (a, _) = scan(&mut w, 12 * SECOND, &entries, &mut archive);
    assert!(a.is_empty());
    assert_eq!(w.pending(), 1);
}

#[test]
fn folders_present_at_first_use_are_left_alone() {
    let mut history = History::new();
    assert!(!history.has_route(&abs(&["orders"]), &abs(&["out"])));
    history.start_route(
        &abs(&["orders"]),
        &abs(&["out"]),
        vec![(abs(&["orders", "old-order"]), true), (abs(&["orders", "note.txt"]), false)],
    );
    assert!(history.has_route(&abs(&["orders"]), &abs(&["out"])));
    let old = Route { source: abs(&["orders", "old-order"]), destination: abs(&["out"]) };
    let note = Route { source: abs(&["orders", "note.txt"]), destination: abs(&["out"]) };
    assert!(history.completed.contains(&old));
    assert!(!history.completed.contains(&note));

    let mut w = Watcher::new(config(5), history, history_file());
    let entries = [
        Entry { name: "new-order", folder: true, size: 1 },
        Entry { name: "old-order", folder: true, size: 1 },
    ];
    scan(&mut w, 0, &entries, &mut deliver);
    let (a, inspected) = scan(&mut w, 10 * SECOND, &entries, &mut deliver);
    assert_eq!(a.len(), 1);
    assert_eq!(a[0].message, "Delivered /out/new-order.zip");
    assert_eq!(inspected, vec!["new-order".to_string()]);
}

#[test]
fn orders_are_taken_in_file_name_order() {
    let mut w = open(5, History::new());
    let entries = [
        Entry { name: "b", folder: true, size: 1 },
        Entry { name: "A", folder: true, size: 1 },
        Entry { name: "a", folder: true, size: 1 },
    ];
    let (_, inspected) = scan(&mut w, 0, &entries, &mut deliver);
    assert_eq!(inspected, vec!["A", "a", "b"]);
    let sorted = sort_by_name(vec![listed("zz"), listed("z"), listed("")]);
    let names: Vec<Vec<u8>> = sorted.iter().map(|l| l.name.clone()).collect();
    assert_eq!(names, vec![b"".to_vec(), b"z".to_vec(), b"zz".to_vec()]);
}

#[test]
fn stopping_ends_the_scan_and_forgets_unseen_orders() {
    let mut w = open(5, History::new());
    let entries = [
        Entry { name: "100", folder: true, size: 1 },
        Entry { name: "200", folder: true, size: 1 },
    ];
    scan(&mut w, 0, &entries, &mut deliver);
    assert_eq!(w.pending(), 2);
    let (mut pass, _) = w.poll(SECOND);
    let action = w.orders_listed(&mut pass, Ok(entries.iter().map(|e| listed(e.name)).collect()));
    assert!(matches!(action, PollAction::AskKeepRunning));
    let action = w.running_checked(&mut pass, false);
    assert!(matches!(action, PollAction::Finished(ref a) if a.is_empty()));
    assert_eq!(w.pending(), 0);
}

#[test]
fn unreadable_orders_folder_stops_the_scan() {
    let mut w = open(5, History::new());
    let (mut pass, _) = w.poll(0);
    let action = w.orders_listed(&mut pass, Err(ListFailure::Open("gone".to_string())));
    assert!(matches!(action, PollAction::Failed(ref m) if m == "Cannot scan the orders folder: gone"));
}

#[test]
fn history_save_failure_stops_the_scan() {
    let mut w = open(1, History::new());
    let entries = [Entry { name: "100", folder: true, size: 1 }];
    scan(&mut w, 0, &entries, &mut deliver);
    let (mut pass, _) = w.poll(2 * SECOND);
    w.orders_listed(&mut pass, Ok(vec![listed("100")]));
    w.running_checked(&mut pass, true);
    w.order_inspected(&mut pass, Ok(EntryKind::Directory));
    let action = w.order_walked(&mut pass, walk(&entries[0]));
    assert!(matches!(action, PollAction::Archive { .. }));
    assert!(matches!(w.order_archived(&mut pass, deliver("100")), PollAction::SaveHistory(_)));
    let action = w.history_saved(&mut pass, Err("disk full".to_string()));
    assert!(matches!(action, PollAction::Failed(ref m)
        if m == "ZIP delivered, but completion history could not be saved: disk full"));
}

#[test]
fn settings_are_checked() {
    let mut c = config(30);
    assert!(c.check_settings().is_ok());
    c.quiet_seconds = 0;
    assert_eq!(
        c.check_settings().err().unwrap(),
        "Quiet period must be between 1 and 3600 seconds"
    );
    c.quiet_seconds = 3601;
    assert!(c.check_settings().is_err());
    c.quiet_seconds = 3600;
    c.poll_seconds = 0;
    assert_eq!(
        c.check_settings().err().unwrap(),
        "Check interval must be between 1 and 3600 seconds"
    );
    c.poll_seconds = 3601;
    assert!(c.check_settings().is_err());
    c.poll_seconds = 3600;
    assert!(c.check_settings().is_ok());
    c.source = FsPath { parts: Vec::new() };
    assert_eq!(c.check_settings().err().unwrap(), "Choose an orders folder");
    let c = config(30);
    let nested = c.with_folders(abs(&["orders"]), Ok(abs(&["orders", "out"])));
    assert_eq!(
        nested.err().unwrap(),
        "Choose separate orders and destination folders; neither may contain the other"
    );
    let outer = c.with_folders(abs(&["orders", "in"]), Ok(abs(&["orders"])));
    assert!(outer.is_err());
    let fine = c.with_folders(abs(&["orders"]), Ok(abs(&["out"]))).ok().unwrap();
    assert_eq!(fine.quiet_seconds, 30);
    assert_eq!(fine.poll_seconds, 10);
    assert!(fine.is_valid());
    let again = fine.with_folders(abs(&["orders"]), Ok(abs(&["out"]))).ok().unwrap();
    assert!(again.source.same_as(&fine.source) && again.destination.same_as(&fine.destination));
    assert_eq!(again.quiet_seconds, fine.quiet_seconds);
    let mut quiet = config(30);
    quiet.quiet_seconds = 0;
    assert!(!quiet.is_valid());
    let overlapping = Config { destination: abs(&["orders", "out"]), ..config(30) };
    assert!(!overlapping.is_valid());
    let created = c.with_folders(abs(&["orders"]), Err(DestinationFailure::Create("denied".to_string())));
    assert_eq!(created.err().unwrap(), "Cannot create the destination folder: denied");
    let folder = Config::accept_orders_folder(Ok((abs(&["orders", "x.txt"]), false)));
    assert_eq!(folder.err().unwrap(), "Orders path must be a folder");
}

#[test]
fn suggested_settings_point_at_zipped_orders() {
    let c = Config::suggested(&abs(&["home", "desk"]));
    assert!(c.source.parts.is_empty());
    assert!(c.destination.same_as(&abs(&["home", "desk", "Zipped Orders"])));
    assert_eq!(c.quiet_seconds, 30);
    assert_eq!(c.poll_seconds, 10);
}

#[test]
fn quest_log_keeps_the_last_hundred_entries() {
    let mut s = Status::new(None);
    for i in 0..101u64 {
        s.log("info".to_string(), format!("entry {i}"), i);
    }
    assert_eq!(s.activity.len(), 100);
    assert_eq!(s.activity[0].id, 2);
    assert_eq!(s.activity[99].id, 101);
    assert_eq!(s.activity[99].message, "entry 100");
    assert_eq!(s.next_id, 101);
}

#[test]
fn scan_results_count_deliveries() {
    let mut s = Status::new(Some(config(30)));
    s.begin_watch(config(10));
    assert!(s.running);
    let activity = vec![
        Activity { kind: "success".to_string(), message: "Delivered /out/1.zip".to_string() },
        Activity { kind: "error".to_string(), message: "/orders/2: broken".to_string() },
    ];
    s.record_poll(activity, 3, 7);
    assert_eq!(s.delivered, 1);
    assert_eq!(s.pending, 3);
    assert_eq!(s.activity.len(), 2);
    assert_eq!(s.activity[1].kind, "error");
    s.request_stop();
    assert!(s.stopping);
    s.end_watch();
    assert!(!s.running && !s.stopping);
    s.request_stop();
    assert!(!s.stopping);
}

#[test]
fn opening_a_new_route_leaves_present_folders_alone() {
    let (mut opening, action) = Opening::start(config(5), History::new(), history_file());
    assert!(matches!(action, OpenAction::ListExisting(ref p) if p.same_as(&abs(&["orders"]))));
    let listing = vec![(abs(&["orders", "old-order"]), true), (abs(&["orders", "note.txt"]), false)];
    let action = opening.existing_listed(Ok(listing));
    assert!(matches!(action, OpenAction::SaveHistory(ref p) if p.same_as(&history_file())));
    assert!(matches!(opening.history_saved(Ok(())), OpenAction::Ready));
    let w = opening.into_watcher();
    assert!(w.history.has_route(&abs(&["orders"]), &abs(&["out"])));
    let old = Route { source: abs(&["orders", "old-order"]), destination: abs(&["out"]) };
    assert!(w.history.completed.contains(&old));

    let history = History {
        initialized_routes: w.history.initialized_routes,
        completed: w.history.completed,
    };
    let (opening, action) = Opening::start(config(5), history, history_file());
    assert!(matches!(action, OpenAction::Ready));
    assert_eq!(opening.stage, OpenStage::Ready);
}

#[test]
fn opening_failures_name_their_cause() {
    let (mut opening, _) = Opening::start(config(5), History::new(), history_file());
    let action = opening.existing_listed(Err(ListFailure::Open("gone".to_string())));
    assert!(matches!(action, OpenAction::Failed(ref m) if m == "Cannot scan the orders folder: gone"));
    assert_eq!(opening.stage, OpenStage::Failed);

    let (mut opening, _) = Opening::start(config(5), History::new(), history_file());
    opening.existing_listed(Ok(Vec::new()));
    let action = opening.history_saved(Err("read-only".to_string()));
    assert!(matches!(action, OpenAction::Failed(ref m)
        if m == "Cannot save the starting folder list: read-only"));
}

#[test]
fn entries_are_classified_links_first() {
    assert!(matches!(EntryKind::classify(true, true, false), EntryKind::Link));
    assert!(matches!(EntryKind::classify(true, false, true), EntryKind::Link));
    assert!(matches!(EntryKind::classify(false, true, false), EntryKind::Directory));
    assert!(matches!(EntryKind::classify(false, false, true), EntryKind::File));
    assert!(matches!(EntryKind::classify(false, false, false), EntryKind::Other));
}

#[test]
fn the_same_error_is_reported_once_across_scans() {
    let mut w = open(5, History::new());
    let entries = [Entry { name: "100", folder: true, size: 1 }];
    let mut refuse = |_: &str| Err("Archive already exists: /out/100.zip".to_string());
    scan(&mut w, 0, &entries, &mut refuse);
    let (a, _) = scan(&mut w, 6 * SECOND, &entries, &mut refuse);
    assert_eq!(a.len(), 1);
    for k in 2..5u64 {
        let (a, _) = scan(&mut w, 6 * k * SECOND, &entries, &mut refuse);
        assert!(a.is_empty());
    }
    let mut other = |_: &str| Err("Cannot create the temporary archive: denied".to_string());
    let (a, _) = scan(&mut w, 40 * SECOND, &entries, &mut other);
    assert_eq!(a.len(), 1);
    assert_eq!(a[0].message, "/orders/100: Cannot create the temporary archive: denied");
}
