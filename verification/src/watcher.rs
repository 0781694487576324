//! Watching an orders folder: which folders are orders, when an order has
//! settled, and what has been delivered.
//!
//! A [`Watcher`] keeps the settings, the completion history, the orders that
//! are settling and the last error of each order. One scan of the orders
//! folder is a [`PollPass`]: the watcher decides each step of it, and the
//! caller reads the folder, walks orders, packages them and saves the history
//! as each step asks, handing back what happened.
use vstd::prelude::*;
use crate::fs_path::{FsPath, PathView};
use crate::snapshot::{EntryKind, EntryView, Snapshot, WalkItem, spec_snapshot, snapshot_entries, concat};
use crate::tables::{PathTable, PathSet, Route, RouteSet, RouteView};
use crate::order_list::{Listed, ListedView, listed_views, sorted_by_name, sort_by_name};

verus! {

/// The watcher's settings.
pub struct Config {
    pub source: FsPath,
    pub destination: FsPath,
    /// How long an order must stay unchanged before it is packaged.
    pub quiet_seconds: u64,
    /// How long to wait between scans of the orders folder.
    pub poll_seconds: u64,
}

/// The mathematical value of the settings.
pub struct ConfigView {
    pub source: PathView,
    pub destination: PathView,
    pub quiet_seconds: u64,
    pub poll_seconds: u64,
}

impl View for Config {
    type V = ConfigView;

    open spec fn view(&self) -> ConfigView {
        ConfigView {
            source: self.source@,
            destination: self.destination@,
            quiet_seconds: self.quiet_seconds,
            poll_seconds: self.poll_seconds,
        }
    }
}

/// Why the destination folder could not be prepared.
pub enum DestinationFailure {
    Create(String),
    Resolve(String),
}

/// Neither folder contains the other.
pub open spec fn separate(source: PathView, destination: PathView) -> bool {
    !crate::fs_path::spec_starts_with(destination, source) && !crate::fs_path::spec_starts_with(
        source,
        destination,
    )
}

/// Separate folders are both chosen: the empty path is a prefix of every
/// path.
pub proof fn lemma_separate_nonempty(source: PathView, destination: PathView)
    requires
        separate(source, destination),
    ensures
        source.len() > 0,
        destination.len() > 0,
{
    if source.len() == 0 {
        assert(destination.subrange(0, 0) =~= source);
    }
    if destination.len() == 0 {
        assert(source.subrange(0, 0) =~= destination);
    }
}

/// What checking the typed-in settings gives.
pub open spec fn spec_check_settings(c: ConfigView) -> Result<(), Seq<char>> {
    if c.source.len() == 0 {
        Err("Choose an orders folder"@)
    } else if c.destination.len() == 0 {
        Err("Choose a destination folder"@)
    } else if !(1 <= c.quiet_seconds <= 3600) {
        Err("Quiet period must be between 1 and 3600 seconds"@)
    } else if !(1 <= c.poll_seconds <= 3600) {
        Err("Check interval must be between 1 and 3600 seconds"@)
    } else {
        Ok(())
    }
}

/// Settings a watcher can run with: both folders chosen, both periods
/// between 1 and 3600 seconds, and neither folder inside the other.
pub open spec fn settings_valid(c: ConfigView) -> bool {
    spec_check_settings(c) is Ok && separate(c.source, c.destination)
}

/// The settings `c` with the resolved folders `source` and `destination`,
/// which must be separate.
pub open spec fn spec_with_folders(c: ConfigView, source: PathView, destination: PathView) -> Result<
    ConfigView,
    Seq<char>,
> {
    if separate(source, destination) {
        Ok(ConfigView { source, destination, ..c })
    } else {
        Err("Choose separate orders and destination folders; neither may contain the other"@)
    }
}

impl Config {
    /// Checks the typed-in settings: both folders are chosen and the quiet
    /// period and the check interval are between 1 and 3600 seconds.
    pub fn check_settings(&self) -> (checked: Result<(), String>)
        ensures
            match (checked, spec_check_settings(self@)) {
                (Ok(_), Ok(_)) => true,
                (Err(m), Err(e)) => m@ == e,
                _ => false,
            },
    {
        if self.source.parts.len() == 0 {
            Err(String::from_str("Choose an orders folder"))
        } else if self.destination.parts.len() == 0 {
            Err(String::from_str("Choose a destination folder"))
        } else if !(1 <= self.quiet_seconds && self.quiet_seconds <= 3600) {
            Err(String::from_str("Quiet period must be between 1 and 3600 seconds"))
        } else if !(1 <= self.poll_seconds && self.poll_seconds <= 3600) {
            Err(String::from_str("Check interval must be between 1 and 3600 seconds"))
        } else {
            Ok(())
        }
    }

    /// Whether a watcher can run with these settings.
    pub fn is_valid(&self) -> (valid: bool)
        ensures
            valid == settings_valid(self@),
    {
        self.check_settings().is_ok() && !self.destination.starts_with(&self.source)
            && !self.source.starts_with(&self.destination)
    }

    /// Checks the resolved orders folder: it must be a folder.
    pub fn accept_orders_folder(resolved: Result<(FsPath, bool), String>) -> (folder: Result<
        FsPath,
        String,
    >)
        ensures
            match resolved {
                Err(e) => folder matches Err(m) && m@ == "Cannot open the orders folder: "@ + e@,
                Ok((p, false)) => folder matches Err(m) && m@ == "Orders path must be a folder"@,
                Ok((p, true)) => folder matches Ok(f) && f@ == p@,
            },
    {
        match resolved {
            Err(e) => Err(concat("Cannot open the orders folder: ", e.as_str())),
            Ok((p, is_dir)) => if is_dir {
                Ok(p)
            } else {
                Err(String::from_str("Orders path must be a folder"))
            },
        }
    }

    /// The checked settings with resolved folders, which must be separate;
    /// settings that come out are valid.
    pub fn with_folders(&self, source: FsPath, destination: Result<FsPath, DestinationFailure>) -> (valid:
        Result<Config, String>)
        requires
            spec_check_settings(self@) is Ok,
        ensures
            valid matches Ok(c) ==> settings_valid(c@),
            match destination {
                Err(DestinationFailure::Create(e)) => valid matches Err(m) && m@
                    == "Cannot create the destination folder: "@ + e@,
                Err(DestinationFailure::Resolve(e)) => valid matches Err(m) && m@
                    == "Cannot open the destination folder: "@ + e@,
                Ok(d) => match (valid, spec_with_folders(self@, source@, d@)) {
                    (Ok(c), Ok(v)) => c@ == v,
                    (Err(m), Err(e)) => m@ == e,
                    _ => false,
                },
            },
    {
        match destination {
            Err(DestinationFailure::Create(e)) => Err(
                concat("Cannot create the destination folder: ", e.as_str()),
            ),
            Err(DestinationFailure::Resolve(e)) => Err(
                concat("Cannot open the destination folder: ", e.as_str()),
            ),
            Ok(d) => {
                if !d.starts_with(&source) && !source.starts_with(&d) {
                    proof {
                        lemma_separate_nonempty(source@, d@);
                    }
                    Ok(
                        Config {
                            source,
                            destination: d,
                            quiet_seconds: self.quiet_seconds,
                            poll_seconds: self.poll_seconds,
                        },
                    )
                } else {
                    Err(
                        String::from_str(
                            "Choose separate orders and destination folders; neither may contain the other",
                        ),
                    )
                }
            },
        }
    }

    /// The settings offered before any were saved: no orders folder yet, a
    /// `Zipped Orders` folder inside `desktop`, a quiet period of 30 seconds
    /// and a scan every 10 seconds.
    pub fn suggested(desktop: &FsPath) -> (c: Config)
        ensures
            c@.source.len() == 0,
            c@.destination == desktop@.push(
                crate::fs_path::PartView::Name(vstd::utf8::encode_utf8("Zipped Orders"@)),
            ),
            c@.quiet_seconds == 30,
            c@.poll_seconds == 10,
    {
        let name = "Zipped Orders".as_bytes_vec();
        Config {
            source: FsPath { parts: Vec::new() },
            destination: desktop.join_name(name),
            quiet_seconds: 30,
            poll_seconds: 10,
        }
    }
}

/// One line of the quest log: a delivery or a problem.
pub struct Activity {
    pub kind: String,
    pub message: String,
}

/// The mathematical value of an activity.
pub struct ActivityView {
    pub kind: Seq<char>,
    pub message: Seq<char>,
}

impl View for Activity {
    type V = ActivityView;

    open spec fn view(&self) -> ActivityView {
        ActivityView { kind: self.kind@, message: self.message@ }
    }
}

/// The views of a list of activities.
pub open spec fn activity_views(s: Seq<Activity>) -> Seq<ActivityView> {
    s.map_values(|a: Activity| a@)
}

/// The activity that reports `message` about the order shown as `display`.
pub open spec fn error_activity(display: Seq<char>, message: Seq<char>) -> ActivityView {
    ActivityView { kind: "error"@, message: display + ": "@ + message }
}

/// The activity that reports the archive shown as `display`.
pub open spec fn success_activity(display: Seq<char>) -> ActivityView {
    ActivityView { kind: "success"@, message: "Delivered "@ + display }
}

/// What has been delivered, kept across restarts.
pub struct History {
    /// The routes whose folders present at first use were left alone.
    pub initialized_routes: RouteSet,
    /// The orders, each with its destination, that were delivered or left
    /// alone.
    pub completed: RouteSet,
}

/// The mathematical value of the history.
pub struct HistoryView {
    pub initialized_routes: Set<RouteView>,
    pub completed: Set<RouteView>,
}

impl View for History {
    type V = HistoryView;

    open spec fn view(&self) -> HistoryView {
        HistoryView {
            initialized_routes: self.initialized_routes@,
            completed: self.completed@,
        }
    }
}

/// The orders among `listing` that are folders, each with `destination`.
pub open spec fn folders_to(listing: Seq<(FsPath, bool)>, destination: PathView) -> Set<RouteView> {
    Set::new(
        |r: RouteView|
            exists|i: int| 0 <= i < listing.len() && listing[i].1 && r == (listing[i].0@, destination),
    )
}

impl History {
    /// An empty history.
    pub fn new() -> (h: History)
        ensures
            h@.initialized_routes == Set::<RouteView>::empty(),
            h@.completed == Set::<RouteView>::empty(),
    {
        History { initialized_routes: RouteSet::new(), completed: RouteSet::new() }
    }

    /// Whether the route from `source` to `destination` was started before.
    pub fn has_route(&self, source: &FsPath, destination: &FsPath) -> (found: bool)
        ensures
            found == self@.initialized_routes.contains((source@, destination@)),
    {
        let route = Route { source: source.duplicate(), destination: destination.duplicate() };
        self.initialized_routes.contains(&route)
    }

    /// Starts the route from `source` to `destination`: the folders already
    /// in the orders folder (`listing`, each path with whether it is a
    /// folder) count as completed, so they are never packaged.
    pub fn start_route(&mut self, source: &FsPath, destination: &FsPath, listing: Vec<(FsPath, bool)>)
        ensures
            final(self)@.initialized_routes == old(self)@.initialized_routes.insert(
                (source@, destination@),
            ),
            final(self)@.completed == old(self)@.completed.union(
                folders_to(listing@, destination@),
            ),
            forall|i: int|
                0 <= i < listing@.len() && (#[trigger] listing@[i]).1
                    ==> final(self)@.completed.contains((listing@[i].0@, destination@)),
            forall|r: RouteView|
                #[trigger] final(self)@.completed.contains(r) ==> old(self)@.completed.contains(r)
                    || exists|i: int|
                    0 <= i < listing@.len() && (#[trigger] listing@[i]).1 && r == (
                        listing@[i].0@,
                        destination@,
                    ),
    {
        let ghost all = listing@;
        let ghost start = self@.completed;
        let mut i: usize = 0;
        while i < listing.len()
            invariant
                all == listing@,
                i <= listing@.len(),
                self@.completed == start.union(folders_to(all.subrange(0, i as int), destination@)),
                self@.initialized_routes == old(self)@.initialized_routes,
                start == old(self)@.completed,
            decreases listing.len() - i,
        {
            let ghost before = self@.completed;
            if listing[i].1 {
                let route = Route {
                    source: listing[i].0.duplicate(),
                    destination: destination.duplicate(),
                };
                self.completed.insert(route);
            }
            i = i + 1;
            proof {
                let prev = all.subrange(0, i - 1);
                let next = all.subrange(0, i as int);
                assert forall|r: RouteView| #[trigger] folders_to(next, destination@).contains(r) <==> (
                folders_to(prev, destination@).contains(r) || (all[i - 1].1 && r == (
                all[i - 1].0@,
                destination@,
                ))) by {
                    if folders_to(next, destination@).contains(r) {
                        let j = choose|j: int|
                            0 <= j < next.len() && next[j].1 && r == (next[j].0@, destination@);
                        if j < i - 1 {
                            assert(prev[j] == next[j]);
                        }
                    }
                    if folders_to(prev, destination@).contains(r) {
                        let j = choose|j: int|
                            0 <= j < prev.len() && prev[j].1 && r == (prev[j].0@, destination@);
                        assert(next[j] == prev[j]);
                    }
                    if all[i - 1].1 && r == (all[i - 1].0@, destination@) {
                        assert(next[i - 1] == all[i - 1]);
                    }
                }
                assert(self@.completed =~= start.union(folders_to(next, destination@)));
            }
        }
        let route = Route { source: source.duplicate(), destination: destination.duplicate() };
        self.initialized_routes.insert(route);
        assert(all.subrange(0, all.len() as int) =~= all);
        assert forall|i: int| 0 <= i < all.len() && (#[trigger] all[i]).1 implies self@.completed.contains(
            (all[i].0@, destination@),
        ) by {
            assert(folders_to(all, destination@).contains((all[i].0@, destination@)));
        }
    }
}

/// An order that is settling: its last recorded state and since when it has
/// not changed, in nanoseconds of the watcher's clock.
pub struct Candidate {
    pub snapshot: Snapshot,
    pub unchanged_since: u64,
}

/// The mathematical value of a settling order.
pub struct CandidateView {
    pub snapshot: Seq<EntryView>,
    pub unchanged_since: u64,
}

impl View for Candidate {
    type V = CandidateView;

    open spec fn view(&self) -> CandidateView {
        CandidateView { snapshot: self.snapshot@, unchanged_since: self.unchanged_since }
    }
}

/// What a scan of the orders folder waits for next.
#[derive(PartialEq, Eq, Structural, Clone, Copy, Debug)]
pub enum PollStage {
    Listing,
    Choosing,
    Inspecting,
    Walking,
    Archiving,
    Saving,
    Done,
}

/// Why the orders folder could not be listed.
pub enum ListFailure {
    /// The folder could not be opened.
    Open(String),
    /// An entry of it could not be read.
    Entry(String),
}

/// What the caller must do next during a scan.
pub enum PollAction {
    /// List the entries of this orders folder.
    ListOrders(FsPath),
    /// Report whether the scan should go on to the next order.
    AskKeepRunning,
    /// Read the metadata of this order path, without following links.
    Inspect(FsPath),
    /// Walk this order, links not followed, sorted by file name.
    Walk(FsPath),
    /// Package the order at `path`, shown as `display`, into the folder
    /// `destination`, provided it still looks as `expected`.
    Archive { path: FsPath, display: String, destination: FsPath, expected: Snapshot },
    /// Save the completion history to this file.
    SaveHistory(FsPath),
    /// The scan is over, with these activities.
    Finished(Vec<Activity>),
    /// The scan stopped with this message.
    Failed(String),
}

/// The mathematical value of a scan's next step.
pub enum PollActionView {
    ListOrders(PathView),
    AskKeepRunning,
    Inspect(PathView),
    Walk(PathView),
    Archive(PathView, Seq<char>, PathView, Seq<EntryView>),
    SaveHistory(PathView),
    Finished(Seq<ActivityView>),
    Failed(Seq<char>),
}

impl View for PollAction {
    type V = PollActionView;

    open spec fn view(&self) -> PollActionView {
        match self {
            PollAction::ListOrders(p) => PollActionView::ListOrders(p@),
            PollAction::AskKeepRunning => PollActionView::AskKeepRunning,
            PollAction::Inspect(p) => PollActionView::Inspect(p@),
            PollAction::Walk(p) => PollActionView::Walk(p@),
            PollAction::Archive { path, display, destination, expected } => PollActionView::Archive(
                path@,
                display@,
                destination@,
                expected@,
            ),
            PollAction::SaveHistory(p) => PollActionView::SaveHistory(p@),
            PollAction::Finished(a) => PollActionView::Finished(activity_views(a@)),
            PollAction::Failed(m) => PollActionView::Failed(m@),
        }
    }
}

/// One scan of the orders folder.
pub struct PollPass {
    pub stage: PollStage,
    /// The time of the scan, in nanoseconds of the watcher's clock.
    pub now: u64,
    /// The entries of the orders folder, in file name order.
    pub orders: Vec<Listed>,
    /// The next entry to consider; the one before it is being handled.
    pub next: usize,
    /// The order folders seen in this scan.
    pub present: PathSet,
    pub activity: Vec<Activity>,
    /// The delivered archive as the user sees it, while the history is saved.
    pub delivered: String,
}

/// The mathematical value of a scan.
pub struct PassView {
    pub stage: PollStage,
    pub now: u64,
    pub orders: Seq<ListedView>,
    pub next: int,
    pub present: Set<PathView>,
    pub activity: Seq<ActivityView>,
    pub delivered: Seq<char>,
}

impl View for PollPass {
    type V = PassView;

    open spec fn view(&self) -> PassView {
        PassView {
            stage: self.stage,
            now: self.now,
            orders: listed_views(self.orders@),
            next: self.next as int,
            present: self.present@,
            activity: activity_views(self.activity@),
            delivered: self.delivered@,
        }
    }
}

/// The watcher's state.
pub struct Watcher {
    pub config: Config,
    pub history: History,
    /// The file the history is saved to.
    pub history_path: FsPath,
    pub candidates: PathTable<Candidate>,
    pub last_errors: PathTable<String>,
}

/// The mathematical value of the watcher's state.
pub struct WatcherView {
    pub config: ConfigView,
    pub history: HistoryView,
    pub history_path: PathView,
    pub candidates: Map<PathView, CandidateView>,
    pub last_errors: Map<PathView, Seq<char>>,
}

impl View for Watcher {
    type V = WatcherView;

    open spec fn view(&self) -> WatcherView {
        WatcherView {
            config: self.config@,
            history: self.history@,
            history_path: self.history_path@,
            candidates: self.candidates@,
            last_errors: self.last_errors@,
        }
    }
}

/// The order being handled.
pub open spec fn current(p: PassView) -> ListedView {
    p.orders[p.next - 1]
}

/// The completion key of the order being handled.
pub open spec fn current_key(w: WatcherView, p: PassView) -> RouteView {
    (current(p).path, w.config.destination)
}

/// What holds of a scan at each stage: while an order is handled it is one
/// that has not been completed.
pub open spec fn pass_wf(w: WatcherView, p: PassView) -> bool {
    &&& p.next <= p.orders.len()
    &&& p.stage == PollStage::Choosing ==> p.next < p.orders.len()
    &&& (p.stage == PollStage::Inspecting || p.stage == PollStage::Walking || p.stage
        == PollStage::Archiving || p.stage == PollStage::Saving) ==> p.next > 0
    &&& (p.stage == PollStage::Inspecting || p.stage == PollStage::Walking || p.stage
        == PollStage::Archiving) ==> !w.history.completed.contains(current_key(w, p))
}

/// Whether `quiet_seconds` have passed from `since` to `now`, times in
/// nanoseconds; a `now` before `since` counts as no time.
pub open spec fn quiet_elapsed(now: u64, since: u64, quiet_seconds: u64) -> bool {
    now >= since && now - since >= quiet_seconds * 1_000_000_000
}

/// Reporting `message` about the order at `path`: it is added to the
/// activities only if it differs from the last message for that order.
pub open spec fn spec_report(
    w: WatcherView,
    p: PassView,
    path: PathView,
    display: Seq<char>,
    message: Seq<char>,
) -> (WatcherView, PassView) {
    if w.last_errors.contains_key(path) && w.last_errors[path] == message {
        (w, p)
    } else {
        (
            WatcherView { last_errors: w.last_errors.insert(path, message), ..w },
            PassView { activity: p.activity.push(error_activity(display, message)), ..p },
        )
    }
}

/// Ending a scan: orders that were not seen are forgotten, and the
/// activities are handed over.
pub open spec fn spec_finish(w: WatcherView, p: PassView) -> (WatcherView, PassView, PollActionView) {
    (
        WatcherView {
            candidates: w.candidates.restrict(p.present),
            last_errors: w.last_errors.restrict(p.present),
            ..w
        },
        PassView { stage: PollStage::Done, activity: Seq::empty(), ..p },
        PollActionView::Finished(p.activity),
    )
}

/// Moving on after an order: ask whether to go on if one is left, else end.
pub open spec fn spec_advance(w: WatcherView, p: PassView) -> (WatcherView, PassView, PollActionView) {
    if p.next < p.orders.len() {
        (w, PassView { stage: PollStage::Choosing, ..p }, PollActionView::AskKeepRunning)
    } else {
        spec_finish(w, p)
    }
}

/// The scan's answer to whether to go on: the next order is inspected
/// unless it was completed.
pub open spec fn spec_running_checked(w: WatcherView, p: PassView, running: bool) -> (
    WatcherView,
    PassView,
    PollActionView,
) {
    if !running {
        spec_finish(w, p)
    } else {
        let o = p.orders[p.next];
        let p1 = PassView { next: p.next + 1, ..p };
        if w.history.completed.contains((o.path, w.config.destination)) {
            spec_advance(w, p1)
        } else {
            (w, PassView { stage: PollStage::Inspecting, ..p1 }, PollActionView::Inspect(o.path))
        }
    }
}

/// The scan's answer to an order's metadata: only folders and links are
/// orders; they are walked.
pub open spec fn spec_order_inspected(w: WatcherView, p: PassView, kind: Result<EntryKind, Seq<char>>) -> (
    WatcherView,
    PassView,
    PollActionView,
) {
    let o = current(p);
    match kind {
        Err(e) => {
            let (w1, p1) = spec_report(w, p, o.path, o.display, e);
            spec_advance(w1, p1)
        },
        Ok(k) => if !(k is Directory) && !(k is Link) {
            spec_advance(w, p)
        } else {
            (
                w,
                PassView { stage: PollStage::Walking, present: p.present.insert(o.path), ..p },
                PollActionView::Walk(o.path),
            )
        },
    }
}

/// The settling state of an order after a walk that gave `snap`: kept when
/// unchanged, else restarted now.
pub open spec fn settled(w: WatcherView, path: PathView, snap: Seq<EntryView>, now: u64) -> CandidateView {
    if w.candidates.contains_key(path) && w.candidates[path].snapshot == snap {
        w.candidates[path]
    } else {
        CandidateView { snapshot: snap, unchanged_since: now }
    }
}

/// The scan's answer to an order's walk: an order that has not changed for
/// the quiet period is packaged.
pub open spec fn spec_order_walked(w: WatcherView, p: PassView, items: Seq<WalkItem>) -> (
    WatcherView,
    PassView,
    PollActionView,
) {
    let o = current(p);
    match spec_snapshot(items) {
        Err(m) => {
            let w0 = WatcherView { candidates: w.candidates.remove(o.path), ..w };
            let (w1, p1) = spec_report(w0, p, o.path, o.display, m);
            spec_advance(w1, p1)
        },
        Ok(snap) => {
            let c = settled(w, o.path, snap, p.now);
            let w1 = WatcherView { candidates: w.candidates.insert(o.path, c), ..w };
            if !quiet_elapsed(p.now, c.unchanged_since, w.config.quiet_seconds) {
                spec_advance(w1, p)
            } else {
                (
                    w1,
                    PassView { stage: PollStage::Archiving, ..p },
                    PollActionView::Archive(o.path, o.display, w.config.destination, c.snapshot),
                )
            }
        },
    }
}

/// The scan's answer to packaging an order: a delivered order is completed
/// and the history is saved.
pub open spec fn spec_order_archived(w: WatcherView, p: PassView, result: Result<Seq<char>, Seq<char>>) -> (
    WatcherView,
    PassView,
    PollActionView,
) {
    let o = current(p);
    match result {
        Err(m) => {
            let (w1, p1) = spec_report(w, p, o.path, o.display, m);
            spec_advance(w1, p1)
        },
        Ok(d) => (
            WatcherView {
                history: HistoryView {
                    completed: w.history.completed.insert(current_key(w, p)),
                    ..w.history
                },
                ..w
            },
            PassView { stage: PollStage::Saving, delivered: d, ..p },
            PollActionView::SaveHistory(w.history_path),
        ),
    }
}

/// The scan's answer to saving the history: a failure stops the scan; else
/// the order is forgotten and its delivery reported.
pub open spec fn spec_history_saved(w: WatcherView, p: PassView, result: Result<(), Seq<char>>) -> (
    WatcherView,
    PassView,
    PollActionView,
) {
    let o = current(p);
    match result {
        Err(e) => (
            w,
            PassView { stage: PollStage::Done, ..p },
            PollActionView::Failed(
                "ZIP delivered, but completion history could not be saved: "@ + e,
            ),
        ),
        Ok(_) => {
            let w1 = WatcherView {
                candidates: w.candidates.remove(o.path),
                last_errors: w.last_errors.remove(o.path),
                ..w
            };
            let p1 = PassView { activity: p.activity.push(success_activity(p.delivered)), ..p };
            spec_advance(w1, p1)
        },
    }
}

/// The view of a list result.
pub open spec fn listing_view(listed: Result<Vec<Listed>, ListFailure>) -> Result<
    Seq<ListedView>,
    Seq<char>,
> {
    match listed {
        Err(ListFailure::Open(e)) => Err("Cannot scan the orders folder: "@ + e@),
        Err(ListFailure::Entry(e)) => Err(e@),
        Ok(v) => Ok(listed_views(v@)),
    }
}

/// The view of a metadata result.
pub open spec fn kind_view(kind: Result<EntryKind, String>) -> Result<EntryKind, Seq<char>> {
    match kind {
        Err(e) => Err(e@),
        Ok(k) => Ok(k),
    }
}

/// The view of a result that carries a message either way.
pub open spec fn text_result(r: Result<String, String>) -> Result<Seq<char>, Seq<char>> {
    match r {
        Err(e) => Err(e@),
        Ok(d) => Ok(d@),
    }
}

/// The view of a result that carries a message on failure.
pub open spec fn unit_result(r: Result<(), String>) -> Result<(), Seq<char>> {
    match r {
        Err(e) => Err(e@),
        Ok(_) => Ok(()),
    }
}

impl Watcher {
    /// A scan at time `now`, in nanoseconds of the watcher's clock: it first
    /// lists the orders folder.
    pub fn poll(&self, now: u64) -> (out: (PollPass, PollAction))
        ensures
            out.0@.stage == PollStage::Listing,
            out.0@.now == now,
            out.0@.orders.len() == 0,
            out.0@.next == 0,
            out.0@.present == Set::<PathView>::empty(),
            out.0@.activity.len() == 0,
            out.1@ == PollActionView::ListOrders(self@.config.source),
    {
        let pass = PollPass {
            stage: PollStage::Listing,
            now,
            orders: Vec::new(),
            next: 0,
            present: PathSet::new(),
            activity: Vec::new(),
            delivered: String::new(),
        };
        assert(pass@.orders =~= Seq::<ListedView>::empty());
        (pass, PollAction::ListOrders(self.config.source.duplicate()))
    }

    /// Candidates and last errors list each order once, the settings are
    /// valid and their route was started.
    pub open spec fn wf(&self) -> bool {
        &&& self.candidates.wf()
        &&& self.last_errors.wf()
        &&& settings_valid(self@.config)
        &&& self@.history.initialized_routes.contains((self@.config.source, self@.config.destination))
    }

    /// A watcher with valid settings and a history in which their route was
    /// started, saving the history to `history_path`, with no order settling
    /// and no error reported.
    pub fn new(config: Config, history: History, history_path: FsPath) -> (w: Watcher)
        requires
            settings_valid(config@),
            history@.initialized_routes.contains((config@.source, config@.destination)),
        ensures
            w.wf(),
            w@.config == config@,
            w@.history == history@,
            w@.history_path == history_path@,
            w@.candidates == Map::<PathView, CandidateView>::empty(),
            w@.last_errors == Map::<PathView, Seq<char>>::empty(),
    {
        Watcher {
            config,
            history,
            history_path,
            candidates: PathTable::new(),
            last_errors: PathTable::new(),
        }
    }

    /// The number of orders that are settling.
    pub fn pending(&self) -> (n: usize)
        requires
            self.wf(),
        ensures
            n == self@.candidates.len(),
    {
        self.candidates.len()
    }

    fn report_error(&mut self, pass: &mut PollPass, path: &FsPath, display: &String, message: String)
        requires
            old(self).wf(),
        ensures
            final(self).wf(),
            (final(self)@, final(pass)@) == spec_report(
                old(self)@,
                old(pass)@,
                path@,
                display@,
                message@,
            ),
    {
        let same = match self.last_errors.get(path) {
            Some(m) => *m == message,
            None => false,
        };
        if !same {
            let text = concat(display.as_str(), ": ");
            let text = concat(text.as_str(), message.as_str());
            let ghost before = pass.activity@;
            pass.activity.push(Activity { kind: String::from_str("error"), message: text });
            assert(activity_views(pass.activity@) =~= activity_views(before).push(
                error_activity(display@, message@),
            ));
            self.last_errors.insert(path.duplicate(), message);
        }
    }

    fn finish(&mut self, pass: &mut PollPass) -> (action: PollAction)
        requires
            old(self).wf(),
        ensures
            final(self).wf(),
            (final(self)@, final(pass)@, action@) == spec_finish(old(self)@, old(pass)@),
    {
        self.candidates.retain_in(&pass.present);
        self.last_errors.retain_in(&pass.present);
        let mut out: Vec<Activity> = Vec::new();
        std::mem::swap(&mut out, &mut pass.activity);
        pass.stage = PollStage::Done;
        assert(activity_views(pass.activity@) =~= Seq::<ActivityView>::empty());
        PollAction::Finished(out)
    }

    fn advance(&mut self, pass: &mut PollPass) -> (action: PollAction)
        requires
            old(self).wf(),
        ensures
            final(self).wf(),
            (final(self)@, final(pass)@, action@) == spec_advance(old(self)@, old(pass)@),
    {
        if pass.next < pass.orders.len() {
            pass.stage = PollStage::Choosing;
            PollAction::AskKeepRunning
        } else {
            self.finish(pass)
        }
    }

    /// Handles the listing of the orders folder: the orders are taken in
    /// file name order.
    pub fn orders_listed(&mut self, pass: &mut PollPass, listed: Result<Vec<Listed>, ListFailure>) -> (action:
        PollAction)
        requires
            old(self).wf(),
            old(pass).stage == PollStage::Listing,
            old(pass)@.next == 0,
        ensures
            final(self).wf(),
            pass_wf(final(self)@, final(pass)@),
            match listing_view(listed) {
                Err(m) => final(self)@ == old(self)@ && final(pass)@ == (PassView {
                    stage: PollStage::Done,
                    ..old(pass)@
                }) && action@ == PollActionView::Failed(m),
                Ok(v) => {
                    &&& sorted_by_name(final(pass)@.orders)
                    &&& final(pass)@.orders.to_multiset() == v.to_multiset()
                    &&& (final(self)@, final(pass)@, action@) == spec_advance(
                        old(self)@,
                        PassView { orders: final(pass)@.orders, ..old(pass)@ },
                    )
                },
            },
    {
        match listed {
            Err(ListFailure::Open(e)) => {
                pass.stage = PollStage::Done;
                PollAction::Failed(concat("Cannot scan the orders folder: ", e.as_str()))
            },
            Err(ListFailure::Entry(e)) => {
                pass.stage = PollStage::Done;
                PollAction::Failed(e)
            },
            Ok(v) => {
                pass.orders = sort_by_name(v);
                self.advance(pass)
            },
        }
    }

    /// Handles whether to go on: an order that was completed is skipped.
    pub fn running_checked(&mut self, pass: &mut PollPass, running: bool) -> (action: PollAction)
        requires
            old(self).wf(),
            old(pass).stage == PollStage::Choosing,
            pass_wf(old(self)@, old(pass)@),
        ensures
            final(self).wf(),
            pass_wf(final(self)@, final(pass)@),
            (final(self)@, final(pass)@, action@) == spec_running_checked(
                old(self)@,
                old(pass)@,
                running,
            ),
    {
        if !running {
            return self.finish(pass);
        }
        let i = pass.next;
        let n = pass.orders.len();
        assert(i < n);
        pass.next = i + 1;
        let route = Route {
            source: pass.orders[i].path.duplicate(),
            destination: self.config.destination.duplicate(),
        };
        if self.history.completed.contains(&route) {
            self.advance(pass)
        } else {
            pass.stage = PollStage::Inspecting;
            PollAction::Inspect(pass.orders[i].path.duplicate())
        }
    }

    /// Handles the metadata of the order being handled.
    pub fn order_inspected(&mut self, pass: &mut PollPass, kind: Result<EntryKind, String>) -> (action:
        PollAction)
        requires
            old(self).wf(),
            old(pass).stage == PollStage::Inspecting,
            pass_wf(old(self)@, old(pass)@),
        ensures
            final(self).wf(),
            pass_wf(final(self)@, final(pass)@),
            (final(self)@, final(pass)@, action@) == spec_order_inspected(
                old(self)@,
                old(pass)@,
                kind_view(kind),
            ),
    {
        let i = pass.next - 1;
        let path = pass.orders[i].path.duplicate();
        let display = pass.orders[i].display.clone();
        match kind {
            Err(e) => {
                self.report_error(pass, &path, &display, e);
                self.advance(pass)
            },
            Ok(EntryKind::Directory) | Ok(EntryKind::Link) => {
                pass.present.insert(path.duplicate());
                pass.stage = PollStage::Walking;
                PollAction::Walk(path)
            },
            Ok(_) => self.advance(pass),
        }
    }

    /// Handles the walk of the order being handled.
    pub fn order_walked(&mut self, pass: &mut PollPass, items: Vec<WalkItem>) -> (action: PollAction)
        requires
            old(self).wf(),
            old(pass).stage == PollStage::Walking,
            pass_wf(old(self)@, old(pass)@),
        ensures
            final(self).wf(),
            pass_wf(final(self)@, final(pass)@),
            (final(self)@, final(pass)@, action@) == spec_order_walked(
                old(self)@,
                old(pass)@,
                items@,
            ),
    {
        let i = pass.next - 1;
        let path = pass.orders[i].path.duplicate();
        let display = pass.orders[i].display.clone();
        match snapshot_entries(items) {
            Err(m) => {
                self.candidates.remove(&path);
                self.report_error(pass, &path, &display, m);
                self.advance(pass)
            },
            Ok(snap) => {
                let keep = match self.candidates.get(&path) {
                    Some(c) => c.snapshot.same_as(&snap),
                    None => false,
                };
                let since = if keep {
                    match self.candidates.get(&path) {
                        Some(c) => c.unchanged_since,
                        None => pass.now,
                    }
                } else {
                    pass.now
                };
                let expected = snap.duplicate();
                self.candidates.insert(
                    path.duplicate(),
                    Candidate { snapshot: snap, unchanged_since: since },
                );
                let quiet = (self.config.quiet_seconds as u128) * 1_000_000_000u128;
                if pass.now < since || ((pass.now - since) as u128) < quiet {
                    self.advance(pass)
                } else {
                    pass.stage = PollStage::Archiving;
                    PollAction::Archive {
                        path,
                        display,
                        destination: self.config.destination.duplicate(),
                        expected,
                    }
                }
            },
        }
    }

    /// Handles the packaging of the order being handled; `result` holds the
    /// archive as the user sees it, or the failure message.
    pub fn order_archived(&mut self, pass: &mut PollPass, result: Result<String, String>) -> (action:
        PollAction)
        requires
            old(self).wf(),
            old(pass).stage == PollStage::Archiving,
            pass_wf(old(self)@, old(pass)@),
        ensures
            final(self).wf(),
            pass_wf(final(self)@, final(pass)@),
            (final(self)@, final(pass)@, action@) == spec_order_archived(
                old(self)@,
                old(pass)@,
                text_result(result),
            ),
    {
        let i = pass.next - 1;
        match result {
            Err(m) => {
                let path = pass.orders[i].path.duplicate();
                let display = pass.orders[i].display.clone();
                self.report_error(pass, &path, &display, m);
                self.advance(pass)
            },
            Ok(d) => {
                let route = Route {
                    source: pass.orders[i].path.duplicate(),
                    destination: self.config.destination.duplicate(),
                };
                self.history.completed.insert(route);
                pass.delivered = d;
                pass.stage = PollStage::Saving;
                PollAction::SaveHistory(self.history_path.duplicate())
            },
        }
    }

    /// Handles saving the history after a delivery.
    pub fn history_saved(&mut self, pass: &mut PollPass, result: Result<(), String>) -> (action:
        PollAction)
        requires
            old(self).wf(),
            old(pass).stage == PollStage::Saving,
            pass_wf(old(self)@, old(pass)@),
        ensures
            final(self).wf(),
            pass_wf(final(self)@, final(pass)@),
            (final(self)@, final(pass)@, action@) == spec_history_saved(
                old(self)@,
                old(pass)@,
                unit_result(result),
            ),
    {
        match result {
            Err(e) => {
                pass.stage = PollStage::Done;
                PollAction::Failed(
                    concat("ZIP delivered, but completion history could not be saved: ", e.as_str()),
                )
            },
            Ok(_) => {
                let i = pass.next - 1;
                let path = pass.orders[i].path.duplicate();
                self.candidates.remove(&path);
                self.last_errors.remove(&path);
                let message = concat("Delivered ", pass.delivered.as_str());
                let ghost before = pass.activity@;
                pass.activity.push(Activity { kind: String::from_str("success"), message });
                assert(activity_views(pass.activity@) =~= activity_views(before).push(
                    success_activity(pass.delivered@),
                ));
                self.advance(pass)
            },
        }
    }
}


/// What opening a watcher waits for next.
#[derive(PartialEq, Eq, Structural, Clone, Copy, Debug)]
pub enum OpenStage {
    Listing,
    Saving,
    Ready,
    Failed,
}

/// What the caller must do next to open a watcher.
pub enum OpenAction {
    /// List the entries of this orders folder, each with whether it is a
    /// folder.
    ListExisting(FsPath),
    /// Save the history to this file.
    SaveHistory(FsPath),
    /// The watcher can be taken.
    Ready,
    /// Opening failed with this message.
    Failed(String),
}

/// The mathematical value of an opening step.
pub enum OpenActionView {
    ListExisting(PathView),
    SaveHistory(PathView),
    Ready,
    Failed(Seq<char>),
}

impl View for OpenAction {
    type V = OpenActionView;

    open spec fn view(&self) -> OpenActionView {
        match self {
            OpenAction::ListExisting(p) => OpenActionView::ListExisting(p@),
            OpenAction::SaveHistory(p) => OpenActionView::SaveHistory(p@),
            OpenAction::Ready => OpenActionView::Ready,
            OpenAction::Failed(m) => OpenActionView::Failed(m@),
        }
    }
}

/// Opening a watcher: on the first use of a route, the folders already in
/// the orders folder are recorded as completed and the history is saved.
pub struct Opening {
    pub stage: OpenStage,
    pub config: Config,
    pub history: History,
    pub history_path: FsPath,
}

impl Opening {
    /// The settings are valid, and once ready their route was started.
    pub open spec fn wf(&self) -> bool {
        &&& settings_valid(self.config@)
        &&& self.stage == OpenStage::Ready ==> self.history@.initialized_routes.contains(
            (self.config@.source, self.config@.destination),
        )
    }

    /// Starts opening a watcher with valid settings and a loaded history: a
    /// route used before is ready at once; a new route first lists the orders
    /// folder.
    pub fn start(config: Config, history: History, history_path: FsPath) -> (out: (
        Opening,
        OpenAction,
    ))
        requires
            settings_valid(config@),
        ensures
            out.0.wf(),
            out.0.config@ == config@,
            out.0.history@ == history@,
            out.0.history_path@ == history_path@,
            if history@.initialized_routes.contains((config@.source, config@.destination)) {
                out.0.stage == OpenStage::Ready && out.1@ == OpenActionView::Ready
            } else {
                out.0.stage == OpenStage::Listing && out.1@ == OpenActionView::ListExisting(
                    config@.source,
                )
            },
    {
        if history.has_route(&config.source, &config.destination) {
            (Opening { stage: OpenStage::Ready, config, history, history_path }, OpenAction::Ready)
        } else {
            let list = config.source.duplicate();
            (
                Opening { stage: OpenStage::Listing, config, history, history_path },
                OpenAction::ListExisting(list),
            )
        }
    }

    /// Handles the listing of the orders folder on a new route: its folders
    /// become completed, the route is started, and the history is saved.
    pub fn existing_listed(&mut self, listing: Result<Vec<(FsPath, bool)>, ListFailure>) -> (action:
        OpenAction)
        requires
            old(self).wf(),
            old(self).stage == OpenStage::Listing,
        ensures
            final(self).wf(),
            final(self).config@ == old(self).config@,
            final(self).history_path@ == old(self).history_path@,
            match listing {
                Err(ListFailure::Open(e)) => final(self).stage == OpenStage::Failed && action@
                    == OpenActionView::Failed("Cannot scan the orders folder: "@ + e@),
                Err(ListFailure::Entry(e)) => final(self).stage == OpenStage::Failed && action@
                    == OpenActionView::Failed(e@),
                Ok(l) => {
                    &&& final(self).stage == OpenStage::Saving
                    &&& action@ == OpenActionView::SaveHistory(old(self).history_path@)
                    &&& final(self).history@.initialized_routes
                        == old(self).history@.initialized_routes.insert(
                        (old(self).config@.source, old(self).config@.destination),
                    )
                    &&& final(self).history@.completed == old(self).history@.completed.union(
                        folders_to(l@, old(self).config@.destination),
                    )
                },
            },
    {
        match listing {
            Err(ListFailure::Open(e)) => {
                self.stage = OpenStage::Failed;
                OpenAction::Failed(concat("Cannot scan the orders folder: ", e.as_str()))
            },
            Err(ListFailure::Entry(e)) => {
                self.stage = OpenStage::Failed;
                OpenAction::Failed(e)
            },
            Ok(l) => {
                self.history.start_route(&self.config.source, &self.config.destination, l);
                self.stage = OpenStage::Saving;
                OpenAction::SaveHistory(self.history_path.duplicate())
            },
        }
    }

    /// Handles saving the history of a new route.
    pub fn history_saved(&mut self, result: Result<(), String>) -> (action: OpenAction)
        requires
            old(self).wf(),
            old(self).stage == OpenStage::Saving,
            old(self).history@.initialized_routes.contains(
                (old(self).config@.source, old(self).config@.destination),
            ),
        ensures
            final(self).wf(),
            final(self).config@ == old(self).config@,
            final(self).history@ == old(self).history@,
            final(self).history_path@ == old(self).history_path@,
            match result {
                Err(e) => final(self).stage == OpenStage::Failed && action@ == OpenActionView::Failed(
                    "Cannot save the starting folder list: "@ + e@,
                ),
                Ok(_) => final(self).stage == OpenStage::Ready && action@ == OpenActionView::Ready,
            },
    {
        match result {
            Err(e) => {
                self.stage = OpenStage::Failed;
                OpenAction::Failed(concat("Cannot save the starting folder list: ", e.as_str()))
            },
            Ok(_) => {
                self.stage = OpenStage::Ready;
                OpenAction::Ready
            },
        }
    }

    /// The opened watcher, with no order settling and no error reported.
    pub fn into_watcher(self) -> (w: Watcher)
        requires
            self.wf(),
            self.stage == OpenStage::Ready,
        ensures
            w.wf(),
            w@.config == self.config@,
            w@.history == self.history@,
            w@.history_path == self.history_path@,
            w@.candidates == Map::<PathView, CandidateView>::empty(),
            w@.last_errors == Map::<PathView, Seq<char>>::empty(),
    {
        Watcher::new(self.config, self.history, self.history_path)
    }
}

} // verus!
