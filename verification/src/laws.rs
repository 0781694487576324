//! What holds of archiving and watching across steps.
use vstd::prelude::*;
use vstd::utf8::{valid_utf8, decode_utf8};
use crate::fs_path::{FsPath, PartView, PathView, spec_starts_with, spec_file_name};
use crate::snapshot::{EntryKind, EntryView, WalkItem, spec_snapshot};
use crate::entry_name::{part_text, part_texts, spec_archive_path};
use crate::tables::RouteView;
use crate::archive::{ArchiveJob, ArchiveStage, spec_target, zip_suffix, spec_root, spec_planned, all_written};
use crate::watcher::{
    WatcherView, PassView, PollStage, PollActionView, pass_wf, current, current_key,
    quiet_elapsed, spec_report, spec_finish, spec_running_checked, spec_order_inspected,
    spec_order_walked, spec_order_archived, spec_history_saved, success_activity, settings_valid,
    spec_check_settings, spec_with_folders, ConfigView, ActivityView, folders_to,
};
use crate::status::{StatusView, LogEntryView, LOG_LIMIT, spec_log, spec_record_all};

verus! {

/// An archive is published only under the order's name with `.zip`, in a
/// destination outside the order, after the archive path was found free,
/// after every recorded entry but the archive root itself was written once,
/// in walk order and named relative to the order (a folder's contents at the
/// ZIP root, a single file under its own name), and after the order was
/// found unchanged by a second walk; when packaging was asked for a known
/// state, the order had that state.
pub proof fn law_publish_guarded(job: ArchiveJob)
    requires
        job.wf(),
        job.stage == ArchiveStage::Publishing,
    ensures
        job.target@ == spec_target(job.destination@, job.source@),
        !spec_starts_with(job.destination@, job.source@),
        job.target_absent@,
        job.next == job.before@.len(),
        spec_root(job.source@, job.is_dir) == Some(job.root@),
        job.written@ == spec_planned(job.root@, job.before@, job.before@.len() as int),
        all_written(job.written@),
        job.after@ == job.before@,
        job.expected matches Some(x) ==> x@ == job.before@,
{
}

/// The archive never lies inside the order it packs, nor replaces it.
pub proof fn law_target_outside_order(destination: PathView, source: PathView)
    requires
        spec_file_name(source) is Some,
        !spec_starts_with(destination, source),
    ensures
        !spec_starts_with(spec_target(destination, source), source),
        spec_target(destination, source) != source,
{
    let t = spec_target(destination, source);
    let name = spec_file_name(source)->0;
    assert(t.last() == PartView::Name(name + zip_suffix()));
    assert(source.last() == PartView::Name(name));
    assert((name + zip_suffix()).len() == name.len() + 4);
    if spec_starts_with(t, source) {
        if source.len() <= destination.len() {
            assert(destination.subrange(0, source.len() as int) =~= t.subrange(0, source.len() as int));
            assert(false);
        } else {
            assert(t.subrange(0, source.len() as int) =~= t);
            assert(t == source);
            assert(t.last() == source.last());
            assert(false);
        }
    }
}

/// A scan never forgets a completed order or a started route: only a
/// delivery adds to the completed orders.
pub proof fn law_history_kept(
    w: WatcherView,
    p: PassView,
    running: bool,
    kind: Result<EntryKind, Seq<char>>,
    items: Seq<WalkItem>,
    archived: Result<Seq<char>, Seq<char>>,
    saved: Result<(), Seq<char>>,
)
    ensures
        spec_finish(w, p).0.history == w.history,
        spec_running_checked(w, p, running).0.history == w.history,
        spec_order_inspected(w, p, kind).0.history == w.history,
        spec_order_walked(w, p, items).0.history == w.history,
        spec_order_archived(w, p, archived).0.history.initialized_routes
            == w.history.initialized_routes,
        w.history.completed.subset_of(spec_order_archived(w, p, archived).0.history.completed),
        spec_history_saved(w, p, saved).0.history == w.history,
{
}

/// An order completed for the destination is never inspected, walked or
/// packaged again.
pub proof fn law_completed_never_repackaged(w: WatcherView, p: PassView, items: Seq<WalkItem>)
    ensures
        (pass_wf(w, p) && p.stage == PollStage::Choosing) ==> (spec_running_checked(
            w,
            p,
            true,
        ).2 matches PollActionView::Inspect(path) ==> !w.history.completed.contains(
            (path, w.config.destination),
        )),
        (pass_wf(w, p) && p.stage == PollStage::Walking) ==> (spec_order_walked(
            w,
            p,
            items,
        ).2 matches PollActionView::Archive(path, _, _, _) ==> !w.history.completed.contains(
            (path, w.config.destination),
        )),
{
}

/// An order is packaged only into the configured destination, when its walk
/// gave the recorded state and that state has held for the whole quiet
/// period; the package must still match that state.
pub proof fn law_settled_before_packaging(w: WatcherView, p: PassView, items: Seq<WalkItem>)
    ensures
        spec_order_walked(w, p, items).2 matches PollActionView::Archive(path, _, destination, snap) ==> {
            let w1 = spec_order_walked(w, p, items).0;
            &&& destination == w.config.destination
            &&& spec_snapshot(items) == Ok::<Seq<crate::snapshot::EntryView>, Seq<char>>(snap)
            &&& path == current(p).path
            &&& w1.candidates.contains_key(path)
            &&& w1.candidates[path].snapshot == snap
            &&& quiet_elapsed(
                p.now,
                w1.candidates[path].unchanged_since,
                w.config.quiet_seconds,
            )
        },
{
}

/// A change restarts the quiet period: an order whose walk differs from its
/// recorded state is not packaged in that scan.
pub proof fn law_change_restarts_quiet(w: WatcherView, p: PassView, items: Seq<WalkItem>)
    requires
        settings_valid(w.config),
        spec_snapshot(items) is Ok,
        !(w.candidates.contains_key(current(p).path) && w.candidates[current(p).path].snapshot
            == spec_snapshot(items)->Ok_0),
    ensures
        !(spec_order_walked(w, p, items).2 is Archive),
{
}

/// The same error about the same order is reported once, not again and
/// again.
pub proof fn law_error_reported_once(
    w: WatcherView,
    p: PassView,
    path: PathView,
    display: Seq<char>,
    message: Seq<char>,
)
    ensures
        ({
            let (w1, p1) = spec_report(w, p, path, display, message);
            spec_report(w1, p1, path, display, message) == (w1, p1)
        }),
{
}

/// An error already remembered for an order with the same message adds no
/// activity and changes nothing.
pub proof fn law_known_error_silent(
    w: WatcherView,
    p: PassView,
    path: PathView,
    display: Seq<char>,
    message: Seq<char>,
)
    requires
        w.last_errors.contains_key(path),
        w.last_errors[path] == message,
    ensures
        spec_report(w, p, path, display, message) == (w, p),
{
}

/// An error remembered for an order that was seen in a scan survives the end
/// of that scan, so the same error in the next scan is not reported again.
pub proof fn law_error_once_across_scans(
    w: WatcherView,
    p: PassView,
    next: PassView,
    path: PathView,
    display: Seq<char>,
    message: Seq<char>,
)
    requires
        w.last_errors.contains_key(path),
        w.last_errors[path] == message,
        p.present.contains(path),
    ensures
        spec_finish(w, p).0.last_errors.contains_key(path),
        spec_finish(w, p).0.last_errors[path] == message,
        spec_report(spec_finish(w, p).0, next, path, display, message) == (spec_finish(w, p).0, next),
{
}

/// Valid settings pass the settings check again, and taking their own
/// folders as the resolved ones gives them back unchanged.
pub proof fn law_settings_stable(c: ConfigView)
    requires
        settings_valid(c),
    ensures
        spec_check_settings(c) is Ok,
        spec_with_folders(c, c.source, c.destination) == Ok::<ConfigView, Seq<char>>(c),
{
}

/// After a scan, only orders seen in it are settling or have a remembered
/// error.
pub proof fn law_finish_forgets_absent(w: WatcherView, p: PassView)
    ensures
        spec_finish(w, p).0.candidates.dom().subset_of(p.present),
        spec_finish(w, p).0.last_errors.dom().subset_of(p.present),
{
}

/// A delivered order, once its history is saved, is completed, no longer
/// settling, its error forgotten, and its delivery is the last activity of
/// the scan so far.
pub proof fn law_delivery_recorded(w: WatcherView, p: PassView, d: Seq<char>)
    requires
        pass_wf(w, p),
        p.stage == PollStage::Archiving,
    ensures
        ({
            let (w1, p1, a1) = spec_order_archived(w, p, Ok(d));
            let (w2, p2, a2) = spec_history_saved(w1, p1, Ok(()));
            &&& w2.history.completed.contains(current_key(w, p))
            &&& !w2.candidates.contains_key(current(p).path)
            &&& !w2.last_errors.contains_key(current(p).path)
            &&& match a2 {
                PollActionView::Finished(acts) => acts.last() == success_activity(d),
                _ => p2.activity.last() == success_activity(d),
            }
        }),
{
}

/// The quest log never grows past its limit, and the newest entry is last,
/// with the next id.
pub proof fn law_log_bounded(s: StatusView, kind: Seq<char>, message: Seq<char>, timestamp: u64)
    requires
        s.activity.len() <= LOG_LIMIT,
    ensures
        spec_log(s, kind, message, timestamp).activity.len() <= LOG_LIMIT,
        spec_log(s, kind, message, timestamp).activity.last() == (LogEntryView {
            id: (s.next_id + 1) as u64,
            timestamp,
            kind,
            message,
        }),
{
}

/// A walk item that a snapshot can record: a file or a folder whose
/// modification time could be read.
pub open spec fn readable_entry(item: WalkItem) -> bool {
    item matches WalkItem::Found(raw) && (raw.kind is Directory || raw.kind is File)
        && raw.modified is Ok
}

/// The state of a found entry as the filesystem reported it: its path, its
/// kind, its size and its modification time.
pub open spec fn reported_state(item: WalkItem) -> EntryView {
    EntryView {
        path: item->Found_0.path@,
        directory: item->Found_0.kind is Directory,
        size: item->Found_0.size,
        modified: item->Found_0.modified->Ok_0 as int,
    }
}

/// A walk gives a snapshot exactly when every item is a file or a folder
/// whose modification time could be read; the snapshot then has one entry
/// per item, holding that item's path, kind, size and modification time as
/// the filesystem reported them.
pub proof fn law_snapshot_records_walk(items: Seq<WalkItem>)
    ensures
        spec_snapshot(items) is Ok <==> forall|i: int|
            0 <= i < items.len() ==> readable_entry(#[trigger] items[i]),
        spec_snapshot(items) matches Ok(snap) ==> snap.len() == items.len() && forall|i: int|
            0 <= i < items.len() ==> snap[i] == reported_state(#[trigger] items[i]),
    decreases items.len(),
{
    if items.len() > 0 {
        let prefix = items.drop_last();
        let last = items.last();
        law_snapshot_records_walk(prefix);
        assert forall|i: int| 0 <= i < prefix.len() implies #[trigger] prefix[i] == items[i] by {}
        assert(last == items[items.len() - 1]);
        assert(crate::snapshot::spec_entry(last) is Ok <==> readable_entry(last));
        assert(crate::snapshot::spec_entry(last) matches Ok(e) ==> e == reported_state(last));
        if spec_snapshot(items) is Ok {
            let sp = spec_snapshot(prefix)->Ok_0;
            let snap = spec_snapshot(items)->Ok_0;
            assert(snap == sp.push(crate::snapshot::spec_entry(last)->Ok_0));
            assert forall|i: int| 0 <= i < items.len() implies snap[i] == reported_state(
                #[trigger] items[i],
            ) && readable_entry(items[i]) by {
                if i < prefix.len() {
                    assert(prefix[i] == items[i]);
                    assert(readable_entry(prefix[i]));
                }
            }
        }
        if forall|i: int| 0 <= i < items.len() ==> readable_entry(#[trigger] items[i]) {
            assert forall|i: int| 0 <= i < prefix.len() implies readable_entry(#[trigger] prefix[i]) by {
                assert(prefix[i] == items[i]);
                assert(readable_entry(items[i]));
            }
            assert(readable_entry(items[items.len() - 1]));
        }
    }
}

/// Two walks that differ only in the modification time of one entry give
/// different snapshots, so a rewritten file counts as a change.
pub proof fn law_snapshot_sees_rewrites(a: Seq<WalkItem>, b: Seq<WalkItem>, i: int)
    requires
        0 <= i < a.len(),
        a.len() == b.len(),
        spec_snapshot(a) is Ok,
        spec_snapshot(b) is Ok,
        a[i] matches WalkItem::Found(x) && b[i] matches WalkItem::Found(y) && x.modified
            != y.modified,
    ensures
        spec_snapshot(a) != spec_snapshot(b),
{
    law_snapshot_records_walk(a);
    law_snapshot_records_walk(b);
    let sa = spec_snapshot(a)->Ok_0;
    let sb = spec_snapshot(b)->Ok_0;
    assert(readable_entry(a[i]) && readable_entry(b[i]));
    assert(sa[i] == reported_state(a[i]) && sb[i] == reported_state(b[i]));
    assert(sa[i].modified != sb[i].modified);
}

/// A name that is valid UTF-8 and holds no backslash keeps its text inside
/// the archive as it is.
pub proof fn law_part_text_unchanged(bytes: Seq<u8>)
    requires
        valid_utf8(bytes),
        !decode_utf8(bytes).contains('\\'),
    ensures
        part_text(PartView::Name(bytes)) matches Ok(t) && t == decode_utf8(bytes),
{
}

/// A name that is not valid UTF-8, or that holds a backslash, has no text
/// inside an archive, and neither has a root, a prefix, `.` or `..`.
pub proof fn law_part_text_refusals(part: PartView)
    ensures
        part matches PartView::Name(b) && !valid_utf8(b) ==> (part_text(part) matches Err(e)
            && e is NotUnicode),
        part matches PartView::Name(b) && valid_utf8(b) && decode_utf8(b).contains('\\')
            ==> (part_text(part) matches Err(e) && e is Backslash),
        !(part is Name) ==> (part_text(part) matches Err(e) && e is NotRelative),
{
}

/// The texts of a path's components, when they all have one, are as many as
/// the components.
proof fn lemma_part_texts_len(parts: PathView)
    ensures
        part_texts(parts) matches Ok(texts) ==> texts.len() == parts.len(),
    decreases parts.len(),
{
    if parts.len() > 0 {
        lemma_part_texts_len(parts.drop_last());
    }
}

/// Archive names are built component by component: the empty path is the
/// empty name, a single name is its own text, one more name adds `/` and its
/// text to the name of the path before it, and a path that has no name
/// keeps the same error whatever follows.
pub proof fn law_archive_path_joins(parts: PathView, bytes: Seq<u8>)
    requires
        valid_utf8(bytes),
        !decode_utf8(bytes).contains('\\'),
    ensures
        spec_archive_path(Seq::<PartView>::empty()) matches Ok(t) && t.len() == 0,
        parts.len() == 0 ==> (spec_archive_path(parts.push(PartView::Name(bytes))) matches Ok(t)
            && t == decode_utf8(bytes)),
        parts.len() > 0 && spec_archive_path(parts) is Ok ==> (spec_archive_path(
            parts.push(PartView::Name(bytes)),
        ) matches Ok(t) && t == spec_archive_path(parts)->Ok_0 + seq!['/'] + decode_utf8(bytes)),
        spec_archive_path(parts) is Err ==> spec_archive_path(parts.push(PartView::Name(bytes)))
            == spec_archive_path(parts),
{
    let grown = parts.push(PartView::Name(bytes));
    assert(grown.drop_last() =~= parts);
    assert(grown.last() == PartView::Name(bytes));
    lemma_part_texts_len(parts);
    if part_texts(parts) is Ok {
        let texts = part_texts(parts)->Ok_0;
        let more = texts.push(decode_utf8(bytes));
        assert(part_texts(grown) == Ok::<Seq<Seq<char>>, crate::entry_name::ArchivePathError>(more));
        assert(more.drop_last() =~= texts);
        assert(more.last() == decode_utf8(bytes));
        if parts.len() == 0 {
            assert(more.len() == 1);
            assert(more[0] == decode_utf8(bytes));
        }
    }
}

/// Starting a route marks as completed every folder of the listing, each
/// with the destination, and nothing else: no path that is not a folder of
/// the listing, and nothing for another destination.
pub proof fn law_present_folders_completed(
    listing: Seq<(FsPath, bool)>,
    destination: PathView,
    source: PathView,
    other: PathView,
)
    ensures
        forall|i: int|
            0 <= i < listing.len() && (#[trigger] listing[i]).1 ==> folders_to(
                listing,
                destination,
            ).contains((listing[i].0@, destination)),
        (forall|i: int| 0 <= i < listing.len() && (#[trigger] listing[i]).1 ==> listing[i].0@ != source)
            ==> !folders_to(listing, destination).contains((source, destination)),
        other != destination ==> !folders_to(listing, destination).contains((source, other)),
{
    assert forall|i: int| 0 <= i < listing.len() && (#[trigger] listing[i]).1 implies folders_to(
        listing,
        destination,
    ).contains((listing[i].0@, destination)) by {}
}

/// An error not yet remembered for an order with this message is reported:
/// one error activity naming the order and the message is added, and the
/// message is remembered for that order, whatever other orders have
/// remembered; nothing else changes.
pub proof fn law_new_error_reported(
    w: WatcherView,
    p: PassView,
    path: PathView,
    display: Seq<char>,
    message: Seq<char>,
)
    requires
        !(w.last_errors.contains_key(path) && w.last_errors[path] == message),
    ensures
        ({
            let (w1, p1) = spec_report(w, p, path, display, message);
            &&& p1.activity == p.activity.push(
                ActivityView { kind: "error"@, message: display + ": "@ + message },
            )
            &&& w1.last_errors == w.last_errors.insert(path, message)
            &&& w1.candidates == w.candidates
            &&& w1.history == w.history
            &&& w1.config == w.config
            &&& p1.present == p.present
            &&& p1.next == p.next
            &&& p1.stage == p.stage
        }),
{
}

/// Two different orders failing with the same message, neither remembered
/// before, are both reported, in turn.
pub proof fn law_each_order_reported(
    w: WatcherView,
    p: PassView,
    a: PathView,
    a_display: Seq<char>,
    b: PathView,
    b_display: Seq<char>,
    message: Seq<char>,
)
    requires
        a != b,
        !w.last_errors.contains_key(a),
        !w.last_errors.contains_key(b),
    ensures
        ({
            let (w1, p1) = spec_report(w, p, a, a_display, message);
            let (w2, p2) = spec_report(w1, p1, b, b_display, message);
            &&& p2.activity == p.activity.push(
                ActivityView { kind: "error"@, message: a_display + ": "@ + message },
            ).push(ActivityView { kind: "error"@, message: b_display + ": "@ + message })
            &&& w2.last_errors[a] == message
            &&& w2.last_errors[b] == message
        }),
{
    law_new_error_reported(w, p, a, a_display, message);
    let (w1, p1) = spec_report(w, p, a, a_display, message);
    assert(!w1.last_errors.contains_key(b));
    law_new_error_reported(w1, p1, b, b_display, message);
}

/// The deliveries of a scan, its activities of kind `success`.
pub open spec fn deliveries(items: Seq<ActivityView>) -> Seq<ActivityView> {
    items.filter(|a: ActivityView| a.kind == "success"@)
}

/// Recording a scan adds its deliveries to the delivery count, which is
/// never reset, and moves the log's id on by one per activity.
pub proof fn law_deliveries_counted(s: StatusView, items: Seq<ActivityView>, timestamp: u64)
    requires
        s.next_id + items.len() <= u64::MAX,
        s.delivered + items.len() <= usize::MAX,
    ensures
        spec_record_all(s, items, timestamp).delivered == s.delivered + deliveries(items).len(),
        spec_record_all(s, items, timestamp).next_id == s.next_id + items.len(),
    decreases items.len(),
{
    reveal(Seq::filter);
    if items.len() > 0 {
        let prefix = items.drop_last();
        law_deliveries_counted(s, prefix, timestamp);
        prefix.filter_lemma(|a: ActivityView| a.kind == "success"@);
        assert(deliveries(items) == (if items.last().kind == "success"@ {
            deliveries(prefix).push(items.last())
        } else {
            deliveries(prefix)
        }));
    }
}

/// Recording two scans one after the other counts the deliveries of both.
pub proof fn law_deliveries_accumulate(
    s: StatusView,
    first: Seq<ActivityView>,
    second: Seq<ActivityView>,
    t1: u64,
    t2: u64,
)
    requires
        s.next_id + first.len() + second.len() <= u64::MAX,
        s.delivered + first.len() + second.len() <= usize::MAX,
    ensures
        spec_record_all(spec_record_all(s, first, t1), second, t2).delivered == s.delivered
            + deliveries(first).len() + deliveries(second).len(),
{
    law_deliveries_counted(s, first, t1);
    let s1 = spec_record_all(s, first, t1);
    first.filter_lemma(|a: ActivityView| a.kind == "success"@);
    assert(deliveries(first).len() <= first.len());
    law_deliveries_counted(s1, second, t2);
}

} // verus!
