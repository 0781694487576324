//! What the window shows: whether the knight is on duty, the counts, and the
//! quest log of the last hundred entries.
use vstd::prelude::*;
use crate::watcher::{Activity, ActivityView, Config, ConfigView, activity_views};

verus! {

/// The most entries the quest log keeps.
pub const LOG_LIMIT: usize = 100;

/// One entry of the quest log.
pub struct LogEntry {
    pub id: u64,
    /// Seconds since the Unix epoch.
    pub timestamp: u64,
    pub kind: String,
    pub message: String,
}

/// The mathematical value of a log entry.
pub struct LogEntryView {
    pub id: u64,
    pub timestamp: u64,
    pub kind: Seq<char>,
    pub message: Seq<char>,
}

impl View for LogEntry {
    type V = LogEntryView;

    open spec fn view(&self) -> LogEntryView {
        LogEntryView {
            id: self.id,
            timestamp: self.timestamp,
            kind: self.kind@,
            message: self.message@,
        }
    }
}

/// The state shown in the window.
pub struct Status {
    pub running: bool,
    pub stopping: bool,
    pub pending: usize,
    pub delivered: usize,
    pub config: Option<Config>,
    pub activity: Vec<LogEntry>,
    pub next_id: u64,
}

/// The mathematical value of the shown state.
pub struct StatusView {
    pub running: bool,
    pub stopping: bool,
    pub pending: usize,
    pub delivered: usize,
    pub config: Option<ConfigView>,
    pub activity: Seq<LogEntryView>,
    pub next_id: u64,
}

impl View for Status {
    type V = StatusView;

    open spec fn view(&self) -> StatusView {
        StatusView {
            running: self.running,
            stopping: self.stopping,
            pending: self.pending,
            delivered: self.delivered,
            config: match self.config {
                Some(c) => Some(c@),
                None => None,
            },
            activity: self.activity@.map_values(|e: LogEntry| e@),
            next_id: self.next_id,
        }
    }
}

/// Logging one entry: it gets the next id, and the oldest entry is dropped
/// once the log holds more than the limit.
pub open spec fn spec_log(s: StatusView, kind: Seq<char>, message: Seq<char>, timestamp: u64) -> StatusView {
    let id = (s.next_id + 1) as u64;
    let grown = s.activity.push(LogEntryView { id, timestamp, kind, message });
    StatusView {
        next_id: id,
        activity: if grown.len() > LOG_LIMIT {
            grown.drop_first()
        } else {
            grown
        },
        ..s
    }
}

/// Recording one activity of a scan: a delivery is counted, and the
/// activity is logged.
pub open spec fn spec_record(s: StatusView, a: ActivityView, timestamp: u64) -> StatusView {
    let counted = if a.kind == "success"@ {
        StatusView { delivered: (s.delivered + 1) as usize, ..s }
    } else {
        s
    };
    spec_log(counted, a.kind, a.message, timestamp)
}

/// Recording the activities of a scan in order.
pub open spec fn spec_record_all(s: StatusView, items: Seq<ActivityView>, timestamp: u64) -> StatusView
    decreases items.len(),
{
    if items.len() == 0 {
        s
    } else {
        spec_record(spec_record_all(s, items.drop_last(), timestamp), items.last(), timestamp)
    }
}

/// Recording activities moves the id and the delivery count on by at most
/// one each per activity.
proof fn lemma_record_all_bounds(s: StatusView, items: Seq<ActivityView>, timestamp: u64)
    requires
        s.next_id + items.len() <= u64::MAX,
        s.delivered + items.len() <= usize::MAX,
    ensures
        spec_record_all(s, items, timestamp).next_id == s.next_id + items.len(),
        spec_record_all(s, items, timestamp).delivered <= s.delivered + items.len(),
    decreases items.len(),
{
    if items.len() > 0 {
        lemma_record_all_bounds(s, items.drop_last(), timestamp);
    }
}

impl Status {
    /// The state before any watching: not running, nothing counted or
    /// logged, showing `config` if any.
    pub fn new(config: Option<Config>) -> (s: Status)
        ensures
            s@ == (StatusView {
                running: false,
                stopping: false,
                pending: 0,
                delivered: 0,
                config: match config {
                    Some(c) => Some(c@),
                    None => None,
                },
                activity: Seq::empty(),
                next_id: 0,
            }),
    {
        let s = Status {
            running: false,
            stopping: false,
            pending: 0,
            delivered: 0,
            config,
            activity: Vec::new(),
            next_id: 0,
        };
        assert(s@.activity =~= Seq::<LogEntryView>::empty());
        s
    }

    /// Adds an entry to the quest log, keeping the last hundred.
    pub fn log(&mut self, kind: String, message: String, timestamp: u64)
        requires
            old(self).next_id < u64::MAX,
        ensures
            final(self)@ == spec_log(old(self)@, kind@, message@, timestamp),
    {
        self.next_id = self.next_id + 1;
        let ghost before = self@.activity;
        self.activity.push(LogEntry { id: self.next_id, timestamp, kind, message });
        assert(self@.activity =~= before.push(self.activity@.last()@));
        if self.activity.len() > LOG_LIMIT {
            let ghost grown = self@.activity;
            self.activity.remove(0);
            assert(self@.activity =~= grown.drop_first());
        }
    }

    /// Records the activities of a scan, then the number of orders settling.
    pub fn record_poll(&mut self, activity: Vec<Activity>, pending: usize, timestamp: u64)
        requires
            old(self).next_id + activity@.len() <= u64::MAX,
            old(self).delivered + activity@.len() <= usize::MAX,
        ensures
            final(self)@ == (StatusView {
                pending,
                ..spec_record_all(old(self)@, activity_views(activity@), timestamp)
            }),
    {
        let ghost all = activity_views(activity@);
        let ghost start = self@;
        let success = String::from_str("success");
        let mut rest = activity;
        let mut i: usize = 0;
        proof {
            assert(all.subrange(0, 0) =~= Seq::<ActivityView>::empty());
            lemma_record_all_bounds(start, all, timestamp);
        }
        while rest.len() > 0
            invariant
                all.len() == i + rest@.len(),
                activity_views(rest@) == all.subrange(i as int, all.len() as int),
                self@ == spec_record_all(start, all.subrange(0, i as int), timestamp),
                start.next_id + all.len() <= u64::MAX,
                start.delivered + all.len() <= usize::MAX,
                success@ == "success"@,
            decreases rest.len(),
        {
            let ghost rv = activity_views(rest@);
            let ghost first = rest@[0];
            assert(rv[0] == first@);
            assert(rv[0] == all[i as int]);
            let item = rest.remove(0);
            assert(item == first);
            assert(activity_views(rest@) =~= rv.remove(0));
            let ghost prefix = all.subrange(0, i as int);
            let ghost next = all.subrange(0, i + 1);
            assert(next.drop_last() =~= prefix);
            assert(next.last() == item@);
            proof {
                lemma_record_all_bounds(start, prefix, timestamp);
            }
            if item.kind == success {
                self.delivered = self.delivered + 1;
            }
            self.log(item.kind, item.message, timestamp);
            i = i + 1;
        }
        assert(all.subrange(0, all.len() as int) =~= all);
        self.pending = pending;
    }

    /// The knight goes on duty with `config`.
    pub fn begin_watch(&mut self, config: Config)
        ensures
            final(self)@ == (StatusView {
                running: true,
                stopping: false,
                pending: 0,
                config: Some(config@),
                ..old(self)@
            }),
    {
        self.running = true;
        self.stopping = false;
        self.pending = 0;
        self.config = Some(config);
    }

    /// The knight goes off duty.
    pub fn end_watch(&mut self)
        ensures
            final(self)@ == (StatusView {
                running: false,
                stopping: false,
                pending: 0,
                ..old(self)@
            }),
    {
        self.running = false;
        self.stopping = false;
        self.pending = 0;
    }

    /// Stopping was asked for: the knight is stopping if he was running.
    pub fn request_stop(&mut self)
        ensures
            final(self)@ == (StatusView { stopping: old(self)@.running, ..old(self)@ }),
    {
        self.stopping = self.running;
    }
}

} // verus!
