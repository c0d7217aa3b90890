//! The sync session: one run of the pipeline that resolves the watermark,
//! fetches new records, picks the destination file, writes the records and
//! stores the next watermark. The session makes every decision; whoever
//! drives it performs each action it asks for and hands back the outcome.

use vstd::prelude::*;
use crate::caching::CacheError;
use crate::new_relic::{
    joined_lines, lemma_newest_timestamp, newest_timestamp, records_to_text, FetchError, NewRelic, NewRelicLogItem,
};
use crate::storage::{
    can_append_file, log_file_name, may_append, to_filename, utc_date_of, utc_date_text, IoError,
};
use crate::text::{decimal_text, lemma_decimal_text_nonempty};

verus! {

/// Where a session stands.
#[derive(Clone, Copy, Debug, PartialEq, Eq, Structural)]
pub enum SyncPhase {
    /// Waiting for the cached watermark.
    ReadingCache,
    /// Waiting for the records since the watermark.
    Fetching,
    /// Waiting for a probe of the candidate file.
    ChoosingFile,
    /// Waiting for the outcome of the write.
    Writing,
    /// Waiting for the watermark to be stored in the cache.
    StoringWatermark,
    /// Finished: the watermark to keep in memory is known.
    Done,
}

/// The outcome of an action, handed back to the session.
pub enum SyncEvent {
    /// The cache was read.
    CacheRead(Result<String, CacheError>),
    /// The log source answered.
    Fetched(Result<Vec<NewRelicLogItem>, FetchError>),
    /// The candidate file was probed: whether it exists and how many lines it
    /// holds.
    Probed { present: bool, line_count: Result<usize, IoError> },
    /// The records were written, or not.
    Written(Result<(), IoError>),
    /// The watermark was stored in the cache, or not.
    CacheStored(Result<(), CacheError>),
}

/// What the session asks for next.
#[derive(Debug, PartialEq, Eq)]
pub enum SyncAction {
    /// Read the cached watermark.
    ReadCache,
    /// Fetch every record at or after this watermark.
    Fetch(String),
    /// Report whether this file exists and how many lines it holds.
    ProbeFile(String),
    /// Write this content to this file: create it, or append a newline and
    /// the content.
    WriteFile(String, String),
    /// Store this watermark in the cache.
    StoreCache(String),
    /// The run is over: keep this watermark in memory.
    Finish(String),
}

/// The mathematical form of a `SyncAction`.
pub enum ActionView {
    ReadCache,
    Fetch(Seq<char>),
    ProbeFile(Seq<char>),
    WriteFile(Seq<char>, Seq<char>),
    StoreCache(Seq<char>),
    Finish(Seq<char>),
}

impl View for SyncAction {
    type V = ActionView;

    open spec fn view(&self) -> ActionView {
        match self {
            SyncAction::ReadCache => ActionView::ReadCache,
            SyncAction::Fetch(w) => ActionView::Fetch(w@),
            SyncAction::ProbeFile(n) => ActionView::ProbeFile(n@),
            SyncAction::WriteFile(n, c) => ActionView::WriteFile(n@, c@),
            SyncAction::StoreCache(w) => ActionView::StoreCache(w@),
            SyncAction::Finish(w) => ActionView::Finish(w@),
        }
    }
}

/// The mathematical form of a session. `watermark` is the watermark the run
/// started from; `pending` is the one it will keep when it finishes.
pub struct SessionView {
    pub phase: SyncPhase,
    pub prefix: Seq<char>,
    pub ext: Seq<char>,
    pub watermark: Seq<char>,
    pub pending: Seq<char>,
    pub date: Seq<char>,
    pub suffix: int,
    pub content: Seq<char>,
}

/// The state a run starts in, given the in-memory watermark: an empty one
/// sends the run to the cache first.
pub open spec fn start_view(in_memory: Seq<char>, prefix: Seq<char>, ext: Seq<char>) -> SessionView {
    SessionView {
        phase: if in_memory.len() == 0 {
            SyncPhase::ReadingCache
        } else {
            SyncPhase::Fetching
        },
        prefix,
        ext,
        watermark: in_memory,
        pending: in_memory,
        date: seq![],
        suffix: 0,
        content: seq![],
    }
}

/// The file the session currently proposes.
pub open spec fn candidate(s: SessionView) -> Seq<char> {
    log_file_name(s.prefix, s.date, s.ext, s.suffix)
}

/// The action a session in state `s` asks for.
pub open spec fn pending_action(s: SessionView) -> ActionView {
    match s.phase {
        SyncPhase::ReadingCache => ActionView::ReadCache,
        SyncPhase::Fetching => ActionView::Fetch(s.watermark),
        SyncPhase::ChoosingFile => ActionView::ProbeFile(candidate(s)),
        SyncPhase::Writing => ActionView::WriteFile(candidate(s), s.content),
        SyncPhase::StoringWatermark => ActionView::StoreCache(s.pending),
        SyncPhase::Done => ActionView::Finish(s.pending),
    }
}

/// Gives up on advancing: the run goes on to store the watermark it started
/// from.
pub open spec fn fall_back(s: SessionView) -> SessionView {
    SessionView { phase: SyncPhase::StoringWatermark, pending: s.watermark, ..s }
}

/// One step of a run. An event that does not answer the pending action
/// leaves the session as it is.
pub open spec fn session_next(s: SessionView, e: SyncEvent) -> SessionView {
    match e {
        SyncEvent::CacheRead(r) => if s.phase == SyncPhase::ReadingCache {
            let w = match r {
                Ok(v) => v@,
                Err(_) => seq![],
            };
            SessionView { phase: SyncPhase::Fetching, watermark: w, pending: w, ..s }
        } else {
            s
        },
        SyncEvent::Fetched(r) => if s.phase == SyncPhase::Fetching {
            match r {
                Ok(logs) => if logs@.len() == 0 {
                    fall_back(s)
                } else {
                    let newest = newest_timestamp(logs@);
                    match utc_date_text(newest) {
                        Some(d) => SessionView {
                            phase: SyncPhase::ChoosingFile,
                            pending: decimal_text(newest + 1),
                            date: d,
                            suffix: 0,
                            content: joined_lines(logs@),
                            ..s
                        },
                        None => fall_back(s),
                    }
                },
                Err(_) => fall_back(s),
            }
        } else {
            s
        },
        SyncEvent::Probed { present, line_count } => if s.phase == SyncPhase::ChoosingFile {
            if may_append(present, line_count) {
                SessionView { phase: SyncPhase::Writing, ..s }
            } else if s.suffix < u64::MAX {
                SessionView { suffix: s.suffix + 1, ..s }
            } else {
                fall_back(s)
            }
        } else {
            s
        },
        SyncEvent::Written(r) => if s.phase == SyncPhase::Writing {
            match r {
                Ok(_) => SessionView { phase: SyncPhase::StoringWatermark, ..s },
                Err(_) => fall_back(s),
            }
        } else {
            s
        },
        SyncEvent::CacheStored(_) => if s.phase == SyncPhase::StoringWatermark {
            SessionView { phase: SyncPhase::Done, ..s }
        } else {
            s
        },
    }
}

/// One run of the sync pipeline.
pub struct SyncSession {
    phase: SyncPhase,
    prefix: String,
    ext: String,
    watermark: String,
    pending: String,
    date: String,
    suffix: u64,
    content: String,
}

impl View for SyncSession {
    type V = SessionView;

    closed spec fn view(&self) -> SessionView {
        SessionView {
            phase: self.phase,
            prefix: self.prefix@,
            ext: self.ext@,
            watermark: self.watermark@,
            pending: self.pending@,
            date: self.date@,
            suffix: self.suffix as int,
            content: self.content@,
        }
    }
}

impl SyncSession {
    /// Starts a run from the in-memory watermark, writing to files named
    /// `prefix_DATE[_N].ext`.
    pub fn new(in_memory: &str, prefix: &str, ext: &str) -> (r: SyncSession)
        ensures
            r@ == start_view(in_memory@, prefix@, ext@),
    {
        let phase = if in_memory.is_empty() {
            SyncPhase::ReadingCache
        } else {
            SyncPhase::Fetching
        };
        SyncSession {
            phase,
            prefix: owned(prefix),
            ext: owned(ext),
            watermark: owned(in_memory),
            pending: owned(in_memory),
            date: String::new(),
            suffix: 0,
            content: String::new(),
        }
    }

    /// The phase the run is in.
    pub fn phase(&self) -> (r: SyncPhase)
        ensures
            r == self@.phase,
    {
        self.phase
    }

    /// The action the run asks for now.
    pub fn action(&self) -> (a: SyncAction)
        ensures
            a@ == pending_action(self@),
    {
        match self.phase {
            SyncPhase::ReadingCache => SyncAction::ReadCache,
            SyncPhase::Fetching => SyncAction::Fetch(self.watermark.clone()),
            SyncPhase::ChoosingFile => SyncAction::ProbeFile(
                to_filename(self.prefix.as_str(), self.date.as_str(), self.ext.as_str(), self.suffix),
            ),
            SyncPhase::Writing => SyncAction::WriteFile(
                to_filename(self.prefix.as_str(), self.date.as_str(), self.ext.as_str(), self.suffix),
                self.content.clone(),
            ),
            SyncPhase::StoringWatermark => SyncAction::StoreCache(self.pending.clone()),
            SyncPhase::Done => SyncAction::Finish(self.pending.clone()),
        }
    }

    fn fall_back(&mut self)
        ensures
            final(self)@ == fall_back(old(self)@),
    {
        self.phase = SyncPhase::StoringWatermark;
        self.pending = self.watermark.clone();
    }

    /// Takes the outcome of the pending action and returns the next action.
    pub fn step(&mut self, event: SyncEvent) -> (a: SyncAction)
        ensures
            final(self)@ == session_next(old(self)@, event),
            a@ == pending_action(final(self)@),
    {
        match event {
            SyncEvent::CacheRead(r) => {
                if self.phase == SyncPhase::ReadingCache {
                    let w = match r {
                        Ok(v) => v,
                        Err(_) => String::new(),
                    };
                    self.phase = SyncPhase::Fetching;
                    self.pending = w.clone();
                    self.watermark = w;
                }
            },
            SyncEvent::Fetched(r) => {
                if self.phase == SyncPhase::Fetching {
                    match r {
                        Ok(logs) => {
                            if logs.len() == 0 {
                                self.fall_back();
                            } else {
                                let nr = NewRelic::new();
                                let latest = nr.find_latest(&logs);
                                match utc_date_of(latest.timestamp) {
                                    Some(d) => {
                                        self.phase = SyncPhase::ChoosingFile;
                                        self.pending = nr.to_watermark(&latest);
                                        self.date = d;
                                        self.suffix = 0;
                                        self.content = records_to_text(&logs);
                                    },
                                    None => self.fall_back(),
                                }
                            }
                        },
                        Err(_) => self.fall_back(),
                    }
                }
            },
            SyncEvent::Probed { present, line_count } => {
                if self.phase == SyncPhase::ChoosingFile {
                    if can_append_file(present, line_count) {
                        self.phase = SyncPhase::Writing;
                    } else if self.suffix < u64::MAX {
                        self.suffix = self.suffix + 1;
                    } else {
                        self.fall_back();
                    }
                }
            },
            SyncEvent::Written(r) => {
                if self.phase == SyncPhase::Writing {
                    match r {
                        Ok(_) => self.phase = SyncPhase::StoringWatermark,
                        Err(_) => self.fall_back(),
                    }
                }
            },
            SyncEvent::CacheStored(_) => {
                if self.phase == SyncPhase::StoringWatermark {
                    self.phase = SyncPhase::Done;
                }
            },
        }
        self.action()
    }
}


/// The state after handing `events`, in order, to a session in state `s`.
pub open spec fn run(s: SessionView, events: Seq<SyncEvent>) -> SessionView
    decreases events.len(),
{
    if events.len() == 0 {
        s
    } else {
        session_next(run(s, events.drop_last()), events.last())
    }
}

/// Whether `e` is a fetch that returned at least one record.
pub open spec fn fetches_records(e: SyncEvent) -> bool {
    e matches SyncEvent::Fetched(Ok(logs)) && logs@.len() > 0
}

/// Whether some write in `events` succeeded.
pub open spec fn some_write_succeeded(events: Seq<SyncEvent>) -> bool {
    exists|k: int| 0 <= k < events.len() && #[trigger] events[k] matches SyncEvent::Written(Ok(_))
}

/// A log source that returns no records leaves a run idle: whatever else
/// happens, the run never asks for a file to be written, the watermark it
/// keeps is the one it resolved at the start, and a non-empty in-memory
/// watermark is kept as it is. Repeated runs therefore never move it.
pub proof fn lemma_empty_source_is_idle(
    in_memory: Seq<char>,
    prefix: Seq<char>,
    ext: Seq<char>,
    events: Seq<SyncEvent>,
)
    requires
        forall|k: int| 0 <= k < events.len() ==> !fetches_records(#[trigger] events[k]),
    ensures
        !(pending_action(run(start_view(in_memory, prefix, ext), events)) is WriteFile),
        run(start_view(in_memory, prefix, ext), events).pending == run(
            start_view(in_memory, prefix, ext),
            events,
        ).watermark,
        in_memory.len() > 0 ==> run(start_view(in_memory, prefix, ext), events).watermark
            == in_memory,
    decreases events.len(),
{
    let s = run(start_view(in_memory, prefix, ext), events);
    if events.len() > 0 {
        let init = events.drop_last();
        assert forall|k: int| 0 <= k < init.len() implies !fetches_records(#[trigger] init[k]) by {
            assert(init[k] == events[k]);
        }
        lemma_empty_source_is_idle(in_memory, prefix, ext, init);
        lemma_idle_phases(in_memory, prefix, ext, init);
        assert(!fetches_records(events[events.len() - 1]));
    }
    assert(s.phase != SyncPhase::ChoosingFile && s.phase != SyncPhase::Writing
        && (in_memory.len() > 0 ==> s.phase != SyncPhase::ReadingCache)) by {
        lemma_idle_phases(in_memory, prefix, ext, events);
    }
}

proof fn lemma_idle_phases(
    in_memory: Seq<char>,
    prefix: Seq<char>,
    ext: Seq<char>,
    events: Seq<SyncEvent>,
)
    requires
        forall|k: int| 0 <= k < events.len() ==> !fetches_records(#[trigger] events[k]),
    ensures
        run(start_view(in_memory, prefix, ext), events).phase != SyncPhase::ChoosingFile,
        run(start_view(in_memory, prefix, ext), events).phase != SyncPhase::Writing,
        in_memory.len() > 0 ==> run(start_view(in_memory, prefix, ext), events).phase
            != SyncPhase::ReadingCache,
    decreases events.len(),
{
    if events.len() > 0 {
        let init = events.drop_last();
        assert forall|k: int| 0 <= k < init.len() implies !fetches_records(#[trigger] init[k]) by {
            assert(init[k] == events[k]);
        }
        lemma_idle_phases(in_memory, prefix, ext, init);
        assert(!fetches_records(events[events.len() - 1]));
    }
}

/// What a run keeps once the source has answered. The watermark it started
/// from never changes; the one it keeps is either that watermark or the
/// batch's newest timestamp plus one millisecond, and the latter only after
/// a write succeeded. In particular a run in which every write fails keeps
/// the watermark it started from, whatever the batch held.
pub proof fn lemma_watermark_outcome(
    s: SessionView,
    fetched: Result<Vec<NewRelicLogItem>, FetchError>,
    events: Seq<SyncEvent>,
)
    requires
        s.phase == SyncPhase::Fetching,
    ensures
        run(session_next(s, SyncEvent::Fetched(fetched)), events).watermark == s.watermark,
        run(session_next(s, SyncEvent::Fetched(fetched)), events).pending == s.watermark || (
        fetched matches Ok(logs) && logs@.len() > 0 && run(
            session_next(s, SyncEvent::Fetched(fetched)),
            events,
        ).pending == decimal_text(newest_timestamp(logs@) + 1)),
        !some_write_succeeded(events) && run(
            session_next(s, SyncEvent::Fetched(fetched)),
            events,
        ).phase == SyncPhase::Done ==> run(
            session_next(s, SyncEvent::Fetched(fetched)),
            events,
        ).pending == s.watermark,
{
    lemma_outcome_invariant(s, fetched, events);
}

/// The facts that hold after every prefix of a run past the fetch.
spec fn outcome_invariant(
    s: SessionView,
    fetched: Result<Vec<NewRelicLogItem>, FetchError>,
    t: SessionView,
    events: Seq<SyncEvent>,
) -> bool {
    let advanced = fetched matches Ok(logs) && logs@.len() > 0 && t.pending == decimal_text(
        newest_timestamp(logs@) + 1,
    );
    &&& t.watermark == s.watermark
    &&& t.phase != SyncPhase::ReadingCache && t.phase != SyncPhase::Fetching
    &&& (t.phase == SyncPhase::ChoosingFile || t.phase == SyncPhase::Writing) ==> advanced
    &&& (t.phase == SyncPhase::StoringWatermark || t.phase == SyncPhase::Done) ==> (t.pending
        == s.watermark || (advanced && some_write_succeeded(events)))
}

proof fn lemma_outcome_invariant(
    s: SessionView,
    fetched: Result<Vec<NewRelicLogItem>, FetchError>,
    events: Seq<SyncEvent>,
)
    requires
        s.phase == SyncPhase::Fetching,
    ensures
        outcome_invariant(
            s,
            fetched,
            run(session_next(s, SyncEvent::Fetched(fetched)), events),
            events,
        ),
    decreases events.len(),
{
    let s1 = session_next(s, SyncEvent::Fetched(fetched));
    if events.len() > 0 {
        let init = events.drop_last();
        lemma_outcome_invariant(s, fetched, init);
        let e = events.last();
        if some_write_succeeded(init) {
            let k = choose|k: int|
                0 <= k < init.len() && #[trigger] init[k] matches SyncEvent::Written(Ok(_));
            assert(events[k] == init[k]);
        }
        if e matches SyncEvent::Written(Ok(_)) {
            assert(events[events.len() - 1] == e);
        }
    }
}

/// A committed watermark moves forward: when the run started from the
/// watermark for time `v` and the source kept its contract (every record at
/// or after `v`), the kept watermark is the one it started from or the text
/// of a time strictly after `v`.
pub proof fn lemma_watermark_advances(
    s: SessionView,
    v: int,
    logs: Vec<NewRelicLogItem>,
    events: Seq<SyncEvent>,
)
    requires
        s.phase == SyncPhase::Fetching,
        s.watermark == decimal_text(v),
        forall|i: int| 0 <= i < logs@.len() ==> #[trigger] logs@[i].timestamp >= v,
    ensures
        run(session_next(s, SyncEvent::Fetched(Ok(logs))), events).pending == s.watermark
            || exists|m: int|
            m > v && run(session_next(s, SyncEvent::Fetched(Ok(logs))), events).pending
                == decimal_text(m),
{
    lemma_watermark_outcome(s, Ok(logs), events);
    let t = run(session_next(s, SyncEvent::Fetched(Ok(logs))), events);
    if t.pending != s.watermark {
        lemma_newest_timestamp(logs@);
        let k = choose|i: int| 0 <= i < logs@.len() && logs@[i].timestamp == newest_timestamp(logs@);
        assert(logs@[k].timestamp >= v);
        assert(t.pending == decimal_text(newest_timestamp(logs@) + 1));
    }
}

/// The watermark is an exclusive bound: the run that follows a committed
/// batch asks the source for records at or after the batch's newest
/// timestamp plus one, which every record of the batch lies before, so a
/// source that keeps its contract returns none of them again.
pub proof fn lemma_next_run_skips_batch(logs: Vec<NewRelicLogItem>, prefix: Seq<char>, ext: Seq<char>)
    requires
        logs@.len() > 0,
    ensures
        pending_action(start_view(decimal_text(newest_timestamp(logs@) + 1), prefix, ext))
            == ActionView::Fetch(decimal_text(newest_timestamp(logs@) + 1)),
        forall|i: int|
            0 <= i < logs@.len() ==> #[trigger] logs@[i].timestamp < newest_timestamp(logs@) + 1,
{
    lemma_newest_timestamp(logs@);
    lemma_decimal_text_nonempty(newest_timestamp(logs@) + 1);
}

fn owned(s: &str) -> (r: String)
    ensures
        r@ == s@,
{
    s.to_owned()
}

} // verus!
