//! The session store: a state machine that turns focus snapshots into
//! non-overlapping, time-bounded activity sessions.
//!
//! [`ActivityLogger`] owns the single-open-session invariant and the model of
//! the persisted session table. It is deliberately free of I/O: callers that
//! mirror the records into a relational store drive this type first and copy
//! out whatever changed. Instants are unix epoch milliseconds; durations are
//! whole seconds, rounded down, and clamped to zero when the clock moved
//! backward between the start and the end of a session (the clamp is this
//! library's documented policy for backward clock jumps).

use vstd::prelude::*;
use vstd::string::StringExecFns;

use crate::monitor::{AppInfo, AppInfoModel};

verus! {

/// One record of continuous focus on a single application.
///
/// `end_time_ms` and `duration_seconds` are absent while the session is open;
/// both are written exactly once, when the session closes. A session's
/// `bundle_id` never changes after creation.
#[derive(Debug, Clone)]
pub struct ActivitySession {
    /// Store-assigned identifier; the `k`-th session of a store has id `k + 1`.
    pub id: i64,
    pub application_name: String,
    pub bundle_id: String,
    pub window_title: String,
    pub process_id: i32,
    /// Start instant, unix epoch milliseconds.
    pub start_time_ms: i64,
    /// End instant, unix epoch milliseconds; `None` while the session is open.
    pub end_time_ms: Option<i64>,
    /// Whole seconds from start to end, rounded down, never negative;
    /// `None` while the session is open.
    pub duration_seconds: Option<i64>,
}

/// Mathematical model of an [`ActivitySession`].
#[verifier::ext_equal]
pub ghost struct SessionModel {
    pub id: int,
    pub application_name: Seq<char>,
    pub bundle_id: Seq<char>,
    pub window_title: Seq<char>,
    pub process_id: int,
    pub start_time_ms: int,
    pub end_time_ms: Option<int>,
    pub duration_seconds: Option<int>,
}

impl View for ActivitySession {
    type V = SessionModel;

    open spec fn view(&self) -> SessionModel {
        SessionModel {
            id: self.id as int,
            application_name: self.application_name@,
            bundle_id: self.bundle_id@,
            window_title: self.window_title@,
            process_id: self.process_id as int,
            start_time_ms: self.start_time_ms as int,
            end_time_ms: match self.end_time_ms {
                Some(t) => Some(t as int),
                None => None,
            },
            duration_seconds: match self.duration_seconds {
                Some(d) => Some(d as int),
                None => None,
            },
        }
    }
}

/// Failures surfaced by the session store.
#[derive(Debug)]
pub enum StorageError {
    /// The backing store is unavailable or rejected an operation. The verified
    /// store never produces it; callers that mirror sessions into a relational
    /// store map their transport failures to this variant.
    DatabaseError(String),
    /// `end_session` was called while no session was open.
    SessionNotFound,
}

impl StorageError {
    /// A one-line description of the failure.
    pub fn describe(&self) -> (r: String)
        ensures
            r@ == spec_describe_storage_error(self),
    {
        match self {
            StorageError::DatabaseError(err) => {
                let mut s = String::from_str("Database error: ");
                s.append(err.as_str());
                s
            },
            StorageError::SessionNotFound => String::from_str("Session not found"),
        }
    }
}

/// The text [`StorageError::describe`] returns.
pub open spec fn spec_describe_storage_error(e: &StorageError) -> Seq<char> {
    match e {
        StorageError::DatabaseError(err) => "Database error: "@ + err@,
        StorageError::SessionNotFound => "Session not found"@,
    }
}

/// Mathematical model of an [`ActivityLogger`]: the persisted records and the
/// id of the currently open session, if any.
#[verifier::ext_equal]
pub ghost struct LoggerModel {
    pub sessions: Seq<SessionModel>,
    pub open: Option<int>,
}

/// Duration in whole seconds between two instants, rounded down and clamped
/// to zero when `now_ms` lies before `start_ms` (backward clock jump).
pub open spec fn spec_duration_seconds(start_ms: int, now_ms: int) -> int {
    if now_ms >= start_ms {
        (now_ms - start_ms) / 1000
    } else {
        0
    }
}

/// A closed copy of `s`: end instant `now_ms`, duration computed once.
pub open spec fn spec_close_session(s: SessionModel, now_ms: int) -> SessionModel {
    SessionModel {
        end_time_ms: Some(now_ms),
        duration_seconds: Some(spec_duration_seconds(s.start_time_ms, now_ms)),
        ..s
    }
}

/// The store after the `EndSession` procedure: the open session, if any, is
/// closed at `now_ms` and the open marker is cleared; otherwise unchanged.
pub open spec fn spec_close_open(l: LoggerModel, now_ms: int) -> LoggerModel {
    match l.open {
        Some(id) => LoggerModel {
            sessions: l.sessions.update(id - 1, spec_close_session(l.sessions[id - 1], now_ms)),
            open: None,
        },
        None => l,
    }
}

/// A fresh open session built from a snapshot.
pub open spec fn spec_session_from(app: AppInfoModel, id: int, now_ms: int) -> SessionModel {
    SessionModel {
        id: id,
        application_name: app.app_name,
        bundle_id: app.bundle_id,
        window_title: app.window_title,
        process_id: app.process_id,
        start_time_ms: now_ms,
        end_time_ms: None,
        duration_seconds: None,
    }
}

/// The store after the `StartSession` procedure: any open session is closed
/// first (cascading close), then a fresh open record is appended and marked
/// open.
pub open spec fn spec_start_session(l: LoggerModel, app: AppInfoModel, now_ms: int) -> LoggerModel {
    let closed = spec_close_open(l, now_ms);
    let id = closed.sessions.len() as int + 1;
    LoggerModel {
        sessions: closed.sessions.push(spec_session_from(app, id, now_ms)),
        open: Some(id),
    }
}

/// A record that has been closed: its end instant is present and its duration
/// was computed, once, from its own start and end instants.
pub open spec fn session_closed(s: SessionModel) -> bool {
    &&& s.end_time_ms is Some
    &&& s.duration_seconds == Some(spec_duration_seconds(s.start_time_ms, s.end_time_ms->0))
}

/// Well-formedness of a store: ids are dense starting at 1, and at most one
/// session — the one the open marker names — has an absent end time.
pub open spec fn logger_inv(l: LoggerModel) -> bool {
    &&& forall|k: int|
        0 <= k < l.sessions.len() ==> (#[trigger] l.sessions[k]).id == k + 1
    &&& match l.open {
        Some(id) => {
            &&& id == l.sessions.len()
            &&& 1 <= id
            &&& l.sessions[id - 1].end_time_ms is None
            &&& l.sessions[id - 1].duration_seconds is None
            &&& forall|k: int|
                0 <= k < l.sessions.len() && k != id - 1 ==> session_closed(
                    #[trigger] l.sessions[k],
                )
        },
        None => forall|k: int| 0 <= k < l.sessions.len() ==> session_closed(#[trigger] l.sessions[k]),
    }
}

/// Computed session durations are never negative.
pub proof fn lemma_duration_nonneg(start_ms: int, now_ms: int)
    ensures
        spec_duration_seconds(start_ms, now_ms) >= 0,
{
    if now_ms >= start_ms {
        assert((now_ms - start_ms) / 1000 >= 0) by (nonlinear_arith)
            requires
                now_ms - start_ms >= 0,
        ;
    }
}

/// Relies on chrono's `Utc::now` for the current wall-clock instant, as unix
/// epoch milliseconds. Nothing is promised of the value: the clock may move
/// arbitrarily between calls. Caveat: `Utc::now` itself aborts on a system
/// whose clock is set before the unix epoch, so on such a machine the
/// clock-reading store operations abort here rather than return.
#[verifier::external_body]
pub(crate) fn now_unix_millis() -> i64 {
    chrono::Utc::now().timestamp_millis()
}

/// The session store. It enforces the single-open-session rule and holds the
/// model of every record a mirroring caller is expected to persist.
pub struct ActivityLogger {
    sessions: Vec<ActivitySession>,
    current_session_id: Option<i64>,
}

impl View for ActivityLogger {
    type V = LoggerModel;

    closed spec fn view(&self) -> LoggerModel {
        LoggerModel {
            sessions: Seq::new(self.sessions@.len(), |i: int| self.sessions@[i]@),
            open: match self.current_session_id {
                Some(id) => Some(id as int),
                None => None,
            },
        }
    }
}

impl ActivityLogger {
    /// A store with no sessions and nothing open.
    pub fn new() -> (r: Self)
        ensures
            r@.sessions.len() == 0,
            r@.open is None,
            logger_inv(r@),
    {
        ActivityLogger { sessions: Vec::new(), current_session_id: None }
    }

    /// Number of sessions ever created by this store.
    pub fn session_count(&self) -> (n: usize)
        ensures
            n == self@.sessions.len(),
    {
        self.sessions.len()
    }

    /// Id of the currently open session, if any.
    pub fn open_session_id(&self) -> (r: Option<i64>)
        ensures
            match r {
                Some(id) => self@.open == Some(id as int),
                None => self@.open is None,
            },
    {
        self.current_session_id
    }

    /// The `ix`-th session record (sessions are ordered by creation).
    pub fn get_session(&self, ix: usize) -> (r: Option<&ActivitySession>)
        ensures
            match r {
                Some(s) => ix < self@.sessions.len() && s@ == self@.sessions[ix as int],
                None => ix >= self@.sessions.len(),
            },
    {
        if ix < self.sessions.len() {
            Some(&self.sessions[ix])
        } else {
            None
        }
    }

    /// Opens a session for `app_info` at instant `now_ms`. If a session is
    /// still open it is closed first, at the same instant, so the closed
    /// record's end never exceeds the new record's start. Returns the new
    /// session's id.
    pub fn start_session_at(&mut self, app_info: &AppInfo, now_ms: i64) -> (r: Result<
        i64,
        StorageError,
    >)
        requires
            logger_inv(old(self)@),
            old(self)@.sessions.len() + 1 <= i64::MAX,
        ensures
            logger_inv(final(self)@),
            final(self)@ == spec_start_session(old(self)@, app_info@, now_ms as int),
            r matches Ok(id) && id as int == old(self)@.sessions.len() + 1,
    {
        if self.current_session_id.is_some() {
            self.end_session_at(now_ms)?;
        }
        let n: usize = self.sessions.len();
        let id: i64 = n as i64 + 1;
        let session = ActivitySession {
            id: id,
            application_name: app_info.app_name.clone(),
            bundle_id: app_info.bundle_id.clone(),
            window_title: app_info.window_title.clone(),
            process_id: app_info.process_id,
            start_time_ms: now_ms,
            end_time_ms: None,
            duration_seconds: None,
        };
        self.sessions.push(session);
        self.current_session_id = Some(id);
        proof {
            assert(self@.sessions =~= spec_start_session(
                old(self)@,
                app_info@,
                now_ms as int,
            ).sessions);
            assert(self@ =~= spec_start_session(old(self)@, app_info@, now_ms as int));
        }
        Ok(id)
    }

    /// Closes the open session at instant `now_ms`, writing its end instant
    /// and its duration in whole seconds (rounded down, clamped to zero on a
    /// backward clock jump), and clears the open marker. Fails with
    /// [`StorageError::SessionNotFound`], leaving the store unchanged, exactly
    /// when no session is open.
    pub fn end_session_at(&mut self, now_ms: i64) -> (r: Result<(), StorageError>)
        requires
            logger_inv(old(self)@),
        ensures
            logger_inv(final(self)@),
            final(self)@ == spec_close_open(old(self)@, now_ms as int),
            old(self)@.open is None ==> (r matches Err(StorageError::SessionNotFound)
                && *final(self) == *old(self)),
            old(self)@.open is Some ==> r is Ok,
    {
        let session_id = match self.current_session_id {
            Some(id) => id,
            None => {
                return Err(StorageError::SessionNotFound);
            },
        };
        proof {
            assert(session_id as int == self@.sessions.len());
        }
        let ix: usize = self.sessions.len() - 1;
        let start_ms: i64 = self.sessions[ix].start_time_ms;
        let duration: i64 = if now_ms >= start_ms {
            let diff: u128 = (now_ms as i128 - start_ms as i128) as u128;
            proof {
                assert(diff / 1000 < 0x8000_0000_0000_0000) by (nonlinear_arith)
                    requires
                        diff <= 0xffff_ffff_ffff_ffff,
                ;
            }
            (diff / 1000) as i64
        } else {
            0
        };
        let closed = ActivitySession {
            id: self.sessions[ix].id,
            application_name: self.sessions[ix].application_name.clone(),
            bundle_id: self.sessions[ix].bundle_id.clone(),
            window_title: self.sessions[ix].window_title.clone(),
            process_id: self.sessions[ix].process_id,
            start_time_ms: self.sessions[ix].start_time_ms,
            end_time_ms: Some(now_ms),
            duration_seconds: Some(duration),
        };
        proof {
            assert(closed@ =~= spec_close_session(
                old(self)@.sessions[session_id as int - 1],
                now_ms as int,
            ));
        }
        self.sessions[ix] = closed;
        self.current_session_id = None;
        proof {
            assert(self@.sessions =~= spec_close_open(old(self)@, now_ms as int).sessions);
            assert(self@ =~= spec_close_open(old(self)@, now_ms as int));
        }
        Ok(())
    }

    /// Opens a session for `app_info` at the current wall-clock instant,
    /// closing any still-open session first. The instant comes from the
    /// system clock, so the new state is pinned only up to that instant.
    pub fn start_session(&mut self, app_info: &AppInfo) -> (r: Result<i64, StorageError>)
        requires
            logger_inv(old(self)@),
            old(self)@.sessions.len() + 1 <= i64::MAX,
        ensures
            logger_inv(final(self)@),
            exists|t: int| final(self)@ == spec_start_session(old(self)@, app_info@, t),
            r matches Ok(id) && id as int == old(self)@.sessions.len() + 1,
    {
        let now_ms: i64 = now_unix_millis();
        let r = self.start_session_at(app_info, now_ms);
        proof {
            assert(self@ == spec_start_session(old(self)@, app_info@, now_ms as int));
        }
        r
    }

    /// Closes the open session at the current wall-clock instant. Fails with
    /// [`StorageError::SessionNotFound`], leaving the store unchanged, exactly
    /// when no session is open.
    pub fn end_session(&mut self) -> (r: Result<(), StorageError>)
        requires
            logger_inv(old(self)@),
        ensures
            logger_inv(final(self)@),
            exists|t: int| final(self)@ == spec_close_open(old(self)@, t),
            old(self)@.open is None ==> (r matches Err(StorageError::SessionNotFound)
                && *final(self) == *old(self)),
            old(self)@.open is Some ==> r is Ok,
    {
        let now_ms: i64 = now_unix_millis();
        let r = self.end_session_at(now_ms);
        proof {
            assert(self@ == spec_close_open(old(self)@, now_ms as int));
        }
        r
    }
}

/// After a session is started at `t1` and the store is closed at `t2`, the
/// new record is closed with end instant `t2` and its duration is the elapsed
/// time in whole seconds, rounded down, never negative.
pub proof fn lemma_start_end_duration(l: LoggerModel, app: AppInfoModel, t1: int, t2: int)
    requires
        logger_inv(l),
    ensures
        ({
            let l1 = spec_start_session(l, app, t1);
            let l2 = spec_close_open(l1, t2);
            let s = l2.sessions[l2.sessions.len() - 1];
            &&& l2.sessions.len() == spec_close_open(l, t1).sessions.len() + 1
            &&& s.bundle_id == app.bundle_id
            &&& s.start_time_ms == t1
            &&& s.end_time_ms == Some(t2)
            &&& s.duration_seconds == Some(spec_duration_seconds(t1, t2))
            &&& t2 >= t1 ==> s.duration_seconds == Some((t2 - t1) / 1000)
            &&& s.duration_seconds->0 >= 0
        }),
{
    lemma_duration_nonneg(t1, t2);
}

} // verus!
