//! Focus monitoring: snapshot data and the tick state machine.
//!
//! The platform call that looks up the focused application, the polling
//! cadence and the observer callback are the caller's business; the library
//! holds the decision logic of one tick. Each successful poll is handed to
//! [`MonitorState::handle_snapshot`], which starts a session exactly when the
//! focused bundle id differs from the previously seen one.

use vstd::prelude::*;
use vstd::string::StringExecFns;

use crate::storage::{
    ActivityLogger, LoggerModel, StorageError, logger_inv, spec_start_session,
};

verus! {

/// A snapshot of the application that currently holds input focus, captured
/// at one poll instant. It has no identity beyond its fields and is never
/// persisted itself.
#[derive(Debug, Clone)]
pub struct AppInfo {
    pub app_name: String,
    pub window_title: String,
    pub bundle_id: String,
    pub process_id: i32,
}

/// Mathematical model of an [`AppInfo`].
#[verifier::ext_equal]
pub ghost struct AppInfoModel {
    pub app_name: Seq<char>,
    pub window_title: Seq<char>,
    pub bundle_id: Seq<char>,
    pub process_id: int,
}

impl View for AppInfo {
    type V = AppInfoModel;

    open spec fn view(&self) -> AppInfoModel {
        AppInfoModel {
            app_name: self.app_name@,
            window_title: self.window_title@,
            bundle_id: self.bundle_id@,
            process_id: self.process_id as int,
        }
    }
}

impl AppInfo {
    /// A field-for-field copy whose model equals this one's.
    pub fn duplicate(&self) -> (r: AppInfo)
        ensures
            r@ == self@,
    {
        AppInfo {
            app_name: self.app_name.clone(),
            window_title: self.window_title.clone(),
            bundle_id: self.bundle_id.clone(),
            process_id: self.process_id,
        }
    }

    /// A one-line description of the snapshot.
    pub fn describe(&self) -> (r: String)
        ensures
            r@ == spec_describe_app(self@),
    {
        let mut s = String::from_str("App: ");
        s.append(self.app_name.as_str());
        s.append(" | Window: ");
        s.append(self.window_title.as_str());
        s.append(" | Bundle: ");
        s.append(self.bundle_id.as_str());
        s.append(" | PID: ");
        let pid = i32_decimal_string(self.process_id);
        s.append(pid.as_str());
        s
    }
}

/// The text [`AppInfo::describe`] returns.
pub open spec fn spec_describe_app(a: AppInfoModel) -> Seq<char> {
    "App: "@ + a.app_name + " | Window: "@ + a.window_title + " | Bundle: "@ + a.bundle_id
        + " | PID: "@ + spec_int_decimal(a.process_id)
}

/// The character of a single decimal digit.
pub open spec fn decimal_digit_char(d: nat) -> char {
    ((48 + (d % 10)) as u8) as char
}

/// The decimal digits of a non-negative number, most significant first.
pub open spec fn spec_decimal_digits(n: nat) -> Seq<char>
    decreases n,
    via spec_decimal_digits_decreases
{
    if n < 10 {
        seq![decimal_digit_char(n)]
    } else {
        spec_decimal_digits(n / 10) + seq![decimal_digit_char(n % 10)]
    }
}

#[via_fn]
proof fn spec_decimal_digits_decreases(n: nat) {
    if n >= 10 {
        assert(n / 10 < n) by (nonlinear_arith)
            requires
                n >= 10,
        ;
    }
}

/// The decimal writing of an integer: a minus sign for negative values,
/// then the digits of the magnitude.
pub open spec fn spec_int_decimal(p: int) -> Seq<char> {
    if p < 0 {
        seq!['-'] + spec_decimal_digits((-p) as nat)
    } else {
        spec_decimal_digits(p as nat)
    }
}

/// The decimal digits of `n`, most significant first.
fn decimal_digits(n: u32) -> (v: Vec<char>)
    ensures
        v@ == spec_decimal_digits(n as nat),
    decreases n,
{
    if n < 10 {
        let mut v: Vec<char> = Vec::new();
        v.push((48 + n as u8) as char);
        proof {
            assert(v@ =~= seq![decimal_digit_char(n as nat)]);
        }
        v
    } else {
        proof {
            assert(n / 10 < n) by (nonlinear_arith)
                requires
                    n >= 10,
            ;
        }
        let mut v = decimal_digits(n / 10);
        v.push((48 + (n % 10) as u8) as char);
        proof {
            assert(v@ =~= spec_decimal_digits((n / 10) as nat) + seq![
                decimal_digit_char((n % 10) as nat),
            ]);
        }
        v
    }
}

/// The decimal writing of an integer.
fn i32_decimal_string(p: i32) -> (s: String)
    ensures
        s@ == spec_int_decimal(p as int),
{
    if p < 0 {
        let magnitude: u32 = (-(p as i64)) as u32;
        let digs = decimal_digits(magnitude);
        let tail = crate::json::chars_to_string(&digs);
        let mut s = String::from_str("-");
        s.append(tail.as_str());
        proof {
            reveal_strlit("-");
            assert("-"@ =~= seq!['-']);
        }
        s
    } else {
        let digs = decimal_digits(p as u32);
        crate::json::chars_to_string(&digs)
    }
}

/// Failures of the platform focus lookup. Both are non-fatal to a monitoring
/// loop: it logs them and leaves the previously seen bundle id unchanged.
#[derive(Debug)]
pub enum MonitorError {
    /// No application holds input focus.
    NoActiveApp,
    /// The platform call itself failed, with its message.
    ApiError(String),
}

impl MonitorError {
    /// A one-line description of the failure.
    pub fn describe(&self) -> (r: String)
        ensures
            r@ == spec_describe_monitor_error(self),
    {
        match self {
            MonitorError::NoActiveApp => String::from_str("No Active Application found"),
            MonitorError::ApiError(msg) => {
                let mut s = String::from_str("API error: ");
                s.append(msg.as_str());
                s
            },
        }
    }
}

/// The text [`MonitorError::describe`] returns.
pub open spec fn spec_describe_monitor_error(e: &MonitorError) -> Seq<char> {
    match e {
        MonitorError::NoActiveApp => "No Active Application found"@,
        MonitorError::ApiError(msg) => "API error: "@ + msg@,
    }
}

/// Polling configuration. All intervals are milliseconds.
#[derive(Debug, Clone)]
pub struct MonitorConfig {
    /// Time between two focus polls.
    pub poll_interval_ms: u64,
    /// Budget given to the platform's event pump on each tick.
    pub runloop_timeout_ms: u64,
}

impl Default for MonitorConfig {
    /// One poll a second, a tenth of a second of event pumping.
    fn default() -> (r: Self)
        ensures
            r.poll_interval_ms == 1000,
            r.runloop_timeout_ms == 100,
    {
        MonitorConfig { poll_interval_ms: 1000, runloop_timeout_ms: 100 }
    }
}

/// Mathematical model of a [`MonitorState`].
#[verifier::ext_equal]
pub ghost struct MonitorModel {
    pub last_application: Option<AppInfoModel>,
}

/// Whether a tick seeing `app` must start a new session: true on the first
/// snapshot ever seen and whenever the bundle id differs from the last one.
pub open spec fn bundle_changed(m: MonitorModel, app: AppInfoModel) -> bool {
    match m.last_application {
        None => true,
        Some(last) => last.bundle_id != app.bundle_id,
    }
}

/// One monitor tick over the models: on a bundle change the store performs
/// `StartSession` at `now_ms` and the snapshot is remembered; otherwise
/// nothing changes.
pub open spec fn spec_tick(
    m: MonitorModel,
    l: LoggerModel,
    app: AppInfoModel,
    now_ms: int,
) -> (MonitorModel, LoggerModel) {
    if bundle_changed(m, app) {
        (
            MonitorModel { last_application: Some(app) },
            spec_start_session(l, app, now_ms),
        )
    } else {
        (m, l)
    }
}

/// The change-detection state of a monitoring loop: the most recently seen
/// snapshot, if any.
pub struct MonitorState {
    last_application: Option<AppInfo>,
}

impl View for MonitorState {
    type V = MonitorModel;

    closed spec fn view(&self) -> MonitorModel {
        MonitorModel {
            last_application: match self.last_application {
                Some(ref a) => Some(a@),
                None => None,
            },
        }
    }
}

impl MonitorState {
    /// A monitor that has not seen any snapshot yet.
    pub fn new() -> (r: Self)
        ensures
            r@.last_application is None,
    {
        MonitorState { last_application: None }
    }

    /// One tick after a successful focus lookup, at instant `now_ms`: starts
    /// a session — closing any open one first — exactly when the bundle id
    /// differs from the previously seen one, and then remembers the snapshot.
    /// Returns the id of the session it started, if it started one.
    pub fn handle_snapshot_at(
        &mut self,
        logger: &mut ActivityLogger,
        app: &AppInfo,
        now_ms: i64,
    ) -> (r: Result<Option<i64>, StorageError>)
        requires
            logger_inv(old(logger)@),
            old(logger)@.sessions.len() + 1 <= i64::MAX,
        ensures
            logger_inv(final(logger)@),
            (final(self)@, final(logger)@) == spec_tick(
                old(self)@,
                old(logger)@,
                app@,
                now_ms as int,
            ),
            bundle_changed(old(self)@, app@) ==> (r matches Ok(Some(id)) && id as int == old(
                logger,
            )@.sessions.len() + 1),
            !bundle_changed(old(self)@, app@) ==> (r matches Ok(None) && *final(self) == *old(self)
                && *final(logger) == *old(logger)),
    {
        let changed: bool = match &self.last_application {
            None => true,
            Some(last) => !(last.bundle_id == app.bundle_id),
        };
        if changed {
            let id = logger.start_session_at(app, now_ms)?;
            self.last_application = Some(app.duplicate());
            Ok(Some(id))
        } else {
            Ok(None)
        }
    }

    /// One tick after a successful focus lookup, at the current wall-clock
    /// instant. The instant comes from the system clock, so the new state is
    /// pinned only up to that instant.
    pub fn handle_snapshot(
        &mut self,
        logger: &mut ActivityLogger,
        app: &AppInfo,
    ) -> (r: Result<Option<i64>, StorageError>)
        requires
            logger_inv(old(logger)@),
            old(logger)@.sessions.len() + 1 <= i64::MAX,
        ensures
            logger_inv(final(logger)@),
            exists|t: int|
                (final(self)@, final(logger)@) == spec_tick(old(self)@, old(logger)@, app@, t),
            bundle_changed(old(self)@, app@) ==> (r matches Ok(Some(id)) && id as int == old(
                logger,
            )@.sessions.len() + 1),
            !bundle_changed(old(self)@, app@) ==> (r matches Ok(None) && *final(self) == *old(self)
                && *final(logger) == *old(logger)),
    {
        let now_ms: i64 = crate::storage::now_unix_millis();
        let r = self.handle_snapshot_at(logger, app, now_ms);
        proof {
            assert((self@, logger@) == spec_tick(old(self)@, old(logger)@, app@, now_ms as int));
        }
        r
    }
}

/// Two consecutive polls that see the same bundle id never create a second
/// session: when the first tick starts one, the second tick changes nothing,
/// so `StartSession` runs exactly once across the pair; and when the bundle
/// id was already the tracked one, neither tick changes anything.
pub proof fn lemma_same_bundle_no_second_session(
    m: MonitorModel,
    l: LoggerModel,
    a1: AppInfoModel,
    a2: AppInfoModel,
    t1: int,
    t2: int,
)
    requires
        logger_inv(l),
        a1.bundle_id == a2.bundle_id,
    ensures
        ({
            let (m1, l1) = spec_tick(m, l, a1, t1);
            let (m2, l2) = spec_tick(m1, l1, a2, t2);
            &&& m2 == m1 && l2 == l1
            &&& bundle_changed(m, a1) ==> l1.sessions.len() == l.sessions.len() + 1
            &&& !bundle_changed(m, a1) ==> l1 == l
        }),
{
}

/// For a snapshot stream whose bundle ids run `b1, b2, b2, b3, b3, b3` over a
/// fresh monitor and store, exactly three sessions are created; each is
/// closed before the next opens, every session's end instant is at most the
/// next one's start instant, and the last session is still open.
pub proof fn lemma_three_sessions(
    m0: MonitorModel,
    l0: LoggerModel,
    a1: AppInfoModel,
    a2: AppInfoModel,
    a3: AppInfoModel,
    a4: AppInfoModel,
    a5: AppInfoModel,
    a6: AppInfoModel,
    t1: int,
    t2: int,
    t3: int,
    t4: int,
    t5: int,
    t6: int,
)
    requires
        m0.last_application is None,
        l0.sessions.len() == 0,
        l0.open is None,
        logger_inv(l0),
        a1.bundle_id != a2.bundle_id,
        a2.bundle_id == a3.bundle_id,
        a3.bundle_id != a4.bundle_id,
        a4.bundle_id == a5.bundle_id,
        a5.bundle_id == a6.bundle_id,
    ensures
        ({
            let (m1, l1) = spec_tick(m0, l0, a1, t1);
            let (m2, l2) = spec_tick(m1, l1, a2, t2);
            let (m3, l3) = spec_tick(m2, l2, a3, t3);
            let (m4, l4) = spec_tick(m3, l3, a4, t4);
            let (m5, l5) = spec_tick(m4, l4, a5, t5);
            let (m6, l6) = spec_tick(m5, l5, a6, t6);
            &&& l6.sessions.len() == 3
            &&& l6.sessions[0].bundle_id == a1.bundle_id
            &&& l6.sessions[1].bundle_id == a2.bundle_id
            &&& l6.sessions[2].bundle_id == a4.bundle_id
            &&& l6.sessions[0].end_time_ms == Some(t2)
            &&& l6.sessions[1].end_time_ms == Some(t4)
            &&& l6.sessions[2].end_time_ms is None
            &&& l6.open == Some(3int)
            &&& l6.sessions[0].end_time_ms->0 <= l6.sessions[1].start_time_ms
            &&& l6.sessions[1].end_time_ms->0 <= l6.sessions[2].start_time_ms
        }),
{
    let (m1, l1) = spec_tick(m0, l0, a1, t1);
    let (m2, l2) = spec_tick(m1, l1, a2, t2);
    let (m3, l3) = spec_tick(m2, l2, a3, t3);
    let (m4, l4) = spec_tick(m3, l3, a4, t4);
    let (m5, l5) = spec_tick(m4, l4, a5, t5);
    let (m6, l6) = spec_tick(m5, l5, a6, t6);
    assert(l1.sessions.len() == 1);
    assert(l2.sessions.len() == 2);
    assert(l3 == l2 && m3 == m2);
    assert(l4.sessions.len() == 3);
    assert(l5 == l4 && m5 == m4);
    assert(l6 == l4 && m6 == m4);
    assert(l6.sessions[0].end_time_ms == Some(t2));
    assert(l6.sessions[1].start_time_ms == t2);
    assert(l6.sessions[1].end_time_ms == Some(t4));
    assert(l6.sessions[2].start_time_ms == t4);
}

} // verus!
