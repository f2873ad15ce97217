//! State of the resident sign-in process: the schedule it holds, the wake-up it
//! waits for, and its decisions on each event. Each decision that needs outside
//! work (a refresh or a sign-in attempt) is returned as an [`Action`] that the
//! caller performs, feeding the outcome back through [`App::apply`].

use vstd::prelude::*;
use crate::model::{AuthSession, Course, SignResult};
use crate::schedule::{
    clock_hm, clock_hms, event_text, has_showable_index, hint_of, is_datetime, is_first_unfinished,
    is_next_wakeup, leads_in_range, push_clock_hm, push_clock_hms, spec_next_maintenance, timeline_of,
    sign_timestamp, windows_fit, EventKind, Timeline, Wakeup, SIGN_RETRY_INTERVAL_MS,
};
use crate::upstream::SIGN_TIMESTAMP_BUFFER_MS;
use crate::text::{decimal, push_decimal, push_str, str_eq};

verus! {

/// The per-course notes of the sign-in process, keyed by course id.
#[derive(Debug, Clone)]
pub struct SignNotes {
    entries: Vec<(String, String)>,
}

/// The notes held by `es`: a later entry overrides an earlier one of the same key.
pub open spec fn notes_map(es: Seq<(String, String)>) -> Map<Seq<char>, Seq<char>>
    decreases es.len(),
{
    if es.len() == 0 {
        Map::empty()
    } else {
        notes_map(es.drop_last()).insert(es.last().0@, es.last().1@)
    }
}

/// `es` without the entries of key `k`.
pub open spec fn without_key(es: Seq<(String, String)>, k: Seq<char>) -> Seq<(String, String)>
    decreases es.len(),
{
    if es.len() == 0 {
        es
    } else if es.last().0@ == k {
        without_key(es.drop_last(), k)
    } else {
        without_key(es.drop_last(), k).push(es.last())
    }
}

proof fn lemma_without_key(es: Seq<(String, String)>, k: Seq<char>)
    ensures
        notes_map(without_key(es, k)) =~= notes_map(es).remove(k),
    decreases es.len(),
{
    if es.len() > 0 {
        lemma_without_key(es.drop_last(), k);
        if es.last().0@ != k {
            let w = without_key(es.drop_last(), k).push(es.last());
            assert(w.drop_last() =~= without_key(es.drop_last(), k));
        }
    }
}

proof fn lemma_notes_lookup(es: Seq<(String, String)>, k: Seq<char>, j: int)
    requires
        0 <= j < es.len(),
        es[j].0@ == k,
        forall|i: int| j < i < es.len() ==> es[i].0@ != k,
    ensures
        notes_map(es).contains_key(k),
        notes_map(es)[k] == es[j].1@,
    decreases es.len(),
{
    if j < es.len() - 1 {
        assert forall|i: int| j < i < es.drop_last().len() implies es.drop_last()[i].0@ != k by {
            assert(es.drop_last()[i] == es[i]);
        }
        lemma_notes_lookup(es.drop_last(), k, j);
    }
}

proof fn lemma_notes_absent(es: Seq<(String, String)>, k: Seq<char>)
    requires
        forall|i: int| 0 <= i < es.len() ==> es[i].0@ != k,
    ensures
        !notes_map(es).contains_key(k),
    decreases es.len(),
{
    if es.len() > 0 {
        assert forall|i: int| 0 <= i < es.drop_last().len() implies es.drop_last()[i].0@ != k by {
            assert(es.drop_last()[i] == es[i]);
        }
        lemma_notes_absent(es.drop_last(), k);
    }
}

impl View for SignNotes {
    type V = Map<Seq<char>, Seq<char>>;

    closed spec fn view(&self) -> Map<Seq<char>, Seq<char>> {
        notes_map(self.entries@)
    }
}

impl SignNotes {
    /// No notes.
    pub fn new() -> (n: SignNotes)
        ensures
            n@ == Map::<Seq<char>, Seq<char>>::empty(),
    {
        SignNotes { entries: Vec::new() }
    }

    /// The note of `key`, if any.
    pub fn get(&self, key: &str) -> (r: Option<&str>)
        ensures
            r is Some <==> self@.contains_key(key@),
            r matches Some(v) ==> v@ == self@[key@],
    {
        let mut j: usize = self.entries.len();
        while j > 0
            invariant
                j <= self.entries@.len(),
                forall|i: int| j <= i < self.entries@.len() ==> self.entries@[i].0@ != key@,
            decreases j,
        {
            if str_eq(self.entries[j - 1].0.as_str(), key) {
                proof {
                    lemma_notes_lookup(self.entries@, key@, j - 1);
                }
                return Some(self.entries[j - 1].1.as_str());
            }
            j -= 1;
        }
        proof {
            lemma_notes_absent(self.entries@, key@);
        }
        None
    }

    /// Removes the note of `key`.
    pub fn remove(&mut self, key: &str)
        ensures
            final(self)@ == old(self)@.remove(key@),
    {
        let mut kept: Vec<(String, String)> = Vec::new();
        let mut i: usize = 0;
        assert(self.entries@.take(0) =~= Seq::<(String, String)>::empty());
        while i < self.entries.len()
            invariant
                i <= self.entries@.len(),
                kept@ == without_key(self.entries@.take(i as int), key@),
            decreases self.entries.len() - i,
        {
            assert(self.entries@.take(i + 1).drop_last() =~= self.entries@.take(i as int));
            if !str_eq(self.entries[i].0.as_str(), key) {
                let e = (self.entries[i].0.clone(), self.entries[i].1.clone());
                assert(e == self.entries@[i as int]);
                kept.push(e);
            }
            i += 1;
        }
        assert(self.entries@.take(self.entries@.len() as int) =~= self.entries@);
        proof {
            lemma_without_key(self.entries@, key@);
        }
        self.entries = kept;
    }

    /// Sets the note of `key` to `value`.
    pub fn insert(&mut self, key: String, value: String)
        ensures
            final(self)@ == old(self)@.insert(key@, value@),
    {
        self.remove(key.as_str());
        let ghost before = self.entries@;
        self.entries.push((key, value));
        assert(self.entries@.drop_last() =~= before);
        assert(notes_map(self.entries@) =~= old(self)@.remove(key@).insert(key@, value@));
    }
}

/// The outcome of a background task, fed back to the process.
pub enum RefreshMsg {
    /// The refresh succeeded with this schedule.
    Refreshed(Vec<Course>),
    /// The refresh failed with this description.
    Failed(String),
    /// A sign-in attempt ended.
    Sign(SignMsg),
}

/// The outcome of one sign-in attempt.
#[derive(Debug, Clone)]
pub struct SignMsg {
    /// The course's index in the timeline (after ordering).
    pub idx: usize,
    /// The course id (`courseSchedId`); notes are keyed by it, so a reordering cannot misplace them.
    pub course_id: String,
    /// Description.
    pub text: String,
    /// Whether the sign-in succeeded.
    pub signed: bool,
    /// Whether the attempt is still worth retrying (not given up).
    pub retrying: bool,
}

/// The phase of the event-driven scheduler.
#[derive(Debug, Clone, Copy, PartialEq, Eq, Structural)]
pub enum SchedulerPhase {
    /// Ready: waiting for the next wake-up.
    Idle,
    /// A wake-up has come and its task runs.
    Running,
}

impl SchedulerPhase {
    /// The phase as shown to the user.
    pub fn text(&self) -> (r: String)
        ensures
            *self == SchedulerPhase::Idle ==> r@ == "休眠中"@,
            *self == SchedulerPhase::Running ==> r@ == "执行中"@,
    {
        match self {
            SchedulerPhase::Idle => "休眠中".to_owned(),
            SchedulerPhase::Running => "执行中".to_owned(),
        }
    }
}

/// The outcome of a complete sign-in attempt (login, server time, sign-in).
#[derive(Debug, Clone)]
pub struct SignAttemptResult {
    pub message: String,
    pub signed: bool,
    pub retrying: bool,
}

/// Whether `r` is what the upstream outcome `result` of an attempt means: a
/// successful sign-in is done; a refused sign-in or a failed exchange is to be retried.
pub open spec fn attempt_outcome_is(result: Result<SignResult, String>, r: SignAttemptResult) -> bool {
    match result {
        Ok(s) => if s.success {
            r.message@ == "签到成功（记录 "@ + s.stu_sign_id@ && r.signed && !r.retrying
        } else {
            r.message@ == s.message@ && !r.signed && r.retrying
        },
        Err(e) => r.message@ == e@ && !r.signed && r.retrying,
    }
}

/// What an attempt's upstream outcome means: a successful sign-in is done; a
/// refused sign-in or a failed exchange is to be retried.
pub fn sign_attempt_outcome(result: Result<SignResult, String>) -> (r: SignAttemptResult)
    ensures
        attempt_outcome_is(result, r),
{
    match result {
        Ok(s) => {
            if s.success {
                let mut message = String::new();
                push_str(&mut message, "签到成功（记录 ");
                push_str(&mut message, s.stu_sign_id.as_str());
                SignAttemptResult { message, signed: true, retrying: false }
            } else {
                SignAttemptResult { message: s.message, signed: false, retrying: true }
            }
        },
        Err(e) => SignAttemptResult { message: e, signed: false, retrying: true },
    }
}

/// Where one sign-in attempt stands: it logs in, then reads the server time,
/// then signs in with the calibrated timestamp.
#[derive(Debug, Clone)]
pub enum AttemptStage {
    /// Waiting for the login.
    LoggingIn,
    /// Logged in with this session; waiting for the server time.
    FetchingTime(AuthSession),
    /// Waiting for the sign-in answer.
    Signing,
    /// The attempt is over.
    Done,
}

/// What the caller reports of the step it performed.
#[derive(Debug, Clone)]
pub enum AttemptEvent {
    /// The login gave this session.
    Session(AuthSession),
    /// The server time is this many milliseconds.
    ServerTime(i64),
    /// The sign-in request was answered.
    Signed(SignResult),
    /// The step failed with this description.
    Failed(String),
}

/// The next step of an attempt.
#[derive(Debug, Clone)]
pub enum AttemptAction {
    /// Log in.
    Login,
    /// Read the server time.
    FetchServerTime,
    /// Sign in to the course with this session at this timestamp.
    Sign { session: AuthSession, timestamp_ms: i64 },
    /// The attempt ends with this outcome.
    Finish(SignAttemptResult),
}

/// An attempt starts by logging in.
pub fn attempt_start() -> (r: (AttemptStage, AttemptAction))
    ensures
        r.0 is LoggingIn && r.1 is Login,
{
    (AttemptStage::LoggingIn, AttemptAction::Login)
}

/// Whether `event` is an answer the stage `stage` waits for (a server time
/// below `i64::MIN` plus the buffer cannot be calibrated).
pub open spec fn attempt_expects(stage: AttemptStage, event: AttemptEvent) -> bool {
    match event {
        AttemptEvent::Failed(_) => !(stage is Done),
        AttemptEvent::Session(_) => stage is LoggingIn,
        AttemptEvent::ServerTime(ts) => stage is FetchingTime && ts >= i64::MIN + SIGN_TIMESTAMP_BUFFER_MS,
        AttemptEvent::Signed(_) => stage is Signing,
    }
}

/// One step of an attempt: after the login comes the server time, after the
/// server time the sign-in at the server time minus the buffer, and the
/// sign-in answer ends the attempt; the first failure ends it too.
pub fn attempt_step(stage: AttemptStage, event: AttemptEvent) -> (r: (AttemptStage, AttemptAction))
    requires
        attempt_expects(stage, event),
    ensures
        match event {
            AttemptEvent::Failed(e) => r.0 is Done && (r.1 matches AttemptAction::Finish(o)
                && attempt_outcome_is(Err(e), o)),
            AttemptEvent::Session(s) => r.0 == AttemptStage::FetchingTime(s) && r.1 is FetchServerTime,
            AttemptEvent::ServerTime(ts) => r.0 is Signing && r.1 == (AttemptAction::Sign {
                session: stage->FetchingTime_0,
                timestamp_ms: (ts - SIGN_TIMESTAMP_BUFFER_MS) as i64,
            }),
            AttemptEvent::Signed(res) => r.0 is Done && (r.1 matches AttemptAction::Finish(o)
                && attempt_outcome_is(Ok(res), o)),
        },
{
    match event {
        AttemptEvent::Failed(e) => (AttemptStage::Done, AttemptAction::Finish(sign_attempt_outcome(Err(e)))),
        AttemptEvent::Session(s) => (AttemptStage::FetchingTime(s), AttemptAction::FetchServerTime),
        AttemptEvent::ServerTime(ts) => match stage {
            AttemptStage::FetchingTime(session) => {
                let timestamp_ms = sign_timestamp(ts);
                (AttemptStage::Signing, AttemptAction::Sign { session, timestamp_ms })
            },
            _ => vstd::pervasive::unreached(),
        },
        AttemptEvent::Signed(res) => (AttemptStage::Done, AttemptAction::Finish(sign_attempt_outcome(Ok(res)))),
    }
}

/// The colour of a status cell.
#[derive(Debug, Clone, Copy, PartialEq, Eq, Structural)]
pub enum StatusColor {
    Green,
    Yellow,
    Red,
}

/// The status cell of a course: its sign-in note when it has one (green once
/// signed, yellow while retrying or attempting, red otherwise), else the
/// upstream status label (green when signed, red when not, yellow when unknown).
pub open spec fn status_cell(note: Option<Seq<char>>, c: Course) -> (Seq<char>, StatusColor) {
    match note {
        Some(n) => if n.contains('✓') {
            (n, StatusColor::Green)
        } else if crate::text::has_substring(n, "重试"@) || crate::text::has_substring(n, "尝试"@) {
            (n, StatusColor::Yellow)
        } else {
            (n, StatusColor::Red)
        },
        None => (
            crate::model::sign_status_text(c.sign_status@),
            if c.sign_status@ == "1"@ {
                StatusColor::Green
            } else if c.sign_status@ == "0"@ {
                StatusColor::Red
            } else {
                StatusColor::Yellow
            },
        ),
    }
}

/// The status cell of a course in the table (see [`status_cell`]).
pub fn course_status_cell(note: Option<&str>, course: &Course) -> (r: (String, StatusColor))
    ensures
        (r.0@, r.1) == status_cell(
            match note {
                Some(n) => Some(n@),
                None => None,
            },
            *course,
        ),
{
    match note {
        Some(n) => {
            let color = if crate::text::contains_char(n, '✓') {
                StatusColor::Green
            } else if crate::text::contains_str(n, "重试") || crate::text::contains_str(n, "尝试") {
                StatusColor::Yellow
            } else {
                StatusColor::Red
            };
            (n.to_owned(), color)
        },
        None => {
            let status = course.sign_status.as_str();
            let color = if str_eq(status, "1") {
                StatusColor::Green
            } else if str_eq(status, "0") {
                StatusColor::Red
            } else {
                StatusColor::Yellow
            };
            (course.sign_status_label(), color)
        },
    }
}

/// The keys the process reacts to.
#[derive(Debug, Clone, Copy, PartialEq, Eq, Structural)]
pub enum Key {
    /// `q` or Esc: quit.
    Quit,
    /// `r`: refresh the schedule now.
    Refresh,
    /// `a`: switch automatic scheduling on or off.
    ToggleAuto,
    /// Any other key.
    Other,
}

/// Outside work the process asks for.
#[derive(Debug, Clone)]
pub enum Action {
    /// Nothing to start.
    Nothing,
    /// Log in and fetch the schedule of `date` (`yyyyMMdd`), then report a
    /// [`RefreshMsg::Refreshed`] or [`RefreshMsg::Failed`].
    Refresh { date: String },
    /// Sign in to course `idx` of the timeline (id `course_id`), then report a [`RefreshMsg::Sign`].
    SignAttempt { idx: usize, course_id: String },
}

/// The state of the resident sign-in process.
#[derive(Debug, Clone)]
pub struct App {
    /// Student number shown.
    pub username: String,
    /// Date of the schedule (`yyyyMMdd`).
    pub date: String,
    /// The latest schedule.
    pub courses: Vec<Course>,
    /// Status line.
    pub status_text: String,
    /// Time of the last successful refresh (`HH:MM:SS`).
    pub last_updated: Option<String>,
    /// Whether the wake-ups are followed automatically.
    pub auto_refresh: bool,
    /// Whether a refresh is under way (no second one is started meanwhile).
    pub refresh_running: bool,
    /// Whether to quit.
    pub quit: bool,
    /// Number of courses of the last successful refresh.
    pub last_count: usize,
    /// The day's timeline.
    pub timeline: Timeline,
    /// The scheduler's phase.
    pub phase: SchedulerPhase,
    /// Description of the next wake-up.
    pub next_wakeup: Option<String>,
    /// The wake-up computed and not yet fired.
    pub pending: Option<Wakeup>,
    /// When to retry a sign-in inside its window.
    pub retry_at: Option<i64>,
    /// Which course to retry.
    pub retry_course: Option<usize>,
    /// When to retry a failed refresh (only while no refresh of the day succeeded).
    pub refresh_retry_at: Option<i64>,
    /// Whether a refresh of the day succeeded.
    pub daily_success: bool,
    /// Notes of each course's sign-in, keyed by course id.
    pub sign_notes: SignNotes,
}

/// The wake-up the process waits for: the timeline's next wake-up `tw`, unless a
/// pending sign-in retry comes earlier, unless a pending refresh retry comes
/// earlier still.
pub open spec fn merged_wakeup(
    tw: Wakeup,
    retry_at: Option<i64>,
    retry_course: Option<usize>,
    refresh_retry_at: Option<i64>,
    now: int,
) -> Wakeup {
    let candidate = match (retry_at, retry_course) {
        (Some(at), Some(idx)) => if at < tw.at {
            Wakeup { at, kind: EventKind::SignRetry(idx), delay: (at - now) as i64 }
        } else {
            tw
        },
        _ => tw,
    };
    match refresh_retry_at {
        Some(at) => if at < candidate.at {
            Wakeup { at, kind: EventKind::RefreshRetry, delay: (at - now) as i64 }
        } else {
            candidate
        },
        None => candidate,
    }
}

/// The events of a well-formed timeline carry showable indices.
proof fn lemma_next_wakeup_showable(cs: Seq<crate::schedule::CourseTimeline>, now: int, w: Wakeup)
    requires
        is_next_wakeup(cs, now, w),
        cs.len() <= usize::MAX,
    ensures
        has_showable_index(w.kind),
{
    let m = spec_next_maintenance(now);
    if !(w.kind == EventKind::Maintenance && w.at == m) {
        let (i, j) = choose|i: int, j: int|
            #![trigger crate::schedule::upcoming(cs, now, i, j)]
            crate::schedule::upcoming(cs, now, i, j) && crate::schedule::slot_before(i, j, cs.len() as int, 0)
                && crate::schedule::event_of(cs[i], i, j) == (w.kind, w.at) && w.at < m;
    }
}

/// How a wake-up is shown: `HH:MM:SS · description`.
pub open spec fn wakeup_text(w: Wakeup) -> Seq<char> {
    clock_hms(w.at as int) + " · "@ + event_text(w.kind)
}

/// A course name between the brackets of the status line.
pub open spec fn bracketed(name: Seq<char>) -> Seq<char> {
    "〔"@ + name + "〕"@
}

/// How the window of a course is shown: `〔name〕HH:MM ~ HH:MM`.
pub open spec fn window_text(c: crate::schedule::CourseTimeline) -> Seq<char> {
    bracketed(c.course_name@) + clock_hm(c.window_open as int) + " ~ "@ + clock_hm(c.class_end as int)
}

/// Delay before retrying a failed refresh (only while no refresh of the day
/// succeeded), in milliseconds.
pub const REFRESH_RETRY_INTERVAL_MS: i64 = 300_000;

/// The name of course `idx` of the timeline, or "unknown course".
pub open spec fn name_at(cs: Seq<crate::schedule::CourseTimeline>, idx: int) -> Seq<char> {
    if 0 <= idx < cs.len() {
        cs[idx].course_name@
    } else {
        "未知课程"@
    }
}

/// Starting a sign-in attempt of course `idx` from state `pre` with the status
/// line `reason` leads to `post` and asks for `a`: nothing when the timeline has no
/// such course; else the phase runs, the status shows the reason, the course's
/// note says an attempt is under way, and the attempt is asked for.
pub open spec fn spawned_sign(pre: App, idx: usize, reason: Seq<char>, post: App, a: Action) -> bool {
    if idx < pre.timeline.courses@.len() {
        let c = pre.timeline.courses@[idx as int];
        &&& a == Action::SignAttempt { idx, course_id: c.course_id }
        &&& post == (App {
            phase: SchedulerPhase::Running,
            status_text: post.status_text,
            sign_notes: post.sign_notes,
            ..pre
        })
        &&& post.status_text@ == reason
        &&& post.sign_notes@ == pre.sign_notes@.insert(c.course_id@, "尝试签到中 ..."@)
    } else {
        a == Action::Nothing && post == pre
    }
}

/// Starting a refresh of the schedule of `today` from state `pre` with the status
/// line `reason` leads to `post` and asks for `a`: nothing while a refresh runs;
/// else the date becomes `today`, a refresh runs, the phase runs, the status shows
/// the reason, and the refresh is asked for.
pub open spec fn spawned_refresh(pre: App, reason: Seq<char>, today: String, post: App, a: Action) -> bool {
    if pre.refresh_running {
        a == Action::Nothing && post == pre
    } else {
        &&& a == Action::Refresh { date: today }
        &&& post == (App {
            date: today,
            refresh_running: true,
            phase: SchedulerPhase::Running,
            status_text: post.status_text,
            ..pre
        })
        &&& post.status_text@ == reason
    }
}

/// The effect of a successful refresh with schedule `cs` at `now`.
pub open spec fn refreshed(pre: App, cs: Seq<Course>, now: int, post: App) -> bool {
    &&& post.courses@ == cs
    &&& exists|leads: Seq<i64>|
        {
            &&& leads.len() == cs.len()
            &&& leads_in_range(leads)
            &&& post.timeline.courses@ == timeline_of(cs, leads)
        }
    &&& post == (App {
        refresh_running: false,
        last_count: cs.len() as usize,
        courses: post.courses,
        timeline: post.timeline,
        pending: None,
        daily_success: true,
        refresh_retry_at: None,
        last_updated: post.last_updated,
        status_text: post.status_text,
        ..pre
    })
    &&& post.last_updated matches Some(t) && t@ == clock_hms(now)
    &&& post.status_text@ == "刷新成功："@ + decimal(cs.len()) + " 门课（"@ + pre.date@ + "）"@
}

/// The effect of a failed refresh described by `m` at `now`: the schedule is
/// kept; while no refresh of the day succeeded, a retry is planned 5 minutes later.
pub open spec fn refresh_failed(pre: App, m: Seq<char>, now: int, post: App) -> bool {
    &&& post == (App {
        refresh_running: false,
        status_text: post.status_text,
        refresh_retry_at: post.refresh_retry_at,
        ..pre
    })
    &&& if pre.daily_success {
        &&& post.refresh_retry_at == pre.refresh_retry_at
        &&& post.status_text@ == "刷新失败："@ + m + "（沿用上次课表）"@
    } else {
        &&& post.refresh_retry_at == Some((now + REFRESH_RETRY_INTERVAL_MS) as i64)
        &&& post.status_text@ == "刷新失败："@ + m + "（沿用上次课表）"@ + "，5 分钟后自动重试"@
    }
}

/// The effect of the outcome `m` of a sign-in attempt at `now`: a success is
/// noted and ends the retries; a failure while the class is not over and the
/// attempt is worth retrying plans a retry a minute later; any other failure is
/// noted and ends the retries.
pub open spec fn sign_applied(pre: App, m: SignMsg, now: int, post: App) -> bool {
    let cs = pre.timeline.courses@;
    let in_timeline = m.idx < cs.len();
    let name = if in_timeline {
        cs[m.idx as int].course_name@
    } else {
        "课程 "@ + decimal((m.idx + 1) as nat)
    };
    let still_open = sign_still_open(pre, m, now);
    &&& post == (App {
        sign_notes: post.sign_notes,
        retry_at: post.retry_at,
        retry_course: post.retry_course,
        status_text: post.status_text,
        ..pre
    })
    &&& if m.signed {
        &&& post.sign_notes@ == pre.sign_notes@.insert(m.course_id@, "✓ "@ + m.text@)
        &&& post.retry_at is None && post.retry_course is None
        &&& post.status_text@ == bracketed(name) + m.text@
    } else if still_open && m.retrying {
        &&& post.sign_notes@ == pre.sign_notes@.insert(m.course_id@, "重试中："@ + m.text@)
        &&& post.retry_at == Some((now + SIGN_RETRY_INTERVAL_MS) as i64)
        &&& post.retry_course == Some(m.idx)
        &&& post.status_text@ == bracketed(name) + "签到未成功（"@ + m.text@ + "），60s 后重试"@
    } else {
        &&& post.sign_notes@ == pre.sign_notes@.insert(m.course_id@, "✗ "@ + m.text@)
        &&& post.retry_at is None && post.retry_course is None
        &&& post.status_text@ == bracketed(name) + "签到失败："@ + m.text@
    }
}

/// Whether the course of the sign-in outcome `m` is in the timeline of `pre`
/// and not over at `now`.
pub open spec fn sign_still_open(pre: App, m: SignMsg, now: int) -> bool {
    m.idx < pre.timeline.courses@.len() && now <= pre.timeline.courses@[m.idx as int].class_end
}

/// Whether the sign-in outcome `m` plans a retry: a failure worth retrying
/// while the class is not over.
pub open spec fn sign_retries(pre: App, m: SignMsg, now: int) -> bool {
    !m.signed && m.retrying && sign_still_open(pre, m, now)
}

/// Whether `msg` can be applied to `pre` at `now` without leaving chrono's
/// range: where a retry is planned, its time must lie in that range, and a
/// course outside the timeline is shown by its one-based number.
pub open spec fn applicable(pre: App, msg: RefreshMsg, now: int) -> bool {
    &&& is_datetime(now)
    &&& match msg {
        RefreshMsg::Refreshed(cs) => windows_fit(cs@),
        RefreshMsg::Failed(_) => !pre.daily_success ==> is_datetime(now + REFRESH_RETRY_INTERVAL_MS),
        RefreshMsg::Sign(m) => {
            &&& sign_retries(pre, m, now) ==> is_datetime(now + SIGN_RETRY_INTERVAL_MS)
            &&& m.idx >= pre.timeline.courses@.len() ==> m.idx < usize::MAX
        },
    }
}

/// The effect of applying `msg` at `now`: a refresh outcome ends the running
/// refresh; a sign-in outcome leaves that flag as it was.
pub open spec fn applied(pre: App, msg: RefreshMsg, now: int, post: App) -> bool {
    match msg {
        RefreshMsg::Refreshed(cs) => refreshed(pre, cs@, now, post),
        RefreshMsg::Failed(m) => refresh_failed(pre, m@, now, post),
        RefreshMsg::Sign(m) => sign_applied(pre, m, now, post),
    }
}

/// Law: the outcome of a refresh (new schedule or failure) ends the running
/// refresh, so the next refresh can start; the outcome of a sign-in attempt
/// leaves a running refresh running, so no second refresh starts beside it.
pub proof fn lemma_apply_ends_refresh(pre: App, msg: RefreshMsg, now: int, post: App)
    requires
        applied(pre, msg, now, post),
    ensures
        msg is Refreshed || msg is Failed ==> !post.refresh_running,
        msg is Sign ==> post.refresh_running == pre.refresh_running,
{
}

/// Law: a failed refresh keeps the schedule and the timeline it had.
pub proof fn lemma_failed_refresh_keeps_schedule(pre: App, m: Seq<char>, now: int, post: App)
    requires
        refresh_failed(pre, m, now, post),
    ensures
        post.courses == pre.courses,
        post.timeline == pre.timeline,
        post.daily_success == pre.daily_success,
{
}

/// Law: once a refresh of the day succeeded, a later failed refresh plans no
/// retry and keeps the fetched schedule.
pub proof fn lemma_no_refresh_retry_after_success(
    a: App,
    cs: Seq<Course>,
    t1: int,
    b: App,
    m: Seq<char>,
    t2: int,
    c: App,
)
    requires
        refreshed(a, cs, t1, b),
        refresh_failed(b, m, t2, c),
    ensures
        c.refresh_retry_at is None,
        c.courses@ == cs,
        c.timeline == b.timeline,
{
}

/// Law: while one refresh runs, asking for another starts nothing and changes nothing.
pub proof fn lemma_refresh_not_started_twice(
    a: App,
    r1: Seq<char>,
    d1: String,
    b: App,
    x: Action,
    r2: Seq<char>,
    d2: String,
    c: App,
    y: Action,
)
    requires
        spawned_refresh(a, r1, d1, b, x),
        spawned_refresh(b, r2, d2, c, y),
    ensures
        b.refresh_running,
        y == Action::Nothing,
        c == b,
{
}

/// Computing the next wake-up of `pre` at `now` gives `post`: unless one is
/// already pending, the timeline's next wake-up merged with the pending retries
/// becomes pending; the pending wake-up is then described.
pub open spec fn wakeup_computed(pre: App, now: int, post: App) -> bool {
    &&& pre.pending is None ==> exists|tw: Wakeup|
        is_next_wakeup(pre.timeline.courses@, now, tw) && post.pending == Some(
            merged_wakeup(tw, pre.retry_at, pre.retry_course, pre.refresh_retry_at, now),
        )
    &&& pre.pending is Some ==> post.pending == pre.pending
    &&& post.next_wakeup matches Some(t) && t@ == wakeup_text(post.pending->0)
    &&& post == (App { pending: post.pending, next_wakeup: post.next_wakeup, ..pre })
}

/// Handling the wake-up `wakeup` in state `pre`, with `today` the caller's
/// `yyyyMMdd` reading of the local clock, leads to `post` and asks for `a`.
pub open spec fn wakeup_handled(pre: App, wakeup: Wakeup, today: String, post: App, a: Action) -> bool {
    match wakeup.kind {
        EventKind::Maintenance => spawned_refresh(
            App { date: today, daily_success: false, refresh_retry_at: None, ..pre },
            "每日维护：更新日期，拉取当天课表"@,
            today,
            post,
            a,
        ),
        EventKind::WindowOpen(idx) => spawned_sign(
            pre,
            idx,
            bracketed(name_at(pre.timeline.courses@, idx as int)) + "签到窗口开启（课前 1~5 分钟随机），尝试签到中 ..."@,
            post,
            a,
        ),
        EventKind::ClassBegin(idx) => spawned_sign(
            pre,
            idx,
            bracketed(name_at(pre.timeline.courses@, idx as int)) + "上课开始，最后确认签到 ..."@,
            post,
            a,
        ),
        EventKind::ClassEnd(idx) => {
            &&& a == Action::Nothing
            &&& post == (App {
                retry_at: None,
                retry_course: None,
                status_text: post.status_text,
                sign_notes: post.sign_notes,
                ..pre
            })
            &&& post.status_text@ == bracketed(name_at(pre.timeline.courses@, idx as int)) + "下课，该课任务完结"@
            &&& post.sign_notes@ == (if idx < pre.timeline.courses@.len() {
                pre.sign_notes@.remove(pre.timeline.courses@[idx as int].course_id@)
            } else {
                pre.sign_notes@
            })
        },
        EventKind::SignRetry(idx) => exists|mid: App|
            {
                &&& mid == (App { retry_at: None, retry_course: None, status_text: mid.status_text, ..pre })
                &&& mid.status_text@ == bracketed(name_at(pre.timeline.courses@, idx as int)) + "签到未成功，60 秒后重试 ..."@
                &&& spawned_sign(
                    mid,
                    idx,
                    bracketed(name_at(pre.timeline.courses@, idx as int)) + "正在发起签到 ..."@,
                    post,
                    a,
                )
            },
        EventKind::RefreshRetry => spawned_refresh(
            App { refresh_retry_at: None, ..pre },
            "课表刷新失败自动重试 ..."@,
            today,
            post,
            a,
        ),
    }
}

/// Law: a computed wake-up is never later than the timeline's next wake-up, a
/// pending sign-in retry or a pending refresh retry; a sign-in retry earlier than
/// the timeline's next wake-up (and than any refresh retry) wakes the process at
/// its own time for its course, and so does a refresh retry earlier than both
/// others.
pub proof fn lemma_computed_wakeup_is_earliest(pre: App, now: int, post: App, tw: Wakeup)
    requires
        wakeup_computed(pre, now, post),
        pre.pending is None,
        is_next_wakeup(pre.timeline.courses@, now, tw),
    ensures
        post.pending is Some,
        post.pending->0.at <= tw.at,
        pre.retry_at is Some && pre.retry_course is Some ==> post.pending->0.at <= pre.retry_at->0,
        pre.refresh_retry_at is Some ==> post.pending->0.at <= pre.refresh_retry_at->0,
        pre.retry_at is Some && pre.retry_course is Some && pre.retry_at->0 < tw.at && (
        pre.refresh_retry_at is Some ==> pre.retry_at->0 <= pre.refresh_retry_at->0) ==> post.pending
            == Some(
            Wakeup {
                at: pre.retry_at->0,
                kind: EventKind::SignRetry(pre.retry_course->0),
                delay: (pre.retry_at->0 - now) as i64,
            },
        ),
        pre.refresh_retry_at is Some && pre.refresh_retry_at->0 < tw.at && (pre.retry_at is Some
            && pre.retry_course is Some ==> pre.refresh_retry_at->0 < pre.retry_at->0) ==> post.pending
            == Some(
            Wakeup {
                at: pre.refresh_retry_at->0,
                kind: EventKind::RefreshRetry,
                delay: (pre.refresh_retry_at->0 - now) as i64,
            },
        ),
{
    let tw2 = choose|tw2: Wakeup|
        is_next_wakeup(pre.timeline.courses@, now, tw2) && post.pending == Some(
            merged_wakeup(tw2, pre.retry_at, pre.retry_course, pre.refresh_retry_at, now),
        );
    crate::schedule::lemma_next_wakeup_unique(pre.timeline.courses@, now, tw, tw2);
}

/// Law: a window opening or a class beginning of a course of the timeline asks
/// for a sign-in attempt of that course, under its id, and notes that the
/// attempt is under way.
pub proof fn lemma_course_event_attempts_sign(
    pre: App,
    w: Wakeup,
    today: String,
    post: App,
    a: Action,
    i: usize,
)
    requires
        wakeup_handled(pre, w, today, post, a),
        w.kind == EventKind::WindowOpen(i) || w.kind == EventKind::ClassBegin(i),
        i < pre.timeline.courses@.len(),
    ensures
        a == (Action::SignAttempt { idx: i, course_id: pre.timeline.courses@[i as int].course_id }),
        post.sign_notes@.contains_key(pre.timeline.courses@[i as int].course_id@),
        post.sign_notes@[pre.timeline.courses@[i as int].course_id@] == "尝试签到中 ..."@,
        post.phase == SchedulerPhase::Running,
        post.timeline == pre.timeline,
{
}

/// Law: a new schedule replaces the old one and forgets the wake-up computed
/// for the old timeline, so the next wake-up comes from the new timeline; the
/// day counts as fetched and no refresh retry stays planned.
pub proof fn lemma_refresh_forgets_old_wakeup(pre: App, cs: Vec<Course>, now: int, post: App)
    requires
        applied(pre, RefreshMsg::Refreshed(cs), now, post),
    ensures
        post.pending is None,
        post.courses@ == cs@,
        post.daily_success,
        post.refresh_retry_at is None,
        !post.refresh_running,
{
}

/// Law: without a note, a course's status cell is green exactly when the
/// upstream status is `1` (signed), red when it is `0`, yellow otherwise; a note
/// that holds `✓` is green, and a note is shown as it is.
pub proof fn lemma_status_cell_colour(c: Course, note: Option<Seq<char>>)
    ensures
        (status_cell(None, c).1 == StatusColor::Green) <==> (c.sign_status@ == "1"@),
        (status_cell(None, c).1 == StatusColor::Red) <==> (c.sign_status@ == "0"@),
        note is Some ==> status_cell(note, c).0 == note->0,
        note is Some && note->0.contains('✓') ==> status_cell(note, c).1 == StatusColor::Green,
{
    reveal_strlit("1");
    reveal_strlit("0");
    assert("1"@[0] != "0"@[0]);
    assert("1"@ != "0"@);
}

impl App {
    /// Whether the instants the process holds lie in chrono's range and every
    /// event it may show has a showable course index.
    pub open spec fn well_formed(&self) -> bool {
        &&& self.timeline.well_formed()
        &&& self.pending matches Some(w) ==> is_datetime(w.at as int) && has_showable_index(w.kind)
        &&& self.retry_at matches Some(t) ==> is_datetime(t as int)
        &&& self.retry_course matches Some(i) ==> i < usize::MAX
        &&& self.refresh_retry_at matches Some(t) ==> is_datetime(t as int)
    }

    /// The initial state for a student number and a date (`yyyyMMdd`).
    pub fn new(username: String, date: String) -> (app: App)
        ensures
            app.well_formed(),
            app.username == username,
            app.date == date,
            app.courses@.len() == 0,
            app.status_text@ == "就绪，按 r 手动刷新"@,
            app.last_updated is None,
            app.auto_refresh,
            !app.refresh_running,
            !app.quit,
            app.last_count == 0,
            app.timeline.courses@.len() == 0,
            app.phase == SchedulerPhase::Idle,
            app.next_wakeup is None,
            app.pending is None,
            app.retry_at is None,
            app.retry_course is None,
            app.refresh_retry_at is None,
            !app.daily_success,
            app.sign_notes@ == Map::<Seq<char>, Seq<char>>::empty(),
    {
        App {
            username,
            date,
            courses: Vec::new(),
            status_text: "就绪，按 r 手动刷新".to_owned(),
            last_updated: None,
            auto_refresh: true,
            refresh_running: false,
            quit: false,
            last_count: 0,
            timeline: Timeline::default(),
            phase: SchedulerPhase::Idle,
            next_wakeup: None,
            pending: None,
            retry_at: None,
            retry_course: None,
            refresh_retry_at: None,
            daily_success: false,
            sign_notes: SignNotes::new(),
        }
    }

    /// Sets the date (for instance across days).
    pub fn set_date(&mut self, date: String)
        ensures
            *final(self) == (App { date, ..*old(self) }),
    {
        self.date = date;
    }

    /// Sets the timeline.
    pub fn set_timeline(&mut self, timeline: Timeline)
        ensures
            *final(self) == (App { timeline, ..*old(self) }),
    {
        self.timeline = timeline;
    }

    /// The current timeline.
    pub fn timeline(&self) -> (t: &Timeline)
        ensures
            *t == self.timeline,
    {
        &self.timeline
    }

    /// Sets the description of the next wake-up.
    pub fn set_next_wakeup(&mut self, at: Option<String>)
        ensures
            *final(self) == (App { next_wakeup: at, ..*old(self) }),
    {
        self.next_wakeup = at;
    }

    /// The description of the next wake-up (for the UI).
    pub fn next_wakeup(&self) -> (r: Option<&str>)
        ensures
            match self.next_wakeup {
                Some(s) => r matches Some(t) && t@ == s@,
                None => r is None,
            },
    {
        match &self.next_wakeup {
            Some(s) => Some(s.as_str()),
            None => None,
        }
    }

    /// The scheduler's phase.
    pub fn phase(&self) -> (p: &SchedulerPhase)
        ensures
            *p == self.phase,
    {
        &self.phase
    }

    /// Forgets the pending wake-up (after a manual refresh; the loop computes it again).
    pub fn invalidate_wakeup(&mut self)
        ensures
            *final(self) == (App { pending: None, ..*old(self) }),
    {
        self.pending = None;
    }

    /// The pending wake-up if its time has come at `now`; a fired wake-up stops pending.
    pub fn wakeup_due(&mut self, now: i64) -> (r: Option<Wakeup>)
        ensures
            match old(self).pending {
                Some(w) => if now >= w.at {
                    r == Some(w) && *final(self) == (App { pending: None, ..*old(self) })
                } else {
                    r is None && *final(self) == *old(self)
                },
                None => r is None && *final(self) == *old(self),
            },
    {
        match self.pending {
            Some(w) => {
                if now >= w.at {
                    self.pending = None;
                    Some(w)
                } else {
                    None
                }
            },
            None => None,
        }
    }

    /// Computes and keeps the next wake-up (the timeline's next event, a pending
    /// sign-in retry or a pending refresh retry, whichever comes first), unless
    /// one is already pending; then describes it.
    pub fn compute_next_wakeup(&mut self, now: i64)
        requires
            old(self).well_formed(),
            is_datetime(now as int),
            old(self).pending is None ==> is_datetime(spec_next_maintenance(now as int)),
        ensures
            final(self).well_formed(),
            wakeup_computed(*old(self), now as int, *final(self)),
    {
        if self.pending.is_none() {
            let timeline_wake = self.timeline.next_wakeup(now);
            proof {
                crate::schedule::lemma_next_wakeup_ahead(self.timeline.courses@, now as int, timeline_wake);
                crate::schedule::lemma_next_maintenance_ahead(now as int);
                assert(self.timeline.courses@.len() == self.timeline.courses.len());
                lemma_next_wakeup_showable(self.timeline.courses@, now as int, timeline_wake);
            }
            let candidate = match (self.retry_at, self.retry_course) {
                (Some(at), Some(idx)) => {
                    if at < timeline_wake.at {
                        Wakeup { at, kind: EventKind::SignRetry(idx), delay: at - now }
                    } else {
                        timeline_wake
                    }
                },
                _ => timeline_wake,
            };
            let chosen = match self.refresh_retry_at {
                Some(at) => {
                    if at < candidate.at {
                        Wakeup { at, kind: EventKind::RefreshRetry, delay: at - now }
                    } else {
                        candidate
                    }
                },
                None => candidate,
            };
            self.pending = Some(chosen);
        }
        match self.pending {
            Some(w) => {
                let mut text = String::new();
                push_clock_hms(&mut text, w.at);
                push_str(&mut text, " · ");
                let d = w.kind.describe();
                push_str(&mut text, d.as_str());
                self.next_wakeup = Some(text);
            },
            None => {},
        }
    }

    /// The window shown for `now`: `〔name〕HH:MM ~ HH:MM` of the first course not
    /// over yet; `None` when every course is over (or there is none).
    pub fn sign_window_text_at(&self, now: i64) -> (r: Option<String>)
        requires
            self.well_formed(),
        ensures
            match r {
                Some(t) => exists|i: int|
                    is_first_unfinished(self.timeline.courses@, now as int, i) && t@ == window_text(
                        self.timeline.courses@[i],
                    ),
                None => forall|k: int|
                    0 <= k < self.timeline.courses@.len() ==> now > #[trigger] self.timeline.courses@[k].class_end,
            },
    {
        match self.timeline.sign_window_hint(now) {
            Some(hint) => {
                let ghost i = choose|i: int|
                    is_first_unfinished(self.timeline.courses@, now as int, i) && hint == hint_of(
                        self.timeline.courses@[i],
                    );
                assert(crate::schedule::course_in_range(self.timeline.courses@[i]));
                let mut t = String::new();
                push_str(&mut t, "〔");
                push_str(&mut t, hint.course_name.as_str());
                push_str(&mut t, "〕");
                push_clock_hm(&mut t, hint.window_open);
                push_str(&mut t, " ~ ");
                push_clock_hm(&mut t, hint.class_end);
                assert(t@ =~= window_text(self.timeline.courses@[i]));
                Some(t)
            },
            None => None,
        }
    }

    /// How long to sleep before the next wake-up, in milliseconds: up to the
    /// pending wake-up (or the timeline's next one when none is pending); a
    /// minute when that time has already come.
    pub fn sleep_until_next(&self, now: i64) -> (ms: u64)
        requires
            self.well_formed(),
            is_datetime(now as int),
            self.pending is None ==> is_datetime(spec_next_maintenance(now as int)),
        ensures
            match self.pending {
                Some(w) => ms == (if w.at - now > 0 { w.at - now } else { 60_000 }),
                None => exists|tw: Wakeup|
                    is_next_wakeup(self.timeline.courses@, now as int, tw) && ms == tw.at - now,
            },
    {
        let at = match self.pending {
            Some(w) => w.at,
            None => {
                let tw = self.timeline.next_wakeup(now);
                proof {
                    crate::schedule::lemma_next_wakeup_ahead(self.timeline.courses@, now as int, tw);
                }
                tw.at
            },
        };
        let ms: i64 = at - now;
        if ms > 0 {
            ms as u64
        } else {
            60_000
        }
    }

    /// The name of course `idx` of the timeline, or "unknown course".
    fn course_name_or_unknown(&self, idx: usize) -> (r: String)
        ensures
            r@ == name_at(self.timeline.courses@, idx as int),
    {
        if idx < self.timeline.courses.len() {
            self.timeline.courses[idx].course_name.clone()
        } else {
            "未知课程".to_owned()
        }
    }

    /// Starts a sign-in attempt of course `idx` with the status line `reason`:
    /// returns the attempt for the caller to run in the background.
    pub fn spawn_sign_attempt_with(&mut self, idx: usize, reason: String) -> (a: Action)
        requires
            old(self).well_formed(),
        ensures
            final(self).well_formed(),
            spawned_sign(*old(self), idx, reason@, *final(self), a),
    {
        if idx >= self.timeline.courses.len() {
            return Action::Nothing;
        }
        let course_id = self.timeline.courses[idx].course_id.clone();
        self.phase = SchedulerPhase::Running;
        self.status_text = reason;
        self.sign_notes.insert(course_id.clone(), "尝试签到中 ...".to_owned());
        Action::SignAttempt { idx, course_id }
    }

    /// Starts a sign-in attempt of course `idx`.
    pub fn spawn_sign_attempt(&mut self, idx: usize) -> (a: Action)
        requires
            old(self).well_formed(),
        ensures
            final(self).well_formed(),
            spawned_sign(
                *old(self),
                idx,
                bracketed(name_at(old(self).timeline.courses@, idx as int)) + "正在发起签到 ..."@,
                *final(self),
                a,
            ),
    {
        let name = self.course_name_or_unknown(idx);
        let mut reason = String::new();
        push_str(&mut reason, "〔");
        push_str(&mut reason, name.as_str());
        push_str(&mut reason, "〕正在发起签到 ...");
        assert(reason@ =~= bracketed(name_at(old(self).timeline.courses@, idx as int)) + "正在发起签到 ..."@) by {
            assert("〔"@ + name@ + "〕正在发起签到 ..."@ =~= "〔"@ + name@ + ("〕"@ + "正在发起签到 ..."@)) by {
                reveal_strlit("〕正在发起签到 ...");
                reveal_strlit("〕");
                reveal_strlit("正在发起签到 ...");
            }
        }
        self.spawn_sign_attempt_with(idx, reason)
    }

    /// Starts a refresh of the schedule (ignored while one runs).
    pub fn spawn_refresh(&mut self, today: String) -> (a: Action)
        requires
            old(self).well_formed(),
        ensures
            final(self).well_formed(),
            spawned_refresh(*old(self), "正在刷新课表 ..."@, today, *final(self), a),
    {
        self.spawn_refresh_with("正在刷新课表 ...".to_owned(), today)
    }

    /// Starts a refresh of the schedule with the status line `reason` (ignored
    /// while one runs). The date is first set to `today`, the caller's `yyyyMMdd`
    /// reading of the local clock, so that no stale day is fetched across midnight.
    pub fn spawn_refresh_with(&mut self, reason: String, today: String) -> (a: Action)
        requires
            old(self).well_formed(),
        ensures
            final(self).well_formed(),
            spawned_refresh(*old(self), reason@, today, *final(self), a),
    {
        if self.refresh_running {
            return Action::Nothing;
        }
        self.date = today.clone();
        self.refresh_running = true;
        self.phase = SchedulerPhase::Running;
        self.status_text = reason;
        Action::Refresh { date: today }
    }

    /// The status line `〔name〕tail`, the name being course `idx`'s or "unknown course".
    fn status_about(&self, idx: usize, tail: &str) -> (r: String)
        ensures
            r@ == bracketed(name_at(self.timeline.courses@, idx as int)) + tail@,
    {
        let name = self.course_name_or_unknown(idx);
        let mut r = String::new();
        push_str(&mut r, "〔");
        push_str(&mut r, name.as_str());
        push_str(&mut r, "〕");
        push_str(&mut r, tail);
        assert(r@ =~= bracketed(name@) + tail@);
        r
    }

    /// Handles a wake-up whose time has come, with `today` the caller's
    /// `yyyyMMdd` reading of the local clock: daily maintenance refreshes the
    /// schedule of the new day; a window opening and a class beginning start a
    /// sign-in attempt; a class end closes the course's task; a sign-in retry
    /// starts a new attempt; a refresh retry starts a refresh.
    pub fn handle_wakeup(&mut self, wakeup: Wakeup, today: String) -> (a: Action)
        requires
            old(self).well_formed(),
        ensures
            final(self).well_formed(),
            wakeup_handled(*old(self), wakeup, today, *final(self), a),
    {
        match wakeup.kind {
            EventKind::Maintenance => {
                self.set_date(today.clone());
                self.daily_success = false;
                self.refresh_retry_at = None;
                self.spawn_refresh_with("每日维护：更新日期，拉取当天课表".to_owned(), today)
            },
            EventKind::WindowOpen(idx) => {
                let reason = self.status_about(idx, "签到窗口开启（课前 1~5 分钟随机），尝试签到中 ...");
                self.spawn_sign_attempt_with(idx, reason)
            },
            EventKind::ClassBegin(idx) => {
                let reason = self.status_about(idx, "上课开始，最后确认签到 ...");
                self.spawn_sign_attempt_with(idx, reason)
            },
            EventKind::ClassEnd(idx) => {
                let status = self.status_about(idx, "下课，该课任务完结");
                if idx < self.timeline.courses.len() {
                    let course_id = self.timeline.courses[idx].course_id.clone();
                    self.sign_notes.remove(course_id.as_str());
                }
                self.retry_at = None;
                self.retry_course = None;
                self.status_text = status;
                Action::Nothing
            },
            EventKind::SignRetry(idx) => {
                self.retry_course = None;
                self.retry_at = None;
                self.status_text = self.status_about(idx, "签到未成功，60 秒后重试 ...");
                let ghost mid = *self;
                let a = self.spawn_sign_attempt(idx);
                assert(mid == (App { retry_at: None, retry_course: None, status_text: mid.status_text, ..*old(self) }));
                a
            },
            EventKind::RefreshRetry => {
                self.refresh_retry_at = None;
                self.spawn_refresh_with("课表刷新失败自动重试 ...".to_owned(), today)
            },
        }
    }

    /// One turn of the scheduler at `now`, with `today` the caller's `yyyyMMdd`
    /// reading of the local clock: while automatic scheduling is on, the next
    /// wake-up is computed and, when its time has come, handled; while it is
    /// off, any pending wake-up is forgotten.
    pub fn tick(&mut self, now: i64, today: String) -> (a: Action)
        requires
            old(self).well_formed(),
            is_datetime(now as int),
            old(self).auto_refresh && old(self).pending is None ==> is_datetime(spec_next_maintenance(now as int)),
        ensures
            final(self).well_formed(),
            if !old(self).auto_refresh {
                a == Action::Nothing && *final(self) == (App { pending: None, ..*old(self) })
            } else {
                exists|mid: App|
                    {
                        &&& wakeup_computed(*old(self), now as int, mid)
                        &&& match mid.pending {
                            Some(w) => if now >= w.at {
                                wakeup_handled(App { pending: None, ..mid }, w, today, *final(self), a)
                            } else {
                                a == Action::Nothing && *final(self) == mid
                            },
                            None => a == Action::Nothing && *final(self) == mid,
                        }
                    }
            },
    {
        if !self.auto_refresh {
            self.invalidate_wakeup();
            return Action::Nothing;
        }
        self.compute_next_wakeup(now);
        match self.wakeup_due(now) {
            Some(w) => self.handle_wakeup(w, today),
            None => Action::Nothing,
        }
    }

    /// Reacts to a key: quit; refresh now (the pending wake-up is forgotten, to
    /// be computed again); or switch automatic scheduling on or off.
    pub fn handle_key(&mut self, key: Key, today: String) -> (a: Action)
        requires
            old(self).well_formed(),
        ensures
            final(self).well_formed(),
            match key {
                Key::Quit => a == Action::Nothing && *final(self) == (App { quit: true, ..*old(self) }),
                Key::Refresh => spawned_refresh(
                    App { pending: None, ..*old(self) },
                    "正在刷新课表 ..."@,
                    today,
                    *final(self),
                    a,
                ),
                Key::ToggleAuto => {
                    &&& a == Action::Nothing
                    &&& *final(self) == (App {
                        auto_refresh: !old(self).auto_refresh,
                        status_text: final(self).status_text,
                        ..*old(self)
                    })
                    &&& final(self).status_text@ == (if final(self).auto_refresh {
                        "自动调度已开启"@
                    } else {
                        "自动调度已暂停（按 a 恢复）"@
                    })
                },
                Key::Other => a == Action::Nothing && *final(self) == *old(self),
            },
    {
        match key {
            Key::Quit => {
                self.quit = true;
                Action::Nothing
            },
            Key::Refresh => {
                self.invalidate_wakeup();
                self.spawn_refresh(today)
            },
            Key::ToggleAuto => {
                self.auto_refresh = !self.auto_refresh;
                self.status_text = if self.auto_refresh {
                    "自动调度已开启".to_owned()
                } else {
                    "自动调度已暂停（按 a 恢复）".to_owned()
                };
                Action::Nothing
            },
            Key::Other => Action::Nothing,
        }
    }

    /// Applies the outcome of a background task at `now`: a new schedule
    /// replaces the old one and rebuilds the timeline; a failed refresh keeps the
    /// old schedule (and plans a retry while no refresh of the day succeeded); a
    /// sign-in outcome is noted.
    pub fn apply(&mut self, msg: RefreshMsg, now: i64)
        requires
            old(self).well_formed(),
            applicable(*old(self), msg, now as int),
        ensures
            final(self).well_formed(),
            applied(*old(self), msg, now as int, *final(self)),
    {
        match msg {
            RefreshMsg::Refreshed(courses) => {
                let timeline = Timeline::from_courses(courses.as_slice());
                self.refresh_running = false;
                self.apply_refreshed(courses, timeline, now);
            },
            RefreshMsg::Failed(m) => {
                self.refresh_running = false;
                let mut status = String::new();
                push_str(&mut status, "刷新失败：");
                push_str(&mut status, m.as_str());
                push_str(&mut status, "（沿用上次课表）");
                if !self.daily_success {
                    self.refresh_retry_at = Some(now + REFRESH_RETRY_INTERVAL_MS);
                    push_str(&mut status, "，5 分钟后自动重试");
                }
                self.status_text = status;
            },
            RefreshMsg::Sign(m) => self.apply_sign(m, now),
        }
    }

    /// Applies a message as [`App::apply`] does, where the message's schedule can
    /// be turned into a timeline without leaving chrono's range; else changes
    /// nothing and says so.
    pub fn apply_checked(&mut self, msg: RefreshMsg, now: i64) -> (r: bool)
        requires
            old(self).well_formed(),
            is_datetime(now as int),
            !(msg is Refreshed) ==> applicable(*old(self), msg, now as int),
        ensures
            final(self).well_formed(),
            r == applicable(*old(self), msg, now as int),
            r ==> applied(*old(self), msg, now as int, *final(self)),
            !r ==> *final(self) == *old(self),
    {
        match msg {
            RefreshMsg::Refreshed(courses) => {
                match Timeline::try_from_courses(courses.as_slice()) {
                    Some(timeline) => {
                        self.refresh_running = false;
                        self.apply_refreshed(courses, timeline, now);
                        true
                    },
                    None => false,
                }
            },
            other => {
                self.apply(other, now);
                true
            },
        }
    }

    /// Takes a new schedule and its timeline.
    fn apply_refreshed(&mut self, courses: Vec<Course>, timeline: Timeline, now: i64)
        requires
            old(self).well_formed(),
            !old(self).refresh_running,
            is_datetime(now as int),
            timeline.well_formed(),
            exists|leads: Seq<i64>|
                {
                    &&& leads.len() == courses@.len()
                    &&& leads_in_range(leads)
                    &&& timeline.courses@ == timeline_of(courses@, leads)
                },
        ensures
            final(self).well_formed(),
            refreshed(*old(self), courses@, now as int, *final(self)),
    {
        let total = courses.len();
        self.last_count = total;
        self.courses = courses;
        self.timeline = timeline;
        self.pending = None;
        self.daily_success = true;
        self.refresh_retry_at = None;
        let mut clock = String::new();
        push_clock_hms(&mut clock, now);
        self.last_updated = Some(clock);
        let mut status = String::new();
        push_str(&mut status, "刷新成功：");
        push_decimal(&mut status, total as u64);
        push_str(&mut status, " 门课（");
        push_str(&mut status, self.date.as_str());
        push_str(&mut status, "）");
        self.status_text = status;
    }

    /// Notes the outcome of a sign-in attempt.
    fn apply_sign(&mut self, msg: SignMsg, now: i64)
        requires
            old(self).well_formed(),
            applicable(*old(self), RefreshMsg::Sign(msg), now as int),
        ensures
            final(self).well_formed(),
            sign_applied(*old(self), msg, now as int, *final(self)),
    {
        let in_timeline = msg.idx < self.timeline.courses.len();
        let mut name = String::new();
        if in_timeline {
            name = self.timeline.courses[msg.idx].course_name.clone();
        } else {
            push_str(&mut name, "课程 ");
            push_decimal(&mut name, (msg.idx as u64) + 1);
        }
        let still_open = in_timeline && now <= self.timeline.courses[msg.idx].class_end;
        let mut status = String::new();
        push_str(&mut status, "〔");
        push_str(&mut status, name.as_str());
        push_str(&mut status, "〕");
        if msg.signed {
            let mut note = String::new();
            push_str(&mut note, "✓ ");
            push_str(&mut note, msg.text.as_str());
            self.sign_notes.insert(msg.course_id, note);
            self.clear_retry();
            push_str(&mut status, msg.text.as_str());
        } else if still_open && msg.retrying {
            let mut note = String::new();
            push_str(&mut note, "重试中：");
            push_str(&mut note, msg.text.as_str());
            self.sign_notes.insert(msg.course_id, note);
            self.retry_at = Some(now + SIGN_RETRY_INTERVAL_MS);
            self.retry_course = Some(msg.idx);
            push_str(&mut status, "签到未成功（");
            push_str(&mut status, msg.text.as_str());
            push_str(&mut status, "），60s 后重试");
        } else {
            let mut note = String::new();
            push_str(&mut note, "✗ ");
            push_str(&mut note, msg.text.as_str());
            self.sign_notes.insert(msg.course_id, note);
            self.clear_retry();
            push_str(&mut status, "签到失败：");
            push_str(&mut status, msg.text.as_str());
        }
        self.status_text = status;
    }

    /// Forgets the planned sign-in retry.
    fn clear_retry(&mut self)
        ensures
            *final(self) == (App { retry_at: None, retry_course: None, ..*old(self) }),
    {
        self.retry_at = None;
        self.retry_course = None;
    }

    /// The note of a course's sign-in (shown in the table's status column).
    pub fn sign_note(&self, course_id: &str) -> (r: Option<&str>)
        ensures
            r is Some <==> self.sign_notes@.contains_key(course_id@),
            r matches Some(v) ==> v@ == self.sign_notes@[course_id@],
    {
        self.sign_notes.get(course_id)
    }
}

} // verus!
