//! Day schedule: a day's classes unfolded into a timeline of wake-up events that
//! drives the resident process.
//!
//! Instants are naive local clock readings, counted in milliseconds since
//! 1970-01-01 00:00:00 of that clock.

use vstd::prelude::*;
use crate::model::Course;
use crate::text::{decimal, digit_char, push_char, push_decimal, push_str, push_two_digits, two_digits};
use crate::upstream::SIGN_TIMESTAMP_BUFFER_MS;

verus! {

/// The sign-in window opens at most this many minutes before class.
/// The first attempt falls at a random point of the window, to avoid
/// a rush at a fixed moment and pointless long retries.
pub const SIGN_WINDOW_MAX_LEAD_MINUTES: i64 = 5;

/// The sign-in window opens at least this many minutes before class.
pub const SIGN_WINDOW_MIN_LEAD_MINUTES: i64 = 1;

/// One minute, in milliseconds.
pub const MINUTE_MS: i64 = 60_000;

/// One hour, in milliseconds.
pub const HOUR_MS: i64 = 3_600_000;

/// One day, in milliseconds.
pub const DAY_MS: i64 = 86_400_000;

/// Interval between sign-in retries inside a window, in milliseconds.
pub const SIGN_RETRY_INTERVAL_MS: i64 = 60_000;

/// Daily maintenance (refetching the schedule across days) happens at 00:05.
pub const MAINTENANCE_HOUR: u32 = 0;
pub const MAINTENANCE_MINUTE: u32 = 5;

/// The earliest instant of chrono's `NaiveDateTime` (-262143-01-01 00:00:00).
pub const DATETIME_MIN_MS: i64 = -8_334_601_228_800_000;

/// The end of chrono's last representable day (262142-12-31 24:00:00).
pub const DATETIME_MAX_MS: i64 = 8_210_266_876_800_000;

/// Shape of the upstream time texts.
pub const UPSTREAM_TIME_FORMAT: &'static str = "%Y-%m-%d %H:%M:%S";

/// Whether `t` lies in the range of chrono's `NaiveDateTime`.
pub open spec fn is_datetime(t: int) -> bool {
    DATETIME_MIN_MS <= t <= DATETIME_MAX_MS
}

/// The instant that chrono reads from `raw` in the format `fmt`, if it reads one.
pub uninterp spec fn parsed_datetime_ms(raw: Seq<char>, fmt: Seq<char>) -> Option<i64>;

/// chrono `NaiveDateTime::parse_from_str(raw, fmt)`, the result turned into
/// milliseconds by `and_utc().timestamp_millis()`, for the upstream format
/// (whole seconds). The contract names the result and adds the range of
/// `NaiveDateTime` (`MIN` to `MAX`); a leap second read as `:60` counts one
/// extra second of milliseconds, so the last one of the range reaches
/// `DATETIME_MAX_MS` exactly. Other formats (fractions of a second) could pass
/// that bound, hence the requirement on `fmt`.
#[verifier::external_body]
fn chrono_parse_datetime_ms(raw: &str, fmt: &str) -> (r: Option<i64>)
    requires
        fmt@ == UPSTREAM_TIME_FORMAT@,
    ensures
        r == parsed_datetime_ms(raw@, fmt@),
        r matches Some(t) ==> is_datetime(t as int),
{
    match chrono::NaiveDateTime::parse_from_str(raw, fmt) {
        Ok(t) => Some(t.and_utc().timestamp_millis()),
        Err(_) => None,
    }
}

/// rand 0.8 `thread_rng().gen_range(low..=high)`: a random integer of the closed
/// range (the range is non-empty, else rand panics). Which one is left to chance.
#[verifier::external_body]
fn random_in_range(low: i64, high: i64) -> (r: i64)
    requires
        low <= high,
    ensures
        low <= r <= high,
{
    rand::Rng::gen_range(&mut rand::thread_rng(), low..=high)
}

/// A random sign-in lead (1..=5 minutes).
fn random_lead_minutes() -> (m: i64)
    ensures
        SIGN_WINDOW_MIN_LEAD_MINUTES <= m <= SIGN_WINDOW_MAX_LEAD_MINUTES,
{
    random_in_range(SIGN_WINDOW_MIN_LEAD_MINUTES, SIGN_WINDOW_MAX_LEAD_MINUTES)
}

/// Parses an upstream `yyyy-MM-dd HH:mm:ss` text.
pub fn parse_upstream_time(raw: &str) -> (r: Option<i64>)
    ensures
        r == parsed_datetime_ms(raw@, UPSTREAM_TIME_FORMAT@),
        r matches Some(t) ==> is_datetime(t as int),
{
    chrono_parse_datetime_ms(raw, UPSTREAM_TIME_FORMAT)
}

/// The sign-in timestamp for a server time: the server time minus
/// [`SIGN_TIMESTAMP_BUFFER_MS`], which offsets the skew between the two upstream servers.
pub fn sign_timestamp(server_time_ms: i64) -> (r: i64)
    requires
        server_time_ms >= i64::MIN + SIGN_TIMESTAMP_BUFFER_MS,
    ensures
        r == server_time_ms - SIGN_TIMESTAMP_BUFFER_MS,
{
    server_time_ms - SIGN_TIMESTAMP_BUFFER_MS
}

/// Offset of the maintenance point from the start of a day.
pub open spec fn maintenance_offset() -> int {
    MAINTENANCE_HOUR * HOUR_MS + MAINTENANCE_MINUTE * MINUTE_MS
}

/// The start (00:00) of the day that holds `t`.
pub open spec fn day_start(t: int) -> int {
    t - t % (DAY_MS as int)
}

/// The next daily maintenance point after `now`: today's 00:05 if it is still
/// ahead, else tomorrow's.
pub open spec fn spec_next_maintenance(now: int) -> int {
    let today = day_start(now) + maintenance_offset();
    if now < today {
        today
    } else {
        today + DAY_MS
    }
}

/// The next daily maintenance point (today's 00:05 if it is still ahead, else
/// tomorrow's 00:05).
pub fn next_maintenance(now: i64) -> (r: i64)
    requires
        is_datetime(now as int),
        is_datetime(spec_next_maintenance(now as int)),
    ensures
        r == spec_next_maintenance(now as int),
{
    let shifted: i64 = now - DATETIME_MIN_MS;
    let rem: i64 = shifted % DAY_MS;
    proof {
        vstd::arithmetic::div_mod::lemma_mod_multiples_vanish(-96465292, shifted as int, DAY_MS as int);
        assert(DAY_MS * -96465292 + shifted == now);
    }
    let offset: i64 = (MAINTENANCE_HOUR as i64) * HOUR_MS + (MAINTENANCE_MINUTE as i64) * MINUTE_MS;
    let today: i64 = now - rem + offset;
    if now < today {
        today
    } else {
        today + DAY_MS
    }
}

/// Law: the next maintenance point is strictly ahead of `now`, at most a day
/// ahead, and falls at 00:05 of its day.
pub proof fn lemma_next_maintenance_ahead(now: int)
    ensures
        now < spec_next_maintenance(now) <= now + DAY_MS,
        spec_next_maintenance(now) - day_start(spec_next_maintenance(now)) == maintenance_offset(),
{
    let d = DAY_MS as int;
    let today = day_start(now) + maintenance_offset();
    assert(0 <= now % d < d);
    if now < today {
        assert(day_start(today) == day_start(now)) by {
            vstd::arithmetic::div_mod::lemma_mod_multiples_vanish(now / d, maintenance_offset(), d);
            vstd::arithmetic::div_mod::lemma_fundamental_div_mod(now, d);
        }
    } else {
        assert(day_start(today + d) == day_start(now) + d) by {
            vstd::arithmetic::div_mod::lemma_mod_multiples_vanish(now / d + 1, maintenance_offset(), d);
            vstd::arithmetic::div_mod::lemma_fundamental_div_mod(now, d);
            assert(today + d == d * (now / d + 1) + maintenance_offset()) by (nonlinear_arith)
                requires
                    now == d * (now / d) + now % d,
                    today == now - now % d + maintenance_offset();
        }
    }
}

/// The milliseconds elapsed since the start of the day that holds `t`.
pub open spec fn ms_of_day(t: int) -> int {
    t % (DAY_MS as int)
}

/// `HH:MM` of the clock reading `t` (chrono's `%H:%M`).
pub open spec fn clock_hm(t: int) -> Seq<char> {
    let s = ms_of_day(t);
    two_digits((s / (HOUR_MS as int)) as nat) + seq![':'] + two_digits(((s % (HOUR_MS as int)) / (MINUTE_MS as int)) as nat)
}

/// `HH:MM:SS` of the clock reading `t` (chrono's `%H:%M:%S`).
pub open spec fn clock_hms(t: int) -> Seq<char> {
    clock_hm(t) + seq![':'] + two_digits(((ms_of_day(t) % (MINUTE_MS as int)) / 1000) as nat)
}

/// The milliseconds since the start of the day of `t`.
fn day_millis(t: i64) -> (r: i64)
    requires
        is_datetime(t as int),
    ensures
        r == ms_of_day(t as int),
        0 <= r < DAY_MS,
{
    let shifted: i64 = t - DATETIME_MIN_MS;
    proof {
        vstd::arithmetic::div_mod::lemma_mod_multiples_vanish(-96465292, shifted as int, DAY_MS as int);
        assert(DAY_MS * -96465292 + shifted == t);
    }
    shifted % DAY_MS
}

/// Appends `HH:MM` of the clock reading `t`.
pub fn push_clock_hm(s: &mut String, t: i64)
    requires
        is_datetime(t as int),
    ensures
        final(s)@ == old(s)@ + clock_hm(t as int),
{
    let ms = day_millis(t);
    push_two_digits(s, (ms / HOUR_MS) as u64);
    push_char(s, ':');
    push_two_digits(s, ((ms % HOUR_MS) / MINUTE_MS) as u64);
    assert(final(s)@ =~= old(s)@ + clock_hm(t as int));
}

/// Appends `HH:MM:SS` of the clock reading `t`.
pub fn push_clock_hms(s: &mut String, t: i64)
    requires
        is_datetime(t as int),
    ensures
        final(s)@ == old(s)@ + clock_hms(t as int),
{
    let ms = day_millis(t);
    push_clock_hm(s, t);
    push_char(s, ':');
    push_two_digits(s, ((ms % MINUTE_MS) / 1000) as u64);
    assert(final(s)@ =~= old(s)@ + clock_hms(t as int));
}

/// The kinds of wake-up event.
#[derive(Debug, Clone, Copy, PartialEq, Eq, Structural)]
pub enum EventKind {
    /// Daily maintenance: fetch the day's schedule.
    Maintenance,
    /// The sign-in window of a course opens.
    WindowOpen(usize),
    /// A course begins (last confirmation of the sign-in).
    ClassBegin(usize),
    /// A course ends (its task is over).
    ClassEnd(usize),
    /// Retry of a sign-in inside the window (60 s after a failure).
    SignRetry(usize),
    /// Automatic retry after a failed schedule refresh.
    RefreshRetry,
}

/// Whether the course index carried by `k`, if any, can be shown one-based.
pub open spec fn has_showable_index(k: EventKind) -> bool {
    match k {
        EventKind::WindowOpen(i) => i < usize::MAX,
        EventKind::ClassBegin(i) => i < usize::MAX,
        EventKind::ClassEnd(i) => i < usize::MAX,
        EventKind::SignRetry(i) => i < usize::MAX,
        _ => true,
    }
}

/// The readable description of an event.
pub open spec fn event_text(k: EventKind) -> Seq<char> {
    match k {
        EventKind::Maintenance => "每日维护：拉取当天课表"@,
        EventKind::WindowOpen(i) => "课程 "@ + crate::text::decimal((i + 1) as nat) + " 签到窗口开启"@,
        EventKind::ClassBegin(i) => "课程 "@ + crate::text::decimal((i + 1) as nat) + " 开始"@,
        EventKind::ClassEnd(i) => "课程 "@ + crate::text::decimal((i + 1) as nat) + " 结束"@,
        EventKind::SignRetry(i) => "课程 "@ + crate::text::decimal((i + 1) as nat) + " 签到重试"@,
        EventKind::RefreshRetry => "课表刷新重试"@,
    }
}

impl EventKind {
    /// Human-readable description (for the UI).
    pub fn describe(&self) -> (r: String)
        requires
            has_showable_index(*self),
        ensures
            r@ == event_text(*self),
    {
        let mut r = String::new();
        match self {
            EventKind::Maintenance => {
                push_str(&mut r, "每日维护：拉取当天课表");
            },
            EventKind::WindowOpen(idx) => {
                push_str(&mut r, "课程 ");
                push_decimal(&mut r, (*idx as u64) + 1);
                push_str(&mut r, " 签到窗口开启");
            },
            EventKind::ClassBegin(idx) => {
                push_str(&mut r, "课程 ");
                push_decimal(&mut r, (*idx as u64) + 1);
                push_str(&mut r, " 开始");
            },
            EventKind::ClassEnd(idx) => {
                push_str(&mut r, "课程 ");
                push_decimal(&mut r, (*idx as u64) + 1);
                push_str(&mut r, " 结束");
            },
            EventKind::SignRetry(idx) => {
                push_str(&mut r, "课程 ");
                push_decimal(&mut r, (*idx as u64) + 1);
                push_str(&mut r, " 签到重试");
            },
            EventKind::RefreshRetry => {
                push_str(&mut r, "课表刷新重试");
            },
        }
        assert(r@ =~= event_text(*self));
        r
    }
}


/// Whether `c` is a decimal digit.
pub open spec fn is_digit(c: char) -> bool {
    '0' <= c && c <= '9'
}

/// The decimal text of a number is made of digits, one exactly when the number is below ten.
proof fn lemma_decimal_shape(n: nat)
    ensures
        decimal(n).len() >= 1,
        decimal(n).len() == 1 <==> n < 10,
        forall|i: int| 0 <= i < decimal(n).len() ==> #[trigger] is_digit(decimal(n)[i]),
    decreases n,
{
    if n >= 10 {
        lemma_decimal_shape(n / 10);
        let d = decimal(n / 10);
        assert forall|i: int| 0 <= i < decimal(n).len() implies #[trigger] is_digit(decimal(n)[i]) by {
            if i < d.len() {
                assert(decimal(n)[i] == d[i]);
            }
        }
    }
}

/// Different numbers have different decimal texts.
proof fn lemma_decimal_injective(a: nat, b: nat)
    requires
        decimal(a) == decimal(b),
    ensures
        a == b,
    decreases a,
{
    lemma_decimal_shape(a);
    lemma_decimal_shape(b);
    if a < 10 {
        assert(b < 10);
        assert(decimal(a) == seq![digit_char(a)]);
        assert(decimal(b) == seq![digit_char(b)]);
        assert(seq![digit_char(a)][0] == digit_char(a));
        assert(seq![digit_char(b)][0] == digit_char(b));
        assert(decimal(a)[0] == decimal(b)[0]);
        lemma_digit_char_injective(a, b);
    } else {
        assert(b >= 10);
        assert(decimal(a) == decimal(a / 10).push(digit_char(a % 10)));
        assert(decimal(b) == decimal(b / 10).push(digit_char(b % 10)));
        assert(decimal(a).drop_last() == decimal(b).drop_last());
        assert(decimal(a).drop_last() =~= decimal(a / 10));
        assert(decimal(b).drop_last() =~= decimal(b / 10));
        assert(decimal(a).last() == digit_char(a % 10));
        assert(decimal(b).last() == digit_char(b % 10));
        lemma_decimal_injective(a / 10, b / 10);
        lemma_digit_char_injective(a % 10, b % 10);
    }
}

/// Different digits have different characters.
proof fn lemma_digit_char_injective(a: nat, b: nat)
    requires
        a < 10,
        b < 10,
        digit_char(a) == digit_char(b),
    ensures
        a == b,
{
    assert(digit_char(a) as int == 48 + a);
    assert(digit_char(b) as int == 48 + b);
}

/// Two texts made of a common prefix, a run of digits and a tail that starts
/// with a non-digit are equal only with equal digit runs and equal tails.
proof fn lemma_split_digit_run(p: Seq<char>, d1: Seq<char>, s1: Seq<char>, d2: Seq<char>, s2: Seq<char>)
    requires
        p + d1 + s1 == p + d2 + s2,
        forall|i: int| 0 <= i < d1.len() ==> #[trigger] is_digit(d1[i]),
        forall|i: int| 0 <= i < d2.len() ==> #[trigger] is_digit(d2[i]),
        s1.len() > 0 && !is_digit(s1[0]),
        s2.len() > 0 && !is_digit(s2[0]),
    ensures
        d1 == d2,
        s1 == s2,
{
    let t = p + d1 + s1;
    let u = p + d2 + s2;
    let n = p.len() as int;
    let l1 = d1.len() as int;
    let l2 = d2.len() as int;
    if d1.len() < d2.len() {
        assert(t[n + l1] == s1[0]);
        assert(u[n + l1] == d2[l1]);
    } else if d2.len() < d1.len() {
        assert(t[n + l2] == d1[l2]);
        assert(u[n + l2] == s2[0]);
    }
    assert(d1 =~= t.subrange(n, n + l1));
    assert(d2 =~= u.subrange(n, n + l2));
    assert(s1 =~= t.skip(n + l1));
    assert(s2 =~= u.skip(n + l2));
}

/// Law: different events are described differently.
pub proof fn lemma_event_text_injective(k1: EventKind, k2: EventKind)
    requires
        event_text(k1) == event_text(k2),
    ensures
        k1 == k2,
{
    reveal_strlit("每日维护：拉取当天课表");
    reveal_strlit("课表刷新重试");
    reveal_strlit("课程 ");
    reveal_strlit(" 签到窗口开启");
    reveal_strlit(" 开始");
    reveal_strlit(" 结束");
    reveal_strlit(" 签到重试");
    let t = event_text(k1);
    match (k1, k2) {
        (EventKind::Maintenance, EventKind::Maintenance) => {},
        (EventKind::RefreshRetry, EventKind::RefreshRetry) => {},
        (EventKind::Maintenance, EventKind::RefreshRetry) => {
            assert(event_text(k1)[0] != event_text(k2)[0]);
        },
        (EventKind::RefreshRetry, EventKind::Maintenance) => {
            assert(event_text(k1)[0] != event_text(k2)[0]);
        },
        (EventKind::Maintenance, _) => {
            assert(event_text(k1)[0] != event_text(k2)[0]);
        },
        (_, EventKind::Maintenance) => {
            assert(event_text(k1)[0] != event_text(k2)[0]);
        },
        (EventKind::RefreshRetry, _) => {
            assert(event_text(k1)[1] != event_text(k2)[1]);
        },
        (_, EventKind::RefreshRetry) => {
            assert(event_text(k1)[1] != event_text(k2)[1]);
        },
        _ => {
            let (i1, s1) = indexed_parts(k1);
            let (i2, s2) = indexed_parts(k2);
            lemma_decimal_shape((i1 + 1) as nat);
            lemma_decimal_shape((i2 + 1) as nat);
            lemma_split_digit_run("课程 "@, decimal((i1 + 1) as nat), s1, decimal((i2 + 1) as nat), s2);
            lemma_decimal_injective((i1 + 1) as nat, (i2 + 1) as nat);
            assert(" 签到窗口开启"@.len() == 7 && " 签到重试"@.len() == 5);
            assert(" 开始"@.len() == 3 && " 结束"@.len() == 3);
            assert(" 开始"@[1] != " 结束"@[1]);
            if s1 == " 开始"@ && s2 == " 结束"@ {
                assert(s1[1] != s2[1]);
            }
            if s1 == " 结束"@ && s2 == " 开始"@ {
                assert(s1[1] != s2[1]);
            }
        },
    }
}

/// The course index and the text after the number of an event that carries an index.
spec fn indexed_parts(k: EventKind) -> (int, Seq<char>) {
    match k {
        EventKind::WindowOpen(i) => (i as int, " 签到窗口开启"@),
        EventKind::ClassBegin(i) => (i as int, " 开始"@),
        EventKind::ClassEnd(i) => (i as int, " 结束"@),
        EventKind::SignRetry(i) => (i as int, " 签到重试"@),
        _ => (0, Seq::empty()),
    }
}

/// The whole timeline of one course's sign-in task.
#[derive(Debug, Clone, PartialEq, Eq)]
pub struct CourseTimeline {
    /// The course's schedule id (`courseSchedId`).
    pub course_id: String,
    pub course_name: String,
    /// The opening of the sign-in window: a random 1 to 5 minutes before class.
    pub window_open: i64,
    /// The beginning of the class.
    pub class_begin: i64,
    /// The end of the class.
    pub class_end: i64,
}

/// The current or nearest sign-in window (for the UI).
#[derive(Debug, Clone, PartialEq, Eq)]
pub struct SignWindowHint {
    pub course_name: String,
    /// The opening of the window.
    pub window_open: i64,
    /// The closing of the window (the end of class).
    pub class_end: i64,
}

/// The timeline of one day.
#[derive(Debug, Clone)]
pub struct Timeline {
    /// The day's courses, ordered by the opening of their windows.
    pub courses: Vec<CourseTimeline>,
}

impl Default for Timeline {
    fn default() -> (t: Self)
        ensures
            t.courses@ == Seq::<CourseTimeline>::empty(),
    {
        Timeline { courses: Vec::new() }
    }
}

/// Whether every instant of `c` lies in chrono's range.
pub open spec fn course_in_range(c: CourseTimeline) -> bool {
    &&& is_datetime(c.window_open as int)
    &&& is_datetime(c.class_begin as int)
    &&& is_datetime(c.class_end as int)
}

/// Whether every instant of every course lies in chrono's range.
pub open spec fn timeline_in_range(cs: Seq<CourseTimeline>) -> bool {
    forall|i: int| 0 <= i < cs.len() ==> #[trigger] course_in_range(cs[i])
}

/// The timeline entry of a course whose two times parse, its window opening
/// `lead` minutes before class.
pub open spec fn entry_of(c: Course, lead: i64) -> Option<CourseTimeline> {
    match (
        parsed_datetime_ms(c.class_begin_time@, UPSTREAM_TIME_FORMAT@),
        parsed_datetime_ms(c.class_end_time@, UPSTREAM_TIME_FORMAT@),
    ) {
        (Some(b), Some(e)) => Some(
            CourseTimeline {
                course_id: c.id,
                course_name: c.course_name,
                window_open: (b - lead * MINUTE_MS) as i64,
                class_begin: b,
                class_end: e,
            },
        ),
        _ => None,
    }
}

/// The entries of the courses whose times parse, in the courses' order
/// (`leads[i]` is the lead of `courses[i]`).
pub open spec fn entries_of(courses: Seq<Course>, leads: Seq<i64>) -> Seq<CourseTimeline>
    decreases courses.len(),
{
    if courses.len() == 0 {
        Seq::empty()
    } else {
        let before = entries_of(courses.drop_last(), leads.drop_last());
        match entry_of(courses.last(), leads.last()) {
            Some(e) => before.push(e),
            None => before,
        }
    }
}

/// Where a stable insertion puts an entry with window opening `key`: right after
/// the last entry that opens no later.
pub open spec fn insert_position(r: Seq<CourseTimeline>, key: i64) -> int
    decreases r.len(),
{
    if r.len() == 0 {
        0
    } else if r.last().window_open <= key {
        r.len() as int
    } else {
        insert_position(r.drop_last(), key)
    }
}

/// Stable insertion of `x` by window opening.
pub open spec fn insert_by_open(r: Seq<CourseTimeline>, x: CourseTimeline) -> Seq<CourseTimeline> {
    r.insert(insert_position(r, x.window_open), x)
}

/// `s` stably sorted by window opening (entries that open together keep their order).
pub open spec fn sorted_by_open(s: Seq<CourseTimeline>) -> Seq<CourseTimeline>
    decreases s.len(),
{
    if s.len() == 0 {
        s
    } else {
        insert_by_open(sorted_by_open(s.drop_last()), s.last())
    }
}

/// The timeline built from `courses` with the leads `leads`.
pub open spec fn timeline_of(courses: Seq<Course>, leads: Seq<i64>) -> Seq<CourseTimeline> {
    sorted_by_open(entries_of(courses, leads))
}

/// Whether every lead lies in 1..=5 minutes.
pub open spec fn leads_in_range(leads: Seq<i64>) -> bool {
    forall|i: int|
        0 <= i < leads.len() ==> SIGN_WINDOW_MIN_LEAD_MINUTES <= #[trigger] leads[i]
            <= SIGN_WINDOW_MAX_LEAD_MINUTES
}

/// Whether a window opening `lead` minutes before the class of `c` stays in
/// chrono's range (chrono panics on the subtraction otherwise).
pub open spec fn window_fits(c: Course, lead: int) -> bool {
    match (
        parsed_datetime_ms(c.class_begin_time@, UPSTREAM_TIME_FORMAT@),
        parsed_datetime_ms(c.class_end_time@, UPSTREAM_TIME_FORMAT@),
    ) {
        (Some(b), Some(_)) => b - lead * MINUTE_MS >= DATETIME_MIN_MS,
        _ => true,
    }
}

/// Whether every course's window fits in chrono's range, whatever lead it draws.
pub open spec fn windows_fit(courses: Seq<Course>) -> bool {
    forall|i: int|
        0 <= i < courses.len() ==> #[trigger] window_fits(courses[i], SIGN_WINDOW_MAX_LEAD_MINUTES as int)
}

/// Whether `s` is ordered by window opening.
pub open spec fn is_sorted_by_open(s: Seq<CourseTimeline>) -> bool {
    forall|i: int, j: int| 0 <= i <= j < s.len() ==> s[i].window_open <= s[j].window_open
}

/// Properties of the insertion position.
proof fn lemma_insert_position(r: Seq<CourseTimeline>, key: i64)
    ensures
        0 <= insert_position(r, key) <= r.len(),
        forall|i: int| insert_position(r, key) <= i < r.len() ==> r[i].window_open > key,
        insert_position(r, key) > 0 ==> r[insert_position(r, key) - 1].window_open <= key,
    decreases r.len(),
{
    if r.len() > 0 && r.last().window_open > key {
        lemma_insert_position(r.drop_last(), key);
        assert forall|i: int| insert_position(r, key) <= i < r.len() implies r[i].window_open > key by {
            if i < r.len() - 1 {
                assert(r[i] == r.drop_last()[i]);
            }
        }
    }
}

/// Inserting at the insertion position keeps an ordered sequence ordered.
proof fn lemma_insert_keeps_sorted(r: Seq<CourseTimeline>, x: CourseTimeline)
    requires
        is_sorted_by_open(r),
    ensures
        is_sorted_by_open(insert_by_open(r, x)),
{
    let p = insert_position(r, x.window_open);
    lemma_insert_position(r, x.window_open);
    r.insert_ensures(p, x);
    let s = insert_by_open(r, x);
    assert forall|i: int, j: int| 0 <= i <= j < s.len() implies s[i].window_open <= s[j].window_open by {
        if i < p {
            assert(r[i].window_open <= r[p - 1].window_open);
        }
        if j > p {
            assert(s[j] == r[j - 1]);
        }
        if i > p {
            assert(s[i] == r[i - 1]);
        }
    }
}

/// Inserting adds exactly the inserted entry to the multiset.
proof fn lemma_insert_multiset(r: Seq<CourseTimeline>, p: int, x: CourseTimeline)
    requires
        0 <= p <= r.len(),
    ensures
        r.insert(p, x).to_multiset() =~= r.to_multiset().insert(x),
{
    broadcast use vstd::seq_lib::group_to_multiset_ensures, vstd::multiset::group_multiset_axioms;
    let a = r.subrange(0, p);
    let b = r.subrange(p, r.len() as int);
    vstd::seq_lib::lemma_multiset_commutative(a.push(x), b);
    vstd::seq_lib::lemma_multiset_commutative(a, b);
    assert(a + b =~= r);
}

/// Law: a stably sorted timeline is ordered by window opening.
pub proof fn lemma_sorted_by_open_is_sorted(s: Seq<CourseTimeline>)
    ensures
        is_sorted_by_open(sorted_by_open(s)),
    decreases s.len(),
{
    if s.len() > 0 {
        lemma_sorted_by_open_is_sorted(s.drop_last());
        lemma_insert_keeps_sorted(sorted_by_open(s.drop_last()), s.last());
    }
}

/// Law: sorting neither loses nor adds entries.
pub proof fn lemma_sorted_by_open_permutes(s: Seq<CourseTimeline>)
    ensures
        sorted_by_open(s).to_multiset() =~= s.to_multiset(),
    decreases s.len(),
{
    broadcast use vstd::seq_lib::group_to_multiset_ensures;
    if s.len() > 0 {
        lemma_sorted_by_open_permutes(s.drop_last());
        let r = sorted_by_open(s.drop_last());
        lemma_insert_position(r, s.last().window_open);
        lemma_insert_multiset(r, insert_position(r, s.last().window_open), s.last());
        assert(s.drop_last().push(s.last()) =~= s);
    }
}

/// The entries of `s` whose window opens at `key`, in their order in `s`.
pub open spec fn opening_at(s: Seq<CourseTimeline>, key: i64) -> Seq<CourseTimeline> {
    s.filter(|c: CourseTimeline| c.window_open == key)
}

/// Inserting at the insertion position puts the entry after every entry that
/// opens at the same time.
proof fn lemma_insert_stable(r: Seq<CourseTimeline>, x: CourseTimeline, key: i64)
    ensures
        opening_at(insert_by_open(r, x), key) == (if x.window_open == key {
            opening_at(r, key).push(x)
        } else {
            opening_at(r, key)
        }),
{
    let pred = |c: CourseTimeline| c.window_open == key;
    let p = insert_position(r, x.window_open);
    lemma_insert_position(r, x.window_open);
    let a = r.take(p);
    let b = r.skip(p);
    assert(insert_by_open(r, x) =~= a + seq![x] + b);
    assert(r =~= a + b);
    Seq::filter_distributes_over_add(a + seq![x], b, pred);
    Seq::filter_distributes_over_add(a, seq![x], pred);
    Seq::filter_distributes_over_add(a, b, pred);
    Seq::<CourseTimeline>::empty().lemma_filter_push(x, pred);
    assert(Seq::<CourseTimeline>::empty().push(x) =~= seq![x]);
    reveal(Seq::filter);
    assert(Seq::<CourseTimeline>::empty().filter(pred) =~= Seq::<CourseTimeline>::empty());
    if x.window_open == key {
        let neg = |c: CourseTimeline| !pred(c);
        assert(b.all(neg)) by {
            assert forall|i: int| 0 <= i < b.len() implies #[trigger] neg(b[i]) by {
                assert(b[i] == r[p + i]);
            }
        }
        b.lemma_all_neg_filter_empty(pred);
        assert(b.filter(pred) =~= Seq::<CourseTimeline>::empty());
        assert(opening_at(r, key) =~= a.filter(pred));
        assert(opening_at(insert_by_open(r, x), key) =~= a.filter(pred).push(x));
    } else {
        assert(opening_at(insert_by_open(r, x), key) =~= a.filter(pred) + b.filter(pred));
    }
}

/// Law: the ordering is stable: the entries that open at the same time keep the
/// order they had.
pub proof fn lemma_sorted_by_open_stable(s: Seq<CourseTimeline>, key: i64)
    ensures
        opening_at(sorted_by_open(s), key) == opening_at(s, key),
    decreases s.len(),
{
    if s.len() > 0 {
        let pred = |c: CourseTimeline| c.window_open == key;
        lemma_sorted_by_open_stable(s.drop_last(), key);
        lemma_insert_stable(sorted_by_open(s.drop_last()), s.last(), key);
        s.drop_last().lemma_filter_push(s.last(), pred);
        assert(s.drop_last().push(s.last()) =~= s);
    }
}

/// Stable insertion sort by window opening.
fn sort_by_open(v: Vec<CourseTimeline>) -> (r: Vec<CourseTimeline>)
    ensures
        r@ == sorted_by_open(v@),
{
    let ghost orig = v@;
    let mut rest = v;
    let mut r: Vec<CourseTimeline> = Vec::new();
    let ghost mut k: int = 0;
    assert(orig.skip(0) =~= orig);
    assert(orig.take(0) =~= Seq::<CourseTimeline>::empty());
    while rest.len() > 0
        invariant
            orig.len() == k + rest.len(),
            0 <= k <= orig.len(),
            rest@ == orig.skip(k),
            r@ == sorted_by_open(orig.take(k)),
        decreases rest.len(),
    {
        let x = rest.remove(0);
        let key = x.window_open;
        let mut j: usize = r.len();
        assert(r@.take(j as int) =~= r@);
        while j > 0 && r[j - 1].window_open > key
            invariant
                j <= r.len(),
                insert_position(r@, key) == insert_position(r@.take(j as int), key),
            decreases j,
        {
            assert(r@.take(j as int).drop_last() =~= r@.take(j - 1));
            j -= 1;
        }
        assert(insert_position(r@.take(j as int), key) == j);
        proof {
            assert(orig.take(k + 1).drop_last() =~= orig.take(k));
            assert(orig.take(k + 1).last() == x);
            assert(rest@ =~= orig.skip(k + 1));
            k = k + 1;
        }
        r.insert(j, x);
    }
    assert(orig.take(k) =~= orig);
    r
}

/// Whether `c` lies in chrono's range and its window opens 1 to 5 minutes before class.
pub open spec fn entry_well_placed(c: CourseTimeline) -> bool {
    &&& course_in_range(c)
    &&& c.class_begin - SIGN_WINDOW_MAX_LEAD_MINUTES * MINUTE_MS <= c.window_open
    &&& c.window_open <= c.class_begin - SIGN_WINDOW_MIN_LEAD_MINUTES * MINUTE_MS
}

/// Whether the times of `c` that parse lie in chrono's range (chrono's parser
/// gives nothing else; the fact is learnt at each call of the parser).
pub open spec fn times_in_range(c: Course) -> bool {
    &&& parsed_datetime_ms(c.class_begin_time@, UPSTREAM_TIME_FORMAT@) matches Some(b) ==> is_datetime(b as int)
    &&& parsed_datetime_ms(c.class_end_time@, UPSTREAM_TIME_FORMAT@) matches Some(e) ==> is_datetime(e as int)
}

/// Whether the times of every course that parse lie in chrono's range.
pub open spec fn all_times_in_range(courses: Seq<Course>) -> bool {
    forall|i: int| 0 <= i < courses.len() ==> #[trigger] times_in_range(courses[i])
}

/// Whether each course's window, opening its lead before class, stays in chrono's range.
pub open spec fn leads_fit(courses: Seq<Course>, leads: Seq<i64>) -> bool {
    forall|i: int| 0 <= i < courses.len() ==> #[trigger] window_fits(courses[i], leads[i] as int)
}

proof fn lemma_entries_well_placed(courses: Seq<Course>, leads: Seq<i64>)
    requires
        all_times_in_range(courses),
        leads.len() == courses.len(),
        leads_in_range(leads),
        leads_fit(courses, leads),
    ensures
        forall|k: int|
            0 <= k < entries_of(courses, leads).len() ==> #[trigger] entry_well_placed(
                entries_of(courses, leads)[k],
            ),
    decreases courses.len(),
{
    if courses.len() > 0 {
        let n = courses.len() - 1;
        assert(leads_in_range(leads.drop_last())) by {
            assert forall|i: int| 0 <= i < leads.drop_last().len() implies SIGN_WINDOW_MIN_LEAD_MINUTES
                <= #[trigger] leads.drop_last()[i] <= SIGN_WINDOW_MAX_LEAD_MINUTES by {
                assert(leads.drop_last()[i] == leads[i]);
            }
        }
        assert(leads_fit(courses.drop_last(), leads.drop_last())) by {
            assert forall|i: int| 0 <= i < courses.drop_last().len() implies #[trigger] window_fits(
                courses.drop_last()[i],
                leads.drop_last()[i] as int,
            ) by {
                assert(courses.drop_last()[i] == courses[i]);
                assert(leads.drop_last()[i] == leads[i]);
            }
        }
        assert(all_times_in_range(courses.drop_last())) by {
            assert forall|i: int| 0 <= i < courses.drop_last().len() implies #[trigger] times_in_range(
                courses.drop_last()[i],
            ) by {
                assert(courses.drop_last()[i] == courses[i]);
            }
        }
        lemma_entries_well_placed(courses.drop_last(), leads.drop_last());
        assert(window_fits(courses[n], leads[n] as int));
        assert(times_in_range(courses[n]));
        assert(SIGN_WINDOW_MIN_LEAD_MINUTES <= leads[n] <= SIGN_WINDOW_MAX_LEAD_MINUTES);
        let before = entries_of(courses.drop_last(), leads.drop_last());
        assert(courses.last() == courses[n]);
        assert(leads.last() == leads[n]);
        match entry_of(courses.last(), leads.last()) {
            Some(e) => {
                assert(entries_of(courses, leads) == before.push(e));
                assert(entry_well_placed(e));
                assert forall|k: int| 0 <= k < before.push(e).len() implies #[trigger] entry_well_placed(
                    before.push(e)[k],
                ) by {
                    if k < before.len() {
                        assert(before.push(e)[k] == before[k]);
                    }
                }
            },
            None => {},
        }
    }
}

/// Law: a timeline built with leads of 1 to 5 minutes (each window staying in
/// chrono's range) is ordered by window opening, holds exactly the courses whose
/// times parse, and opens each window 1 to 5 minutes before its class.
pub proof fn lemma_timeline_of(courses: Seq<Course>, leads: Seq<i64>)
    requires
        all_times_in_range(courses),
        leads.len() == courses.len(),
        leads_in_range(leads),
        leads_fit(courses, leads),
    ensures
        is_sorted_by_open(timeline_of(courses, leads)),
        timeline_of(courses, leads).to_multiset() =~= entries_of(courses, leads).to_multiset(),
        forall|k: int|
            0 <= k < timeline_of(courses, leads).len() ==> #[trigger] entry_well_placed(
                timeline_of(courses, leads)[k],
            ),
{
    broadcast use vstd::seq_lib::group_to_multiset_ensures;
    let e = entries_of(courses, leads);
    let t = timeline_of(courses, leads);
    lemma_sorted_by_open_is_sorted(e);
    lemma_sorted_by_open_permutes(e);
    lemma_entries_well_placed(courses, leads);
    assert forall|k: int| 0 <= k < t.len() implies #[trigger] entry_well_placed(t[k]) by {
        assert(t.contains(t[k]));
        assert(t.to_multiset().count(t[k]) > 0);
        assert(e.contains(t[k]));
        let idx = choose|idx: int| 0 <= idx < e.len() && e[idx] == t[k];
        assert(entry_well_placed(e[idx]));
    }
}

/// The next event to wake up for.
#[derive(Debug, Clone, Copy, PartialEq, Eq, Structural)]
pub struct Wakeup {
    /// When the event happens.
    pub at: i64,
    /// What the event is.
    pub kind: EventKind,
    /// How far it lies from now, in milliseconds.
    pub delay: i64,
}

/// Event `j` (0: window opens, 1: class begins, 2: class ends) of course `i`.
pub open spec fn event_of(c: CourseTimeline, i: int, j: int) -> (EventKind, i64) {
    if j == 0 {
        (EventKind::WindowOpen(i as usize), c.window_open)
    } else if j == 1 {
        (EventKind::ClassBegin(i as usize), c.class_begin)
    } else {
        (EventKind::ClassEnd(i as usize), c.class_end)
    }
}

/// Whether event `j` of course `i` is still ahead of `now`.
pub open spec fn upcoming(cs: Seq<CourseTimeline>, now: int, i: int, j: int) -> bool {
    &&& 0 <= i < cs.len()
    &&& 0 <= j < 3
    &&& event_of(cs[i], i, j).1 > now
}

/// Whether event slot `(i1, j1)` comes before slot `(i2, j2)` (course by course,
/// and within a course: window, begin, end).
pub open spec fn slot_before(i1: int, j1: int, i2: int, j2: int) -> bool {
    i1 < i2 || (i1 == i2 && j1 < j2)
}

/// Whether `w` is the wake-up chosen among the maintenance point and the
/// upcoming events of the slots before `(n, k)`: the earliest of them, the
/// maintenance point on a tie with it, else the first slot among equals.
pub open spec fn earliest_before(cs: Seq<CourseTimeline>, now: int, n: int, k: int, w: Wakeup) -> bool {
    let m = spec_next_maintenance(now);
    &&& w.delay == w.at - now
    &&& w.at <= m
    &&& forall|i: int, j: int|
        #![trigger upcoming(cs, now, i, j)]
        upcoming(cs, now, i, j) && slot_before(i, j, n, k) ==> w.at <= event_of(cs[i], i, j).1
    &&& {
        ||| (w.kind == EventKind::Maintenance && w.at == m)
        ||| exists|i: int, j: int|
            #![trigger upcoming(cs, now, i, j)]
            {
                &&& upcoming(cs, now, i, j)
                &&& slot_before(i, j, n, k)
                &&& event_of(cs[i], i, j) == (w.kind, w.at)
                &&& w.at < m
                &&& forall|i2: int, j2: int|
                    #![trigger upcoming(cs, now, i2, j2)]
                    upcoming(cs, now, i2, j2) && slot_before(i2, j2, i, j) ==> w.at < event_of(
                        cs[i2],
                        i2,
                        j2,
                    ).1
            }
    }
}

/// Whether `w` is the next wake-up of the timeline `cs` at `now`: the earliest of
/// the next maintenance point and the upcoming window, begin and end events (the
/// maintenance point wins a tie, then the earliest course and event).
pub open spec fn is_next_wakeup(cs: Seq<CourseTimeline>, now: int, w: Wakeup) -> bool {
    earliest_before(cs, now, cs.len() as int, 0, w)
}

/// Considering slot `(i, j)` after all slots before it.
proof fn lemma_consider_slot(cs: Seq<CourseTimeline>, now: int, i: int, j: int, b: Wakeup, b2: Wakeup)
    requires
        0 <= i < cs.len(),
        0 <= j < 3,
        earliest_before(cs, now, i, j, b),
        b2 == (if event_of(cs[i], i, j).1 > now && event_of(cs[i], i, j).1 < b.at {
            Wakeup {
                at: event_of(cs[i], i, j).1,
                kind: event_of(cs[i], i, j).0,
                delay: (event_of(cs[i], i, j).1 - now) as i64,
            }
        } else {
            b
        }),
        b2.delay == b2.at - now,
    ensures
        j < 2 ==> earliest_before(cs, now, i, j + 1, b2),
        j == 2 ==> earliest_before(cs, now, i + 1, 0, b2),
{
    let (ni, nj) = if j < 2 { (i, j + 1) } else { (i + 1, 0) };
    let m = spec_next_maintenance(now);
    assert forall|i1: int, j1: int|
        #![trigger upcoming(cs, now, i1, j1)]
        upcoming(cs, now, i1, j1) && slot_before(i1, j1, ni, nj) implies b2.at <= event_of(cs[i1], i1, j1).1 by {
        if slot_before(i1, j1, i, j) {
        } else {
            assert(i1 == i && j1 == j);
        }
    }
    if b2 == b {
        if b.kind == EventKind::Maintenance && b.at == m {
        } else {
            let (wi, wj) = choose|wi: int, wj: int|
                #![trigger upcoming(cs, now, wi, wj)]
                {
                    &&& upcoming(cs, now, wi, wj)
                    &&& slot_before(wi, wj, i, j)
                    &&& event_of(cs[wi], wi, wj) == (b.kind, b.at)
                    &&& b.at < m
                    &&& forall|i2: int, j2: int|
                        #![trigger upcoming(cs, now, i2, j2)]
                        upcoming(cs, now, i2, j2) && slot_before(i2, j2, wi, wj) ==> b.at < event_of(
                            cs[i2],
                            i2,
                            j2,
                        ).1
                };
            assert(upcoming(cs, now, wi, wj) && slot_before(wi, wj, ni, nj));
        }
    } else {
        assert(upcoming(cs, now, i, j) && slot_before(i, j, ni, nj));
        assert forall|i2: int, j2: int|
            #![trigger upcoming(cs, now, i2, j2)]
            upcoming(cs, now, i2, j2) && slot_before(i2, j2, i, j) implies b2.at < event_of(cs[i2], i2, j2).1 by {
            assert(b.at <= event_of(cs[i2], i2, j2).1);
        }
    }
}

/// Law: the next wake-up lies strictly ahead of `now` and no later than the
/// next maintenance point.
pub proof fn lemma_next_wakeup_ahead(cs: Seq<CourseTimeline>, now: int, w: Wakeup)
    requires
        is_next_wakeup(cs, now, w),
    ensures
        now < w.at <= spec_next_maintenance(now),
        w.delay > 0,
{
    lemma_next_maintenance_ahead(now);
    let m = spec_next_maintenance(now);
    if !(w.kind == EventKind::Maintenance && w.at == m) {
        let (i, j) = choose|i: int, j: int|
            #![trigger upcoming(cs, now, i, j)]
            upcoming(cs, now, i, j) && slot_before(i, j, cs.len() as int, 0) && event_of(cs[i], i, j)
                == (w.kind, w.at) && w.at < m;
    }
}

/// Law: the next wake-up is determined by the timeline and the time alone.
pub proof fn lemma_next_wakeup_unique(cs: Seq<CourseTimeline>, now: int, w1: Wakeup, w2: Wakeup)
    requires
        is_next_wakeup(cs, now, w1),
        is_next_wakeup(cs, now, w2),
    ensures
        w1 == w2,
{
    let n = cs.len() as int;
    let m = spec_next_maintenance(now);
    if w1.kind == EventKind::Maintenance && w1.at == m {
        if !(w2.kind == EventKind::Maintenance && w2.at == m) {
            let (i, j) = choose|i: int, j: int|
                #![trigger upcoming(cs, now, i, j)]
                upcoming(cs, now, i, j) && slot_before(i, j, n, 0) && event_of(cs[i], i, j) == (
                    w2.kind,
                    w2.at,
                ) && w2.at < m;
            assert(w1.at <= event_of(cs[i], i, j).1);
        }
    } else {
        let (i1, j1) = choose|i: int, j: int|
            #![trigger upcoming(cs, now, i, j)]
            {
                &&& upcoming(cs, now, i, j)
                &&& slot_before(i, j, n, 0)
                &&& event_of(cs[i], i, j) == (w1.kind, w1.at)
                &&& w1.at < m
                &&& forall|i2: int, j2: int|
                    #![trigger upcoming(cs, now, i2, j2)]
                    upcoming(cs, now, i2, j2) && slot_before(i2, j2, i, j) ==> w1.at < event_of(
                        cs[i2],
                        i2,
                        j2,
                    ).1
            };
        if w2.kind == EventKind::Maintenance && w2.at == m {
            assert(w2.at <= event_of(cs[i1], i1, j1).1);
        } else {
            let (i2, j2) = choose|i: int, j: int|
                #![trigger upcoming(cs, now, i, j)]
                {
                    &&& upcoming(cs, now, i, j)
                    &&& slot_before(i, j, n, 0)
                    &&& event_of(cs[i], i, j) == (w2.kind, w2.at)
                    &&& w2.at < m
                    &&& forall|i3: int, j3: int|
                        #![trigger upcoming(cs, now, i3, j3)]
                        upcoming(cs, now, i3, j3) && slot_before(i3, j3, i, j) ==> w2.at < event_of(
                            cs[i3],
                            i3,
                            j3,
                        ).1
                };
            assert(w1.at <= event_of(cs[i2], i2, j2).1);
            assert(w2.at <= event_of(cs[i1], i1, j1).1);
            if slot_before(i1, j1, i2, j2) {
                assert(w2.at < event_of(cs[i1], i1, j1).1);
            } else if slot_before(i2, j2, i1, j1) {
                assert(w1.at < event_of(cs[i2], i2, j2).1);
            } else {
                assert(i1 == i2 && j1 == j2);
            }
        }
    }
}

/// Whether `now` lies inside the sign-in window of `c` (window opening to class end).
pub open spec fn in_sign_window(c: CourseTimeline, now: int) -> bool {
    c.window_open <= now <= c.class_end
}

/// The hint of a course's window.
pub open spec fn hint_of(c: CourseTimeline) -> SignWindowHint {
    SignWindowHint { course_name: c.course_name, window_open: c.window_open, class_end: c.class_end }
}

/// Whether course `i` is the first course not over at `now`.
pub open spec fn is_first_unfinished(cs: Seq<CourseTimeline>, now: int, i: int) -> bool {
    &&& 0 <= i < cs.len()
    &&& now <= cs[i].class_end
    &&& forall|k: int| 0 <= k < i ==> now > #[trigger] cs[k].class_end
}

impl Timeline {
    /// Whether every instant of the timeline lies in chrono's range.
    pub open spec fn well_formed(&self) -> bool {
        timeline_in_range(self.courses@)
    }

    /// The next wake-up event from `now`: while some course is unfinished, the
    /// nearest upcoming event (window opens / class begins / class ends); once
    /// all are over, the next daily maintenance point.
    pub fn next_wakeup(&self, now: i64) -> (w: Wakeup)
        requires
            self.well_formed(),
            is_datetime(now as int),
            is_datetime(spec_next_maintenance(now as int)),
        ensures
            is_next_wakeup(self.courses@, now as int, w),
    {
        let maintenance = next_maintenance(now);
        let mut best = Wakeup { at: maintenance, kind: EventKind::Maintenance, delay: maintenance - now };
        let n = self.courses.len();
        let mut idx: usize = 0;
        while idx < n
            invariant
                idx <= n,
                n == self.courses@.len(),
                self.well_formed(),
                is_datetime(now as int),
                is_datetime(best.at as int),
                earliest_before(self.courses@, now as int, idx as int, 0, best),
            decreases n - idx,
        {
            let c = &self.courses[idx];
            assert(course_in_range(self.courses@[idx as int]));
            let ghost b0 = best;
            if c.window_open > now && c.window_open < best.at {
                best = Wakeup { at: c.window_open, kind: EventKind::WindowOpen(idx), delay: c.window_open - now };
            }
            proof { lemma_consider_slot(self.courses@, now as int, idx as int, 0, b0, best); }
            let ghost b1 = best;
            if c.class_begin > now && c.class_begin < best.at {
                best = Wakeup { at: c.class_begin, kind: EventKind::ClassBegin(idx), delay: c.class_begin - now };
            }
            proof { lemma_consider_slot(self.courses@, now as int, idx as int, 1, b1, best); }
            let ghost b2 = best;
            if c.class_end > now && c.class_end < best.at {
                best = Wakeup { at: c.class_end, kind: EventKind::ClassEnd(idx), delay: c.class_end - now };
            }
            proof { lemma_consider_slot(self.courses@, now as int, idx as int, 2, b2, best); }
            idx += 1;
        }
        best
    }

    /// The index of the first course whose sign-in window holds `now`.
    pub fn active_sign_window(&self, now: i64) -> (r: Option<usize>)
        ensures
            match r {
                Some(i) => {
                    &&& i < self.courses@.len()
                    &&& in_sign_window(self.courses@[i as int], now as int)
                    &&& forall|k: int| 0 <= k < i ==> !in_sign_window(#[trigger] self.courses@[k], now as int)
                },
                None => forall|k: int|
                    0 <= k < self.courses@.len() ==> !in_sign_window(#[trigger] self.courses@[k], now as int),
            },
    {
        let mut i: usize = 0;
        while i < self.courses.len()
            invariant
                i <= self.courses@.len(),
                forall|k: int| 0 <= k < i ==> !in_sign_window(#[trigger] self.courses@[k], now as int),
            decreases self.courses.len() - i,
        {
            let c = &self.courses[i];
            if c.window_open <= now && now <= c.class_end {
                return Some(i);
            }
            i += 1;
        }
        None
    }

    /// The current or nearest sign-in window: the first course not over yet
    /// (inside its window, or the next window ahead). `None` once every course is over.
    pub fn sign_window_hint(&self, now: i64) -> (r: Option<SignWindowHint>)
        ensures
            match r {
                Some(h) => exists|i: int| is_first_unfinished(self.courses@, now as int, i) && h == hint_of(self.courses@[i]),
                None => forall|k: int| 0 <= k < self.courses@.len() ==> now > #[trigger] self.courses@[k].class_end,
            },
    {
        let mut i: usize = 0;
        while i < self.courses.len()
            invariant
                i <= self.courses@.len(),
                forall|k: int| 0 <= k < i ==> now > #[trigger] self.courses@[k].class_end,
            decreases self.courses.len() - i,
        {
            let c = &self.courses[i];
            if now <= c.class_end {
                let h = SignWindowHint {
                    course_name: c.course_name.clone(),
                    window_open: c.window_open,
                    class_end: c.class_end,
                };
                assert(is_first_unfinished(self.courses@, now as int, i as int));
                return Some(h);
            }
            i += 1;
        }
        None
    }

    /// Builds the timeline of a day from its schedule with given leads: the
    /// window of `courses[i]` opens `leads[i]` minutes before its class. Courses
    /// whose times do not parse (malformed) are skipped; the rest are stably
    /// ordered by the opening of their windows.
    pub fn from_courses_with_leads(courses: &[Course], leads: &[i64]) -> (t: Timeline)
        requires
            leads.len() == courses.len(),
            leads_in_range(leads@),
            leads_fit(courses@, leads@),
        ensures
            t.courses@ == timeline_of(courses@, leads@),
            t.well_formed(),
            is_sorted_by_open(t.courses@),
            forall|k: int| 0 <= k < t.courses@.len() ==> #[trigger] entry_well_placed(t.courses@[k]),
    {
        let mut list: Vec<CourseTimeline> = Vec::new();
        let mut i: usize = 0;
        assert(courses@.take(0) =~= Seq::<Course>::empty());
        while i < courses.len()
            invariant
                i <= courses.len(),
                leads.len() == courses.len(),
                leads_in_range(leads@),
                leads_fit(courses@, leads@),
                forall|k: int| 0 <= k < i ==> #[trigger] times_in_range(courses@[k]),
                list@ == entries_of(courses@.take(i as int), leads@.take(i as int)),
            decreases courses.len() - i,
        {
            let c = &courses[i];
            let lead = leads[i];
            assert(window_fits(courses@[i as int], leads@[i as int] as int));
            assert(SIGN_WINDOW_MIN_LEAD_MINUTES <= leads@[i as int] <= SIGN_WINDOW_MAX_LEAD_MINUTES);
            let begin = parse_upstream_time(c.class_begin_time.as_str());
            let end = parse_upstream_time(c.class_end_time.as_str());
            assert(times_in_range(courses@[i as int]));
            proof {
                assert(courses@.take(i + 1).drop_last() =~= courses@.take(i as int));
                assert(leads@.take(i + 1).drop_last() =~= leads@.take(i as int));
                assert(courses@.take(i + 1).last() == courses@[i as int]);
                assert(leads@.take(i + 1).last() == leads@[i as int]);
            }
            match (begin, end) {
                (Some(b), Some(e)) => {
                    list.push(
                        CourseTimeline {
                            course_id: c.id.clone(),
                            course_name: c.course_name.clone(),
                            window_open: b - lead * MINUTE_MS,
                            class_begin: b,
                            class_end: e,
                        },
                    );
                },
                _ => {},
            }
            i += 1;
        }
        assert(courses@.take(courses.len() as int) =~= courses@);
        assert(leads@.take(leads.len() as int) =~= leads@);
        proof {
            lemma_timeline_of(courses@, leads@);
        }
        let sorted = sort_by_open(list);
        assert forall|k: int| 0 <= k < sorted@.len() implies #[trigger] course_in_range(sorted@[k]) by {
            assert(entry_well_placed(sorted@[k]));
        }
        Timeline { courses: sorted }
    }

    /// Builds the timeline of a day from its schedule. Courses whose times do not
    /// parse (malformed) are skipped. Each window opens at a random point 1 to 5
    /// minutes before class; the courses are ordered by the opening of their windows.
    pub fn from_courses(courses: &[Course]) -> (t: Timeline)
        requires
            windows_fit(courses@),
        ensures
            exists|leads: Seq<i64>|
                {
                    &&& leads.len() == courses@.len()
                    &&& leads_in_range(leads)
                    &&& t.courses@ == timeline_of(courses@, leads)
                },
            t.well_formed(),
            is_sorted_by_open(t.courses@),
            forall|k: int| 0 <= k < t.courses@.len() ==> #[trigger] entry_well_placed(t.courses@[k]),
    {
        let mut leads: Vec<i64> = Vec::new();
        let mut i: usize = 0;
        while i < courses.len()
            invariant
                i <= courses.len(),
                leads.len() == i,
                windows_fit(courses@),
                leads_in_range(leads@),
                forall|k: int| 0 <= k < i ==> #[trigger] window_fits(courses@[k], leads@[k] as int),
            decreases courses.len() - i,
        {
            let c = &courses[i];
            let begin = parse_upstream_time(c.class_begin_time.as_str());
            let end = parse_upstream_time(c.class_end_time.as_str());
            let lead = if begin.is_some() && end.is_some() {
                random_lead_minutes()
            } else {
                SIGN_WINDOW_MIN_LEAD_MINUTES
            };
            assert(window_fits(courses@[i as int], SIGN_WINDOW_MAX_LEAD_MINUTES as int));
            leads.push(lead);
            assert(window_fits(courses@[i as int], leads@[i as int] as int));
            i += 1;
        }
        let t = Timeline::from_courses_with_leads(courses, leads.as_slice());
        assert(leads@.len() == courses@.len() && leads_in_range(leads@) && t.courses@ == timeline_of(courses@, leads@));
        t
    }

    /// Builds the timeline of a day as [`Timeline::from_courses`] does, or gives
    /// `None` where some class begins so early that its window could leave chrono's
    /// range (where the window computation would panic).
    pub fn try_from_courses(courses: &[Course]) -> (r: Option<Timeline>)
        ensures
            r is Some <==> windows_fit(courses@),
            r matches Some(t) ==> {
                &&& exists|leads: Seq<i64>|
                    {
                        &&& leads.len() == courses@.len()
                        &&& leads_in_range(leads)
                        &&& t.courses@ == timeline_of(courses@, leads)
                    }
                &&& t.well_formed()
                &&& is_sorted_by_open(t.courses@)
                &&& forall|k: int| 0 <= k < t.courses@.len() ==> #[trigger] entry_well_placed(t.courses@[k])
            },
    {
        let mut i: usize = 0;
        while i < courses.len()
            invariant
                i <= courses.len(),
                forall|k: int| 0 <= k < i ==> #[trigger] window_fits(courses@[k], SIGN_WINDOW_MAX_LEAD_MINUTES as int),
            decreases courses.len() - i,
        {
            let c = &courses[i];
            let begin = parse_upstream_time(c.class_begin_time.as_str());
            let end = parse_upstream_time(c.class_end_time.as_str());
            match (begin, end) {
                (Some(b), Some(_)) => {
                    if b - SIGN_WINDOW_MAX_LEAD_MINUTES * MINUTE_MS < DATETIME_MIN_MS {
                        assert(!window_fits(courses@[i as int], SIGN_WINDOW_MAX_LEAD_MINUTES as int));
                        return None;
                    }
                },
                _ => {},
            }
            i += 1;
        }
        Some(Timeline::from_courses(courses))
    }
}

} // verus!
