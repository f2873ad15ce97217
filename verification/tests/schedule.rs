use chrono::NaiveDateTime;
use course_signin::model::Course;
use course_signin::schedule::{
    next_maintenance, parse_upstream_time, sign_timestamp, CourseTimeline, EventKind, Timeline,
    DATETIME_MAX_MS, DATETIME_MIN_MS, MINUTE_MS, SIGN_WINDOW_MAX_LEAD_MINUTES,
    SIGN_WINDOW_MIN_LEAD_MINUTES,
};
use course_signin::upstream::SIGN_TIMESTAMP_BUFFER_MS;

fn dt(s: &str) -> i64 {
    NaiveDateTime::parse_from_str(s, "%Y-%m-%d %H:%M:%S")
        .expect("合法时间")
        .and_utc()
        .timestamp_millis()
}

fn course(id: &str, begin: &str, end: &str) -> Course {
    Course {
        id: id.into(),
        uuid: "UUID".into(),
        course_name: format!("课程{id}"),
        teacher_name: "老师".into(),
        week_day: "周一".into(),
        class_begin_time: begin.into(),
        class_end_time: end.into(),
        sign_status: "0".into(),
    }
}

#[test]
fn builds_timeline_with_window_open() {
    let timeline =
        Timeline::from_courses(&[course("1", "2026-09-21 18:30:00", "2026-09-21 21:00:00")]);
    assert_eq!(timeline.courses.len(), 1);
    let c = &timeline.courses[0];
    let begin = dt("2026-09-21 18:30:00");
    assert!(c.window_open >= begin - SIGN_WINDOW_MAX_LEAD_MINUTES * MINUTE_MS);
    assert!(c.window_open <= begin - SIGN_WINDOW_MIN_LEAD_MINUTES * MINUTE_MS);
    assert_eq!(c.class_begin, begin);
    assert_eq!(c.class_end, dt("2026-09-21 21:00:00"));
}

#[test]
fn skips_courses_with_bad_time() {
    let mut bad = course("1", "2026-09-21 18:30:00", "2026-09-21 21:00:00");
    bad.class_begin_time = "格式错误".into();
    let timeline = Timeline::from_courses(&[bad]);
    assert!(timeline.courses.is_empty());
}

#[test]
fn next_wakeup_finds_earliest_event() {
    let timeline = Timeline::from_courses(&[
        course("1", "2026-09-21 18:30:00", "2026-09-21 21:00:00"),
        course("2", "2026-09-21 10:00:00", "2026-09-21 12:00:00"),
    ]);
    let wake = timeline.next_wakeup(dt("2026-09-21 09:00:00"));
    let begin2 = dt("2026-09-21 10:00:00");
    assert!(
        wake.at >= begin2 - SIGN_WINDOW_MAX_LEAD_MINUTES * MINUTE_MS
            && wake.at <= begin2 - SIGN_WINDOW_MIN_LEAD_MINUTES * MINUTE_MS,
        "窗口应在课前 1~5 分钟，实际 {}",
        wake.at
    );
    assert!(wake.delay >= 55 * MINUTE_MS && wake.delay <= 59 * MINUTE_MS);
}

#[test]
fn next_wakeup_skips_past_events() {
    let timeline =
        Timeline::from_courses(&[course("1", "2026-09-21 18:30:00", "2026-09-21 21:00:00")]);
    let wake = timeline.next_wakeup(dt("2026-09-21 19:00:00"));
    assert_eq!(wake.at, dt("2026-09-21 21:00:00"));
}

#[test]
fn next_wakeup_sleeps_until_maintenance_when_all_done() {
    let timeline =
        Timeline::from_courses(&[course("1", "2026-09-21 18:30:00", "2026-09-21 21:00:00")]);
    let wake = timeline.next_wakeup(dt("2026-09-21 22:00:00"));
    assert_eq!(wake.at, dt("2026-09-22 00:05:00"));
}

#[test]
fn next_maintenance_handles_same_day_and_next_day() {
    assert_eq!(
        next_maintenance(dt("2026-09-21 00:01:00")),
        dt("2026-09-21 00:05:00")
    );
    assert_eq!(
        next_maintenance(dt("2026-09-21 12:00:00")),
        dt("2026-09-22 00:05:00")
    );
}

#[test]
fn active_sign_window_detects_only_current_course() {
    let timeline = Timeline::from_courses(&[
        course("1", "2026-09-21 18:30:00", "2026-09-21 21:00:00"),
        course("2", "2026-09-21 10:00:00", "2026-09-21 12:00:00"),
    ]);
    assert_eq!(
        timeline.active_sign_window(dt("2026-09-21 18:40:00")),
        Some(1)
    );
    assert_eq!(timeline.active_sign_window(dt("2026-09-21 12:30:00")), None);
}

#[test]
fn sign_window_hint_reports_current_or_next() {
    let timeline = Timeline::from_courses(&[
        course("1", "2026-09-21 18:30:00", "2026-09-21 21:00:00"),
        course("2", "2026-09-21 10:00:00", "2026-09-21 12:00:00"),
    ]);

    let hint = timeline
        .sign_window_hint(dt("2026-09-21 18:40:00"))
        .expect("应命中窗口");
    assert_eq!(hint.course_name, "课程1");
    assert!(hint.window_open >= dt("2026-09-21 18:25:00"));
    assert!(hint.window_open <= dt("2026-09-21 18:29:00"));
    assert_eq!(hint.class_end, dt("2026-09-21 21:00:00"));

    let hint = timeline
        .sign_window_hint(dt("2026-09-21 12:30:00"))
        .expect("应报告下一窗口");
    let begin1 = dt("2026-09-21 18:30:00");
    assert!(hint.window_open >= begin1 - SIGN_WINDOW_MAX_LEAD_MINUTES * MINUTE_MS);
    assert!(hint.window_open <= begin1 - SIGN_WINDOW_MIN_LEAD_MINUTES * MINUTE_MS);

    assert!(
        timeline
            .sign_window_hint(dt("2026-09-21 22:00:00"))
            .is_none()
    );
}

#[test]
fn sign_timestamp_applies_buffer() {
    assert_eq!(
        sign_timestamp(1_000_000_000),
        1_000_000_000 - SIGN_TIMESTAMP_BUFFER_MS
    );
}

#[test]
fn parses_upstream_time_format() {
    assert_eq!(
        parse_upstream_time("2026-03-25 10:25:00"),
        Some(dt("2026-03-25 10:25:00"))
    );
    assert_eq!(parse_upstream_time("2026/03/25 10:25:00"), None);
}

#[test]
fn datetime_bounds_match_chrono() {
    assert_eq!(NaiveDateTime::MIN.and_utc().timestamp_millis(), DATETIME_MIN_MS);
    assert!(NaiveDateTime::MAX.and_utc().timestamp_millis() < DATETIME_MAX_MS);
    assert_eq!(
        NaiveDateTime::MAX.and_utc().timestamp_millis() / 1000 * 1000 + 1000,
        DATETIME_MAX_MS
    );
}

#[test]
fn leads_fix_windows_and_order_is_stable() {
    let courses = [
        course("1", "2026-09-21 18:30:00", "2026-09-21 21:00:00"),
        course("2", "2026-09-21 10:00:00", "2026-09-21 12:00:00"),
        course("3", "bad", "2026-09-21 12:00:00"),
        course("4", "2026-09-21 10:01:00", "2026-09-21 12:00:00"),
    ];
    let t = Timeline::from_courses_with_leads(&courses, &[5, 2, 3, 3]);
    let ids: Vec<&str> = t.courses.iter().map(|c| c.course_id.as_str()).collect();
    // 10:00 - 2 min = 09:58 and 10:01 - 3 min = 09:58 open together: input order is kept.
    assert_eq!(ids, vec!["2", "4", "1"]);
    assert_eq!(t.courses[0].window_open, dt("2026-09-21 09:58:00"));
    assert_eq!(t.courses[1].window_open, dt("2026-09-21 09:58:00"));
    assert_eq!(t.courses[2].window_open, dt("2026-09-21 18:25:00"));
}

#[test]
fn try_from_courses_refuses_windows_before_chrono_range() {
    let early = course("1", "-262143-01-01 00:03:00", "-262143-01-01 01:00:00");
    assert!(Timeline::try_from_courses(&[early]).is_none());
    let fine = course("1", "2026-09-21 18:30:00", "2026-09-21 21:00:00");
    assert_eq!(Timeline::try_from_courses(&[fine]).expect("应成功").courses.len(), 1);
}

#[test]
fn next_wakeup_prefers_maintenance_on_tie_and_first_slot() {
    let t = Timeline {
        courses: vec![
            CourseTimeline {
                course_id: "a".into(),
                course_name: "A".into(),
                window_open: 100,
                class_begin: 300_000,
                class_end: 400_000,
            },
            CourseTimeline {
                course_id: "b".into(),
                course_name: "B".into(),
                window_open: 200,
                class_begin: 250,
                class_end: 250,
            },
        ],
    };
    // 00:05 of 1970-01-01 is 300_000: the maintenance point wins its tie.
    let w = t.next_wakeup(260);
    assert_eq!(w.at, 300_000);
    assert_eq!(w.kind, EventKind::Maintenance);
    // At 150: course 1 begins and ends at 250; the begin comes first.
    let w = t.next_wakeup(150);
    assert_eq!((w.at, w.kind, w.delay), (200, EventKind::WindowOpen(1), 50));
    let w = t.next_wakeup(210);
    assert_eq!((w.at, w.kind, w.delay), (250, EventKind::ClassBegin(1), 40));
}

#[test]
fn event_descriptions() {
    assert_eq!(EventKind::Maintenance.describe(), "每日维护：拉取当天课表");
    assert_eq!(EventKind::WindowOpen(0).describe(), "课程 1 签到窗口开启");
    assert_eq!(EventKind::ClassBegin(9).describe(), "课程 10 开始");
    assert_eq!(EventKind::ClassEnd(1).describe(), "课程 2 结束");
    assert_eq!(EventKind::SignRetry(2).describe(), "课程 3 签到重试");
    assert_eq!(EventKind::RefreshRetry.describe(), "课表刷新重试");
}

#[test]
fn different_events_are_described_differently() {
    let kinds = [
        EventKind::Maintenance,
        EventKind::RefreshRetry,
        EventKind::WindowOpen(0),
        EventKind::WindowOpen(1),
        EventKind::WindowOpen(10),
        EventKind::ClassBegin(0),
        EventKind::ClassBegin(1),
        EventKind::ClassEnd(0),
        EventKind::SignRetry(0),
        EventKind::SignRetry(99),
    ];
    for (i, a) in kinds.iter().enumerate() {
        for (j, b) in kinds.iter().enumerate() {
            assert_eq!(i == j, a.describe() == b.describe(), "{a:?} / {b:?}");
        }
    }
}

#[test]
fn maintenance_before_epoch() {
    // 1969-12-31 23:00 → 1970-01-01 00:05
    assert_eq!(next_maintenance(-3_600_000), 300_000);
    assert_eq!(next_maintenance(dt("1969-12-31 00:04:59")), dt("1969-12-31 00:05:00"));
}
