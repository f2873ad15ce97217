use chrono::NaiveDateTime;
use course_signin::app::{
    attempt_start, attempt_step, course_status_cell, sign_attempt_outcome, Action, App,
    AttemptAction, AttemptEvent, AttemptStage, Key, RefreshMsg, SchedulerPhase, SignMsg, StatusColor,
    REFRESH_RETRY_INTERVAL_MS,
};
use course_signin::model::{AuthSession, Course, SignResult};
use course_signin::schedule::{EventKind, Wakeup, MINUTE_MS};

fn dt(s: &str) -> i64 {
    NaiveDateTime::parse_from_str(s, "%Y-%m-%d %H:%M:%S")
        .expect("合法时间")
        .and_utc()
        .timestamp_millis()
}

fn sample() -> Course {
    Course {
        id: "1222807".into(),
        uuid: "CADD27F17ACC44EDAF00000000000001".into(),
        course_name: "面向对象程序设计—C++".into(),
        teacher_name: "刘立祥".into(),
        week_day: "周一".into(),
        class_begin_time: "2026-09-21 18:30:00".into(),
        class_end_time: "2026-09-21 21:00:00".into(),
        sign_status: "1".into(),
    }
}

fn make_app() -> App {
    App::new("20250001".into(), "20260921".into())
}

fn now() -> i64 {
    dt("2026-09-21 08:00:00")
}

#[test]
fn apply_success_updates_courses() {
    let mut app = make_app();
    app.apply(RefreshMsg::Refreshed(vec![sample()]), now());
    assert_eq!(app.courses.len(), 1);
    assert!(!app.refresh_running);
    assert!(app.last_updated.is_some());
    assert!(app.status_text.contains("1 门课"));
}

#[test]
fn apply_error_keeps_courses_and_reports() {
    let mut app = make_app();
    app.apply(RefreshMsg::Refreshed(vec![sample()]), now());
    app.apply(RefreshMsg::Failed("登录失败".into()), now());
    assert_eq!(app.courses.len(), 1, "失败不应清空已有课表");
    assert!(app.status_text.contains("登录失败"));
    assert!(!app.refresh_running);
}

#[test]
fn apply_ok_builds_timeline() {
    let mut app = make_app();
    app.apply(RefreshMsg::Refreshed(vec![sample()]), now());
    assert_eq!(app.courses.len(), 1);
    assert_eq!(app.timeline().courses.len(), 1, "课表应构建时间线");
}

#[test]
fn wakeup_computes_and_fires_at_window_open() {
    let mut app = make_app();
    app.apply(RefreshMsg::Refreshed(vec![sample()]), now());

    let now = dt("2026-09-21 17:00:00");
    app.compute_next_wakeup(now);
    assert!(
        app.next_wakeup().expect("应有唤醒点").contains("18:2"),
        "窗口应落在 18:25~18:29"
    );
    assert!(app.wakeup_due(now).is_none(), "未到点不应触发");

    let due = app
        .wakeup_due(now + 95 * MINUTE_MS)
        .expect("到点应触发");
    let action = app.handle_wakeup(due, "20260921".into());
    assert!(app.status_text.contains("签到窗口开启"));
    assert!(app.pending.is_none(), "触发后挂起点应清空");
    match action {
        Action::SignAttempt { idx, course_id } => {
            assert_eq!(idx, 0);
            assert_eq!(course_id, "1222807");
        }
        other => panic!("应发起签到: {other:?}"),
    }
    assert_eq!(app.sign_note("1222807"), Some("尝试签到中 ..."));
}

#[test]
fn maintenance_updates_date_and_starts_refresh() {
    let mut app = make_app();
    assert_eq!(app.date, "20260921");
    let wake = Wakeup {
        at: dt("2026-09-22 00:05:00"),
        kind: EventKind::Maintenance,
        delay: 0,
    };
    let today = chrono::Local::now().format("%Y%m%d").to_string();
    let action = app.handle_wakeup(wake, today.clone());
    assert_eq!(app.date, today, "日期应更新为当天");
    assert!(app.refresh_running);
    match action {
        Action::Refresh { date } => assert_eq!(date, today),
        other => panic!("应发起刷新: {other:?}"),
    }
}

#[test]
fn refresh_error_schedules_retry_when_no_success_yet() {
    let mut app = make_app();
    app.apply(RefreshMsg::Failed("上游超时".into()), now());
    assert!(
        app.refresh_retry_at.is_some(),
        "当日尚未成功时失败应安排重试"
    );
    assert_eq!(app.refresh_retry_at, Some(now() + REFRESH_RETRY_INTERVAL_MS));
    assert!(app.status_text.contains("自动重试"));
}

#[test]
fn refresh_error_keeps_courses_and_no_retry_after_success() {
    let mut app = make_app();
    app.apply(RefreshMsg::Refreshed(vec![sample()]), now());
    app.apply(RefreshMsg::Failed("又一次失败".into()), now());
    assert_eq!(app.courses.len(), 1, "失败保留已有课表");
    assert!(app.refresh_retry_at.is_none(), "已成功过则不再安排重试");
    assert!(app.status_text.contains("沿用上次课表"));
}

#[test]
fn refresh_success_clears_retry_and_sets_daily_flag() {
    let mut app = make_app();
    app.apply(RefreshMsg::Failed("超时".into()), now());
    assert!(app.refresh_retry_at.is_some());

    app.apply(RefreshMsg::Refreshed(vec![sample()]), now());
    assert!(app.refresh_retry_at.is_none());
    assert!(app.daily_success);
    assert!(app.status_text.contains("刷新成功"));
}

#[test]
fn refresh_status_and_clock_texts() {
    let mut app = make_app();
    app.apply(RefreshMsg::Refreshed(vec![sample()]), dt("2026-09-21 07:08:09"));
    assert_eq!(app.status_text, "刷新成功：1 门课（20260921）");
    assert_eq!(app.last_updated.as_deref(), Some("07:08:09"));
    let text = app.sign_window_text_at(dt("2026-09-21 12:00:00")).expect("应有窗口");
    assert!(text.starts_with("〔面向对象程序设计—C++〕18:2"));
    assert!(text.ends_with(" ~ 21:00"));
    assert!(app.sign_window_text_at(dt("2026-09-21 22:00:00")).is_none());
}

#[test]
fn refresh_is_not_started_twice() {
    let mut app = make_app();
    match app.spawn_refresh("20260922".into()) {
        Action::Refresh { date } => assert_eq!(date, "20260922"),
        other => panic!("应发起刷新: {other:?}"),
    }
    assert_eq!(app.status_text, "正在刷新课表 ...");
    assert_eq!(*app.phase(), SchedulerPhase::Running);
    assert!(matches!(app.spawn_refresh("20260922".into()), Action::Nothing));
}

#[test]
fn sign_outcomes_note_and_plan_retries() {
    let mut app = make_app();
    app.apply(RefreshMsg::Refreshed(vec![sample()]), now());
    let msg = |signed, retrying| SignMsg {
        idx: 0,
        course_id: "1222807".into(),
        text: "t".into(),
        signed,
        retrying,
    };
    let at = dt("2026-09-21 18:40:00");
    app.apply(RefreshMsg::Sign(msg(false, true)), at);
    assert_eq!(app.retry_at, Some(at + 60_000));
    assert_eq!(app.retry_course, Some(0));
    assert_eq!(app.sign_note("1222807"), Some("重试中：t"));
    assert_eq!(app.status_text, "〔面向对象程序设计—C++〕签到未成功（t），60s 后重试");

    app.apply(RefreshMsg::Sign(msg(true, false)), at);
    assert!(app.retry_at.is_none() && app.retry_course.is_none());
    assert_eq!(app.sign_note("1222807"), Some("✓ t"));

    let late = dt("2026-09-21 21:30:00");
    app.apply(RefreshMsg::Sign(msg(false, true)), late);
    assert!(app.retry_at.is_none());
    assert_eq!(app.sign_note("1222807"), Some("✗ t"));
    assert_eq!(app.status_text, "〔面向对象程序设计—C++〕签到失败：t");

    let unknown = SignMsg { idx: 7, course_id: "x".into(), text: "u".into(), signed: true, retrying: false };
    app.apply(RefreshMsg::Sign(unknown), at);
    assert_eq!(app.status_text, "〔课程 8〕u");
}

#[test]
fn sign_outcome_keeps_a_running_refresh() {
    let mut app = make_app();
    assert!(matches!(app.spawn_refresh("20260921".into()), Action::Refresh { .. }));
    assert!(app.refresh_running);
    let m = SignMsg { idx: 0, course_id: "1222807".into(), text: "t".into(), signed: true, retrying: false };
    app.apply(RefreshMsg::Sign(m), now());
    assert!(app.refresh_running, "签到结果不应结束进行中的刷新");
    assert!(matches!(app.spawn_refresh("20260921".into()), Action::Nothing));
    app.apply(RefreshMsg::Failed("超时".into()), now());
    assert!(!app.refresh_running);
}

#[test]
fn class_end_clears_note_and_retry() {
    let mut app = make_app();
    app.apply(RefreshMsg::Refreshed(vec![sample()]), now());
    let at = dt("2026-09-21 18:40:00");
    app.apply(
        RefreshMsg::Sign(SignMsg { idx: 0, course_id: "1222807".into(), text: "t".into(), signed: false, retrying: true }),
        at,
    );
    let end = Wakeup { at: dt("2026-09-21 21:00:00"), kind: EventKind::ClassEnd(0), delay: 0 };
    assert!(matches!(app.handle_wakeup(end, "20260921".into()), Action::Nothing));
    assert!(app.sign_note("1222807").is_none());
    assert!(app.retry_at.is_none());
    assert_eq!(app.status_text, "〔面向对象程序设计—C++〕下课，该课任务完结");
}

#[test]
fn retry_wakeup_merges_and_restarts_attempt() {
    let mut app = make_app();
    app.apply(RefreshMsg::Refreshed(vec![sample()]), now());
    let at = dt("2026-09-21 18:40:00");
    app.apply(
        RefreshMsg::Sign(SignMsg { idx: 0, course_id: "1222807".into(), text: "t".into(), signed: false, retrying: true }),
        at,
    );
    app.compute_next_wakeup(at);
    let w = app.pending.expect("应有唤醒点");
    assert_eq!((w.at, w.kind), (at + 60_000, EventKind::SignRetry(0)));
    assert_eq!(app.sleep_until_next(at), 60_000);
    let w = app.wakeup_due(at + 60_000).expect("到点应触发");
    match app.handle_wakeup(w, "20260921".into()) {
        Action::SignAttempt { idx, .. } => assert_eq!(idx, 0),
        other => panic!("应发起签到: {other:?}"),
    }
    assert_eq!(app.status_text, "〔面向对象程序设计—C++〕正在发起签到 ...");
    assert!(app.retry_at.is_none());
}

#[test]
fn apply_checked_refuses_schedules_before_chrono_range() {
    let mut app = make_app();
    let mut early = sample();
    early.class_begin_time = "-262143-01-01 00:03:00".into();
    assert!(!app.apply_checked(RefreshMsg::Refreshed(vec![early]), now()));
    assert!(app.courses.is_empty());
    assert!(app.apply_checked(RefreshMsg::Refreshed(vec![sample()]), now()));
    assert_eq!(app.courses.len(), 1);
}

#[test]
fn attempt_outcomes_and_status_cells() {
    let ok = SignResult {
        success: true,
        message: "m".into(),
        upstream_status: "0".into(),
        stu_sign_id: "123".into(),
        stu_sign_status: "1".into(),
    };
    let r = sign_attempt_outcome(Ok(ok.clone()));
    assert_eq!(r.message, "签到成功（记录 123");
    assert!(r.signed && !r.retrying);
    let refused = SignResult { success: false, ..ok };
    let r = sign_attempt_outcome(Ok(refused));
    assert_eq!(r.message, "m");
    assert!(!r.signed && r.retrying);
    let r = sign_attempt_outcome(Err("网络".into()));
    assert_eq!(r.message, "网络");
    assert!(!r.signed && r.retrying);

    let c = sample();
    assert_eq!(course_status_cell(Some("✓ ok"), &c), ("✓ ok".to_string(), StatusColor::Green));
    assert_eq!(course_status_cell(Some("重试中：x"), &c), ("重试中：x".to_string(), StatusColor::Yellow));
    assert_eq!(course_status_cell(Some("尝试签到中 ..."), &c), ("尝试签到中 ...".to_string(), StatusColor::Yellow));
    assert_eq!(course_status_cell(Some("✗ no"), &c), ("✗ no".to_string(), StatusColor::Red));
    assert_eq!(course_status_cell(None, &c), ("已签到".to_string(), StatusColor::Green));
    let mut other = sample();
    other.sign_status = "5".into();
    assert_eq!(course_status_cell(None, &other), ("未知(5)".to_string(), StatusColor::Yellow));
    assert_eq!(SchedulerPhase::Idle.text(), "休眠中");
    assert_eq!(SchedulerPhase::Running.text(), "执行中");
}

#[test]
fn attempt_steps_login_time_then_sign() {
    let (stage, action) = attempt_start();
    assert!(matches!(stage, AttemptStage::LoggingIn));
    assert!(matches!(action, AttemptAction::Login));
    let session = AuthSession { user_id: "20250001".into(), session_id: "AABBCCDDEEFF00112233445566778899".into() };
    let (stage, action) = attempt_step(stage, AttemptEvent::Session(session.clone()));
    assert!(matches!(action, AttemptAction::FetchServerTime));
    let (stage, action) = attempt_step(stage, AttemptEvent::ServerTime(1_000_000_000));
    match action {
        AttemptAction::Sign { session: s, timestamp_ms } => {
            assert_eq!(s, session);
            assert_eq!(timestamp_ms, 999_997_000);
        }
        other => panic!("应发起签到: {other:?}"),
    }
    let answer = SignResult {
        success: true,
        message: "m".into(),
        upstream_status: "0".into(),
        stu_sign_id: "42".into(),
        stu_sign_status: "1".into(),
    };
    let (stage, action) = attempt_step(stage, AttemptEvent::Signed(answer));
    assert!(matches!(stage, AttemptStage::Done));
    match action {
        AttemptAction::Finish(r) => {
            assert_eq!(r.message, "签到成功（记录 42");
            assert!(r.signed && !r.retrying);
        }
        other => panic!("应结束: {other:?}"),
    }

    let (stage, _) = attempt_start();
    match attempt_step(stage, AttemptEvent::Failed("登录失败".into())).1 {
        AttemptAction::Finish(r) => {
            assert_eq!(r.message, "登录失败");
            assert!(!r.signed && r.retrying);
        }
        other => panic!("应结束: {other:?}"),
    }
}

#[test]
fn tick_fires_due_wakeups_only_in_auto_mode() {
    let mut app = make_app();
    app.apply(RefreshMsg::Refreshed(vec![sample()]), now());

    let early = dt("2026-09-21 17:00:00");
    assert!(matches!(app.tick(early, "20260921".into()), Action::Nothing));
    assert!(app.pending.is_some());
    match app.tick(dt("2026-09-21 18:35:00"), "20260921".into()) {
        Action::SignAttempt { idx, .. } => assert_eq!(idx, 0),
        other => panic!("应发起签到: {other:?}"),
    }
    assert!(app.pending.is_none());

    app.compute_next_wakeup(early);
    assert!(matches!(app.handle_key(Key::ToggleAuto, "20260921".into()), Action::Nothing));
    assert!(!app.auto_refresh);
    assert_eq!(app.status_text, "自动调度已暂停（按 a 恢复）");
    assert!(matches!(app.tick(dt("2026-09-21 18:35:00"), "20260921".into()), Action::Nothing));
    assert!(app.pending.is_none(), "暂停时挂起点应清空");
    app.handle_key(Key::ToggleAuto, "20260921".into());
    assert!(app.auto_refresh);
    assert_eq!(app.status_text, "自动调度已开启");
}

#[test]
fn keys_refresh_quit_and_ignore_others() {
    let mut app = make_app();
    app.compute_next_wakeup(dt("2026-09-21 08:00:00"));
    match app.handle_key(Key::Refresh, "20260922".into()) {
        Action::Refresh { date } => assert_eq!(date, "20260922"),
        other => panic!("应发起刷新: {other:?}"),
    }
    assert!(app.pending.is_none());
    assert!(app.refresh_running);
    let before = app.status_text.clone();
    assert!(matches!(app.handle_key(Key::Other, "20260922".into()), Action::Nothing));
    assert_eq!(app.status_text, before);
    assert!(!app.quit);
    app.handle_key(Key::Quit, "20260922".into());
    assert!(app.quit);
}

#[test]
fn failure_after_success_needs_no_retry_time() {
    let mut app = make_app();
    app.apply(RefreshMsg::Refreshed(vec![sample()]), now());
    let edge = course_signin::schedule::DATETIME_MAX_MS;
    assert!(app.apply_checked(RefreshMsg::Failed("x".into()), edge));
    assert!(app.refresh_retry_at.is_none());
}
