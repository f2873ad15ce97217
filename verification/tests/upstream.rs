use course_signin::model::{AuthSession, Course};
use course_signin::upstream::{
    login_form, login_outcome, rand_id, rand_id_from, schedule_outcome, sign_outcome,
    timestamp_outcome, urlencode, Endpoint, LoginResponse, LoginResult, ScheduleResponse,
    SignResponse, SignResultBody, TimestampResponse, UpstreamError, VERIFICATION_URL_TEMPLATE,
};

#[test]
fn url_encodes_query_values() {
    assert_eq!(urlencode("2026-03-25"), "2026-03-25");
    assert_eq!(urlencode("a b"), "a%20b");
}

#[test]
fn url_encodes_percent_before_space() {
    assert_eq!(urlencode("50% off"), "50%25%20off");
    assert_eq!(urlencode("课 程"), "课%20程");
}

#[test]
fn url_encoding_keeps_values_apart() {
    assert_eq!(urlencode("a%20b"), "a%2520b");
    assert_ne!(urlencode("a%20b"), urlencode("a b"));
    assert_ne!(urlencode("%"), urlencode("%25"));
}

#[test]
fn endpoint_trims_trailing_slashes_and_builds_urls() {
    let e = Endpoint::with_credentials("https://host:8181///", "u", "p");
    assert_eq!(e.base_url, "https://host:8181");
    assert_eq!(e.url("/x"), "https://host:8181/x");
    let session = AuthSession { user_id: "2025 01".into(), session_id: "S".into() };
    assert_eq!(
        e.schedule_url(&session, "20260325"),
        "https://host:8181/app/course/get_stu_course_sched.action?id=2025%2001&dateStr=20260325"
    );
    assert_eq!(
        e.sign_url(&session, "1222807", -5),
        "https://host:8181/app/course/stu_scan_sign.action?courseSchedId=1222807&timestamp=-5&id=2025%2001"
    );
    assert_eq!(
        e.timestamp_url(42),
        "https://host:8181/app/common/get_timestamp.do?id=42"
    );
    assert_eq!(e.credentials().unwrap(), ("u".to_string(), "p".to_string()));
    let anonymous = Endpoint::new("https://host", None, None);
    assert_eq!(anonymous.credentials().unwrap_err(), UpstreamError::MissingCredentials);
}

#[test]
fn login_form_matches_official_app() {
    let form = login_form("20250001", "pwd");
    assert_eq!(form.len(), 5);
    assert_eq!(form[0], ("phone".to_string(), "20250001".to_string()));
    assert_eq!(form[1], ("password".to_string(), "pwd".to_string()));
    assert_eq!(form[2], ("verificationType".to_string(), "1".to_string()));
    assert_eq!(form[3].1, VERIFICATION_URL_TEMPLATE);
    assert_eq!(form[4], ("userLevel".to_string(), "1".to_string()));
}

fn login(status: &str, result: Option<(&str, Option<&str>)>) -> LoginResponse {
    LoginResponse {
        status: status.into(),
        result: result.map(|(id, sid)| LoginResult { id: id.into(), session_id: sid.map(Into::into) }),
    }
}

#[test]
fn login_outcome_checks_status_result_and_session() {
    let ok = login_outcome(login("0", Some(("20250001", Some("AABBCCDDEEFF00112233445566778899")))))
        .expect("应成功");
    assert_eq!(ok.user_id, "20250001");
    assert_eq!(ok.session_id, "AABBCCDDEEFF00112233445566778899");
    assert_eq!(
        login_outcome(login("1", None)).unwrap_err(),
        UpstreamError::LoginRejected("1".into())
    );
    assert_eq!(login_outcome(login("0", None)).unwrap_err(), UpstreamError::MissingLoginResult);
    assert_eq!(
        login_outcome(login("0", Some(("u", Some("short"))))).unwrap_err(),
        UpstreamError::InvalidSessionId
    );
    assert_eq!(
        login_outcome(login("0", Some(("u", None)))).unwrap_err(),
        UpstreamError::InvalidSessionId
    );
    assert_eq!(
        login_outcome(login("0", Some(("u", Some("GGBBCCDDEEFF00112233445566778899"))))).unwrap_err(),
        UpstreamError::InvalidSessionId
    );
    assert_eq!(
        login_outcome(login("0", Some(("u", Some("aabbccddeeff0011223344556677889"))))).unwrap_err(),
        UpstreamError::InvalidSessionId
    );
    assert!(login_outcome(login("0", Some(("u", Some("aabbccddeeff00112233445566778899"))))).is_ok());
}

#[test]
fn upstream_error_messages() {
    assert_eq!(UpstreamError::MissingCredentials.message(), "客户端未配置凭据");
    assert_eq!(UpstreamError::LoginRejected("3".into()).message(), "登录失败：STATUS=3");
    assert_eq!(UpstreamError::MissingLoginResult.message(), "登录响应缺少 result");
    assert_eq!(UpstreamError::InvalidSessionId.message(), "登录响应缺少合法 sessionId");
    assert_eq!(UpstreamError::TimestampRejected("1".into()).message(), "时间戳接口 STATUS=1");
    assert_eq!(UpstreamError::ScheduleRejected("2".into()).message(), "课表查询失败：STATUS=2");
}

#[test]
fn timestamp_and_schedule_outcomes() {
    assert_eq!(
        timestamp_outcome(TimestampResponse { status: "0".into(), timestamp: 1770000000000 }).unwrap(),
        1770000000000
    );
    assert_eq!(
        timestamp_outcome(TimestampResponse { status: "9".into(), timestamp: 1 }).unwrap_err(),
        UpstreamError::TimestampRejected("9".into())
    );
    assert!(schedule_outcome(ScheduleResponse { status: "0".into(), result: None }).unwrap().is_empty());
    let course = Course {
        id: "1145140".into(),
        uuid: "U".into(),
        course_name: "计算机网络".into(),
        teacher_name: "张三".into(),
        week_day: "周三".into(),
        class_begin_time: "2026-03-25 10:25:00".into(),
        class_end_time: "2026-03-25 12:00:00".into(),
        sign_status: "1".into(),
    };
    let got = schedule_outcome(ScheduleResponse { status: "0".into(), result: Some(vec![course.clone()]) }).unwrap();
    assert_eq!(got, vec![course]);
    assert_eq!(
        schedule_outcome(ScheduleResponse { status: "1".into(), result: None }).unwrap_err(),
        UpstreamError::ScheduleRejected("1".into())
    );
}

#[test]
fn sign_outcome_success_requires_status_and_sign_status() {
    let r = sign_outcome(SignResponse {
        status: "0".into(),
        message: Some("签到成功".into()),
        msg: None,
        errmsg: None,
        result: Some(SignResultBody {
            stu_sign_id: Some("123456".into()),
            stu_sign_status: Some("1".into()),
            message: None,
        }),
    });
    assert!(r.success);
    assert_eq!(r.message, "签到成功");
    assert_eq!(r.stu_sign_id, "123456");
    assert_eq!(r.upstream_status, "0");

    let r = sign_outcome(SignResponse {
        status: "0".into(),
        message: None,
        msg: Some("m".into()),
        errmsg: Some("e".into()),
        result: None,
    });
    assert!(!r.success);
    assert_eq!(r.message, "e");
    assert_eq!(r.stu_sign_id, "");

    let r = sign_outcome(SignResponse {
        status: "1".into(),
        message: None,
        msg: None,
        errmsg: None,
        result: Some(SignResultBody { stu_sign_id: None, stu_sign_status: Some("1".into()), message: None }),
    });
    assert!(!r.success);
    assert_eq!(r.message, "签到失败，请稍后重试");
    assert_eq!(r.stu_sign_status, "1");
}

#[test]
fn rand_id_stays_below_a_million() {
    assert!(rand_id() < 1_000_000);
    assert_eq!(rand_id_from(Some(123_456_789)), 456_789);
    assert_eq!(rand_id_from(None), 0);
}
