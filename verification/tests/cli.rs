use course_signin::cli::{
    build_rows, normalize_date, require_credentials, Cli, Commands, CredentialsError, DateError,
};
use course_signin::config::DEFAULT_PASSWORD;
use course_signin::model::Course;

#[test]
fn normalizes_date_formats() {
    assert_eq!(normalize_date(None, "20260921").is_ok(), true);
    assert_eq!(normalize_date(Some("2026-03-25"), "20260921").unwrap(), "20260325");
    assert_eq!(normalize_date(Some("20260325"), "20260921").unwrap(), "20260325");
    assert!(normalize_date(Some("2026/03/25"), "20260921").is_err());
}

#[test]
fn normalize_date_defaults_to_today_and_reports_format() {
    assert_eq!(normalize_date(None, "20260921").unwrap(), "20260921");
    assert_eq!(
        normalize_date(Some("2026-02-30"), "20260921").unwrap_err(),
        DateError::InvalidFormat
    );
    assert_eq!(
        DateError::InvalidFormat.message(),
        "日期格式错误，请使用 yyyy-MM-dd 或 yyyyMMdd"
    );
}

#[test]
fn requires_username_but_defaults_password() {
    let missing = Cli {
        username: None,
        password: DEFAULT_PASSWORD.to_string(),
        command: Commands::Query {
            date: None,
            json: false,
        },
    };
    assert!(require_credentials(&missing).is_err());

    let present = Cli {
        username: Some("20250001".into()),
        password: DEFAULT_PASSWORD.to_string(),
        command: Commands::Query {
            date: None,
            json: false,
        },
    };
    let (user, pwd) = require_credentials(&present).expect("应成功");
    assert_eq!(user, "20250001");
    assert_eq!(pwd, DEFAULT_PASSWORD);
}

#[test]
fn empty_password_falls_back_to_default() {
    let cli = Cli {
        username: Some("20250001".into()),
        password: String::new(),
        command: Commands::Query {
            date: None,
            json: false,
        },
    };
    let (_, pwd) = require_credentials(&cli).expect("应成功");
    assert_eq!(pwd, DEFAULT_PASSWORD);
}

#[test]
fn credentials_errors_and_messages() {
    let empty = Cli { username: Some(String::new()), password: "p".into(), command: Commands::Timestamp };
    assert_eq!(require_credentials(&empty).unwrap_err(), CredentialsError::EmptyUsername);
    let missing = Cli { username: None, password: "p".into(), command: Commands::Timestamp };
    assert_eq!(require_credentials(&missing).unwrap_err(), CredentialsError::MissingUsername);
    assert_eq!(
        CredentialsError::MissingUsername.message(),
        "缺少学号：请用 --username 或环境变量 UCAS_USERNAME"
    );
    assert_eq!(CredentialsError::EmptyUsername.message(), "学号不能为空");
    let given = Cli { username: Some("u".into()), password: "p".into(), command: Commands::Timestamp };
    assert_eq!(require_credentials(&given).unwrap(), ("u".to_string(), "p".to_string()));
}

#[test]
fn course_rows_carry_status_labels_and_times() {
    let courses = vec![
        Course {
            id: "1222807".into(),
            uuid: "CADD27F17ACC44EDAF00000000000001".into(),
            course_name: "面向对象程序设计—C++".into(),
            teacher_name: "刘立祥".into(),
            week_day: "周一".into(),
            class_begin_time: "2026-09-21 18:30:00".into(),
            class_end_time: "2026-09-21 21:00:00".into(),
            sign_status: "1".into(),
        },
        Course {
            id: "2".into(),
            uuid: "U".into(),
            course_name: "N".into(),
            teacher_name: "T".into(),
            week_day: "周二".into(),
            class_begin_time: "2026-09-22 08:00:00".into(),
            class_end_time: "2026-09-22 09:35:00".into(),
            sign_status: "0".into(),
        },
    ];
    let rows = build_rows(&courses);
    assert_eq!(rows.len(), 2);
    assert_eq!(rows[0].index, 1);
    assert_eq!(rows[0].course_name, "面向对象程序设计—C++");
    assert_eq!(rows[0].class_time, "18:30 ~ 21:00");
    assert_eq!(rows[0].teacher_name, "刘立祥");
    assert_eq!(rows[0].sign_status, "已签到");
    assert_eq!(rows[0].id, "1222807");
    assert_eq!(rows[1].index, 2);
    assert_eq!(rows[1].class_time, "08:00 ~ 09:35");
    assert_eq!(rows[1].sign_status, "未签到");
}

/// The course table as the command line prints it (same columns as its `Tabled` rows).
fn course_table(courses: &[Course]) -> String {
    let mut builder = tabled::builder::Builder::default();
    builder.push_record(["#", "课程", "上课时间", "教师", "签到状态", "ID"]);
    for row in build_rows(courses) {
        builder.push_record([
            row.index.to_string(),
            row.course_name,
            row.class_time,
            row.teacher_name,
            row.sign_status,
            row.id,
        ]);
    }
    builder.build().to_string()
}

fn table_course(sign_status: &str) -> Course {
    Course {
        id: "1222807".into(),
        uuid: "CADD27F17ACC44EDAF00000000000001".into(),
        course_name: "面向对象程序设计—C++".into(),
        teacher_name: "刘立祥".into(),
        week_day: "周一".into(),
        class_begin_time: "2026-09-21 18:30:00".into(),
        class_end_time: "2026-09-21 21:00:00".into(),
        sign_status: sign_status.into(),
    }
}

#[test]
fn course_table_contains_status_labels() {
    let courses = vec![table_course("1")];

    let table = course_table(&courses);
    assert!(table.contains("面向对象程序设计—C++"));
    assert!(table.contains("已签到"));
    assert!(table.contains("18:30 ~ 21:00"));
    assert!(!table.contains("周一"));
    assert!(!table.contains("2026-09-21"));
    assert!(table.contains("1222807"));
}

#[test]
fn main_class_time_range_drops_date_and_seconds() {
    let courses = vec![table_course("0")];

    let table = course_table(&courses);
    assert!(table.contains("18:30 ~ 21:00"));
    assert!(table.contains("未签到"));
}
