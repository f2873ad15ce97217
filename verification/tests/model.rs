use course_signin::model::Course;

fn sample() -> Course {
    Course {
        id: "1222807".into(),
        uuid: "CADD27F17ACC44EDAF00000000000001".into(),
        course_name: "面向对象程序设计—C++".into(),
        teacher_name: "刘立祥".into(),
        week_day: "周一".into(),
        class_begin_time: "2026-09-21 18:30:00".into(),
        class_end_time: "2026-09-21 21:00:00".into(),
        sign_status: "1".into(),
    }
}

#[test]
fn model_class_time_range_drops_date_and_seconds() {
    let c = sample();
    assert_eq!(c.class_time_range(), "18:30 ~ 21:00");
}

#[test]
fn sign_status_label_maps_values() {
    let mut c = sample();
    assert_eq!(c.sign_status_label(), "已签到");
    c.sign_status = "0".into();
    assert_eq!(c.sign_status_label(), "未签到");
    c.sign_status = "2".into();
    assert_eq!(c.sign_status_label(), "未知(2)");
    c.sign_status = String::new();
    assert_eq!(c.sign_status_label(), "未知()");
}

#[test]
fn class_time_range_handles_abnormal_input() {
    let mut c = sample();
    c.class_begin_time = "无空格日期".into();
    c.class_end_time = String::new();
    assert_eq!(c.class_time_range(), "无空格日期 ~ ");
}

#[test]
fn time_only_takes_text_after_last_space() {
    assert_eq!(Course::time_only("a b 12:34:56"), "12:34");
    assert_eq!(Course::time_only("2026-09-21 "), "");
    assert_eq!(Course::time_only("abc"), "abc");
    assert_eq!(Course::time_only("无空格日期再多几个字"), "无空格日期");
}
