//! Data model of the upstream iclass exchanges: sessions, courses and sign-in results.

use vstd::prelude::*;
use crate::text::{chars_of, push_char, push_str, str_eq};

verus! {

/// The credentials of one login session.
#[derive(Debug, Clone, PartialEq, Eq)]
pub struct AuthSession {
    /// User id (upstream field `id`); the `id` parameter of later requests.
    pub user_id: String,
    /// 32-character hexadecimal session id (upstream field `sessionId`); the `sessionId` header.
    pub session_id: String,
}

/// One class of a day's schedule.
#[derive(Debug, Clone, PartialEq, Eq)]
pub struct Course {
    /// Seven-digit schedule id (`courseSchedId`), a parameter of the sign-in request.
    pub id: String,
    /// 32-character course uuid.
    pub uuid: String,
    pub course_name: String,
    pub teacher_name: String,
    pub week_day: String,
    /// Shaped like `2026-03-25 10:25:00`.
    pub class_begin_time: String,
    pub class_end_time: String,
    /// Sign-in status (`0` / `1`, as the upstream defines it).
    pub sign_status: String,
}

/// The outcome of one sign-in request.
#[derive(Debug, Clone, PartialEq, Eq)]
pub struct SignResult {
    pub success: bool,
    pub message: String,
    /// The upstream `STATUS` value as received.
    pub upstream_status: String,
    pub stu_sign_id: String,
    pub stu_sign_status: String,
}

/// The text after the last space of `s`, or all of `s` when it holds no space.
pub open spec fn after_last_space(s: Seq<char>) -> Seq<char>
    decreases s.len(),
{
    if s.len() == 0 {
        s
    } else if s.last() == ' ' {
        Seq::empty()
    } else {
        after_last_space(s.drop_last()).push(s.last())
    }
}

/// At most the first five characters of `s`.
pub open spec fn first_five(s: Seq<char>) -> Seq<char> {
    if s.len() <= 5 {
        s
    } else {
        s.take(5)
    }
}

/// `HH:MM` taken from an upstream `yyyy-MM-dd HH:mm:ss` text: the first five
/// characters after the last space.
pub open spec fn time_of_day_text(datetime: Seq<char>) -> Seq<char> {
    first_five(after_last_space(datetime))
}

/// `HH:MM ~ HH:MM` of a course.
pub open spec fn class_time_text(c: Course) -> Seq<char> {
    time_of_day_text(c.class_begin_time@) + seq![' ', '~', ' '] + time_of_day_text(
        c.class_end_time@,
    )
}

/// The readable label of a sign-in status.
pub open spec fn sign_status_text(status: Seq<char>) -> Seq<char> {
    if status == "1"@ {
        "已签到"@
    } else if status == "0"@ {
        "未签到"@
    } else {
        "未知("@ + status + ")"@
    }
}

impl Course {
    /// Class time range text (`HH:MM ~ HH:MM`).
    pub fn class_time_range(&self) -> (r: String)
        ensures
            r@ == class_time_text(*self),
    {
        let mut r = Course::time_only(self.class_begin_time.as_str());
        push_char(&mut r, ' ');
        push_char(&mut r, '~');
        push_char(&mut r, ' ');
        let end = Course::time_only(self.class_end_time.as_str());
        push_str(&mut r, end.as_str());
        assert(r@ =~= class_time_text(*self));
        r
    }

    /// Readable sign-in status: `1` → signed, `0` → not signed, anything else → unknown.
    pub fn sign_status_label(&self) -> (r: String)
        ensures
            r@ == sign_status_text(self.sign_status@),
    {
        let status = self.sign_status.as_str();
        let mut r = String::new();
        if str_eq(status, "1") {
            push_str(&mut r, "已签到");
        } else if str_eq(status, "0") {
            push_str(&mut r, "未签到");
        } else {
            push_str(&mut r, "未知(");
            push_str(&mut r, status);
            push_str(&mut r, ")");
        }
        assert(r@ =~= sign_status_text(self.sign_status@));
        r
    }

    /// `HH:MM` from an upstream `yyyy-MM-dd HH:mm:ss` text.
    pub fn time_only(datetime: &str) -> (r: String)
        ensures
            r@ == time_of_day_text(datetime@),
    {
        let v = chars_of(datetime);
        let mut j: usize = v.len();
        assert(v@.take(j as int) =~= v@);
        assert(v@ + v@.skip(j as int) =~= v@);
        while j > 0 && v[j - 1] != ' '
            invariant
                j <= v.len(),
                after_last_space(v@) == after_last_space(v@.take(j as int)) + v@.skip(j as int),
            decreases j,
        {
            assert(v@.take(j as int).drop_last() =~= v@.take(j - 1));
            assert(v@.skip(j - 1) =~= seq![v@[j - 1]] + v@.skip(j as int));
            assert(after_last_space(v@.take(j - 1)).push(v@[j - 1]) + v@.skip(j as int)
                =~= after_last_space(v@.take(j - 1)) + v@.skip(j - 1));
            j -= 1;
        }
        assert(after_last_space(v@.take(j as int)) =~= Seq::<char>::empty());
        assert(after_last_space(v@) =~= v@.skip(j as int));
        let end: usize = if v.len() - j <= 5 { v.len() } else { j + 5 };
        let mut r = String::new();
        let mut k: usize = j;
        while k < end
            invariant
                j <= k <= end <= v.len(),
                r@ == v@.subrange(j as int, k as int),
            decreases end - k,
        {
            push_char(&mut r, v[k]);
            assert(v@.subrange(j as int, k as int).push(v@[k as int]) =~= v@.subrange(j as int, k + 1));
            k += 1;
        }
        assert(r@ =~= first_five(v@.skip(j as int)));
        r
    }
}

} // verus!
