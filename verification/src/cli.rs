//! The command-line front end's logic: credentials, dates and the course table.

use vstd::prelude::*;
use crate::config::DEFAULT_PASSWORD;
use crate::model::{class_time_text, sign_status_text, Course};
use crate::text::{decimal, push_char, push_decimal, push_two_digits, two_digits};

verus! {

/// The command line.
#[derive(Debug, Clone)]
pub struct Cli {
    /// Student number (or the environment variable `UCAS_USERNAME`).
    pub username: Option<String>,
    /// Password (or the environment variable `UCAS_PASSWORD`; the default password when absent).
    pub password: String,
    pub command: Commands,
}

/// The subcommands.
#[derive(Debug, Clone)]
pub enum Commands {
    /// Show the schedule of a day (today by default).
    Query {
        /// `yyyy-MM-dd` or `yyyyMMdd`; today by default.
        date: Option<String>,
        /// Print JSON.
        json: bool,
    },
    /// Show the upstream server time (milliseconds; needs no login).
    Timestamp,
}

/// Why the credentials of a command line are refused.
#[derive(Debug, Clone, Copy, PartialEq, Eq, Structural)]
pub enum CredentialsError {
    /// No student number was given.
    MissingUsername,
    /// The student number is empty.
    EmptyUsername,
}

impl CredentialsError {
    /// The message shown for the error.
    pub fn message(&self) -> (r: String)
        ensures
            *self == CredentialsError::MissingUsername ==> r@ == "缺少学号：请用 --username 或环境变量 UCAS_USERNAME"@,
            *self == CredentialsError::EmptyUsername ==> r@ == "学号不能为空"@,
    {
        match self {
            CredentialsError::MissingUsername => "缺少学号：请用 --username 或环境变量 UCAS_USERNAME".to_owned(),
            CredentialsError::EmptyUsername => "学号不能为空".to_owned(),
        }
    }
}

/// The credentials of a command line: the student number is required and must
/// not be empty; an empty password falls back to the UCAS default password.
pub fn require_credentials(cli: &Cli) -> (r: Result<(String, String), CredentialsError>)
    ensures
        match cli.username {
            None => r == Err::<(String, String), CredentialsError>(CredentialsError::MissingUsername),
            Some(u) => if u@.len() == 0 {
                r == Err::<(String, String), CredentialsError>(CredentialsError::EmptyUsername)
            } else {
                r matches Ok((ru, rp)) && ru@ == u@ && rp@ == (if cli.password@.len() == 0 {
                    DEFAULT_PASSWORD@
                } else {
                    cli.password@
                })
            },
        },
{
    let username = match &cli.username {
        Some(u) => u.clone(),
        None => {
            return Err(CredentialsError::MissingUsername);
        },
    };
    if username.as_str().is_empty() {
        return Err(CredentialsError::EmptyUsername);
    }
    let password = if cli.password.as_str().is_empty() {
        DEFAULT_PASSWORD.to_owned()
    } else {
        cli.password.clone()
    };
    Ok((username, password))
}

/// Format of a compact date.
pub const COMPACT_DATE_FORMAT: &'static str = "%Y%m%d";

/// The earliest and latest years of chrono's `NaiveDate`.
pub const DATE_MIN_YEAR: i32 = -262143;
pub const DATE_MAX_YEAR: i32 = 262142;

/// The year, month and day that chrono reads from `raw` in the format `fmt`, if it reads a date.
pub uninterp spec fn parsed_date(raw: Seq<char>, fmt: Seq<char>) -> Option<(i32, u32, u32)>;

/// chrono `NaiveDate::parse_from_str(raw, fmt)`, the date given as its year,
/// month and day (`Datelike::year`, `month`, `day`). The contract names the result
/// and adds the ranges chrono documents for these fields.
#[verifier::external_body]
fn chrono_parse_date(raw: &str, fmt: &str) -> (r: Option<(i32, u32, u32)>)
    ensures
        r == parsed_date(raw@, fmt@),
        r matches Some((y, m, d)) ==> DATE_MIN_YEAR <= y <= DATE_MAX_YEAR && 1 <= m <= 12 && 1 <= d <= 31,
{
    match chrono::NaiveDate::parse_from_str(raw, fmt) {
        Ok(d) => Some((chrono::Datelike::year(&d), chrono::Datelike::month(&d), chrono::Datelike::day(&d))),
        Err(_) => None,
    }
}

/// `s` without its `-` characters.
pub open spec fn without_dashes(s: Seq<char>) -> Seq<char>
    decreases s.len(),
{
    if s.len() == 0 {
        s
    } else if s.last() == '-' {
        without_dashes(s.drop_last())
    } else {
        without_dashes(s.drop_last()).push(s.last())
    }
}

/// The decimal text of `n`, zero-padded to at least four digits.
pub open spec fn pad4(n: nat) -> Seq<char> {
    if n < 10 {
        seq!['0', '0', '0'] + decimal(n)
    } else if n < 100 {
        seq!['0', '0'] + decimal(n)
    } else if n < 1000 {
        seq!['0'] + decimal(n)
    } else {
        decimal(n)
    }
}

/// chrono's `%Y`: four zero-padded digits for years 0 to 9999, else a sign
/// followed by at least four zero-padded digits.
pub open spec fn year_text(y: int) -> Seq<char> {
    if 0 <= y <= 9999 {
        pad4(y as nat)
    } else if y < 0 {
        seq!['-'] + pad4((-y) as nat)
    } else {
        seq!['+'] + pad4(y as nat)
    }
}

/// `yyyyMMdd` of a date (chrono's `%Y%m%d`).
pub open spec fn compact_date_text(y: int, m: nat, d: nat) -> Seq<char> {
    year_text(y) + two_digits(m) + two_digits(d)
}

/// Appends `n`, zero-padded to at least four digits.
fn push_pad4(s: &mut String, n: u64)
    ensures
        final(s)@ == old(s)@ + pad4(n as nat),
{
    if n < 10 {
        push_char(s, '0');
        push_char(s, '0');
        push_char(s, '0');
    } else if n < 100 {
        push_char(s, '0');
        push_char(s, '0');
    } else if n < 1000 {
        push_char(s, '0');
    }
    push_decimal(s, n);
    assert(final(s)@ =~= old(s)@ + pad4(n as nat));
}

/// Why a date is refused.
#[derive(Debug, Clone, Copy, PartialEq, Eq, Structural)]
pub enum DateError {
    /// The date is neither `yyyy-MM-dd` nor `yyyyMMdd`.
    InvalidFormat,
}

impl DateError {
    /// The message shown for the error.
    pub fn message(&self) -> (r: String)
        ensures
            r@ == "日期格式错误，请使用 yyyy-MM-dd 或 yyyyMMdd"@,
    {
        "日期格式错误，请使用 yyyy-MM-dd 或 yyyyMMdd".to_owned()
    }
}

/// Normalises `yyyy-MM-dd` or `yyyyMMdd` to `yyyyMMdd`: the dashes are dropped,
/// the rest is read as a date and written back; without a date, `today` (the
/// caller's `yyyyMMdd` reading of the local clock) is taken.
pub fn normalize_date(input: Option<&str>, today: &str) -> (r: Result<String, DateError>)
    ensures
        match input {
            None => r matches Ok(s) && s@ == today@,
            Some(raw) => match parsed_date(without_dashes(raw@), COMPACT_DATE_FORMAT@) {
                Some((y, m, d)) => r matches Ok(s) && s@ == compact_date_text(y as int, m as nat, d as nat),
                None => r == Err::<String, DateError>(DateError::InvalidFormat),
            },
        },
{
    match input {
        None => Ok(today.to_owned()),
        Some(raw) => {
            let v = crate::text::chars_of(raw);
            let mut compact = String::new();
            let mut i: usize = 0;
            assert(v@.take(0) =~= Seq::<char>::empty());
            while i < v.len()
                invariant
                    i <= v.len(),
                    v@ == raw@,
                    compact@ == without_dashes(v@.take(i as int)),
                decreases v.len() - i,
            {
                if v[i] != '-' {
                    push_char(&mut compact, v[i]);
                }
                assert(v@.take(i + 1).drop_last() =~= v@.take(i as int));
                i += 1;
            }
            assert(v@.take(v.len() as int) =~= v@);
            match chrono_parse_date(compact.as_str(), COMPACT_DATE_FORMAT) {
                None => Err(DateError::InvalidFormat),
                Some((y, m, d)) => {
                    let mut s = String::new();
                    if 0 <= y && y <= 9999 {
                        push_pad4(&mut s, y as u64);
                    } else if y < 0 {
                        push_char(&mut s, '-');
                        push_pad4(&mut s, (-(y as i64)) as u64);
                    } else {
                        push_char(&mut s, '+');
                        push_pad4(&mut s, y as u64);
                    }
                    push_two_digits(&mut s, m as u64);
                    push_two_digits(&mut s, d as u64);
                    assert(s@ =~= compact_date_text(y as int, m as nat, d as nat));
                    Ok(s)
                },
            }
        },
    }
}

/// A row of the course table.
#[derive(Debug, Clone)]
pub struct CourseRow {
    /// One-based position.
    pub index: usize,
    pub course_name: String,
    /// `HH:MM ~ HH:MM`.
    pub class_time: String,
    pub teacher_name: String,
    /// Readable sign-in status.
    pub sign_status: String,
    pub id: String,
}

/// The table rows of a day's courses: position, name, class time (only `HH:MM`,
/// the day being known), teacher, readable status and id.
pub fn build_rows(courses: &[Course]) -> (rows: Vec<CourseRow>)
    ensures
        rows@.len() == courses@.len(),
        forall|i: int|
            0 <= i < rows@.len() ==> {
                &&& #[trigger] rows@[i].index == i + 1
                &&& rows@[i].course_name@ == courses@[i].course_name@
                &&& rows@[i].class_time@ == class_time_text(courses@[i])
                &&& rows@[i].teacher_name@ == courses@[i].teacher_name@
                &&& rows@[i].sign_status@ == sign_status_text(courses@[i].sign_status@)
                &&& rows@[i].id@ == courses@[i].id@
            },
{
    let mut rows: Vec<CourseRow> = Vec::new();
    let mut i: usize = 0;
    while i < courses.len()
        invariant
            i <= courses.len(),
            rows@.len() == i,
            forall|k: int|
                0 <= k < i ==> {
                    &&& #[trigger] rows@[k].index == k + 1
                    &&& rows@[k].course_name@ == courses@[k].course_name@
                    &&& rows@[k].class_time@ == class_time_text(courses@[k])
                    &&& rows@[k].teacher_name@ == courses@[k].teacher_name@
                    &&& rows@[k].sign_status@ == sign_status_text(courses@[k].sign_status@)
                    &&& rows@[k].id@ == courses@[k].id@
                },
        decreases courses.len() - i,
    {
        let c = &courses[i];
        rows.push(
            CourseRow {
                index: i + 1,
                course_name: c.course_name.clone(),
                class_time: c.class_time_range(),
                teacher_name: c.teacher_name.clone(),
                sign_status: c.sign_status_label(),
                id: c.id.clone(),
            },
        );
        i += 1;
    }
    rows
}

} // verus!
