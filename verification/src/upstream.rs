//! The upstream iclass API: endpoints, request shapes and the decisions taken
//! on each response. Requests pose as the official Android app.
//!
//! The HTTP exchanges themselves are made by the caller; this module builds what
//! is sent and decides what each response means.

use vstd::prelude::*;
use crate::model::{AuthSession, Course, SignResult};
use crate::text::{chars_of, push_char, push_decimal, push_signed_decimal, push_str, str_eq};

verus! {

/// User agent of the official Android app's login endpoint.
pub const LOGIN_UA: &'static str = "student_5.0.1.2_android_12_20__110000";

/// User agent of the official Android app's other endpoints.
pub const API_UA: &'static str = "student_5.0.1.2_android_12_20_100000000000000_110000";

/// The timestamp service and the sign-in service run on different servers whose
/// clocks differ by about 3.5 s; a sign-in timestamp is the server time minus this
/// buffer, or the upstream refuses it with `ERRCODE=100`.
pub const SIGN_TIMESTAMP_BUFFER_MS: i64 = 3000;

/// Upstream paths.
pub const LOGIN_PATH: &'static str = "/app/user/login.action";
pub const TIMESTAMP_PATH: &'static str = "/app/common/get_timestamp.do";
pub const SCHEDULE_PATH: &'static str = "/app/course/get_stu_course_sched.action";
pub const SIGN_PATH: &'static str = "/app/course/stu_scan_sign.action";

/// Verification URL template of the login body (kept as the official app sends it).
pub const VERIFICATION_URL_TEMPLATE: &'static str = "http://iclass.ucas.edu.cn:88/ve/webservices/mobileCheck.shtml?method=mobileLogin&username=${0}&password=${1}&lx=${2}";

/// Message of a sign-in response that carries none.
pub const DEFAULT_SIGN_MESSAGE: &'static str = "签到失败，请稍后重试";

/// The encoding of one character in a query value.
pub open spec fn encode_char(c: char) -> Seq<char> {
    if c == '%' {
        seq!['%', '2', '5']
    } else if c == ' ' {
        seq!['%', '2', '0']
    } else {
        seq![c]
    }
}

/// A query value with `%` written `%25` and spaces written `%20`.
pub open spec fn url_encoded(s: Seq<char>) -> Seq<char>
    decreases s.len(),
{
    if s.len() == 0 {
        s
    } else {
        url_encoded(s.drop_last()) + encode_char(s.last())
    }
}

/// URL encoding of a query value (`%` → `%25`, space → `%20`).
pub fn urlencode(s: &str) -> (r: String)
    ensures
        r@ == url_encoded(s@),
{
    let v = chars_of(s);
    let mut r = String::new();
    let mut i: usize = 0;
    assert(v@.take(0) =~= Seq::<char>::empty());
    while i < v.len()
        invariant
            i <= v.len(),
            v@ == s@,
            r@ == url_encoded(v@.take(i as int)),
        decreases v.len() - i,
    {
        let c = v[i];
        if c == '%' {
            push_char(&mut r, '%');
            push_char(&mut r, '2');
            push_char(&mut r, '5');
        } else if c == ' ' {
            push_char(&mut r, '%');
            push_char(&mut r, '2');
            push_char(&mut r, '0');
        } else {
            push_char(&mut r, c);
        }
        assert(v@.take(i + 1).drop_last() =~= v@.take(i as int));
        assert(r@ =~= url_encoded(v@.take(i as int)) + encode_char(c));
        i += 1;
    }
    assert(v@.take(v.len() as int) =~= v@);
    r
}

/// Law: an encoded query value holds no space.
pub proof fn lemma_url_encoded_has_no_space(s: Seq<char>)
    ensures
        !url_encoded(s).contains(' '),
    decreases s.len(),
{
    if s.len() > 0 {
        lemma_url_encoded_has_no_space(s.drop_last());
        let a = url_encoded(s.drop_last());
        let b = encode_char(s.last());
        assert forall|i: int| 0 <= i < (a + b).len() implies (a + b)[i] != ' ' by {
            if i < a.len() {
                assert((a + b)[i] == a[i]);
            } else {
                assert((a + b)[i] == b[i - a.len()]);
            }
        }
    }
}

/// Law: a value with neither `%` nor space is sent as it is.
pub proof fn lemma_url_encoded_plain(s: Seq<char>)
    requires
        !s.contains('%'),
        !s.contains(' '),
    ensures
        url_encoded(s) == s,
    decreases s.len(),
{
    if s.len() > 0 {
        assert(!s.drop_last().contains('%') && !s.drop_last().contains(' ')) by {
            if s.drop_last().contains('%') || s.drop_last().contains(' ') {
                let i = choose|i: int| 0 <= i < s.drop_last().len() && (s.drop_last()[i] == '%' || s.drop_last()[i] == ' ');
                assert(s[i] == s.drop_last()[i]);
            }
        }
        lemma_url_encoded_plain(s.drop_last());
        assert(s[s.len() - 1] == s.last());
        assert(s.drop_last() + seq![s.last()] =~= s);
    }
}

/// A query value read back: `%25` is read as `%`, `%20` as a space, any other
/// character as itself.
pub open spec fn url_decoded(s: Seq<char>) -> Seq<char>
    decreases s.len(),
{
    if s.len() == 0 {
        s
    } else if s.len() >= 3 && s[0] == '%' && s[1] == '2' && s[2] == '5' {
        seq!['%'] + url_decoded(s.skip(3))
    } else if s.len() >= 3 && s[0] == '%' && s[1] == '2' && s[2] == '0' {
        seq![' '] + url_decoded(s.skip(3))
    } else {
        seq![s[0]] + url_decoded(s.skip(1))
    }
}

/// Encoding a concatenation encodes each part.
proof fn lemma_url_encoded_append(a: Seq<char>, b: Seq<char>)
    ensures
        url_encoded(a + b) == url_encoded(a) + url_encoded(b),
    decreases b.len(),
{
    if b.len() == 0 {
        assert(a + b =~= a);
        assert(url_encoded(a) + url_encoded(b) =~= url_encoded(a));
    } else {
        lemma_url_encoded_append(a, b.drop_last());
        assert((a + b).drop_last() =~= a + b.drop_last());
        assert((a + b).last() == b.last());
        assert(url_encoded(a) + url_encoded(b.drop_last()) + encode_char(b.last())
            =~= url_encoded(a) + (url_encoded(b.drop_last()) + encode_char(b.last())));
    }
}

/// Law: the encoding loses nothing: reading an encoded value back gives the
/// value, so two different values are never sent alike.
pub proof fn lemma_url_encoding_reversible(s: Seq<char>)
    ensures
        url_decoded(url_encoded(s)) == s,
    decreases s.len(),
{
    if s.len() > 0 {
        let c = s[0];
        let rest = s.skip(1);
        assert(s =~= seq![c] + rest);
        lemma_url_encoded_append(seq![c], rest);
        assert(seq![c].drop_last() =~= Seq::<char>::empty());
        assert(url_encoded(Seq::<char>::empty()) == Seq::<char>::empty());
        assert(seq![c].last() == c);
        assert(url_encoded(seq![c]) =~= encode_char(c));
        lemma_url_encoding_reversible(rest);
        let e = encode_char(c) + url_encoded(rest);
        assert(url_encoded(s) == e);
        assert(e.skip(encode_char(c).len() as int) =~= url_encoded(rest));
        assert(e[0] == encode_char(c)[0]);
        if c == '%' {
            assert(e[1] == '2' && e[2] == '5');
        } else if c == ' ' {
            assert(e[1] == '2' && e[2] == '0');
        }
        assert(url_decoded(e) =~= seq![c] + rest);
    }
}

/// `s` without its trailing `/` characters.
pub open spec fn trim_trailing_slashes(s: Seq<char>) -> Seq<char>
    decreases s.len(),
{
    if s.len() > 0 && s.last() == '/' {
        trim_trailing_slashes(s.drop_last())
    } else {
        s
    }
}

/// Why an upstream exchange fails.
#[derive(Debug, Clone, PartialEq, Eq)]
pub enum UpstreamError {
    /// A login was asked of an endpoint without credentials.
    MissingCredentials,
    /// The login endpoint answered with a `STATUS` other than `0`.
    LoginRejected(String),
    /// The login answer holds no `result`.
    MissingLoginResult,
    /// The login answer holds no `sessionId` of 32 hexadecimal digits.
    InvalidSessionId,
    /// The timestamp endpoint answered with a `STATUS` other than `0`.
    TimestampRejected(String),
    /// The schedule endpoint answered with a `STATUS` other than `0`.
    ScheduleRejected(String),
}

/// The message shown for an upstream error.
pub open spec fn upstream_error_text(e: UpstreamError) -> Seq<char> {
    match e {
        UpstreamError::MissingCredentials => "客户端未配置凭据"@,
        UpstreamError::LoginRejected(s) => "登录失败：STATUS="@ + s@,
        UpstreamError::MissingLoginResult => "登录响应缺少 result"@,
        UpstreamError::InvalidSessionId => "登录响应缺少合法 sessionId"@,
        UpstreamError::TimestampRejected(s) => "时间戳接口 STATUS="@ + s@,
        UpstreamError::ScheduleRejected(s) => "课表查询失败：STATUS="@ + s@,
    }
}

impl UpstreamError {
    /// The message shown for the error.
    pub fn message(&self) -> (r: String)
        ensures
            r@ == upstream_error_text(*self),
    {
        let mut r = String::new();
        match self {
            UpstreamError::MissingCredentials => push_str(&mut r, "客户端未配置凭据"),
            UpstreamError::LoginRejected(s) => {
                push_str(&mut r, "登录失败：STATUS=");
                push_str(&mut r, s.as_str());
            },
            UpstreamError::MissingLoginResult => push_str(&mut r, "登录响应缺少 result"),
            UpstreamError::InvalidSessionId => push_str(&mut r, "登录响应缺少合法 sessionId"),
            UpstreamError::TimestampRejected(s) => {
                push_str(&mut r, "时间戳接口 STATUS=");
                push_str(&mut r, s.as_str());
            },
            UpstreamError::ScheduleRejected(s) => {
                push_str(&mut r, "课表查询失败：STATUS=");
                push_str(&mut r, s.as_str());
            },
        }
        assert(r@ =~= upstream_error_text(*self));
        r
    }
}

/// Where requests go, and with which credentials.
#[derive(Debug, Clone)]
pub struct Endpoint {
    /// Upstream address, without trailing `/`.
    pub base_url: String,
    /// Student number (present on endpoints built with credentials).
    pub username: Option<String>,
    /// Password (present on endpoints built with credentials).
    pub password: Option<String>,
}

impl Endpoint {
    /// An endpoint on `base_url` (trailing `/` removed) with the given credentials.
    pub fn new(base_url: &str, username: Option<String>, password: Option<String>) -> (e: Endpoint)
        ensures
            e.base_url@ == trim_trailing_slashes(base_url@),
            e.username == username,
            e.password == password,
    {
        let v = chars_of(base_url);
        let mut n: usize = v.len();
        assert(v@.take(n as int) =~= v@);
        while n > 0 && v[n - 1] == '/'
            invariant
                n <= v.len(),
                v@ == base_url@,
                trim_trailing_slashes(base_url@) == trim_trailing_slashes(v@.take(n as int)),
            decreases n,
        {
            assert(v@.take(n as int).drop_last() =~= v@.take(n - 1));
            n -= 1;
        }
        let mut trimmed = String::new();
        let mut i: usize = 0;
        while i < n
            invariant
                i <= n <= v.len(),
                trimmed@ == v@.take(i as int),
            decreases n - i,
        {
            push_char(&mut trimmed, v[i]);
            assert(v@.take(i as int).push(v@[i as int]) =~= v@.take(i + 1));
            i += 1;
        }
        assert(trimmed@ =~= v@.take(n as int));
        Endpoint { base_url: trimmed, username, password }
    }

    /// An endpoint with credentials, for login, schedule and sign-in.
    pub fn with_credentials(base_url: &str, username: &str, password: &str) -> (e: Endpoint)
        ensures
            e.base_url@ == trim_trailing_slashes(base_url@),
            e.username matches Some(u) && u@ == username@,
            e.password matches Some(p) && p@ == password@,
    {
        Endpoint::new(base_url, Some(username.to_owned()), Some(password.to_owned()))
    }

    /// The address of `path` on this endpoint.
    pub fn url(&self, path: &str) -> (r: String)
        ensures
            r@ == self.base_url@ + path@,
    {
        let mut r = self.base_url.clone();
        push_str(&mut r, path);
        r
    }

    /// The credentials a login sends; an error when the endpoint has none.
    pub fn credentials(&self) -> (r: Result<(String, String), UpstreamError>)
        ensures
            match (self.username, self.password) {
                (Some(u), Some(p)) => r matches Ok((ru, rp)) && ru@ == u@ && rp@ == p@,
                _ => r == Err::<(String, String), UpstreamError>(UpstreamError::MissingCredentials),
            },
    {
        match (&self.username, &self.password) {
            (Some(u), Some(p)) => Ok((u.clone(), p.clone())),
            _ => Err(UpstreamError::MissingCredentials),
        }
    }

    /// The address of the server-time request; `id` defeats caches on the way.
    pub fn timestamp_url(&self, id: u64) -> (r: String)
        ensures
            r@ == self.base_url@ + TIMESTAMP_PATH@ + "?id="@ + crate::text::decimal(id as nat),
    {
        let mut r = self.url(TIMESTAMP_PATH);
        push_str(&mut r, "?id=");
        push_decimal(&mut r, id);
        r
    }

    /// The address of the schedule request of `date` (`yyyyMMdd`).
    pub fn schedule_url(&self, session: &AuthSession, date: &str) -> (r: String)
        ensures
            r@ == self.base_url@ + SCHEDULE_PATH@ + "?id="@ + url_encoded(session.user_id@) + "&dateStr="@
                + url_encoded(date@),
    {
        let mut r = self.url(SCHEDULE_PATH);
        push_str(&mut r, "?id=");
        let user = urlencode(session.user_id.as_str());
        push_str(&mut r, user.as_str());
        push_str(&mut r, "&dateStr=");
        let d = urlencode(date);
        push_str(&mut r, d.as_str());
        r
    }

    /// The address of the sign-in request of a course at a timestamp.
    pub fn sign_url(&self, session: &AuthSession, course_sched_id: &str, timestamp_ms: i64) -> (r: String)
        ensures
            r@ == self.base_url@ + SIGN_PATH@ + "?courseSchedId="@ + url_encoded(course_sched_id@)
                + "&timestamp="@ + crate::text::signed_decimal(timestamp_ms as int) + "&id="@
                + url_encoded(session.user_id@),
    {
        let mut r = self.url(SIGN_PATH);
        push_str(&mut r, "?courseSchedId=");
        let c = urlencode(course_sched_id);
        push_str(&mut r, c.as_str());
        push_str(&mut r, "&timestamp=");
        push_signed_decimal(&mut r, timestamp_ms);
        push_str(&mut r, "&id=");
        let user = urlencode(session.user_id.as_str());
        push_str(&mut r, user.as_str());
        r
    }
}

/// The form fields of a login request, in order.
pub fn login_form(username: &str, password: &str) -> (r: Vec<(String, String)>)
    ensures
        r@.len() == 5,
        r@[0].0@ == "phone"@ && r@[0].1@ == username@,
        r@[1].0@ == "password"@ && r@[1].1@ == password@,
        r@[2].0@ == "verificationType"@ && r@[2].1@ == "1"@,
        r@[3].0@ == "verificationUrl"@ && r@[3].1@ == VERIFICATION_URL_TEMPLATE@,
        r@[4].0@ == "userLevel"@ && r@[4].1@ == "1"@,
{
    let mut r: Vec<(String, String)> = Vec::new();
    r.push(("phone".to_owned(), username.to_owned()));
    r.push(("password".to_owned(), password.to_owned()));
    r.push(("verificationType".to_owned(), "1".to_owned()));
    r.push(("verificationUrl".to_owned(), VERIFICATION_URL_TEMPLATE.to_owned()));
    r.push(("userLevel".to_owned(), "1".to_owned()));
    r
}


/// The login answer.
#[derive(Debug, Clone)]
pub struct LoginResponse {
    /// Upstream `STATUS`.
    pub status: String,
    pub result: Option<LoginResult>,
}

/// The `result` of a login answer.
#[derive(Debug, Clone)]
pub struct LoginResult {
    pub id: String,
    pub session_id: Option<String>,
}

/// The server-time answer.
#[derive(Debug, Clone)]
pub struct TimestampResponse {
    /// Upstream `STATUS`.
    pub status: String,
    pub timestamp: i64,
}

/// The schedule answer.
#[derive(Debug, Clone)]
pub struct ScheduleResponse {
    /// Upstream `STATUS`.
    pub status: String,
    pub result: Option<Vec<Course>>,
}

/// The sign-in answer.
#[derive(Debug, Clone)]
pub struct SignResponse {
    /// Upstream `STATUS`.
    pub status: String,
    pub message: Option<String>,
    pub msg: Option<String>,
    /// Upstream `ERRMSG`.
    pub errmsg: Option<String>,
    pub result: Option<SignResultBody>,
}

/// The `result` of a sign-in answer.
#[derive(Debug, Clone)]
pub struct SignResultBody {
    pub stu_sign_id: Option<String>,
    pub stu_sign_status: Option<String>,
    pub message: Option<String>,
}

/// Whether `c` is an ASCII hexadecimal digit (`0-9`, `a-f`, `A-F`).
pub open spec fn is_hex_digit(c: char) -> bool {
    ('0' <= c && c <= '9') || ('a' <= c && c <= 'f') || ('A' <= c && c <= 'F')
}

/// Whether `s` has the shape of a session id: exactly 32 hexadecimal digits.
pub open spec fn is_session_id(s: Seq<char>) -> bool {
    &&& s.len() == 32
    &&& forall|i: int| 0 <= i < s.len() ==> #[trigger] is_hex_digit(s[i])
}

/// Whether `s` is a session id (32 hexadecimal digits).
fn session_id_ok(s: &str) -> (r: bool)
    ensures
        r == is_session_id(s@),
{
    let v = chars_of(s);
    if v.len() != 32 {
        return false;
    }
    let mut i: usize = 0;
    while i < v.len()
        invariant
            i <= v.len(),
            v@ == s@,
            forall|k: int| 0 <= k < i ==> #[trigger] is_hex_digit(v@[k]),
        decreases v.len() - i,
    {
        let c = v[i];
        if !(('0' <= c && c <= '9') || ('a' <= c && c <= 'f') || ('A' <= c && c <= 'F')) {
            assert(!is_hex_digit(s@[i as int]));
            return false;
        }
        i += 1;
    }
    true
}

/// What a login answer means.
pub open spec fn login_verdict(resp: LoginResponse) -> Result<AuthSession, UpstreamError> {
    if resp.status@ != "0"@ {
        Err(UpstreamError::LoginRejected(resp.status))
    } else {
        match resp.result {
            None => Err(UpstreamError::MissingLoginResult),
            Some(r) => match r.session_id {
                Some(sid) if is_session_id(sid@) => Ok(AuthSession { user_id: r.id, session_id: sid }),
                _ => Err(UpstreamError::InvalidSessionId),
            },
        }
    }
}

/// The session of a login answer: refused unless `STATUS` is `0`, the answer
/// holds a `result`, and its `sessionId` is 32 hexadecimal digits.
pub fn login_outcome(resp: LoginResponse) -> (r: Result<AuthSession, UpstreamError>)
    ensures
        r == login_verdict(resp),
{
    if !str_eq(resp.status.as_str(), "0") {
        return Err(UpstreamError::LoginRejected(resp.status));
    }
    match resp.result {
        None => Err(UpstreamError::MissingLoginResult),
        Some(result) => match result.session_id {
            Some(sid) => {
                if session_id_ok(sid.as_str()) {
                    Ok(AuthSession { user_id: result.id, session_id: sid })
                } else {
                    Err(UpstreamError::InvalidSessionId)
                }
            },
            None => Err(UpstreamError::InvalidSessionId),
        },
    }
}

/// The server time of a timestamp answer (milliseconds); refused unless `STATUS` is `0`.
pub fn timestamp_outcome(resp: TimestampResponse) -> (r: Result<i64, UpstreamError>)
    ensures
        resp.status@ == "0"@ ==> r == Ok::<i64, UpstreamError>(resp.timestamp),
        resp.status@ != "0"@ ==> r == Err::<i64, UpstreamError>(UpstreamError::TimestampRejected(resp.status)),
{
    if !str_eq(resp.status.as_str(), "0") {
        return Err(UpstreamError::TimestampRejected(resp.status));
    }
    Ok(resp.timestamp)
}

/// The courses of a schedule answer (none when it holds no `result`); refused
/// unless `STATUS` is `0`.
pub fn schedule_outcome(resp: ScheduleResponse) -> (r: Result<Vec<Course>, UpstreamError>)
    ensures
        resp.status@ == "0"@ ==> (r matches Ok(cs) && match resp.result {
            Some(v) => cs@ == v@,
            None => cs@.len() == 0,
        }),
        resp.status@ != "0"@ ==> (r matches Err(e) && e == UpstreamError::ScheduleRejected(resp.status)),
{
    if !str_eq(resp.status.as_str(), "0") {
        return Err(UpstreamError::ScheduleRejected(resp.status));
    }
    match resp.result {
        Some(v) => Ok(v),
        None => Ok(Vec::new()),
    }
}

/// `o`'s text, or nothing.
pub open spec fn opt_text(o: Option<String>) -> Option<Seq<char>> {
    match o {
        Some(s) => Some(s@),
        None => None,
    }
}

/// The message of a sign-in answer: the first present of `message`, `ERRMSG`,
/// `msg` and the result's `message`, else the default message.
pub open spec fn sign_message(resp: SignResponse) -> Seq<char> {
    let body_message = match resp.result {
        Some(b) => b.message,
        None => None,
    };
    match (resp.message, resp.errmsg, resp.msg, body_message) {
        (Some(m), _, _, _) => m@,
        (None, Some(m), _, _) => m@,
        (None, None, Some(m), _) => m@,
        (None, None, None, Some(m)) => m@,
        (None, None, None, None) => DEFAULT_SIGN_MESSAGE@,
    }
}

/// A present text, or the empty text.
pub open spec fn text_or_empty(o: Option<String>) -> Seq<char> {
    match o {
        Some(s) => s@,
        None => Seq::empty(),
    }
}

/// The sign-in record id of a sign-in answer (empty when absent).
pub open spec fn sign_record_id(resp: SignResponse) -> Seq<char> {
    match resp.result {
        Some(b) => text_or_empty(b.stu_sign_id),
        None => Seq::empty(),
    }
}

/// The sign-in status of a sign-in answer (empty when absent).
pub open spec fn sign_record_status(resp: SignResponse) -> Seq<char> {
    match resp.result {
        Some(b) => text_or_empty(b.stu_sign_status),
        None => Seq::empty(),
    }
}

/// Law: the reported sign-in status is the answer's `stuSignStatus` as sent
/// (empty when absent), whatever else the answer holds; so a sign-in succeeds
/// exactly when `STATUS` is `0` and `stuSignStatus` is `1`.
pub proof fn lemma_sign_success_reads_status(resp: SignResponse)
    ensures
        resp.result is Some && resp.result->0.stu_sign_status is Some ==> sign_record_status(resp)
            == resp.result->0.stu_sign_status->0@,
        resp.result is None || resp.result->0.stu_sign_status is None ==> sign_record_status(resp).len()
            == 0,
        (resp.status@ == "0"@ && sign_record_status(resp) == "1"@) <==> (resp.status@ == "0"@
            && resp.result is Some && resp.result->0.stu_sign_status is Some
            && resp.result->0.stu_sign_status->0@ == "1"@),
{
    reveal_strlit("1");
    assert("1"@.len() == 1);
    if resp.result is None || resp.result->0.stu_sign_status is None {
        assert(sign_record_status(resp) =~= Seq::<char>::empty());
        assert(sign_record_status(resp) != "1"@);
    }
}

/// A present string, or the empty string.
fn string_or_empty(o: Option<String>) -> (r: String)
    ensures
        r@ == text_or_empty(o),
{
    match o {
        Some(s) => s,
        None => String::new(),
    }
}

/// The outcome of a sign-in answer: a success exactly when `STATUS` is `0` and
/// the result's sign-in status is `1`.
pub fn sign_outcome(resp: SignResponse) -> (r: SignResult)
    ensures
        r.upstream_status == resp.status,
        r.stu_sign_id@ == sign_record_id(resp),
        r.stu_sign_status@ == sign_record_status(resp),
        r.message@ == sign_message(resp),
        r.success == (resp.status@ == "0"@ && sign_record_status(resp) == "1"@),
        r.success <==> (resp.status@ == "0"@ && resp.result is Some && resp.result->0.stu_sign_status is Some
            && resp.result->0.stu_sign_status->0@ == "1"@),
{
    proof {
        lemma_sign_success_reads_status(resp);
    }
    let (stu_sign_id, stu_sign_status, body_message) = match resp.result {
        Some(b) => (string_or_empty(b.stu_sign_id), string_or_empty(b.stu_sign_status), b.message),
        None => (String::new(), String::new(), None),
    };
    let message = match resp.message {
        Some(m) => m,
        None => match resp.errmsg {
            Some(m) => m,
            None => match resp.msg {
                Some(m) => m,
                None => match body_message {
                    Some(m) => m,
                    None => DEFAULT_SIGN_MESSAGE.to_owned(),
                },
            },
        },
    };
    let success = str_eq(resp.status.as_str(), "0") && str_eq(stu_sign_status.as_str(), "1");
    SignResult {
        success,
        message,
        upstream_status: resp.status,
        stu_sign_id,
        stu_sign_status,
    }
}

#[verifier::external_type_specification]
#[verifier::external_body]
pub struct ExSystemTime(std::time::SystemTime);

/// `std::time::SystemTime::now()`: the current system time.
#[verifier::external_body]
fn system_time_now() -> (t: std::time::SystemTime) {
    std::time::SystemTime::now()
}

/// `SystemTime::duration_since(UNIX_EPOCH)`: the time elapsed since the Unix
/// epoch, or `None` where `t` lies before it. What the duration is depends on the
/// clock reading, which Verus cannot see; nothing is stated of it.
#[verifier::external_body]
fn duration_since_epoch(t: &std::time::SystemTime) -> (r: Option<std::time::Duration>) {
    match t.duration_since(std::time::UNIX_EPOCH) {
        Ok(d) => Some(d),
        Err(_) => None,
    }
}

/// `Duration::subsec_nanos`: the fractional part of a duration in nanoseconds,
/// which std documents as always below one billion.
#[verifier::external_body]
fn subsec_nanos(d: &std::time::Duration) -> (r: u32)
    ensures
        r < 1_000_000_000,
{
    d.subsec_nanos()
}

/// The cache-busting id of a server-time request from a clock reading's
/// sub-second nanoseconds (0 when the clock lies before the epoch).
pub fn rand_id_from(nanos: Option<u32>) -> (r: u64)
    ensures
        r == match nanos {
            Some(n) => (n as u64) % 1_000_000,
            None => 0,
        },
        r < 1_000_000,
{
    let n: u32 = match nanos {
        Some(n) => n,
        None => 0,
    };
    (n as u64) % 1_000_000
}

/// A number in 0..1_000_000 taken from the system clock.
pub fn rand_id() -> (r: u64)
    ensures
        r < 1_000_000,
{
    let now = system_time_now();
    let nanos = match duration_since_epoch(&now) {
        Some(d) => Some(subsec_nanos(&d)),
        None => None,
    };
    rand_id_from(nanos)
}

} // verus!
