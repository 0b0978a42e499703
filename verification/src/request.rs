//! Construction of the requests the flow sends: the fixed QR endpoint,
//! the poll URL carrying token and timestamp, and the session cookie
//! header.

use vstd::prelude::*;

verus! {

use crate::digits::dec_signed;
use crate::digits::format_i64;
use crate::status::QRCodeError;

/// The fixed QR-rendering endpoint, with the query parameters that
/// identify the client application.
pub open spec fn qr_show_url_spec() -> Seq<char> {
    "https://ssl.ptlogin2.qq.com/ptqrshow?appid=549000912&e=2&l=M&s=3&d=72&v=4&t=0.8692955245720428&daid=5&pt_3rd_aid=0"@
}

/// The fixed QR-rendering endpoint, as a value.
pub fn qr_show_url() -> (r: String)
    ensures
        r@ == qr_show_url_spec(),
{
    "https://ssl.ptlogin2.qq.com/ptqrshow?appid=549000912&e=2&l=M&s=3&d=72&v=4&t=0.8692955245720428&daid=5&pt_3rd_aid=0".to_owned()
}

/// The fixed browser-identifying request header value.
pub open spec fn user_agent_spec() -> Seq<char> {
    "Mozilla/5.0 (Macintosh; Intel Mac OS X 10_15_7) AppleWebKit/537.36 (KHTML, like Gecko) Chrome/119.0.0.0 Safari/537.36"@
}

/// The fixed browser-identifying request header value, as a value.
pub fn user_agent() -> (r: String)
    ensures
        r@ == user_agent_spec(),
{
    "Mozilla/5.0 (Macintosh; Intel Mac OS X 10_15_7) AppleWebKit/537.36 (KHTML, like Gecko) Chrome/119.0.0.0 Safari/537.36".to_owned()
}

/// The fixed relative path the cookie snapshot is written to.
pub open spec fn snapshot_path_spec() -> Seq<char> {
    "./cookies2.txt"@
}

/// The fixed relative path the cookie snapshot is written to, as a
/// value.
pub fn snapshot_path() -> (r: String)
    ensures
        r@ == snapshot_path_spec(),
{
    "./cookies2.txt".to_owned()
}

/// The status-check URL for a token at a given timestamp: the fixed
/// parameters around the token and the epoch milliseconds.
pub open spec fn poll_url_of(token: Seq<char>, ts: int) -> Seq<char> {
    "https://ssl.ptlogin2.qq.com/ptqrlogin?u1=https%3A%2F%2Fqzs.qq.com%2Fqzone%2Fv5%2Floginsucc.html%3Fpara%3Dizone&ptqrtoken="@
        + token
        + "&ptredirect=0&h=1&t=1&g=1&from_ui=1&ptlang=2052&action=0-0-"@ + dec_signed(ts)
        + "&js_ver=20032614&js_type=1&login_sig=&pt_uistyle=40&aid=549000912&daid=5&"@
}

/// The poll URL for this token and timestamp.
pub fn build_poll_url(ptqrtoken: &str, timestamp_millis: i64) -> (r: String)
    ensures
        r@ == poll_url_of(ptqrtoken@, timestamp_millis as int),
{
    let mut u =
        "https://ssl.ptlogin2.qq.com/ptqrlogin?u1=https%3A%2F%2Fqzs.qq.com%2Fqzone%2Fv5%2Floginsucc.html%3Fpara%3Dizone&ptqrtoken=".to_owned();
    u.append(ptqrtoken);
    u.append("&ptredirect=0&h=1&t=1&g=1&from_ui=1&ptlang=2052&action=0-0-");
    let ts = format_i64(timestamp_millis);
    u.append(ts.as_str());
    u.append("&js_ver=20032614&js_type=1&login_sig=&pt_uistyle=40&aid=549000912&daid=5&");
    u
}

/// Relies on chrono's `Local::now().timestamp_millis()`: the current
/// time in milliseconds since the Unix epoch. Nothing is assumed of
/// the value returned; callers state what holds for every timestamp.
#[verifier::external_body]
fn now_timestamp_millis() -> i64 {
    chrono::Local::now().timestamp_millis()
}

/// The poll URL for this token at the current time: correct for some
/// timestamp, whatever the clock returned.
pub fn poll_url_now(ptqrtoken: &str) -> (r: String)
    ensures
        exists|ts: int| r@ == poll_url_of(ptqrtoken@, ts),
{
    let ts = now_timestamp_millis();
    let r = build_poll_url(ptqrtoken, ts);
    proof {
        assert(r@ == poll_url_of(ptqrtoken@, ts as int));
    }
    r
}

/// A character `HeaderValue::from_str` accepts: horizontal tab, any
/// visible ASCII or space, or any character beyond ASCII (whose UTF-8
/// bytes all lie above 127).
pub open spec fn is_header_value_char(c: char) -> bool {
    let u = c as u32;
    u == 9 || (32 <= u && u != 127)
}

/// Every character of the text can stand in a request header value.
pub open spec fn valid_header_text(s: Seq<char>) -> bool {
    forall|i: int| 0 <= i < s.len() ==> is_header_value_char(#[trigger] s[i])
}

/// The `Cookie` header that binds a poll to its session.
pub open spec fn cookie_header_of(qrsig: Seq<char>) -> Seq<char> {
    "qrsig="@ + qrsig
}

/// The `Cookie` header value `qrsig=<secret>` for the poll request,
/// rejected exactly when the secret holds a character that cannot
/// stand in a header value.
pub fn build_poll_cookie(qrsig: &str) -> (r: Result<String, QRCodeError>)
    ensures
        valid_header_text(qrsig@) ==> (r matches Ok(h) && h@ == cookie_header_of(qrsig@)),
        !valid_header_text(qrsig@) ==> r == Result::<String, QRCodeError>::Err(
            QRCodeError::CheckQRCodeStatusError,
        ),
{
    let n = qrsig.unicode_len();
    let mut i: usize = 0;
    while i < n
        invariant
            n == qrsig@.len(),
            i <= n,
            forall|k: int| 0 <= k < i ==> is_header_value_char(#[trigger] qrsig@[k]),
        decreases n - i,
    {
        let c = qrsig.get_char(i);
        let u = c as u32;
        if !(u == 9 || (32 <= u && u != 127)) {
            return Err(QRCodeError::CheckQRCodeStatusError);
        }
        i += 1;
    }
    let mut h = "qrsig=".to_owned();
    h.append(qrsig);
    Ok(h)
}

} // verus!
