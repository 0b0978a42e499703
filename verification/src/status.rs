//! Classification of a poll response body against the known status
//! markers, and the result and error types of the login flow.

use vstd::prelude::*;

verus! {

use crate::textscan::seq_contains;
use crate::textscan::str_contains;
use crate::urlscan::find_url;
use crate::urlscan::has_url_match;
use crate::urlscan::is_first_greedy_match;

/// The closed set of failures the flow can surface. Each variant
/// carries a fixed display message, returned by [`QRCodeError::message`].
#[derive(Debug, Clone, Copy, PartialEq, Eq, Structural)]
pub enum QRCodeError {
    /// Transport or connection failure while requesting the QR code.
    ReqwestError,
    /// The QR response body could not be read.
    DecodeError,
    /// The expected session-binding cookie was absent from the response.
    GetCookieError,
    /// A local read or write of the QR image failed.
    FileError,
    /// Any failure while polling, following the redirect, building the
    /// request, or persisting the credentials.
    CheckQRCodeStatusError,
}

/// Classification of one poll of the status endpoint.
#[allow(non_camel_case_types)]
#[derive(Debug, Clone, Copy, PartialEq, Eq, Structural)]
pub enum QRCodeResultCode {
    /// The code has not been scanned yet.
    Valid,
    /// The code is no longer usable.
    Expired,
    /// Scanned, awaiting confirmation on the trusted device.
    VERIFYING,
    /// Confirmed; the session has been finalized and persisted.
    Success,
    /// The body matched no known marker, or reported success without a
    /// completion target.
    Unknown,
}

/// The outcome of one poll: a code and its display message. `data` is
/// reserved and always absent.
#[derive(Debug, Clone)]
pub struct QRCodeLoginResult {
    pub code: QRCodeResultCode,
    pub msg: String,
    pub data: Option<String>,
}

/// What one look at a poll body decides: either a final result, or the
/// completion URL that must be requested before success may be
/// reported.
#[derive(Debug, Clone)]
pub enum PollStep {
    Conclude(QRCodeLoginResult),
    FollowRedirect(String),
}

/// Marker the service embeds while the code awaits its first scan.
pub open spec fn marker_valid() -> Seq<char> {
    "二维码未失效"@
}

/// Marker for a scanned code awaiting confirmation.
pub open spec fn marker_verifying() -> Seq<char> {
    "二维码认证中"@
}

/// Marker for a code that can no longer be used.
pub open spec fn marker_expired() -> Seq<char> {
    "二维码已失效"@
}

/// Marker for a confirmed login.
pub open spec fn marker_success() -> Seq<char> {
    "登录成功"@
}

/// The display message paired with each result code.
pub open spec fn status_msg(code: QRCodeResultCode) -> Seq<char> {
    match code {
        QRCodeResultCode::Valid => "二维码未失效"@,
        QRCodeResultCode::Expired => "二维码已失效"@,
        QRCodeResultCode::VERIFYING => "二维码认证中"@,
        QRCodeResultCode::Success => "二维码认证成功"@,
        QRCodeResultCode::Unknown => "二维码状态未知"@,
    }
}

/// The display message of each error variant.
pub open spec fn error_msg(e: QRCodeError) -> Seq<char> {
    match e {
        QRCodeError::ReqwestError => "网络请求错误, 获取二维码失败!"@,
        QRCodeError::DecodeError => "解码数据错误, 获取二维码失败!"@,
        QRCodeError::GetCookieError => "解析Cookie失败, 获取二维码失败!"@,
        QRCodeError::FileError => "文件读写错误, 保存二维码失败!"@,
        QRCodeError::CheckQRCodeStatusError => "检查二维码扫码状态失败!"@,
    }
}

/// The code the markers select, in priority order: not-yet-scanned,
/// then awaiting confirmation, then expired, then success; `Unknown`
/// when none occurs. The first marker found wins.
pub open spec fn marker_code(b: Seq<char>) -> QRCodeResultCode {
    if seq_contains(b, marker_valid()) {
        QRCodeResultCode::Valid
    } else if seq_contains(b, marker_verifying()) {
        QRCodeResultCode::VERIFYING
    } else if seq_contains(b, marker_expired()) {
        QRCodeResultCode::Expired
    } else if seq_contains(b, marker_success()) {
        QRCodeResultCode::Success
    } else {
        QRCodeResultCode::Unknown
    }
}

/// A body calls for the redirect request exactly when it carries the
/// success marker and embeds a completion URL.
pub open spec fn needs_redirect(b: Seq<char>) -> bool {
    marker_code(b) is Success && has_url_match(b)
}

/// The final code for a body that calls for no redirect: a success
/// marker without a completion URL is downgraded to `Unknown`.
pub open spec fn concluded_code(b: Seq<char>) -> QRCodeResultCode {
    if marker_code(b) is Success {
        QRCodeResultCode::Unknown
    } else {
        marker_code(b)
    }
}

/// The step is a final result with the given code, its fixed message,
/// and no payload.
pub open spec fn is_concluded(r: PollStep, code: QRCodeResultCode) -> bool {
    &&& r matches PollStep::Conclude(res)
    &&& res.code == code
    &&& res.msg@ == status_msg(code)
    &&& res.data is None
}

/// Priority holds under marker co-occurrence: a body carrying both the
/// "awaiting confirmation" and the "expired" markers (and not the
/// earlier "not yet scanned" one) classifies as `VERIFYING`.
pub proof fn lemma_priority_verifying_over_expired(b: Seq<char>)
    requires
        seq_contains(b, marker_verifying()),
        seq_contains(b, marker_expired()),
        !seq_contains(b, marker_valid()),
    ensures
        marker_code(b) == QRCodeResultCode::VERIFYING,
{
}

/// A success-marker body with no embedded URL concludes as `Unknown`,
/// not `Success`: no redirect is called for, so nothing is persisted.
pub proof fn lemma_success_without_url_is_unknown(b: Seq<char>)
    requires
        marker_code(b) == QRCodeResultCode::Success,
        !has_url_match(b),
    ensures
        !needs_redirect(b),
        concluded_code(b) == QRCodeResultCode::Unknown,
{
}

fn status_result(code: QRCodeResultCode) -> (r: QRCodeLoginResult)
    ensures
        r.code == code,
        r.msg@ == status_msg(code),
        r.data is None,
{
    let msg: String = match code {
        QRCodeResultCode::Valid => "二维码未失效".to_owned(),
        QRCodeResultCode::Expired => "二维码已失效".to_owned(),
        QRCodeResultCode::VERIFYING => "二维码认证中".to_owned(),
        QRCodeResultCode::Success => "二维码认证成功".to_owned(),
        QRCodeResultCode::Unknown => "二维码状态未知".to_owned(),
    };
    QRCodeLoginResult { code, msg, data: None }
}

impl QRCodeError {
    /// The fixed, user-facing message of this error.
    pub fn message(&self) -> (r: String)
        ensures
            r@ == error_msg(*self),
    {
        match *self {
            QRCodeError::ReqwestError => "网络请求错误, 获取二维码失败!".to_owned(),
            QRCodeError::DecodeError => "解码数据错误, 获取二维码失败!".to_owned(),
            QRCodeError::GetCookieError => "解析Cookie失败, 获取二维码失败!".to_owned(),
            QRCodeError::FileError => "文件读写错误, 保存二维码失败!".to_owned(),
            QRCodeError::CheckQRCodeStatusError => "检查二维码扫码状态失败!".to_owned(),
        }
    }
}

/// One look at a poll response body. Yields the final result for every
/// body except a success-marker body with an embedded completion URL,
/// for which it yields that URL: the caller must request it (and then
/// persist the session) before success may be reported.
pub fn classify_poll_body(content: &str) -> (r: PollStep)
    ensures
        (r matches PollStep::FollowRedirect(u)) <==> needs_redirect(content@),
        !needs_redirect(content@) ==> is_concluded(r, concluded_code(content@)),
        r matches PollStep::FollowRedirect(u) ==> exists|i: int, e: int|
            is_first_greedy_match(content@, i, e) && u@ == content@.subrange(i, e),
{
    if str_contains(content, "二维码未失效") {
        PollStep::Conclude(status_result(QRCodeResultCode::Valid))
    } else if str_contains(content, "二维码认证中") {
        PollStep::Conclude(status_result(QRCodeResultCode::VERIFYING))
    } else if str_contains(content, "二维码已失效") {
        PollStep::Conclude(status_result(QRCodeResultCode::Expired))
    } else if str_contains(content, "登录成功") {
        match find_url(content) {
            Some(u) => PollStep::FollowRedirect(u),
            None => PollStep::Conclude(status_result(QRCodeResultCode::Unknown)),
        }
    } else {
        PollStep::Conclude(status_result(QRCodeResultCode::Unknown))
    }
}

/// The step that closes a success once the redirect has been requested:
/// success may be reported only if the credential snapshot was written;
/// a failed persistence surfaces as an error, never as a success.
pub fn conclude_after_redirect(persisted: bool) -> (r: Result<QRCodeLoginResult, QRCodeError>)
    ensures
        persisted ==> (r matches Ok(res) && res.code == QRCodeResultCode::Success && res.msg@
            == status_msg(QRCodeResultCode::Success) && res.data is None),
        !persisted ==> r == Result::<QRCodeLoginResult, QRCodeError>::Err(
            QRCodeError::CheckQRCodeStatusError,
        ),
{
    if persisted {
        Ok(status_result(QRCodeResultCode::Success))
    } else {
        Err(QRCodeError::CheckQRCodeStatusError)
    }
}

} // verus!
