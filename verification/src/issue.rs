//! Turning the QR endpoint's response cookies into a `QRCode` value:
//! locating the session-binding cookie and binding the derived token
//! to it.

use vstd::prelude::*;

verus! {

use crate::digits::dec_digits;
use crate::status::QRCodeError;
use crate::textscan::starts_with;
use crate::textscan::str_starts_with;
use crate::token::get_ptqrtoken;
use crate::token::token_of;

/// The handle a caller keeps across polls: where the QR image was
/// written, the server-issued session-binding secret, and the token
/// derived from that secret. Created once, never mutated.
#[derive(Debug, Clone)]
pub struct QRCode {
    pub qrcode_path: String,
    pub qrsig: String,
    pub ptqrtoken: String,
}

/// The name prefix that marks the session-binding cookie.
pub open spec fn qrsig_prefix() -> Seq<char> {
    "qrsig"@
}

/// The fixed relative path the QR image is written to.
pub open spec fn qr_image_path_spec() -> Seq<char> {
    "public/imgs/.qrcode.png"@
}

/// The fixed relative path the QR image is written to, as a value.
pub fn qr_image_path() -> (r: String)
    ensures
        r@ == qr_image_path_spec(),
{
    "public/imgs/.qrcode.png".to_owned()
}

/// The value of the last cookie whose name starts with the
/// session-binding prefix; `None` when no cookie matches. Later
/// matches overwrite earlier ones, as the scan over the response's
/// cookies does.
pub open spec fn last_qrsig_value(cookies: Seq<(String, String)>) -> Option<Seq<char>>
    decreases cookies.len(),
{
    if cookies.len() == 0 {
        None
    } else if starts_with(cookies.last().0@, qrsig_prefix()) {
        Some(cookies.last().1@)
    } else {
        last_qrsig_value(cookies.drop_last())
    }
}

proof fn lemma_last_qrsig_at(cookies: Seq<(String, String)>, ix: int)
    requires
        0 <= ix < cookies.len(),
        starts_with(cookies[ix].0@, qrsig_prefix()),
        forall|k: int| ix < k < cookies.len() ==> !starts_with(#[trigger] cookies[k].0@, qrsig_prefix()),
    ensures
        last_qrsig_value(cookies) == Some(cookies[ix].1@),
    decreases cookies.len(),
{
    if ix == cookies.len() - 1 {
    } else {
        assert(cookies.drop_last() =~= cookies.subrange(0, cookies.len() - 1));
        lemma_last_qrsig_at(cookies.drop_last(), ix);
    }
}

proof fn lemma_no_qrsig(cookies: Seq<(String, String)>)
    requires
        forall|k: int| 0 <= k < cookies.len() ==> !starts_with(#[trigger] cookies[k].0@, qrsig_prefix()),
    ensures
        last_qrsig_value(cookies) is None,
    decreases cookies.len(),
{
    if cookies.len() > 0 {
        lemma_no_qrsig(cookies.drop_last());
    }
}

/// The session-binding secret among the response's cookies, by name
/// prefix: the value of the last matching cookie, rejected when no
/// cookie matches or the matching value is empty.
pub fn extract_qrsig(cookies: &Vec<(String, String)>) -> (r: Result<String, QRCodeError>)
    ensures
        match last_qrsig_value(cookies@) {
            Some(v) => (v.len() > 0 ==> (r matches Ok(s) && s@ == v)) && (v.len() == 0 ==> r
                == Result::<String, QRCodeError>::Err(QRCodeError::GetCookieError)),
            None => r == Result::<String, QRCodeError>::Err(QRCodeError::GetCookieError),
        },
{
    let n = cookies.len();
    let mut found: Option<usize> = None;
    let mut i: usize = 0;
    while i < n
        invariant
            n == cookies@.len(),
            i <= n,
            match found {
                Some(ix) => {
                    &&& ix < i
                    &&& starts_with(cookies@[ix as int].0@, qrsig_prefix())
                    &&& forall|k: int|
                        ix < k < i ==> !starts_with(#[trigger] cookies@[k].0@, qrsig_prefix())
                },
                None => forall|k: int|
                    0 <= k < i ==> !starts_with(#[trigger] cookies@[k].0@, qrsig_prefix()),
            },
        decreases n - i,
    {
        let name = &cookies[i].0;
        if str_starts_with(name.as_str(), "qrsig") {
            found = Some(i);
        }
        i += 1;
    }
    match found {
        Some(ix) => {
            proof {
                lemma_last_qrsig_at(cookies@, ix as int);
            }
            let value = cookies[ix].1.clone();
            if value.as_str().unicode_len() == 0 {
                Err(QRCodeError::GetCookieError)
            } else {
                Ok(value)
            }
        },
        None => {
            proof {
                lemma_no_qrsig(cookies@);
            }
            Err(QRCodeError::GetCookieError)
        },
    }
}

/// The `QRCode` built from the QR response's cookies: its secret is
/// the extracted session-binding value, its token is derived from that
/// very secret, and its image path is the fixed one. Rejected exactly
/// when the secret is absent or empty.
pub fn build_qrcode(cookies: &Vec<(String, String)>) -> (r: Result<QRCode, QRCodeError>)
    ensures
        match last_qrsig_value(cookies@) {
            Some(v) => (v.len() > 0 ==> (r matches Ok(qr) && qr.qrsig@ == v && qr.ptqrtoken@
                == dec_digits(token_of(v)) && qr.qrcode_path@ == qr_image_path_spec())) && (v.len()
                == 0 ==> r == Result::<QRCode, QRCodeError>::Err(QRCodeError::GetCookieError)),
            None => r == Result::<QRCode, QRCodeError>::Err(QRCodeError::GetCookieError),
        },
{
    let qrsig = match extract_qrsig(cookies) {
        Ok(s) => s,
        Err(e) => {
            return Err(e);
        },
    };
    let ptqrtoken = get_ptqrtoken(qrsig.as_str());
    Ok(QRCode { qrcode_path: qr_image_path(), qrsig, ptqrtoken })
}

} // verus!
