use qzone_exporter::issue::{build_qrcode, extract_qrsig, qr_image_path};
use qzone_exporter::jar::{parse_snapshot, render_snapshot, CookieEntry, CookieJar};
use qzone_exporter::request::{
    build_poll_cookie, build_poll_url, poll_url_now, qr_show_url, snapshot_path, user_agent,
};
use qzone_exporter::status::{
    classify_poll_body, conclude_after_redirect, PollStep, QRCodeError, QRCodeLoginResult,
    QRCodeResultCode,
};
use qzone_exporter::token::{derive_token, get_ptqrtoken};
use qzone_exporter::urlscan::find_url;

// ---- token derivation ----

#[test]
fn test_derive_token_known_values() {
    // e("abc") = ((0*33+97)*33+98)*33+99 = 108966, below the mask
    assert_eq!(get_ptqrtoken("abc"), "108966");
    assert_eq!(get_ptqrtoken("a"), "97");
    // a non-ASCII character contributes its full codepoint
    assert_eq!(get_ptqrtoken("中"), "20013");
}

#[test]
fn test_derive_token_empty_secret() {
    assert_eq!(get_ptqrtoken(""), "0");
}

#[test]
fn test_derive_token_deterministic() {
    let secret = "Abc123XYZ-_~secret";
    let first = derive_token(secret);
    let second = derive_token(secret);
    assert_eq!(first, second);
    assert_eq!(get_ptqrtoken(secret), get_ptqrtoken(secret));
}

#[test]
fn test_derive_token_range() {
    for secret in ["", "a", "qrsig-value", "averylongsecretaveragesecretxxxxxxxxxxxxxxxxxx"] {
        let t = derive_token(secret);
        assert!(t <= 0x7FFF_FFFF);
        let s = get_ptqrtoken(secret);
        let parsed: u64 = s.parse().unwrap();
        assert!(parsed <= 0x7FFF_FFFF);
    }
}

// ---- status classification ----

fn concluded(step: PollStep) -> QRCodeLoginResult {
    match step {
        PollStep::Conclude(res) => res,
        PollStep::FollowRedirect(u) => panic!("unexpected redirect to {}", u),
    }
}

#[test]
fn test_classify_valid_body() {
    let res = concluded(classify_poll_body("ptuiCB('66','0','','0','二维码未失效。(2042528872)', '')"));
    assert!(matches!(res.code, QRCodeResultCode::Valid));
    assert_eq!(res.msg, "二维码未失效");
    assert!(res.data.is_none());
}

#[test]
fn test_classify_verifying_body() {
    let res = concluded(classify_poll_body("xx二维码认证中yy"));
    assert!(matches!(res.code, QRCodeResultCode::VERIFYING));
    assert_eq!(res.msg, "二维码认证中");
}

#[test]
fn test_classify_expired_body() {
    let res = concluded(classify_poll_body("xx二维码已失效yy"));
    assert!(matches!(res.code, QRCodeResultCode::Expired));
    assert_eq!(res.msg, "二维码已失效");
}

#[test]
fn test_classify_priority_verifying_over_expired() {
    // both markers present: the earlier-checked one wins
    let res = concluded(classify_poll_body("二维码已失效 … 二维码认证中"));
    assert!(matches!(res.code, QRCodeResultCode::VERIFYING));
}

#[test]
fn test_classify_success_without_url_is_unknown() {
    let res = concluded(classify_poll_body("ptuiCB('0','0','','0','登录成功！', 'nick')"));
    assert!(matches!(res.code, QRCodeResultCode::Unknown));
    assert_eq!(res.msg, "二维码状态未知");
}

#[test]
fn test_classify_success_with_url_follows_redirect() {
    let body = "ptuiCB('0','0','https://example.com/done?p=1','0','登录成功！', 'nick')";
    match classify_poll_body(body) {
        PollStep::FollowRedirect(u) => assert_eq!(u, "https://example.com/done?p=1"),
        PollStep::Conclude(res) => panic!("expected redirect, got {:?}", res.code),
    }
}

#[test]
fn test_classify_empty_and_garbage_body() {
    let res = concluded(classify_poll_body(""));
    assert!(matches!(res.code, QRCodeResultCode::Unknown));
    let res = concluded(classify_poll_body("no markers at all"));
    assert!(matches!(res.code, QRCodeResultCode::Unknown));
}

#[test]
fn test_conclude_after_redirect_success_needs_persistence() {
    let ok = conclude_after_redirect(true).unwrap();
    assert!(matches!(ok.code, QRCodeResultCode::Success));
    assert_eq!(ok.msg, "二维码认证成功");
    let err = conclude_after_redirect(false).unwrap_err();
    assert!(matches!(err, QRCodeError::CheckQRCodeStatusError));
}

#[test]
fn test_error_messages() {
    assert_eq!(QRCodeError::ReqwestError.message(), "网络请求错误, 获取二维码失败!");
    assert_eq!(QRCodeError::DecodeError.message(), "解码数据错误, 获取二维码失败!");
    assert_eq!(QRCodeError::GetCookieError.message(), "解析Cookie失败, 获取二维码失败!");
    assert_eq!(QRCodeError::FileError.message(), "文件读写错误, 保存二维码失败!");
    assert_eq!(QRCodeError::CheckQRCodeStatusError.message(), "检查二维码扫码状态失败!");
}

// ---- URL extraction ----

#[test]
fn test_find_url_basic() {
    assert_eq!(find_url("go to http://ab now").unwrap(), "http://ab");
    assert_eq!(find_url("see https://qzone.qq.com/login ok").unwrap(), "https://qzone.qq.com/login");
}

#[test]
fn test_find_url_none() {
    assert!(find_url("nothing here").is_none());
    // too short: the pattern needs two characters after the scheme
    assert!(find_url("http://a ").is_none());
    assert!(find_url("http://").is_none());
}

#[test]
fn test_find_url_trims_trailing_punctuation() {
    assert_eq!(find_url("at https://a.b/c?x=1, then").unwrap(), "https://a.b/c?x=1");
}

#[test]
fn test_find_url_leftmost() {
    assert_eq!(find_url("http://aa and https://bb").unwrap(), "http://aa");
}

// ---- issuance ----

#[test]
fn test_extract_qrsig_last_match_wins() {
    let cookies = vec![
        ("qrsig".to_string(), "v1".to_string()),
        ("other".to_string(), "x".to_string()),
        ("qrsig2".to_string(), "v2".to_string()),
    ];
    assert_eq!(extract_qrsig(&cookies).unwrap(), "v2");
}

#[test]
fn test_extract_qrsig_missing_or_empty() {
    let none = vec![("pt".to_string(), "x".to_string())];
    assert!(matches!(extract_qrsig(&none), Err(QRCodeError::GetCookieError)));
    let empty = vec![("qrsig".to_string(), "".to_string())];
    assert!(matches!(extract_qrsig(&empty), Err(QRCodeError::GetCookieError)));
}

#[test]
fn test_build_qrcode_binds_token_to_secret() {
    let cookies = vec![
        ("foo".to_string(), "bar".to_string()),
        ("qrsig".to_string(), "abc".to_string()),
    ];
    let qr = build_qrcode(&cookies).unwrap();
    assert_eq!(qr.qrsig, "abc");
    assert_eq!(qr.ptqrtoken, "108966");
    assert_eq!(qr.qrcode_path, "public/imgs/.qrcode.png");
    assert_eq!(qr.qrcode_path, qr_image_path());
}

#[test]
fn test_build_qrcode_independent_issuances() {
    // two issuances with distinct secrets stay independent: each code
    // carries its own secret with the token derived from it alone
    let first = build_qrcode(&vec![("qrsig".to_string(), "one".to_string())]).unwrap();
    let second = build_qrcode(&vec![("qrsig".to_string(), "two".to_string())]).unwrap();
    assert_ne!(first.qrsig, second.qrsig);
    assert_eq!(first.ptqrtoken, get_ptqrtoken("one"));
    assert_eq!(second.ptqrtoken, get_ptqrtoken("two"));
    assert_ne!(first.ptqrtoken, second.ptqrtoken);
}

// ---- request construction ----

#[test]
fn test_build_poll_url_exact() {
    let expected = "https://ssl.ptlogin2.qq.com/ptqrlogin?u1=https%3A%2F%2Fqzs.qq.com%2Fqzone%2Fv5%2Floginsucc.html%3Fpara%3Dizone&ptqrtoken=123&ptredirect=0&h=1&t=1&g=1&from_ui=1&ptlang=2052&action=0-0-456&js_ver=20032614&js_type=1&login_sig=&pt_uistyle=40&aid=549000912&daid=5&";
    assert_eq!(build_poll_url("123", 456), expected);
}

#[test]
fn test_build_poll_url_negative_timestamp() {
    let url = build_poll_url("1", -5);
    assert!(url.contains("action=0-0--5&js_ver"));
}

#[test]
fn test_poll_url_now_embeds_token() {
    let url = poll_url_now("98765");
    assert!(url.starts_with("https://ssl.ptlogin2.qq.com/ptqrlogin?"));
    assert!(url.contains("&ptqrtoken=98765&ptredirect=0&"));
    assert!(url.ends_with("&daid=5&"));
}

#[test]
fn test_build_poll_cookie() {
    assert_eq!(build_poll_cookie("abc-DEF_123*=").unwrap(), "qrsig=abc-DEF_123*=");
    assert!(matches!(
        build_poll_cookie("bad\nvalue"),
        Err(QRCodeError::CheckQRCodeStatusError)
    ));
    assert!(matches!(
        build_poll_cookie("bad\u{7f}value"),
        Err(QRCodeError::CheckQRCodeStatusError)
    ));
}

#[test]
fn test_fixed_endpoints() {
    assert!(qr_show_url().starts_with("https://ssl.ptlogin2.qq.com/ptqrshow?appid=549000912&"));
    assert!(user_agent().starts_with("Mozilla/5.0 "));
    assert_eq!(snapshot_path(), "./cookies2.txt");
}

// ---- cookie snapshot ----

fn entry(name: &str, value: &str, attrs: &str) -> CookieEntry {
    CookieEntry {
        name: name.to_string(),
        value: value.to_string(),
        attrs: attrs.to_string(),
    }
}

#[test]
fn test_snapshot_render_format() {
    let jar = CookieJar { entries: vec![entry("sid", "abc", "domain=qq.com; path=/")] };
    assert_eq!(render_snapshot(&jar), "sid\tabc\tdomain=qq.com; path=/\n");
}

#[test]
fn test_snapshot_round_trip() {
    let jar = CookieJar {
        entries: vec![
            entry("sid", "abc", "domain=qq.com; path=/"),
            entry("uin", "o123456", ""),
            entry("skey", "@AbC9", "secure"),
        ],
    };
    let text = render_snapshot(&jar);
    let back = parse_snapshot(&text).unwrap();
    assert_eq!(back.entries.len(), jar.entries.len());
    for (orig, parsed) in jar.entries.iter().zip(back.entries.iter()) {
        assert_eq!(orig.name, parsed.name);
        assert_eq!(orig.value, parsed.value);
        assert_eq!(orig.attrs, parsed.attrs);
    }
}

#[test]
fn test_snapshot_parse_empty_and_malformed() {
    assert_eq!(parse_snapshot("").unwrap().entries.len(), 0);
    assert!(parse_snapshot("noseparators\n").is_none());
    assert!(parse_snapshot("one\ttab\n").is_none());
    // unterminated trailing line
    assert!(parse_snapshot("a\tb\tc").is_none());
}
