use back_auth::cookie::{clear_cookie, find_session_token, set_cookie, SameSite, SessionCookiePolicy};

#[test]
fn finds_token_among_pairs() {
    assert_eq!(find_session_token("session_token=abc"), Some("abc".to_string()));
    assert_eq!(find_session_token("a=1;  session_token=xyz  ; b=2"), Some("xyz".to_string()));
    assert_eq!(find_session_token("a=1; session_token=first; session_token=second"), Some("first".to_string()));
    assert_eq!(find_session_token("session_token="), Some(String::new()));
}

#[test]
fn no_token_pair() {
    assert_eq!(find_session_token(""), None);
    assert_eq!(find_session_token("a=1; b=2"), None);
    assert_eq!(find_session_token("xsession_token=abc"), None);
    assert_eq!(find_session_token("session_token"), None);
}

#[test]
fn set_cookie_formats() {
    let dev = SessionCookiePolicy { secure: false, same_site: None };
    let prod = SessionCookiePolicy { secure: true, same_site: Some(SameSite::CrossSite) };
    assert_eq!(set_cookie(&dev, "abc", 3600), "session_token=abc; Max-Age=3600; Path=/; HttpOnly");
    assert_eq!(
        set_cookie(&prod, "abc", 3600),
        "session_token=abc; Max-Age=3600; Path=/; HttpOnly; Secure; SameSite=None"
    );
    let lax = SessionCookiePolicy { secure: true, same_site: Some(SameSite::Lax) };
    assert_eq!(set_cookie(&lax, "t", 7), "session_token=t; Max-Age=7; Path=/; HttpOnly; Secure; SameSite=Lax");
    assert_eq!(
        set_cookie(&dev, "t", 18446744073709551615),
        "session_token=t; Max-Age=18446744073709551615; Path=/; HttpOnly"
    );
    assert_eq!(clear_cookie(&dev), "session_token=; Max-Age=0; Path=/; HttpOnly");
    let strict = SessionCookiePolicy { secure: false, same_site: Some(SameSite::Strict) };
    assert_eq!(clear_cookie(&strict), "session_token=; Max-Age=0; Path=/; HttpOnly; SameSite=Strict");
}
