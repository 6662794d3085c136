use ydl_gui::bridge::{cookie_file_of, extension_origin, validate_field, BrowserCookie, CookieImport};

fn cookie(domain: &str, path: &str, name: &str, value: &str) -> BrowserCookie {
    BrowserCookie {
        domain: domain.into(),
        host_only: false,
        path: path.into(),
        secure: true,
        http_only: true,
        expires: 1700000000,
        name: name.into(),
        value: value.into(),
    }
}

fn import(url: &str, id: &str, cookies: Vec<BrowserCookie>) -> CookieImport {
    CookieImport { url: url.into(), request_id: id.into(), cookies }
}

#[test]
fn cookie_file_is_written_once_per_cookie() {
    let mut session = cookie("x.com", "/", "b", "2");
    session.expires = 0;
    session.host_only = true;
    session.secure = false;
    let imp = import(
        "https://www.youtube.com/",
        "req-12345",
        vec![cookie(".youtube.com", "/", "SID", "v1"), cookie(".youtube.com", "/", "SID", "v2"), session],
    );
    let (text, count) = cookie_file_of(&imp).unwrap();
    assert_eq!(count, 2);
    assert_eq!(
        text.unwrap(),
        "# Netscape HTTP Cookie File\n# Generated locally by YDL GUI Browser Extension\n\
         .youtube.com\tTRUE\t/\tTRUE\t1700000000\tSID\tv1\nx.com\tFALSE\t/\tFALSE\t0\tb\t2\n"
    );
    let (text, count) = cookie_file_of(&import("http://a", "12345678", vec![])).unwrap();
    assert_eq!((text, count), (None, 0));
}

#[test]
fn faulty_imports_are_refused() {
    assert_eq!(cookie_file_of(&import("ftp://a", "12345678", vec![])).err().as_deref(), Some("invalid_url"));
    assert_eq!(cookie_file_of(&import("https://a", "1234567", vec![])).err().as_deref(), Some("invalid_request_id"));
    assert_eq!(cookie_file_of(&import("https://a", &"x".repeat(129), vec![])).err().as_deref(), Some("invalid_request_id"));
    assert!(cookie_file_of(&import("https://a", "中文中文中文", vec![])).is_ok());
    let many: Vec<BrowserCookie> = (0..20001).map(|i| cookie("a", "/", &i.to_string(), "v")).collect();
    assert_eq!(cookie_file_of(&import("https://a", "12345678", many)).err().as_deref(), Some("too_many_cookies"));
    let bad = vec![cookie("a", "/", "n", "v"), cookie("a", "/", "m", "tab\there")];
    assert_eq!(cookie_file_of(&import("https://a", "12345678", bad)).err().as_deref(), Some("invalid_cookie_field"));
    let bad = vec![cookie("a", "x", "n", "v")];
    assert_eq!(cookie_file_of(&import("https://a", "12345678", bad)).err().as_deref(), Some("invalid_cookie"));
    let bad = vec![cookie("", "/", "n", "v")];
    assert_eq!(cookie_file_of(&import("https://a", "12345678", bad)).err().as_deref(), Some("invalid_cookie"));
}

#[test]
fn fields_and_origins() {
    assert!(validate_field("abc").is_ok());
    assert_eq!(validate_field("a\nb"), Err("invalid_cookie_field".to_string()));
    assert_eq!(validate_field("a\rb"), Err("invalid_cookie_field".to_string()));
    assert_eq!(extension_origin(Some("chrome-extension://abc")).as_deref(), Some("chrome-extension://abc"));
    assert_eq!(extension_origin(Some("moz-extension://x")).as_deref(), Some("moz-extension://x"));
    assert_eq!(extension_origin(Some("https://evil.example")), None);
    assert_eq!(extension_origin(None), None);
}
