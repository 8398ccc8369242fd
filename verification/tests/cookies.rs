use bandcamp_dl::cookies::{cookie_domains, cookie_origin, expiry_seconds, Browser};

#[test]
fn firefox_is_the_default_browser() {
    assert_eq!(Browser::default(), Browser::Firefox);
}

#[test]
fn browser_names() {
    assert_eq!(Browser::Firefox.as_str(), "firefox");
    assert_eq!(Browser::Firefox.to_string(), "firefox");
    assert_eq!(Browser::from_name("firefox"), Some(Browser::Firefox));
    assert_eq!(Browser::from_name("Firefox"), None);
    assert_eq!(Browser::from_name(""), None);
    assert_eq!(Browser::from_name("chrome"), None);
}

#[test]
fn session_domains() {
    assert_eq!(cookie_domains(), vec!["bandcamp.com".to_string(), ".bandcamp.com".to_string()]);
}

#[test]
fn origin_drops_leading_dots() {
    assert_eq!(cookie_origin(".bandcamp.com", "/"), "https://bandcamp.com/");
    assert_eq!(cookie_origin("bandcamp.com", "/fan"), "https://bandcamp.com/fan");
    assert_eq!(cookie_origin("..a.b", ""), "https://a.b");
    assert_eq!(cookie_origin("", ""), "https://");
}

#[test]
fn expiry_fits_or_is_dropped() {
    assert_eq!(expiry_seconds(0), Some(0));
    assert_eq!(expiry_seconds(1_700_000_000), Some(1_700_000_000));
    assert_eq!(expiry_seconds(i64::MAX as u64), Some(i64::MAX));
    assert_eq!(expiry_seconds(i64::MAX as u64 + 1), None);
    assert_eq!(expiry_seconds(u64::MAX), None);
}
