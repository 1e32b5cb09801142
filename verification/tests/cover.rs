use goodreads_search::sanitize_url;
use regex::Regex;

#[test]
fn resizing_token_is_removed() {
    assert_eq!(
        sanitize_url("https://i.gr-assets.com/images/S/books/1546071216l/5907._SX50_.jpg"),
        "https://i.gr-assets.com/images/S/books/1546071216l/5907.jpg"
    );
}

#[test]
fn every_token_is_removed() {
    assert_eq!(sanitize_url("a._SX50_b._SY75_c"), "abc");
    assert_eq!(sanitize_url("._ab12_"), "");
    assert_eq!(sanitize_url("._ab12_._ab12_"), "");
}

#[test]
fn other_text_is_kept() {
    for url in ["", "cover.jpg", "a._SX5_.jpg", "a._SX500_.jpg", "a_SX50_.jpg", "a._SX-0_.jpg", "a._SX50.jpg", "a.__SX50_"] {
        assert_eq!(sanitize_url(url), url);
    }
}

#[test]
fn token_that_forms_where_one_was_removed_is_removed_too() {
    assert_eq!(sanitize_url("x._AB._CDEF_CD_y"), "xy");
}

#[test]
fn sanitizing_twice_changes_nothing_more() {
    for url in [
        "https://i.gr-assets.com/images/S/5907._SX50_.jpg",
        "x._AB._CDEF_CD_y",
        "._._._abcd_abcd_abcd_",
        "plain",
        "",
    ] {
        let once = sanitize_url(url);
        assert_eq!(sanitize_url(&once), once);
    }
}

#[test]
fn agrees_with_the_pattern_where_no_token_forms_anew() {
    let pattern = Regex::new(r"\._[a-zA-Z0-9]{4}_").unwrap();
    for url in [
        "https://i.gr-assets.com/images/S/5907._SX50_.jpg",
        "a._SX50_b._SY75_c",
        "._1234_",
        "a._SX5_.jpg",
        "a._ŚX50_.jpg",
        "no token here",
        "._abcd__._efgh_",
    ] {
        assert_eq!(sanitize_url(url), pattern.replace_all(url, "").to_string(), "{:?}", url);
    }
}

#[test]
fn sanitized_addresses_hold_no_token() {
    let pattern = Regex::new(r"\._[a-zA-Z0-9]{4}_").unwrap();
    let parts = [".", "_", "a", "Z", "7", "-", "._", "ab12", "_x"];
    let mut state: u32 = 2024;
    let mut single_pass_sufficed = 0;
    for _ in 0..5000 {
        let mut url = String::new();
        state = state.wrapping_mul(1664525).wrapping_add(1013904223);
        let len = (state >> 24) % 14;
        for _ in 0..len {
            state = state.wrapping_mul(1664525).wrapping_add(1013904223);
            url.push_str(parts[((state >> 16) as usize) % parts.len()]);
        }
        let clean = sanitize_url(&url);
        assert!(!pattern.is_match(&clean), "{:?}", url);
        assert_eq!(sanitize_url(&clean), clean, "{:?}", url);
        let single_pass = pattern.replace_all(&url, "").to_string();
        if !pattern.is_match(&single_pass) {
            assert_eq!(clean, single_pass, "{:?}", url);
            single_pass_sufficed += 1;
        }
        if !pattern.is_match(&url) {
            assert_eq!(clean, url);
        }
    }
    assert!(single_pass_sufficed > 4000);
}
