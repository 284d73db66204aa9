use embedded_svc::cookies::Cookies;
use embedded_svc::http::{HeaderSetError, Headers};
use embedded_svc::strs::{split_once_char, str_eq_ignore_ascii_case, str_parse_u64};

#[test]
fn headers_set_then_get_ignores_case() {
    let mut headers = Headers::<'static, 4>::new();
    headers.set("Content-Type", "text/html");
    assert_eq!(headers.get("content-type"), Some("text/html"));
    assert_eq!(headers.content_type(), Some("text/html"));
    assert_eq!(headers.get("Host"), None);
}

#[test]
fn headers_set_replaces_existing_value() {
    let mut headers = Headers::<'static, 4>::new();
    headers.set("Host", "a.example");
    headers.set("HOST", "b.example");
    assert_eq!(headers.host(), Some("b.example"));
    assert_eq!(headers.iter().len(), 1);
}

#[test]
fn headers_set_keeps_other_headers() {
    let mut headers = Headers::<'static, 4>::new();
    headers.set("Host", "a.example");
    headers.set("Content-Type", "text/plain");
    headers.set("Content-Encoding", "gzip");
    assert_eq!(headers.host(), Some("a.example"));
    assert_eq!(headers.content_type(), Some("text/plain"));
    assert_eq!(headers.content_encoding(), Some("gzip"));
}

#[test]
fn headers_try_set_fails_when_full() {
    let mut headers = Headers::<'static, 2>::new();
    assert!(headers.try_set("A", "1").is_ok());
    assert!(headers.try_set("B", "2").is_ok());
    assert!(matches!(headers.try_set("C", "3"), Err(HeaderSetError::TooManyHeaders)));
    assert!(headers.try_set("a", "4").is_ok());
    assert_eq!(headers.get("A"), Some("4"));
}

#[test]
fn headers_remove_then_get_is_none() {
    let mut headers = Headers::<'static, 4>::new();
    headers.set("Connection", "close");
    headers.set("Upgrade", "websocket");
    headers.remove("connection");
    assert_eq!(headers.connection(), None);
    assert_eq!(headers.upgrade(), Some("websocket"));
}

#[test]
fn headers_content_len_parses_decimal() {
    let mut headers = Headers::<'static, 4>::new();
    assert_eq!(headers.content_len(), None);
    headers.set("Content-Length", "1234");
    assert_eq!(headers.content_len(), Some(1234));
}

#[test]
fn headers_named_setters_use_standard_values() {
    let mut headers = Headers::<'static, 8>::new();
    headers
        .set_transfer_encoding_chunked()
        .set_connection_keep_alive()
        .set_cache_control_no_cache()
        .set_upgrade_websocket();
    assert_eq!(headers.transfer_encoding(), Some("Chunked"));
    assert_eq!(headers.connection(), Some("Keep-Alive"));
    assert_eq!(headers.cache_control(), Some("No-Cache"));
    assert_eq!(headers.upgrade(), Some("websocket"));
}

#[test]
fn headers_as_slice_holds_used_slots_only() {
    let mut headers = Headers::<'static, 4>::new();
    headers.set("A", "1");
    headers.set("B", "2");
    assert_eq!(headers.as_slice(), &[("A", "1"), ("B", "2")]);
    assert_eq!(headers.release().len(), 4);
}

#[test]
fn cookies_get_finds_named_cookie() {
    let cookies = Cookies::new("a=1;SESSIONID=xyz;b=2");
    assert_eq!(cookies.get("SESSIONID"), Some("xyz"));
    assert_eq!(cookies.get("b"), Some("2"));
    assert_eq!(cookies.get("c"), None);
}

#[test]
fn cookies_do_not_trim_names() {
    let cookies = Cookies::new("a=1; b=2");
    assert_eq!(cookies.get("b"), None);
    assert_eq!(cookies.get(" b"), Some("2"));
}

#[test]
fn cookies_stop_at_piece_without_equals() {
    let cookies = Cookies::new("a=1;broken;b=2");
    assert_eq!(cookies.get("a"), Some("1"));
    assert_eq!(cookies.get("b"), None);
}

#[test]
fn cookies_set_then_serialize() {
    let pairs = vec![("a", "1"), ("b", "2")];
    let set = Cookies::set(pairs, "a", "3");
    assert_eq!(set, vec![("b", "2"), ("a", "3")]);
    let text: String = Cookies::serialize(set).concat();
    assert_eq!(text, "b=2;a=3");
    assert_eq!(Cookies::new(&text).get("a"), Some("3"));
}

#[test]
fn cookies_remove_drops_every_match() {
    let pairs = vec![("a", "1"), ("b", "2"), ("a", "3")];
    assert_eq!(Cookies::remove(pairs, "a"), vec![("b", "2")]);
}

#[test]
fn strings_compare_and_split() {
    assert!(str_eq_ignore_ascii_case("Content-Length", "content-LENGTH"));
    assert!(!str_eq_ignore_ascii_case("abc", "abd"));
    assert_eq!(split_once_char("key=value=x", '='), ("key", Some("value=x")));
    assert_eq!(split_once_char("novalue", '='), ("novalue", None));
    assert_eq!(str_parse_u64("18446744073709551615"), Some(u64::MAX));
    assert_eq!(str_parse_u64("18446744073709551616"), None);
    assert_eq!(str_parse_u64(""), None);
    assert_eq!(str_parse_u64("12a"), None);
}

#[test]
fn headers_set_content_len_reads_back() {
    let mut buf = String::new();
    let mut headers = Headers::<4>::new();
    headers.set_content_len(1234567, &mut buf);
    assert_eq!(headers.content_len(), Some(1234567));
    assert_eq!(headers.get("content-length"), Some("1234567"));
    let mut zero = String::new();
    let mut other = Headers::<2>::new();
    other.set_content_len(0, &mut zero);
    assert_eq!(other.content_len(), Some(0));
}
