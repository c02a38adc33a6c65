use bombadil::location::{is_within, is_within_domain, parse_browser_url, UrlHost};
use url::Url;

#[test]
fn test_parse_browser_url_file_name() {
    let url = parse_browser_url("foo.html", &Url::parse("https://example.com").unwrap()).unwrap();
    assert_eq!(url.to_string(), "https://example.com/foo.html");
}

#[test]
fn test_parse_browser_url_absolute_path() {
    let url = parse_browser_url("/foo/bar.html", &Url::parse("https://example.com").unwrap()).unwrap();
    assert_eq!(url.to_string(), "https://example.com/foo/bar.html");
}

#[test]
fn test_parse_browser_url_blank_scheme() {
    let url = parse_browser_url(
        "//other.example.com/foo/bar.html",
        &Url::parse("https://example.com").unwrap(),
    )
    .unwrap();
    assert_eq!(url.to_string(), "https://other.example.com/foo/bar.html");
}

#[test]
fn test_parse_browser_url_query_and_fragment() {
    let url = parse_browser_url(
        "/foo/bar.html?foo=bar#baz",
        &Url::parse("https://example.com").unwrap(),
    )
    .unwrap();
    assert_eq!(url.to_string(), "https://example.com/foo/bar.html?foo=bar#baz");
}

#[test]
fn test_parse_browser_url_relative() {
    let url = parse_browser_url(
        "../baz.html",
        &Url::parse("https://example.com/foo/bar/baz/").unwrap(),
    )
    .unwrap();
    assert_eq!(url.to_string(), "https://example.com/foo/bar/baz.html");
}

#[test]
fn test_parse_browser_url_mailto() {
    let url = parse_browser_url("mailto:me@example.com", &Url::parse("https://example.com").unwrap()).unwrap();
    assert_eq!(url.to_string(), "mailto:me@example.com");
}

#[test]
fn parse_browser_url_refuses_a_bad_port() {
    let result = parse_browser_url("http://example.com:99999/", &Url::parse("https://example.com").unwrap());
    assert!(result.is_err());
}

#[test]
fn same_host_and_port_is_within_domain() {
    let domain = Url::parse("http://localhost:8080/").unwrap();
    let page = Url::parse("http://localhost:8080/some/page.html").unwrap();
    assert!(is_within_domain(&page, &domain));
}

#[test]
fn other_host_is_not_within_domain() {
    let domain = Url::parse("https://example.com/").unwrap();
    let page = Url::parse("https://other.com/").unwrap();
    assert!(!is_within_domain(&page, &domain));
}

#[test]
fn other_port_is_not_within_domain() {
    let domain = Url::parse("http://localhost:8080/").unwrap();
    let page = Url::parse("http://localhost:9090/").unwrap();
    assert!(!is_within_domain(&page, &domain));
}

#[test]
fn page_without_host_is_within_domain() {
    let domain = Url::parse("https://example.com/").unwrap();
    let page = Url::parse("about:blank").unwrap();
    assert!(is_within_domain(&page, &domain));
}

#[test]
fn ip_and_domain_hosts_differ() {
    let domain = Some(UrlHost::Domain("127.0.0.1".to_string()));
    let page = Some(UrlHost::Ipv4(0x7f00_0001));
    assert!(!is_within(&page, None, &domain, None));
    assert!(is_within(&None, None, &domain, None));
    assert!(!is_within(&None, Some(80), &domain, None));
}
