use bombadil::interception::{
    decide_interception, forwards_response, fulfilled_headers, Interception, InterceptionError,
    ResourceKind,
};
use bombadil::options::InstrumentationConfig;

fn header(name: &str, value: &str) -> (String, String) {
    (name.to_string(), value.to_string())
}

fn config(files: bool, inline: bool) -> InstrumentationConfig {
    InstrumentationConfig { instrument_files: files, instrument_inline: inline }
}

#[test]
fn responses_other_than_200_go_on_as_they_came() {
    assert!(forwards_response(Some(404)));
    assert!(forwards_response(Some(304)));
    assert!(!forwards_response(Some(200)));
    assert!(!forwards_response(None));
}

#[test]
fn scripts_are_instrumented_only_where_files_are_to_be() {
    let none = vec![];
    assert_eq!(
        decide_interception(ResourceKind::Script, &none, "let x = 1;", &config(true, false)),
        Ok(Interception::InstrumentScript)
    );
    assert_eq!(
        decide_interception(ResourceKind::Script, &none, "let x = 1;", &config(false, true)),
        Ok(Interception::Unchanged)
    );
}

#[test]
fn html_documents_have_their_inline_scripts_instrumented() {
    let html = vec![header("X-Other", "1"), header("Content-Type", "text/html; charset=utf-8")];
    assert_eq!(
        decide_interception(ResourceKind::Document, &html, "<html></html>", &config(false, true)),
        Ok(Interception::InstrumentInline)
    );
    assert_eq!(
        decide_interception(ResourceKind::Document, &html, "<html></html>", &config(true, false)),
        Ok(Interception::Unchanged)
    );
}

#[test]
fn the_first_content_type_decides_in_any_case() {
    let headers = vec![header("CONTENT-TYPE", "application/xml"), header("content-type", "text/html")];
    assert_eq!(
        decide_interception(ResourceKind::Document, &headers, "<html></html>", &config(true, true)),
        Ok(Interception::Unchanged)
    );
}

#[test]
fn without_a_content_type_xml_bodies_are_kept() {
    let none = vec![];
    assert_eq!(
        decide_interception(ResourceKind::Document, &none, " \n\t<?xml version=\"1.0\"?><a/>", &config(true, true)),
        Ok(Interception::Unchanged)
    );
    assert_eq!(
        decide_interception(ResourceKind::Document, &none, "\u{3000}<html></html>", &config(true, true)),
        Ok(Interception::InstrumentInline)
    );
    assert_eq!(
        decide_interception(ResourceKind::Document, &none, "<?xm", &config(true, true)),
        Ok(Interception::InstrumentInline)
    );
}

#[test]
fn other_resources_are_refused() {
    let none = vec![];
    assert_eq!(
        decide_interception(ResourceKind::Other, &none, "", &config(true, true)),
        Err(InterceptionError::UnexpectedResource)
    );
}

#[test]
fn fulfilled_responses_drop_invalidated_and_connection_headers() {
    let headers = vec![
        header("Content-Length", "10"),
        header("X-Custom", "a"),
        header("ETag", "old"),
        header("Transfer-Encoding", "chunked"),
        header("Cache-Control", "no-store"),
        header("Keep-Alive", "timeout=5"),
    ];
    let out = fulfilled_headers("42".to_string(), headers);
    assert_eq!(
        out,
        vec![header("etag", "42"), header("X-Custom", "a"), header("Cache-Control", "no-store")]
    );
}
