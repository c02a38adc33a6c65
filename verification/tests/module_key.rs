use std::path::PathBuf;

use bombadil::module_key::{ModuleKey, SourceError};

#[test]
fn specifier_and_path() {
    let key = ModuleKey::OnDisk { specifier: "./spec.js".to_string(), path: PathBuf::from("/tmp/spec.js") };
    assert_eq!(key.specifier(), "./spec.js");
    assert_eq!(key.path(), &PathBuf::from("/tmp/spec.js"));
    let stub = ModuleKey::BrowserStub { specifier: "bombadil/browser".to_string() };
    assert_eq!(stub.specifier(), "bombadil/browser");
}

#[test]
fn source_text_decodes_utf8() {
    let key = ModuleKey::Embedded { specifier: "bombadil".to_string(), path: PathBuf::from("index.js") };
    assert_eq!(key.source_text("export const x = 'é';".as_bytes().to_vec()).unwrap(), "export const x = 'é';");
    match key.source_text(vec![0xff, 0xfe]) {
        Err(SourceError::InvalidUtf8 { path }) => assert_eq!(path, PathBuf::from("index.js")),
        other => panic!("expected invalid UTF-8, got {:?}", other),
    }
}
