//! The modules that a specification is made of: where each one comes from,
//! and its source text.
use vstd::prelude::*;

use std::path::PathBuf;

use vstd::utf8::{decode_utf8, valid_utf8};

verus! {

/// A specification, by the specifier of its main module.
#[derive(Clone, Debug)]
pub struct Specification {
    pub module_specifier: String,
}

/// A module that a specification imports.
#[derive(PartialEq, Eq, PartialOrd, Ord, Hash, Debug, Clone)]
pub enum ModuleKey {
    /// A module that comes with the library.
    Embedded { specifier: String, path: PathBuf },
    /// A module read from disk.
    OnDisk { specifier: String, path: PathBuf },
    /// A module that only exists in the browser, with no source here.
    BrowserStub { specifier: String },
}

/// Why the source of a module could not be had.
#[derive(Debug)]
pub enum SourceError {
    /// The module's bytes are not UTF-8.
    InvalidUtf8 { path: PathBuf },
}

/// `String::from_utf8`: the string of the bytes when they are UTF-8.
#[verifier::external_body]
fn string_from_utf8(bytes: Vec<u8>) -> (r: Option<String>)
    ensures
        r is Some <==> valid_utf8(bytes@),
        r matches Some(s) ==> s@ == decode_utf8(bytes@),
{
    String::from_utf8(bytes).ok()
}

impl ModuleKey {
    /// The specifier that the module was imported by.
    pub open spec fn spec_specifier(self) -> String {
        match self {
            ModuleKey::Embedded { specifier, .. } => specifier,
            ModuleKey::OnDisk { specifier, .. } => specifier,
            ModuleKey::BrowserStub { specifier } => specifier,
        }
    }

    /// The specifier that the module was imported by.
    pub fn specifier(&self) -> (r: &str)
        ensures
            r@ == self.spec_specifier()@,
    {
        match self {
            ModuleKey::Embedded { specifier, .. } => specifier.as_str(),
            ModuleKey::OnDisk { specifier, .. } => specifier.as_str(),
            ModuleKey::BrowserStub { specifier } => specifier.as_str(),
        }
    }

    /// The path of the module's file, which a browser stub has not.
    pub fn path(&self) -> (r: &PathBuf)
        requires
            !(self is BrowserStub),
        ensures
            match self {
                ModuleKey::Embedded { path, .. } => *r == path,
                ModuleKey::OnDisk { path, .. } => *r == path,
                ModuleKey::BrowserStub { .. } => false,
            },
    {
        match self {
            ModuleKey::Embedded { path, .. } => path,
            ModuleKey::OnDisk { path, .. } => path,
            ModuleKey::BrowserStub { .. } => {
                assert(false);
                vstd::pervasive::unreached()
            },
        }
    }

    /// The source text of the module, given the bytes of its file: the
    /// text they encode in UTF-8, or the error that they are not UTF-8.
    pub fn source_text(&self, contents: Vec<u8>) -> (r: Result<String, SourceError>)
        requires
            !(self is BrowserStub),
        ensures
            valid_utf8(contents@) ==> (r matches Ok(text) && text@ == decode_utf8(contents@)),
            !valid_utf8(contents@) ==> (r matches Err(SourceError::InvalidUtf8 { path }) && match self {
                ModuleKey::Embedded { path: p, .. } => path == p,
                ModuleKey::OnDisk { path: p, .. } => path == p,
                ModuleKey::BrowserStub { .. } => false,
            }),
    {
        match string_from_utf8(contents) {
            Some(text) => Ok(text),
            None => Err(SourceError::InvalidUtf8 { path: self.path().clone() }),
        }
    }
}

} // verus!
