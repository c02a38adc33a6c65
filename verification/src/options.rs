//! Options of a test run that are read from the command line: extra HTTP
//! headers, which scripts to instrument, and how the browser is reached.
use vstd::prelude::*;

use std::path::PathBuf;

use url::Url;
use vstd::string::{StrSliceExecFns, StringExecFns};

use crate::duration::{debug_quoted, quoted};
use crate::text::{trim, trimmed};

verus! {

#[verifier::external_type_specification]
#[verifier::external_body]
pub struct ExPathBuf(PathBuf);

/// `PathBuf::clone`: a copy of the same path.
pub assume_specification[ <std::path::PathBuf as std::clone::Clone>::clone ](p: &std::path::PathBuf) -> (r: std::path::PathBuf)
    ensures
        r == *p,
;

/// Which kinds of JavaScript are instrumented for coverage.
#[derive(Debug, Clone, Copy, PartialEq, Eq, Structural)]
pub struct InstrumentationConfig {
    /// Scripts loaded from files.
    pub instrument_files: bool,
    /// Scripts inline in HTML pages.
    pub instrument_inline: bool,
}

impl InstrumentationConfig {
    /// Every kind of script.
    pub fn all() -> (r: Self)
        ensures
            r.instrument_files && r.instrument_inline,
    {
        InstrumentationConfig { instrument_files: true, instrument_inline: true }
    }

    /// No script at all.
    pub fn none() -> (r: Self)
        ensures
            !r.instrument_files && !r.instrument_inline,
    {
        InstrumentationConfig { instrument_files: false, instrument_inline: false }
    }
}

impl Default for InstrumentationConfig {
    fn default() -> (r: Self)
        ensures
            r.instrument_files && r.instrument_inline,
    {
        Self::all()
    }
}

/// How a browser that the test starts itself is launched.
#[derive(Clone, Debug)]
pub struct LaunchOptions {
    pub headless: bool,
    pub user_data_directory: PathBuf,
    pub no_sandbox: bool,
}

/// How the browser is reached: one that runs already, at the address of its
/// debugger, or one that the test launches.
#[derive(Clone, Debug)]
pub enum DebuggerOptions {
    External { remote_debugger: Url },
    Managed { launch_options: LaunchOptions },
}

/// The position of the first `c` in `s`, if there is one.
pub open spec fn first_index_of(s: Seq<char>, c: char) -> Option<int> {
    if exists|i: int| 0 <= i < s.len() && s[i] == c {
        Some(choose|i: int| 0 <= i < s.len() && s[i] == c && forall|j: int| 0 <= j < i ==> s[j] != c)
    } else {
        None
    }
}

/// A header written as `KEY=VALUE`: what comes before the first `=` and what
/// comes after it; without an `=`, the message of what is wrong.
pub open spec fn header_parts(s: Seq<char>, r: Result<(String, String), String>) -> bool {
    match first_index_of(s, '=') {
        Some(i) => r matches Ok((key, value)) && key@ == s.take(i) && value@ == s.skip(i + 1),
        None => r matches Err(message) && message@ == "invalid header "@ + debug_quoted(s) + ", expected KEY=VALUE"@,
    }
}

/// The string of the characters of `chars`.
fn string_of(chars: &[char]) -> (r: String)
    ensures
        r@ == chars@,
{
    let mut out = String::new();
    let mut i: usize = 0;
    while i < chars.len()
        invariant
            i <= chars@.len(),
            out@ == chars@.take(i as int),
        decreases chars@.len() - i,
    {
        crate::duration::push_char(&mut out, chars[i]);
        i = i + 1;
        assert(out@ =~= chars@.take(i as int));
    }
    assert(chars@.take(chars@.len() as int) =~= chars@);
    out
}

/// The characters of `s`.
pub(crate) fn chars_of(s: &str) -> (r: Vec<char>)
    ensures
        r@ == s@,
{
    let mut chars: Vec<char> = Vec::new();
    for c in it: s.chars()
        invariant
            it.seq() == s@,
            chars@ == it.seq().take(it.index() as int),
    {
        chars.push(c);
        assert(chars@ =~= it.seq().take(it.index() + 1));
    }
    assert(s@.take(s@.len() as int) =~= s@);
    chars
}

/// An extra HTTP header written as `KEY=VALUE`: the key is what comes before
/// the first `=`, the value what comes after it.
pub fn parse_header(s: &str) -> (r: Result<(String, String), String>)
    ensures
        header_parts(s@, r),
{
    let chars = chars_of(s);
    let mut i: usize = 0;
    while i < chars.len() && chars[i] != '='
        invariant
            chars@ == s@,
            i <= chars@.len(),
            forall|j: int| 0 <= j < i ==> chars@[j] != '=',
        decreases chars@.len() - i,
    {
        i = i + 1;
    }
    if i == chars.len() {
        assert(!exists|k: int| 0 <= k < s@.len() && s@[k] == '=');
        let mut message = String::from_str("invalid header ");
        message.append(quoted(s).as_str());
        message.append(", expected KEY=VALUE");
        Err(message)
    } else {
        proof {
            assert(s@[i as int] == '=');
            let k = first_index_of(s@, '=')->0;
            assert(k == i) by {
                if k < i {
                    assert(chars@[k] != '=');
                }
                if k > i {
                    assert(s@[i as int] != '=');
                }
            }
        }
        let key = string_of(vstd::slice::slice_subrange(chars.as_slice(), 0, i));
        let value = string_of(vstd::slice::slice_subrange(chars.as_slice(), i + 1, chars.len()));
        Ok((key, value))
    }
}

/// The parts of `s` between commas, in order.
pub open spec fn comma_parts(s: Seq<char>) -> Seq<Seq<char>>
    decreases s.len(),
{
    if s.len() == 0 {
        seq![Seq::empty()]
    } else {
        let rest = comma_parts(s.drop_last());
        if s.last() == ',' {
            rest.push(Seq::empty())
        } else {
            rest.update(rest.len() - 1, rest.last().push(s.last()))
        }
    }
}

proof fn lemma_comma_parts_len(s: Seq<char>)
    ensures
        comma_parts(s).len() > 0,
    decreases s.len(),
{
    if s.len() > 0 {
        lemma_comma_parts_len(s.drop_last());
    }
}

/// What the instrumentation options `parts` select, starting from `files`
/// and `inline`: each part, trimmed, is `files`, `inline` or empty; the
/// first that is none of these is refused, and its trimmed text returned.
pub open spec fn selected_targets(parts: Seq<Seq<char>>, files: bool, inline: bool) -> Result<(bool, bool), Seq<char>>
    decreases parts.len(),
{
    if parts.len() == 0 {
        Ok((files, inline))
    } else {
        let part = trimmed(parts[0]);
        if part == "files"@ {
            selected_targets(parts.skip(1), true, inline)
        } else if part == "inline"@ {
            selected_targets(parts.skip(1), files, true)
        } else if part.len() == 0 {
            selected_targets(parts.skip(1), files, inline)
        } else {
            Err(part)
        }
    }
}

/// Whether a trimmed part names a target, or is empty.
pub open spec fn known_target(part: Seq<char>) -> bool {
    part == "files"@ || part == "inline"@ || part.len() == 0
}

/// Targets are added up: where every part, trimmed, is `files`, `inline` or
/// empty, scripts from files are selected exactly when they were already or
/// some part is `files`, and inline scripts exactly when they were already
/// or some part is `inline`; where some part is none of these, the first
/// such part is refused, trimmed.
pub proof fn law_targets_add_up(parts: Seq<Seq<char>>, files: bool, inline: bool)
    ensures
        (forall|i: int| 0 <= i < parts.len() ==> known_target(trimmed(#[trigger] parts[i]))) ==> selected_targets(
            parts,
            files,
            inline,
        ) == Ok::<(bool, bool), Seq<char>>(
            (
                files || exists|i: int| 0 <= i < parts.len() && trimmed(#[trigger] parts[i]) == "files"@,
                inline || exists|i: int| 0 <= i < parts.len() && trimmed(#[trigger] parts[i]) == "inline"@,
            ),
        ),
        forall|k: int|
            0 <= k < parts.len() && !known_target(trimmed(#[trigger] parts[k])) && (forall|i: int|
                0 <= i < k ==> known_target(trimmed(#[trigger] parts[i]))) ==> selected_targets(parts, files, inline)
                == Err::<(bool, bool), Seq<char>>(trimmed(parts[k])),
    decreases parts.len(),
{
    reveal_strlit("files");
    reveal_strlit("inline");
    assert("files"@ != "inline"@ && "files"@.len() > 0 && "inline"@.len() > 0) by {
        assert("files"@.len() != "inline"@.len());
    }
    if parts.len() > 0 {
        let rest = parts.skip(1);
        let part = trimmed(parts[0]);
        let f2 = files || part == "files"@;
        let i2 = inline || part == "inline"@;
        law_targets_add_up(rest, f2, i2);
        assert forall|i: int| 0 <= i < rest.len() implies #[trigger] rest[i] == parts[i + 1] by {}
        if forall|i: int| 0 <= i < parts.len() ==> known_target(trimmed(#[trigger] parts[i])) {
            assert(known_target(trimmed(parts[0])));
            assert forall|i: int| 0 <= i < rest.len() implies known_target(trimmed(#[trigger] rest[i])) by {
                assert(known_target(trimmed(parts[i + 1])));
            }
            let ef = exists|i: int| 0 <= i < parts.len() && trimmed(#[trigger] parts[i]) == "files"@;
            let er = exists|i: int| 0 <= i < rest.len() && trimmed(#[trigger] rest[i]) == "files"@;
            if er {
                let i = choose|i: int| 0 <= i < rest.len() && trimmed(#[trigger] rest[i]) == "files"@;
                assert(trimmed(parts[i + 1]) == "files"@);
            }
            if ef {
                let i = choose|i: int| 0 <= i < parts.len() && trimmed(#[trigger] parts[i]) == "files"@;
                if i > 0 {
                    assert(trimmed(rest[i - 1]) == "files"@);
                }
            }
            let gf = exists|i: int| 0 <= i < parts.len() && trimmed(#[trigger] parts[i]) == "inline"@;
            let gr = exists|i: int| 0 <= i < rest.len() && trimmed(#[trigger] rest[i]) == "inline"@;
            if gr {
                let i = choose|i: int| 0 <= i < rest.len() && trimmed(#[trigger] rest[i]) == "inline"@;
                assert(trimmed(parts[i + 1]) == "inline"@);
            }
            if gf {
                let i = choose|i: int| 0 <= i < parts.len() && trimmed(#[trigger] parts[i]) == "inline"@;
                if i > 0 {
                    assert(trimmed(rest[i - 1]) == "inline"@);
                }
            }
        }
        assert forall|k: int|
            0 <= k < parts.len() && !known_target(trimmed(#[trigger] parts[k])) && (forall|i: int|
                0 <= i < k ==> known_target(trimmed(#[trigger] parts[i]))) implies selected_targets(parts, files, inline)
            == Err::<(bool, bool), Seq<char>>(trimmed(parts[k])) by {
            if k > 0 {
                assert(known_target(trimmed(parts[0])));
                assert(rest[k - 1] == parts[k]);
                assert forall|i: int| 0 <= i < k - 1 implies known_target(trimmed(#[trigger] rest[i])) by {
                    assert(known_target(trimmed(parts[i + 1])));
                }
            }
        }
    }
}

/// The instrumentation options written as `s`: none for an empty string,
/// otherwise the comma-separated targets that [selected_targets] reads.
pub open spec fn instrumentation_of(s: Seq<char>, r: Result<InstrumentationConfig, String>) -> bool {
    if s.len() == 0 {
        r == Ok::<InstrumentationConfig, String>(InstrumentationConfig { instrument_files: false, instrument_inline: false })
    } else {
        match selected_targets(comma_parts(s), false, false) {
            Ok((files, inline)) => r == Ok::<InstrumentationConfig, String>(
                InstrumentationConfig { instrument_files: files, instrument_inline: inline },
            ),
            Err(part) => r matches Err(message) && message@ == "unknown instrumentation target '"@ + part
                + "', valid options are: files, inline"@,
        }
    }
}

/// Reads the targets of `parts`, from `files` and `inline` on.
fn select_targets(parts: &Vec<String>, files: bool, inline: bool) -> (r: Result<(bool, bool), String>)
    ensures
        match selected_targets(parts@.map_values(|p: String| p@), files, inline) {
            Ok(selected) => r == Ok::<(bool, bool), String>(selected),
            Err(part) => r matches Err(message) && message@ == "unknown instrumentation target '"@ + part
                + "', valid options are: files, inline"@,
        },
{
    let ghost views = parts@.map_values(|p: String| p@);
    let mut selected_files = files;
    let mut selected_inline = inline;
    let files_text = String::from_str("files");
    let inline_text = String::from_str("inline");
    let mut i: usize = 0;
    assert(views.skip(0) =~= views);
    while i < parts.len()
        invariant
            i <= parts@.len(),
            views == parts@.map_values(|p: String| p@),
            files_text@ == "files"@,
            inline_text@ == "inline"@,
            selected_targets(views, files, inline) == selected_targets(views.skip(i as int), selected_files, selected_inline),
        decreases parts@.len() - i,
    {
        let part = trim(parts[i].as_str());
        proof {
            assert(views.skip(i as int)[0] == parts@[i as int]@);
            assert(views.skip(i as int).skip(1) =~= views.skip(i + 1));
        }
        if part.eq(&files_text) {
            selected_files = true;
        } else if part.eq(&inline_text) {
            selected_inline = true;
        } else if part.as_str().unicode_len() == 0 {
        } else {
            let mut message = String::from_str("unknown instrumentation target '");
            message.append(part.as_str());
            message.append("', valid options are: files, inline");
            return Err(message);
        }
        i = i + 1;
    }
    assert(views.skip(parts@.len() as int).len() == 0);
    Ok((selected_files, selected_inline))
}

/// Splits `s` at its commas.
fn split_commas(s: &str) -> (r: Vec<String>)
    ensures
        r@.map_values(|p: String| p@) == comma_parts(s@),
{
    let chars = chars_of(s);
    let mut parts: Vec<String> = Vec::new();
    let mut current = String::new();
    let mut i: usize = 0;
    assert(chars@.take(0) =~= Seq::<char>::empty());
    assert(parts@.map_values(|p: String| p@).push(current@) =~= comma_parts(Seq::<char>::empty()));
    while i < chars.len()
        invariant
            chars@ == s@,
            i <= chars@.len(),
            parts@.map_values(|p: String| p@).push(current@) == comma_parts(chars@.take(i as int)),
        decreases chars@.len() - i,
    {
        let ghost before = parts@.map_values(|p: String| p@).push(current@);
        proof {
            assert(chars@.take(i + 1).drop_last() =~= chars@.take(i as int));
            assert(chars@.take(i + 1).last() == chars@[i as int]);
        }
        if chars[i] == ',' {
            let done = current;
            parts.push(done);
            current = String::new();
            assert(parts@.map_values(|p: String| p@).push(current@) =~= before.push(Seq::empty()));
        } else {
            let ghost old_current = current@;
            crate::duration::push_char(&mut current, chars[i]);
            assert(parts@.map_values(|p: String| p@).push(current@) =~= before.update(
                before.len() - 1,
                before.last().push(chars@[i as int]),
            ));
        }
        i = i + 1;
    }
    assert(chars@.take(chars@.len() as int) =~= chars@);
    parts.push(current);
    parts
}

/// Which kinds of script to instrument, written as a comma-separated list
/// of `files` and `inline`; an empty string selects none.
pub fn parse_instrumentation_config(s: &str) -> (r: Result<InstrumentationConfig, String>)
    ensures
        instrumentation_of(s@, r),
{
    if s.unicode_len() == 0 {
        return Ok(InstrumentationConfig::none());
    }
    let parts = split_commas(s);
    match select_targets(&parts, false, false) {
        Ok((files, inline)) => Ok(InstrumentationConfig { instrument_files: files, instrument_inline: inline }),
        Err(message) => Err(message),
    }
}

/// The permissions of a comma-separated list: each part trimmed, the empty
/// ones left out, in order.
pub open spec fn permission_list(parts: Seq<Seq<char>>) -> Seq<Seq<char>>
    decreases parts.len(),
{
    if parts.len() == 0 {
        Seq::empty()
    } else {
        let rest = permission_list(parts.drop_last());
        let part = trimmed(parts.last());
        if part.len() == 0 { rest } else { rest.push(part) }
    }
}

/// The browser permissions to grant, written as a comma-separated list.
pub fn parse_permissions(s: &str) -> (r: Vec<String>)
    ensures
        r@.map_values(|p: String| p@) == permission_list(comma_parts(s@)),
{
    let parts = split_commas(s);
    let ghost views = parts@.map_values(|p: String| p@);
    let mut out: Vec<String> = Vec::new();
    let mut i: usize = 0;
    while i < parts.len()
        invariant
            i <= parts@.len(),
            views == parts@.map_values(|p: String| p@),
            views == comma_parts(s@),
            out@.map_values(|p: String| p@) == permission_list(views.take(i as int)),
        decreases parts@.len() - i,
    {
        proof {
            assert(views.take(i + 1).drop_last() =~= views.take(i as int));
            assert(views.take(i + 1).last() == parts@[i as int]@);
        }
        let part = trim(parts[i].as_str());
        if !part.as_str().is_empty() {
            let ghost before = out@.map_values(|p: String| p@);
            out.push(part);
            assert(out@.map_values(|p: String| p@) =~= before.push(part@));
        }
        i = i + 1;
    }
    assert(views.take(parts@.len() as int) =~= views);
    out
}

} // verus!
