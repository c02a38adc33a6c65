//! What is done with a response that the browser paused for instrumentation:
//! a response with a status other than 200 goes on as it came; otherwise the
//! body is instrumented as a script, has its inline scripts instrumented, or
//! is kept as it is, and the response is fulfilled with the headers that the
//! new body leaves valid.
use vstd::prelude::*;

use crate::options::{chars_of, InstrumentationConfig};
use crate::text::{is_white_space, leading_white_space, lemma_leading_white_space_of, white_space};

verus! {

/// What `str::to_lowercase` gives for a string: each character replaced by
/// its Unicode lowercase mapping.
pub uninterp spec fn lowercased(s: Seq<char>) -> Seq<char>;

/// `str::to_lowercase`, whose result is named [lowercased].
#[verifier::external_body]
fn to_lowercase(s: &str) -> (r: String)
    ensures
        r@ == lowercased(s@),
{
    s.to_lowercase()
}

/// The kind of resource whose response was paused.
#[derive(Clone, Copy, Debug, PartialEq, Eq, Structural)]
pub enum ResourceKind {
    Script,
    Document,
    Other,
}

/// What the body of a fulfilled response becomes.
#[derive(Clone, Copy, Debug, PartialEq, Eq, Structural)]
pub enum Interception {
    /// The body, a script, instrumented.
    InstrumentScript,
    /// The body, an HTML document, with its inline scripts instrumented.
    InstrumentInline,
    /// The body as it came.
    Unchanged,
}

/// Only scripts and documents are intercepted.
#[derive(Clone, Copy, Debug, PartialEq, Eq, Structural)]
pub enum InterceptionError {
    UnexpectedResource,
}

/// A response with a status other than 200 goes on as it came.
pub open spec fn forwarded(status: Option<i64>) -> bool {
    status matches Some(code) && code != 200
}

/// Whether a paused response goes on as it came.
pub fn forwards_response(status: Option<i64>) -> (r: bool)
    ensures
        r == forwarded(status),
{
    match status {
        Some(code) => code != 200,
        None => false,
    }
}

pub open spec fn has_prefix(s: Seq<char>, p: Seq<char>) -> bool {
    p.len() <= s.len() && s.take(p.len() as int) == p
}

/// After its leading white space, `body` begins with an XML declaration.
pub open spec fn xml_declared(body: Seq<char>) -> bool {
    has_prefix(body.skip(leading_white_space(body) as int), "<?xml"@)
}

/// The code of a character with `A` to `Z` taken to lower case.
pub open spec fn ascii_lower(c: char) -> u32 {
    let n = c as u32;
    if 65 <= n <= 90 {
        (n + 32) as u32
    } else {
        n
    }
}

/// Equal but for the case of ASCII letters, as `str::eq_ignore_ascii_case`.
pub open spec fn eq_ignore_ascii_case(a: Seq<char>, b: Seq<char>) -> bool {
    &&& a.len() == b.len()
    &&& forall|i: int| 0 <= i < a.len() ==> #[trigger] ascii_lower(a[i]) == ascii_lower(b[i])
}

/// The value of the first header named `Content-Type`, in any case of its
/// letters.
pub open spec fn first_content_type(headers: Seq<(String, String)>) -> Option<Seq<char>>
    decreases headers.len(),
{
    if headers.len() == 0 {
        None
    } else if eq_ignore_ascii_case(headers[0].0@, "content-type"@) {
        Some(headers[0].1@)
    } else {
        first_content_type(headers.skip(1))
    }
}

/// A document is HTML when its content type says `text/html`, or, without a
/// content type, when its body is no XML.
pub open spec fn is_html_document(kind: ResourceKind, headers: Seq<(String, String)>, body: Seq<char>) -> bool {
    &&& kind == ResourceKind::Document
    &&& match first_content_type(headers) {
        Some(value) => has_prefix(value, "text/html"@),
        None => !xml_declared(body),
    }
}

/// What becomes of a body: a script is instrumented where files are to be,
/// an HTML document where inline scripts are to be; any other document, or
/// one that is not to be instrumented, stays as it came.
pub open spec fn interception(kind: ResourceKind, html: bool, config: InstrumentationConfig) -> Result<
    Interception,
    InterceptionError,
> {
    match kind {
        ResourceKind::Script => Ok(
            if config.instrument_files {
                Interception::InstrumentScript
            } else {
                Interception::Unchanged
            },
        ),
        ResourceKind::Document => Ok(
            if html && config.instrument_inline {
                Interception::InstrumentInline
            } else {
                Interception::Unchanged
            },
        ),
        ResourceKind::Other => Err(InterceptionError::UnexpectedResource),
    }
}

fn ascii_lower_code(c: char) -> (r: u32)
    ensures
        r == ascii_lower(c),
{
    let n = c as u32;
    if 65 <= n && n <= 90 {
        n + 32
    } else {
        n
    }
}

fn same_ignoring_ascii_case(a: &str, b: &str) -> (r: bool)
    ensures
        r == eq_ignore_ascii_case(a@, b@),
{
    let x = chars_of(a);
    let y = chars_of(b);
    if x.len() != y.len() {
        return false;
    }
    let mut i: usize = 0;
    while i < x.len()
        invariant
            x@ == a@,
            y@ == b@,
            x@.len() == y@.len(),
            i <= x@.len(),
            forall|j: int| 0 <= j < i ==> #[trigger] ascii_lower(x@[j]) == ascii_lower(y@[j]),
        decreases x@.len() - i,
    {
        if ascii_lower_code(x[i]) != ascii_lower_code(y[i]) {
            return false;
        }
        i = i + 1;
    }
    true
}

/// Whether `s`, from `start` on, begins with `p`.
fn has_prefix_at(s: &Vec<char>, start: usize, p: &Vec<char>) -> (r: bool)
    requires
        start <= s@.len(),
    ensures
        r == has_prefix(s@.skip(start as int), p@),
{
    let ghost t = s@.skip(start as int);
    if s.len() - start < p.len() {
        return false;
    }
    let mut j: usize = 0;
    while j < p.len()
        invariant
            t == s@.skip(start as int),
            start + p@.len() <= s.len(),
            j <= p@.len(),
            forall|k: int| 0 <= k < j ==> #[trigger] t[k] == p@[k],
        decreases p@.len() - j,
    {
        if s[start + j] != p[j] {
            assert(t.take(p@.len() as int)[j as int] != p@[j as int]);
            return false;
        }
        j = j + 1;
    }
    assert(t.take(p@.len() as int) =~= p@);
    true
}

fn content_type_of(headers: &Vec<(String, String)>) -> (r: Option<&String>)
    ensures
        match first_content_type(headers@) {
            Some(value) => r matches Some(v) && v@ == value,
            None => r is None,
        },
{
    let mut i: usize = 0;
    assert(headers@.skip(0) =~= headers@);
    while i < headers.len()
        invariant
            i <= headers@.len(),
            first_content_type(headers@) == first_content_type(headers@.skip(i as int)),
        decreases headers@.len() - i,
    {
        let ghost rest = headers@.skip(i as int);
        proof {
            assert(rest[0] == headers@[i as int]);
            assert(rest.skip(1) =~= headers@.skip(i + 1));
        }
        if same_ignoring_ascii_case(headers[i].0.as_str(), "content-type") {
            return Some(&headers[i].1);
        }
        i = i + 1;
    }
    None
}

/// Whether `body`, after its leading white space, begins with an XML
/// declaration.
fn declares_xml(body: &str) -> (r: bool)
    ensures
        r == xml_declared(body@),
{
    let chars = chars_of(body);
    let mut i: usize = 0;
    assert(body@.skip(0) =~= body@);
    while i < chars.len() && white_space(chars[i])
        invariant
            chars@ == body@,
            i <= chars@.len(),
            leading_white_space(body@) == i + leading_white_space(body@.skip(i as int)),
        decreases chars@.len() - i,
    {
        proof {
            assert(body@.skip(i as int)[0] == body@[i as int]);
            assert(body@.skip(i as int).skip(1) =~= body@.skip(i + 1));
        }
        i = i + 1;
    }
    proof {
        if i < chars@.len() {
            assert(body@.skip(i as int)[0] == body@[i as int]);
        }
    }
    let xml = chars_of("<?xml");
    has_prefix_at(&chars, i, &xml)
}

/// What becomes of the body of a paused response of `kind`, given the
/// response's headers, its body and what is to be instrumented.
pub fn decide_interception(
    kind: ResourceKind,
    response_headers: &Vec<(String, String)>,
    body: &str,
    config: &InstrumentationConfig,
) -> (r: Result<Interception, InterceptionError>)
    ensures
        r == interception(kind, is_html_document(kind, response_headers@, body@), *config),
{
    match kind {
        ResourceKind::Script => Ok(
            if config.instrument_files {
                Interception::InstrumentScript
            } else {
                Interception::Unchanged
            },
        ),
        ResourceKind::Document => {
            let html = match content_type_of(response_headers) {
                Some(value) => {
                    let v = chars_of(value.as_str());
                    let p = chars_of("text/html");
                    proof {
                        assert(v@.skip(0) =~= v@);
                    }
                    has_prefix_at(&v, 0, &p)
                },
                None => !declares_xml(body),
            };
            Ok(
                if html && config.instrument_inline {
                    Interception::InstrumentInline
                } else {
                    Interception::Unchanged
                },
            )
        },
        ResourceKind::Other => Err(InterceptionError::UnexpectedResource),
    }
}

/// A header that the instrumented body makes invalid, or that belongs to the
/// connection alone, and so is not passed on.
pub open spec fn excluded_header(name: Seq<char>) -> bool {
    let n = lowercased(name);
    ||| n == "content-length"@
    ||| n == "content-encoding"@
    ||| n == "transfer-encoding"@
    ||| n == "content-md5"@
    ||| n == "digest"@
    ||| n == "content-range"@
    ||| n == "connection"@
    ||| n == "keep-alive"@
    ||| n == "proxy-authenticate"@
    ||| n == "proxy-authorization"@
    ||| n == "te"@
    ||| n == "trailer"@
    ||| n == "upgrade"@
    ||| n == "etag"@
}

/// The headers that are passed on, in their order.
pub open spec fn kept_headers(headers: Seq<(String, String)>) -> Seq<(String, String)>
    decreases headers.len(),
{
    if headers.len() == 0 {
        Seq::empty()
    } else {
        let rest = kept_headers(headers.drop_last());
        if excluded_header(headers.last().0@) {
            rest
        } else {
            rest.push(headers.last())
        }
    }
}

fn named(name: &String, literal: &str) -> (r: bool)
    ensures
        r == (name@ == literal@),
{
    *name == String::from_str(literal)
}

fn is_excluded_header(name: &str) -> (r: bool)
    ensures
        r == excluded_header(name@),
{
    let n = to_lowercase(name);
    named(&n, "content-length") || named(&n, "content-encoding") || named(&n, "transfer-encoding") || named(
        &n,
        "content-md5",
    ) || named(&n, "digest") || named(&n, "content-range") || named(&n, "connection") || named(&n, "keep-alive")
        || named(&n, "proxy-authenticate") || named(&n, "proxy-authorization") || named(&n, "te") || named(
        &n,
        "trailer",
    ) || named(&n, "upgrade") || named(&n, "etag")
}

/// The headers of a fulfilled response: an `etag` with `etag` as its value,
/// then the response's own headers but those that are not passed on.
pub fn fulfilled_headers(etag: String, response_headers: Vec<(String, String)>) -> (r: Vec<(String, String)>)
    ensures
        r@.len() == kept_headers(response_headers@).len() + 1,
        r@[0].0@ == "etag"@,
        r@[0].1 == etag,
        r@.skip(1) == kept_headers(response_headers@),
{
    let mut out: Vec<(String, String)> = Vec::new();
    out.push((String::from_str("etag"), etag));
    let ghost first = out@[0];
    let ghost all = response_headers@;
    assert(all.take(0) =~= Seq::<(String, String)>::empty());
    assert(out@.skip(1) =~= kept_headers(all.take(0)));
    for header in it: response_headers.into_iter()
        invariant
            it.seq() == all,
            out@.len() >= 1,
            out@[0] == first,
            out@.skip(1) == kept_headers(all.take(it.index() as int)),
    {
        let ghost j = it.index();
        proof {
            assert(all.take(j + 1).drop_last() =~= all.take(j));
            assert(all.take(j + 1).last() == header);
        }
        if !is_excluded_header(header.0.as_str()) {
            let ghost before = out@;
            out.push(header);
            assert(out@.skip(1) =~= before.skip(1).push(header));
        }
    }
    assert(all.take(all.len() as int) =~= all);
    out
}

/// The headers of a fulfilled response after its `etag` are the response's
/// own headers, in their order, less exactly those whose name, in lower case,
/// is `content-length`, `content-encoding`, `transfer-encoding`,
/// `content-md5`, `digest`, `content-range` (which the instrumented body
/// makes wrong), `connection`, `keep-alive`, `proxy-authenticate`,
/// `proxy-authorization`, `te`, `trailer`, `upgrade` (which belong to the
/// connection) or `etag` (which the new one replaces). None of the headers
/// passed on has one of these names.
pub proof fn law_fulfilled_headers_drop_exactly_the_invalidated(headers: Seq<(String, String)>)
    ensures
        kept_headers(headers) == headers.filter(
            |h: (String, String)|
                {
                    let n = lowercased(h.0@);
                    !(n == "content-length"@ || n == "content-encoding"@ || n == "transfer-encoding"@ || n
                        == "content-md5"@ || n == "digest"@ || n == "content-range"@ || n == "connection"@ || n
                        == "keep-alive"@ || n == "proxy-authenticate"@ || n == "proxy-authorization"@ || n == "te"@
                        || n == "trailer"@ || n == "upgrade"@ || n == "etag"@)
                },
        ),
        forall|k: int|
            0 <= k < kept_headers(headers).len() ==> {
                let n = lowercased(#[trigger] kept_headers(headers)[k].0@);
                &&& n != "content-length"@
                &&& n != "content-encoding"@
                &&& n != "transfer-encoding"@
                &&& n != "content-md5"@
                &&& n != "digest"@
                &&& n != "content-range"@
                &&& n != "connection"@
                &&& n != "keep-alive"@
                &&& n != "proxy-authenticate"@
                &&& n != "proxy-authorization"@
                &&& n != "te"@
                &&& n != "trailer"@
                &&& n != "upgrade"@
                &&& n != "etag"@
            },
    decreases headers.len(),
{
    reveal(Seq::filter);
    if headers.len() > 0 {
        law_fulfilled_headers_drop_exactly_the_invalidated(headers.drop_last());
    }
}

/// A response goes on as it came exactly when it has a status and the
/// status is not 200.
pub proof fn law_only_successful_responses_are_intercepted(status: Option<i64>)
    ensures
        forwarded(status) <==> (status is Some && status->0 != 200),
        forwarded(Some(200)) == false,
        forwarded(None) == false,
{
}

/// What becomes of a body follows the configuration: a script is
/// instrumented exactly when files are to be, whatever its headers and
/// body and whether inline scripts are to be; a document is never
/// instrumented as a script, and has its inline scripts instrumented only
/// where they are to be; any other resource is refused.
pub proof fn law_bodies_follow_the_configuration(
    kind: ResourceKind,
    headers: Seq<(String, String)>,
    body: Seq<char>,
    config: InstrumentationConfig,
)
    ensures
        ({
            let r = interception(kind, is_html_document(kind, headers, body), config);
            &&& kind == ResourceKind::Script ==> r == Ok::<Interception, InterceptionError>(
                if config.instrument_files {
                    Interception::InstrumentScript
                } else {
                    Interception::Unchanged
                },
            )
            &&& kind == ResourceKind::Document ==> r is Ok && r != Ok::<Interception, InterceptionError>(
                Interception::InstrumentScript,
            )
            &&& kind == ResourceKind::Document && !config.instrument_inline ==> r == Ok::<
                Interception,
                InterceptionError,
            >(Interception::Unchanged)
            &&& kind == ResourceKind::Other ==> r == Err::<Interception, InterceptionError>(
                InterceptionError::UnexpectedResource,
            )
        }),
{
}

/// The first header named `content-type` decides whether a document is
/// HTML, whatever follows it and whatever the body: one that says
/// `text/html` has the document's inline scripts instrumented where they are
/// to be.
pub proof fn law_the_content_type_decides(
    value: String,
    rest: Seq<(String, String)>,
    body: Seq<char>,
    config: InstrumentationConfig,
)
    requires
        value@.len() >= "text/html"@.len(),
        value@.take("text/html"@.len() as int) == "text/html"@,
        config.instrument_inline,
    ensures
        forall|name: String|
            name@ == "content-type"@ ==> interception(
                ResourceKind::Document,
                is_html_document(ResourceKind::Document, seq![(name, value)] + rest, body),
                config,
            ) == Ok::<Interception, InterceptionError>(Interception::InstrumentInline),
{
    assert forall|name: String| name@ == "content-type"@ implies interception(
        ResourceKind::Document,
        is_html_document(ResourceKind::Document, seq![(name, value)] + rest, body),
        config,
    ) == Ok::<Interception, InterceptionError>(Interception::InstrumentInline) by {
        let headers = seq![(name, value)] + rest;
        assert(headers[0] == (name, value));
        assert(eq_ignore_ascii_case(headers[0].0@, "content-type"@));
    }
}

/// Without a content type, a document whose body, after white space, opens
/// with an XML declaration is no HTML, and is kept as it came.
pub proof fn law_xml_documents_are_kept(
    space: Seq<char>,
    rest: Seq<char>,
    config: InstrumentationConfig,
)
    requires
        forall|i: int| 0 <= i < space.len() ==> is_white_space(#[trigger] space[i]),
    ensures
        interception(
            ResourceKind::Document,
            is_html_document(ResourceKind::Document, Seq::empty(), space + "<?xml"@ + rest),
            config,
        ) == Ok::<Interception, InterceptionError>(Interception::Unchanged),
{
    reveal_strlit("<?xml");
    let body = space + "<?xml"@ + rest;
    let after = "<?xml"@ + rest;
    assert(body =~= space + after);
    assert(after[0] == '<');
    lemma_leading_white_space_of(space, after);
    assert(body.skip(space.len() as int) =~= after);
    assert(after.take(5) =~= "<?xml"@);
}

} // verus!
