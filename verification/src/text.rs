//! White space in text: which characters are white space, and a string
//! without the white space at either end.
use vstd::prelude::*;

use crate::options::chars_of;

verus! {

/// The characters with the Unicode property White_Space, which is what
/// `char::is_whitespace` tests.
pub open spec fn is_white_space(c: char) -> bool {
    let n = c as u32;
    ||| 0x9 <= n <= 0xD
    ||| n == 0x20
    ||| n == 0x85
    ||| n == 0xA0
    ||| n == 0x1680
    ||| 0x2000 <= n <= 0x200A
    ||| n == 0x2028
    ||| n == 0x2029
    ||| n == 0x202F
    ||| n == 0x205F
    ||| n == 0x3000
}

/// Whether `c` is white space.
pub fn white_space(c: char) -> (r: bool)
    ensures
        r == is_white_space(c),
{
    let n = c as u32;
    (0x9 <= n && n <= 0xD) || n == 0x20 || n == 0x85 || n == 0xA0 || n == 0x1680 || (0x2000 <= n && n
        <= 0x200A) || n == 0x2028 || n == 0x2029 || n == 0x202F || n == 0x205F || n == 0x3000
}

/// The number of white-space characters that `s` begins with.
pub open spec fn leading_white_space(s: Seq<char>) -> nat
    decreases s.len(),
{
    if s.len() > 0 && is_white_space(s[0]) {
        1 + leading_white_space(s.skip(1))
    } else {
        0
    }
}

/// The number of white-space characters that `s` ends with.
pub open spec fn trailing_white_space(s: Seq<char>) -> nat
    decreases s.len(),
{
    if s.len() > 0 && is_white_space(s.last()) {
        1 + trailing_white_space(s.drop_last())
    } else {
        0
    }
}

pub proof fn lemma_leading_white_space_bound(s: Seq<char>)
    ensures
        leading_white_space(s) <= s.len(),
    decreases s.len(),
{
    if s.len() > 0 && is_white_space(s[0]) {
        lemma_leading_white_space_bound(s.skip(1));
    }
}

pub proof fn lemma_trailing_white_space_bound(s: Seq<char>)
    ensures
        trailing_white_space(s) <= s.len(),
    decreases s.len(),
{
    if s.len() > 0 && is_white_space(s.last()) {
        lemma_trailing_white_space_bound(s.drop_last());
    }
}

/// White space followed by text that does not begin with white space is
/// exactly that much leading white space.
pub proof fn lemma_leading_white_space_of(space: Seq<char>, rest: Seq<char>)
    requires
        forall|i: int| 0 <= i < space.len() ==> is_white_space(#[trigger] space[i]),
        rest.len() > 0 ==> !is_white_space(rest[0]),
    ensures
        leading_white_space(space + rest) == space.len(),
    decreases space.len(),
{
    let s = space + rest;
    if space.len() == 0 {
        assert(s =~= rest);
    } else {
        assert(s[0] == space[0]);
        assert(s.skip(1) =~= space.skip(1) + rest);
        assert forall|i: int| 0 <= i < space.skip(1).len() implies is_white_space(#[trigger] space.skip(1)[i]) by {
            assert(space.skip(1)[i] == space[i + 1]);
        }
        lemma_leading_white_space_of(space.skip(1), rest);
    }
}

/// The characters of `s` without the white space at either end, as
/// `str::trim` gives them.
pub open spec fn trimmed(s: Seq<char>) -> Seq<char> {
    let rest = s.skip(leading_white_space(s) as int);
    rest.take(rest.len() - trailing_white_space(rest))
}

/// A string that neither begins nor ends with white space is its own
/// trimmed form.
pub proof fn lemma_trimmed_unchanged(s: Seq<char>)
    requires
        s.len() > 0 ==> !is_white_space(s[0]) && !is_white_space(s.last()),
    ensures
        trimmed(s) == s,
{
    assert(s.skip(0) =~= s);
    assert(s.take(s.len() as int) =~= s);
}

/// `s` without the white space at either end.
pub fn trim(s: &str) -> (r: String)
    ensures
        r@ == trimmed(s@),
{
    let chars = chars_of(s);
    let n = chars.len();
    let mut start: usize = 0;
    assert(s@.skip(0) =~= s@);
    while start < n && white_space(chars[start])
        invariant
            chars@ == s@,
            n == s@.len(),
            start <= n,
            leading_white_space(s@) == start + leading_white_space(s@.skip(start as int)),
        decreases n - start,
    {
        proof {
            assert(s@.skip(start as int)[0] == s@[start as int]);
            assert(s@.skip(start as int).skip(1) =~= s@.skip(start + 1));
        }
        start = start + 1;
    }
    proof {
        if start < n {
            assert(s@.skip(start as int)[0] == s@[start as int]);
        }
    }
    let ghost rest = s@.skip(start as int);
    let mut end: usize = n;
    assert(rest.take(n - start) =~= rest);
    while end > start && white_space(chars[end - 1])
        invariant
            chars@ == s@,
            n == s@.len(),
            start <= end <= n,
            rest == s@.skip(start as int),
            trailing_white_space(rest) == (n - end) + trailing_white_space(rest.take(end - start)),
        decreases end - start,
    {
        proof {
            let u = rest.take(end - start);
            assert(u.last() == s@[end - 1]);
            assert(u.drop_last() =~= rest.take(end - 1 - start));
        }
        end = end - 1;
    }
    proof {
        if end > start {
            assert(rest.take(end - start).last() == s@[end - 1]);
        }
    }
    let mut out = String::new();
    let mut i: usize = start;
    while i < end
        invariant
            chars@ == s@,
            start <= i <= end <= n,
            n == s@.len(),
            out@ == s@.subrange(start as int, i as int),
        decreases end - i,
    {
        crate::duration::push_char(&mut out, chars[i]);
        i = i + 1;
        assert(out@ =~= s@.subrange(start as int, i as int));
    }
    assert(rest.take(rest.len() - trailing_white_space(rest)) =~= s@.subrange(start as int, end as int));
    out
}

} // verus!
