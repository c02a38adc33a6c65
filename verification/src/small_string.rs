//! Short strings of characters, such as the grapheme cluster of a terminal
//! cell: up to four characters are stored inline, longer ones on the heap.
use vstd::prelude::*;

verus! {

/// The most characters stored inline.
pub const STRING_INLINE_CHARS_COUNT_MAX: usize = 4;

/// A string stored inline for small grapheme clusters (most common), and on
/// the heap for larger clusters.
#[derive(Clone, Debug, PartialEq, Eq)]
pub enum SmallString {
    Inline { buffer: [char; 4], size: u8 },
    Heap(Vec<char>),
}

impl SmallString {
    /// Whether the inline size fits the buffer.
    pub open spec fn well_formed(self) -> bool {
        self matches SmallString::Inline { size, .. } ==> size <= STRING_INLINE_CHARS_COUNT_MAX
    }

    /// The inline buffer holds the null character past the string's end, so
    /// that two equal strings are equal buffers.
    pub open spec fn zero_padded(self) -> bool {
        self matches SmallString::Inline { buffer, size } ==> forall|k: int| size <= k < 4 ==> buffer@[k] == '\0'
    }

    /// The characters of the string.
    pub open spec fn chars(self) -> Seq<char> {
        match self {
            SmallString::Inline { buffer, size } => buffer@.take(size as int),
            SmallString::Heap(chars) => chars@,
        }
    }

    /// A string of `size` null characters: inline when it fits.
    pub fn null_with_size(size: usize) -> (r: Self)
        ensures
            r.well_formed(),
            r.zero_padded(),
            r.chars() == Seq::new(size as nat, |i: int| '\0'),
            r is Inline <==> size <= STRING_INLINE_CHARS_COUNT_MAX,
    {
        if size <= STRING_INLINE_CHARS_COUNT_MAX {
            let buffer: [char; 4] = ['\0', '\0', '\0', '\0'];
            let r = SmallString::Inline { buffer, size: size as u8 };
            assert(r.chars() =~= Seq::new(size as nat, |i: int| '\0'));
            r
        } else {
            let mut chars: Vec<char> = Vec::new();
            let mut i: usize = 0;
            while i < size
                invariant
                    i <= size,
                    chars@ == Seq::new(i as nat, |k: int| '\0'),
                decreases size - i,
            {
                chars.push('\0');
                i = i + 1;
                assert(chars@ =~= Seq::new(i as nat, |k: int| '\0'));
            }
            SmallString::Heap(chars)
        }
    }

    /// The string of the characters in `input`: inline when they fit.
    pub fn from_chars(input: &[char]) -> (r: Self)
        ensures
            r.well_formed(),
            r.zero_padded(),
            r.chars() == input@,
            r is Inline <==> input@.len() <= STRING_INLINE_CHARS_COUNT_MAX,
    {
        let source_size = input.len();
        if source_size <= STRING_INLINE_CHARS_COUNT_MAX {
            let mut buffer: [char; 4] = ['\0', '\0', '\0', '\0'];
            let mut i: usize = 0;
            while i < source_size
                invariant
                    source_size == input@.len(),
                    source_size <= 4,
                    i <= source_size,
                    forall|k: int| 0 <= k < i ==> buffer@[k] == input@[k],
                    forall|k: int| i <= k < 4 ==> buffer@[k] == '\0',
                decreases source_size - i,
            {
                buffer[i] = input[i];
                i = i + 1;
            }
            let r = SmallString::Inline { buffer, size: source_size as u8 };
            assert(r.chars() =~= input@);
            r
        } else {
            let mut chars: Vec<char> = Vec::new();
            let mut i: usize = 0;
            while i < source_size
                invariant
                    source_size == input@.len(),
                    i <= source_size,
                    chars@ == input@.take(i as int),
                decreases source_size - i,
            {
                chars.push(input[i]);
                i = i + 1;
                assert(chars@ =~= input@.take(i as int));
            }
            assert(input@.take(source_size as int) =~= input@);
            SmallString::Heap(chars)
        }
    }

    /// The string of the characters of `input`.
    pub fn from_str(input: &str) -> (r: Self)
        ensures
            r.well_formed(),
            r.zero_padded(),
            r.zero_padded(),
            r.chars() == input@,
            r is Inline <==> input@.len() <= STRING_INLINE_CHARS_COUNT_MAX,
    {
        let mut chars: Vec<char> = Vec::new();
        for c in it: input.chars()
            invariant
                it.seq() == input@,
                chars@ == it.seq().take(it.index() as int),
        {
            chars.push(c);
            assert(chars@ =~= it.seq().take(it.index() + 1));
        }
        assert(input@.take(input@.len() as int) =~= input@);
        Self::from_chars(chars.as_slice())
    }

    /// The characters of the string.
    pub fn as_chars(&self) -> (r: &[char])
        requires
            self.well_formed(),
        ensures
            r@ == self.chars(),
    {
        match self {
            SmallString::Inline { buffer, size } => vstd::slice::slice_subrange(buffer.as_slice(), 0, *size as usize),
            SmallString::Heap(chars) => chars.as_slice(),
        }
    }

    /// The characters as a `String`.
    pub fn to_string(&self) -> (r: String)
        requires
            self.well_formed(),
        ensures
            r@ == self.chars(),
    {
        let chars = self.as_chars();
        let mut out = String::new();
        let mut i: usize = 0;
        while i < chars.len()
            invariant
                i <= chars@.len(),
                chars@ == self.chars(),
                out@ == chars@.take(i as int),
            decreases chars@.len() - i,
        {
            crate::duration::push_char(&mut out, chars[i]);
            i = i + 1;
            assert(out@ =~= chars@.take(i as int));
        }
        assert(chars@.take(chars@.len() as int) =~= chars@);
        out
    }
}

} // verus!
