use bombadil::small_string::{SmallString, STRING_INLINE_CHARS_COUNT_MAX};

#[test]
fn test_string_roundtrip() {
    for input in ["", "a", "é", "abcd", "abcde", "👩‍👩‍👧‍👦", "a longer string of characters"] {
        let chars: Vec<char> = input.chars().collect();
        let small = SmallString::from_chars(chars.as_slice());
        assert_eq!(small.as_chars(), chars.as_slice());
        assert_eq!(SmallString::from_str(input).as_chars(), chars.as_slice());
    }
}

#[test]
fn test_inline_vs_heap() {
    for input in ["", "a", "abcd", "abcde", "ééééé", "日本語"] {
        let chars: Vec<char> = input.chars().collect();
        let small = SmallString::from_chars(chars.as_slice());
        match &small {
            SmallString::Inline { size, .. } => {
                assert!(chars.len() <= STRING_INLINE_CHARS_COUNT_MAX, "should be heap: len={}", *size)
            }
            SmallString::Heap(_) => assert!(input.len() > STRING_INLINE_CHARS_COUNT_MAX),
        }
    }
}

#[test]
fn null_strings() {
    let short = SmallString::null_with_size(3);
    assert!(matches!(short, SmallString::Inline { size: 3, .. }));
    assert_eq!(short.as_chars(), &['\0', '\0', '\0']);
    let long = SmallString::null_with_size(6);
    assert!(matches!(long, SmallString::Heap(_)));
    assert_eq!(long.as_chars().len(), 6);
}

#[test]
fn display_text() {
    assert_eq!(SmallString::from_str("ab").to_string(), "ab");
    assert_eq!(SmallString::from_str("a longer one").to_string(), "a longer one");
}

#[test]
fn inline_strings_are_padded_with_nulls() {
    assert_eq!(SmallString::from_chars(&['a', 'b']), SmallString::Inline { buffer: ['a', 'b', '\0', '\0'], size: 2 });
    assert_eq!(SmallString::from_str("ab"), SmallString::from_chars(&['a', 'b']));
    assert_eq!(SmallString::null_with_size(1), SmallString::Inline { buffer: ['\0'; 4], size: 1 });
}
