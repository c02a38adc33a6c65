use bombadil::text::trim;

#[test]
fn trim_removes_white_space_at_both_ends_as_str_trim_does() {
    for input in ["", "   ", "a", " a b ", "\u{3000}\t x\u{2003}y \n", "\u{85}z\u{a0}", "\u{200b}k\u{200b}"] {
        assert_eq!(trim(input), input.trim());
    }
    assert_eq!(trim("\u{3000} a b \t\n"), "a b");
}
