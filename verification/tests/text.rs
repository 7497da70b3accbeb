use ireina::text::text_before;

#[test]
fn texts_are_ordered_by_their_first_difference() {
    assert!(text_before("a", "b"));
    assert!(!text_before("b", "a"));
    assert!(text_before("BTC-EUR", "BTC-USD"));
    assert!(text_before("ab", "b"));
    assert!(text_before("B", "a"));
    assert!(text_before("1INCH-USD", "AAVE-USD"));
}

#[test]
fn a_text_comes_before_every_text_that_goes_on_from_it() {
    assert!(text_before("", "a"));
    assert!(text_before("BTC", "BTC-USD"));
    assert!(!text_before("BTC-USD", "BTC"));
}

#[test]
fn no_text_comes_before_itself() {
    assert!(!text_before("", ""));
    assert!(!text_before("BTC-USD", "BTC-USD"));
}

#[test]
fn characters_are_ordered_by_code_point() {
    assert!(text_before("z", "é"));
    assert!(text_before("é", "日"));
    assert!(text_before("日", "😀"));
    assert!(!text_before("😀", "\u{ffff}"));
    assert!(text_before("\u{ffff}", "😀"));
}
