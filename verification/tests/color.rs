use ewe::color::{green_bold, red_bold, style};

#[test]
fn a_style_wraps_the_text_in_escape_sequences() {
    assert_eq!(style("x", &vec!["31", "1"], false), "\x1b[31m\x1b[1mx\x1b[0m");
    assert_eq!(style("x", &vec![], false), "x\x1b[0m");
    assert_eq!(style("", &vec!["4"], false), "\x1b[4m\x1b[0m");
}

#[test]
fn without_colours_the_text_stays_as_it_is() {
    assert_eq!(style("x", &vec!["31", "1"], true), "x");
    assert_eq!(red_bold("error:", true), "error:");
    assert_eq!(green_bold("::", true), "::");
}

#[test]
fn red_and_green() {
    assert_eq!(red_bold("error:", false), "\x1b[31m\x1b[1merror:\x1b[0m");
    assert_eq!(green_bold("::", false), "\x1b[32m\x1b[1m::\x1b[0m");
}
