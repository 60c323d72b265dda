use zlib_tester::show::{show_dir, show_error, show_file, show_info, show_ok, Color};

#[test]
fn colored_kinds_take_their_colors() {
    let ok = show_ok("fine\n", true);
    assert_eq!(ok.text, "fine\n");
    assert_eq!(ok.color, Some(Color::Green));
    assert_eq!(show_error("bad", true).color, Some(Color::Red));
    assert_eq!(show_dir("dir", true).color, Some(Color::BrightCyan));
}

#[test]
fn plain_kinds_have_no_color() {
    assert_eq!(show_info("info", true).color, None);
    assert_eq!(show_file("file", true).color, None);
    assert_eq!(show_info("info", true).text, "info");
    assert_eq!(show_file("file", false).text, "file");
}

#[test]
fn no_colors_when_colors_are_off() {
    assert_eq!(show_ok("a", false).color, None);
    assert_eq!(show_error("b", false).color, None);
    assert_eq!(show_dir("c", false).color, None);
    assert_eq!(show_error("b", false).text, "b");
}
