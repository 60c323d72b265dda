use zlib_tester::naming::{compressed_name, is_sample_name, suffix_to_format, Format};

#[test]
fn suffixes_name_formats() {
    assert_eq!(suffix_to_format(Some(".zlib")), Format::ZlibFormat);
    assert_eq!(suffix_to_format(Some(".gz")), Format::GzipFormat);
}

#[test]
fn hidden_and_underscored_entries_are_not_samples() {
    assert!(is_sample_name("alice.txt"));
    assert!(is_sample_name("a"));
    assert!(!is_sample_name(".hidden"));
    assert!(!is_sample_name("_skip"));
    assert!(is_sample_name("x_y"));
}

#[test]
fn compressed_name_adds_the_zlib_suffix() {
    assert_eq!(compressed_name("alice.txt"), "alice.txt.zlib");
    assert_eq!(compressed_name(""), ".zlib");
}
