use zlib_tester::settings::{chunk_size_setting, parse_args, ArgsError, DEFAULT_CHUNK_SIZE};

#[test]
fn chunk_size_comes_from_a_positive_number() {
    assert_eq!(DEFAULT_CHUNK_SIZE, 1024);
    assert_eq!(chunk_size_setting(None), 1024);
    assert_eq!(chunk_size_setting(Some("512")), 512);
    assert_eq!(chunk_size_setting(Some("0")), 1024);
    assert_eq!(chunk_size_setting(Some("many")), 1024);
    assert_eq!(chunk_size_setting(Some("")), 1024);
}

fn args(v: &[&str]) -> Vec<String> {
    v.iter().map(|s| s.to_string()).collect()
}

#[test]
fn command_line_names_file_and_chunk_size() {
    assert_eq!(parse_args(&args(&["prog", "in.zlib"])), Ok(("in.zlib".to_string(), 1024)));
    assert_eq!(parse_args(&args(&["prog", "in.zlib", "7"])), Ok(("in.zlib".to_string(), 7)));
    assert_eq!(parse_args(&args(&["prog", "in.zlib", "0"])), Ok(("in.zlib".to_string(), 0)));
}

#[test]
fn bad_command_lines_are_refused() {
    assert_eq!(parse_args(&args(&["prog", "in.zlib", "x"])), Err(ArgsError::NotANumber));
    assert_eq!(parse_args(&args(&["prog"])), Err(ArgsError::Usage));
    assert_eq!(parse_args(&args(&["prog", "a", "1", "b"])), Err(ArgsError::Usage));
    assert_eq!(ArgsError::NotANumber.message(), "chunk_size was not a number\n");
    assert_eq!(ArgsError::Usage.message(), "Args: input_file [chunk_size]\n");
}
