use zlib_tester::error::DecodeError;
use zlib_tester::report::{
    elapsed_nanos, error_line, file_label, find_sample, process_file, process_subdir, same_bytes,
    subdir_errors_line, total_errors_line, Sample, SubdirTotals, Timestamp,
};

#[test]
fn elapsed_nanos_counts_seconds_and_nanoseconds() {
    let a = Timestamp { sec: 5, nsec: 250 };
    let b = Timestamp { sec: 7, nsec: 100 };
    assert_eq!(elapsed_nanos(a, b), 1_999_999_850);
    assert_eq!(elapsed_nanos(b, a), -1_999_999_850);
    let lo = Timestamp { sec: i64::MIN, nsec: i32::MIN };
    let hi = Timestamp { sec: i64::MAX, nsec: i32::MAX };
    assert_eq!(elapsed_nanos(lo, hi), (u64::MAX as i128) * 1_000_000_000 + (u32::MAX as i128));
}

#[test]
fn process_file_judges_the_output() {
    let a = Timestamp { sec: 1, nsec: 0 };
    let b = Timestamp { sec: 1, nsec: 500 };
    assert_eq!(process_file(b"xyz", Ok(b"xyz".to_vec()), a, b).unwrap(), 500);
    assert!(matches!(process_file(b"xyz", Ok(b"xy".to_vec()), a, b), Err(DecodeError::WrongResult)));
    assert!(matches!(
        process_file(b"xyz", Err(DecodeError::Unfinished { produced: Some(2) }), a, b),
        Err(DecodeError::Unfinished { produced: Some(2) })
    ));
}

#[test]
fn subdir_totals_add_times_and_count_errors() {
    let outcomes = vec![Ok(100), Err(DecodeError::WrongResult), Ok(23), Err(DecodeError::GzipUnsupported)];
    assert_eq!(process_subdir(&outcomes), SubdirTotals { total_nanos: 123, errors: 2 });
    assert_eq!(process_subdir(&[]), SubdirTotals { total_nanos: 0, errors: 0 });
}

#[test]
fn find_sample_finds_by_name() {
    let samples = vec![
        Sample { name: "a.txt".to_string(), data: vec![1] },
        Sample { name: "b.txt".to_string(), data: vec![2] },
    ];
    assert_eq!(find_sample(&samples, "b.txt"), Some(1));
    assert_eq!(find_sample(&samples, "a.txt"), Some(0));
    assert_eq!(find_sample(&samples, "c.txt"), None);
}

#[test]
fn same_bytes_compares_contents() {
    assert!(same_bytes(b"", b""));
    assert!(same_bytes(b"ab", b"ab"));
    assert!(!same_bytes(b"ab", b"ac"));
    assert!(!same_bytes(b"ab", b"abc"));
}

#[test]
fn report_lines() {
    assert_eq!(file_label("alice"), format!("  alice{} ", " ".repeat(35)));
    assert_eq!(error_line(&DecodeError::WrongResult), "err!: decoder returned wrong result!!!\n");
    assert_eq!(subdir_errors_line(3), format!("  {}     3 errors\n", " ".repeat(40)));
    assert_eq!(total_errors_line(12), "     12 errors\n");
}
