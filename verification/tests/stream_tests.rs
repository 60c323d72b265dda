use zlib_tester::chunked::Answer;
use zlib_tester::error::DecodeError;
use zlib_tester::report::Timestamp;
use zlib_tester::stream::{bench_padding, bench_zlib, run_zlib, run_zlib_step, test_zlib, READ_SIZE};

#[test]
fn reads_are_of_256_bytes() {
    assert_eq!(READ_SIZE, 256);
}

#[test]
fn reading_goes_on_after_consumed_and_clean_finish() {
    assert!(run_zlib_step(Answer::Consumed).is_ok());
    assert!(run_zlib_step(Answer::Finished { rest: 0 }).is_ok());
}

#[test]
fn finish_with_bytes_left_ends_the_stream_run() {
    let err = run_zlib_step(Answer::Finished { rest: 12 }).unwrap_err();
    assert_eq!(err.message(), "decoder finished before end of input (12 bytes)");
}

#[test]
fn failure_ends_the_stream_run() {
    let err = run_zlib_step(Answer::Failed { error: "oops".to_string(), rest: 0 }).unwrap_err();
    assert_eq!(err.message(), "decoder returned error: oops");
}

#[test]
fn end_of_stream_needs_a_finished_decoder() {
    assert_eq!(run_zlib(Some(b"data".to_vec())).unwrap(), b"data".to_vec());
    let err = run_zlib(None).unwrap_err();
    assert_eq!(err.message(), "decoder has not finished before end of input");
}

#[test]
fn test_zlib_compares_with_the_sample() {
    assert!(test_zlib(b"abc", Ok(b"abc".to_vec())).is_ok());
    let err = test_zlib(b"abc", Ok(b"abd".to_vec())).unwrap_err();
    assert!(matches!(err, DecodeError::WrongResult));
    assert_eq!(err.message(), "decoder returned wrong result!!!");
    assert!(matches!(test_zlib(b"abc", Err(DecodeError::GzipUnsupported)), Err(DecodeError::GzipUnsupported)));
}

#[test]
fn bench_zlib_times_successful_runs() {
    let start = Timestamp { sec: 10, nsec: 900_000_000 };
    let end = Timestamp { sec: 12, nsec: 100_000_000 };
    assert_eq!(bench_zlib(Ok(vec![1]), start, end).unwrap(), 1_200_000_000);
    assert!(bench_zlib(Err(DecodeError::WrongResult), start, end).is_err());
}

#[test]
fn bench_padding_fills_forty_columns() {
    assert_eq!(bench_padding("alice.txt"), " ".repeat(31));
    assert_eq!(bench_padding(""), " ".repeat(40));
    assert_eq!(bench_padding(&"x".repeat(40)), "");
}
