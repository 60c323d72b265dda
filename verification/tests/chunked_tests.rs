use zlib_tester::chunked::{decompress, decompress_gzip, decompress_zlib, Answer, Feeder, ZlibRun};
use zlib_tester::error::DecodeError;
use zlib_tester::naming::Format;

fn feeding(run: ZlibRun) -> Feeder {
    match run {
        ZlibRun::Feeding(f) => f,
        ZlibRun::Done(_) => panic!("the run ended early"),
    }
}

fn done(run: ZlibRun) -> Result<Vec<u8>, DecodeError> {
    match run {
        ZlibRun::Done(r) => r,
        ZlibRun::Feeding(_) => panic!("the run goes on"),
    }
}

#[test]
fn chunks_cover_the_input_in_order() {
    let data: Vec<u8> = (0u8..10).collect();
    let f = feeding(decompress_zlib(&data, 4));
    assert_eq!(f.chunk_bounds(), (0, 4));
    assert_eq!(f.chunk_of(&data), &[0, 1, 2, 3]);
    let f = feeding(f.feed(vec![b'a'], Answer::Consumed));
    assert_eq!(f.chunk_bounds(), (4, 8));
    assert_eq!(f.chunk_of(&data), &[4, 5, 6, 7]);
    let f = feeding(f.feed(vec![], Answer::Consumed));
    assert_eq!(f.chunk_bounds(), (8, 10));
    assert_eq!(f.chunk_of(&data), &[8, 9]);
    let out = done(f.feed(vec![b'b', b'c'], Answer::Consumed));
    assert_eq!(out.unwrap(), b"abc".to_vec());
}

#[test]
fn clean_finish_on_the_last_chunk_gives_the_output() {
    let data = [1u8, 2, 3];
    let f = feeding(decompress(Format::ZlibFormat, &data, 2));
    let f = feeding(f.feed(b"he".to_vec(), Answer::Consumed));
    let out = done(f.feed(b"llo".to_vec(), Answer::Finished { rest: 0 }));
    assert_eq!(out.unwrap(), b"hello".to_vec());
}

#[test]
fn clean_finish_before_the_last_chunk_is_unfinished() {
    let data = [1u8, 2, 3];
    let f = feeding(decompress_zlib(&data, 2));
    let err = done(f.feed(b"hey".to_vec(), Answer::Finished { rest: 0 })).unwrap_err();
    assert!(matches!(err, DecodeError::Unfinished { produced: Some(3) }));
    assert_eq!(err.message(), "decoder has not finished before end of input (3 bytes in output)");
}

#[test]
fn finish_with_bytes_left_is_an_error() {
    let data = [1u8, 2, 3, 4, 5];
    let f = feeding(decompress_zlib(&data, 8));
    let err = done(f.feed(b"xy".to_vec(), Answer::Finished { rest: 3 })).unwrap_err();
    assert_eq!(
        err.message(),
        "decoder finished before end of input (3 bytes left in input buffer, 2 bytes in output)"
    );
}

#[test]
fn decoder_failure_is_reported() {
    let data = [1u8, 2, 3, 4, 5];
    let f = feeding(decompress_zlib(&data, 2));
    let f = feeding(f.feed(b"abcd".to_vec(), Answer::Consumed));
    let err = done(f.feed(vec![], Answer::Failed { error: "bad header".to_string(), rest: 1 }))
        .unwrap_err();
    assert_eq!(err.message(), "decoder returned error: bad header (4 bytes in output)");
}

#[test]
fn input_running_out_gives_the_output_so_far() {
    let data = [1u8, 2, 3];
    let f = feeding(decompress_zlib(&data, 3));
    let out = done(f.feed(b"part".to_vec(), Answer::Consumed));
    assert_eq!(out.unwrap(), b"part".to_vec());
}

#[test]
fn empty_input_gives_empty_output() {
    let out = done(decompress_zlib(&[], 16));
    assert_eq!(out.unwrap(), Vec::<u8>::new());
}

#[test]
fn gzip_is_refused() {
    let err = done(decompress(Format::GzipFormat, &[1, 2, 3], 0)).unwrap_err();
    assert!(matches!(err, DecodeError::GzipUnsupported));
    assert_eq!(err.message(), "gzip not implemented yet");
    assert!(matches!(decompress_gzip(&[], 4), Err(DecodeError::GzipUnsupported)));
}
