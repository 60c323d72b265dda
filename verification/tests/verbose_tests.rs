use zlib_tester::chunked::Answer;
use zlib_tester::verbose::{decode, dump, input_line, read_ok_line, Dumper};

fn start(data: &[u8], chunk_size: usize) -> Dumper {
    let (text, run) = decode(data, chunk_size);
    assert_eq!(text, "");
    run.expect("a run")
}

#[test]
fn dump_writes_rows_of_twenty() {
    let bytes: Vec<u8> = (b'a'..b'a' + 22).collect();
    let expected = String::from("    ")
        + "61 62 63 64 65 66 67 68 69 6a 6b 6c 6d 6e 6f 70 71 72 73 74 "
        + "  \"abcdefghijklmnopqrst\"\n"
        + "    75 76   \"uv\"\n";
    assert_eq!(dump(&bytes), expected);
    assert_eq!(dump(&[]), "");
    assert_eq!(dump(b"\t\"\x01"), "    09 22 01   \"\\t\\\"\\x01\"\n");
}

#[test]
fn consumed_chunks_are_counted() {
    let data = [0u8; 5];
    let d = start(&data, 3);
    assert_eq!(d.chunk_header(), "-      0 ...      3\n");
    assert_eq!(d.chunk_of(&data).len(), 3);
    let (text, next) = d.feed(b"hi", Answer::Consumed);
    assert_eq!(text, "    68 69   \"hi\"\n  > out      2 b, total      2 b\n");
    let d = next.expect("more chunks");
    assert_eq!(d.chunk_header(), "-      3 ...      5\n");
    let (text, next) = d.feed(b"", Answer::Consumed);
    assert_eq!(text, "  > out      0 b, total      2 b\n! the decoder did not finish\n");
    assert!(next.is_none());
}

#[test]
fn finish_on_last_chunk_is_ok() {
    let data = [0u8; 4];
    let d = start(&data, 10);
    let (text, next) = d.feed(b"", Answer::Finished { rest: 2 });
    assert_eq!(text, " >       2 bytes left: ok\n");
    assert!(next.is_none());
}

#[test]
fn finish_before_last_chunk_reports_bytes_left() {
    let data = [0u8; 8];
    let d = start(&data, 4);
    let (text, next) = d.feed(b"", Answer::Finished { rest: 1 });
    assert_eq!(text, " >       1 bytes left: ! finished with      1 b left\n");
    assert!(next.is_none());
}

#[test]
fn failure_is_reported_with_its_error() {
    let data = [0u8; 8];
    let d = start(&data, 4);
    let (text, next) = d.feed(b"", Answer::Failed { error: "bad".to_string(), rest: 4 });
    assert_eq!(text, " >       4 bytes left: ! err: bad\n");
    assert!(next.is_none());
}

#[test]
fn empty_input_does_not_finish() {
    let (text, run) = decode(&[], 4);
    assert_eq!(text, "! the decoder did not finish\n");
    assert!(run.is_none());
}

#[test]
fn zero_chunk_size_feeds_empty_chunks() {
    let data = [1u8, 2];
    let d = start(&data, 0);
    assert_eq!(d.chunk_of(&data).len(), 0);
    let (_, next) = d.feed(b"", Answer::Consumed);
    assert_eq!(next.expect("still feeding").chunk_header(), "-      0 ...      0\n");
}

#[test]
fn setup_lines() {
    assert_eq!(input_line("f.zlib", 1024), "input f.zlib, chunk size 1024\n");
    assert_eq!(read_ok_line(33), " ok, 33 b\n");
}
