//! Decoding a stream read piece by piece, as the stream testers do: what each
//! answer of the decoder leads to, what the end of the stream leads to, and
//! how the result is judged against the expected data.

use vstd::prelude::*;
use crate::chunked::Answer;
use crate::error::DecodeError;
use crate::report::{Timestamp, elapsed_nanos, same_bytes};
use crate::text::repeat_char;
use vstd::string::StringSliceAdditionalSpecFns;

verus! {

/// How many bytes are read from the stream at a time.
pub const READ_SIZE: usize = 256;

/// What the decoder's answer to a piece of the stream leads to: `Ok` to read
/// on, or the error that ends the run. Reading goes on after a piece the
/// decoder used whole, and after a finish that left nothing of the piece; a
/// finish that left bytes unused, or a failure, ends the run.
pub open spec fn stream_step(answer: Answer) -> Result<(), DecodeError> {
    match answer {
        Answer::Consumed => Ok(()),
        Answer::Finished { rest } => if rest == 0 {
            Ok(())
        } else {
            Err(DecodeError::FinishedEarly { left: rest, produced: None })
        },
        Answer::Failed { error, .. } => Err(DecodeError::Failed { error, produced: None }),
    }
}

/// Reading goes on exactly after a piece the decoder used whole or a clean
/// finish. A failure of the decoder always ends the run with that failure,
/// however many bytes of the piece it left; a finish that left bytes ends it
/// with their count.
pub proof fn lemma_stream_failure_ends_run(answer: Answer)
    ensures
        stream_step(answer) is Ok <==> (answer is Consumed || answer matches Answer::Finished {
            rest: 0,
        }),
        answer matches Answer::Failed { error, .. } ==> (stream_step(answer) matches Err(
            DecodeError::Failed { error: e, produced: None },
        ) && e == error),
        answer matches Answer::Finished { rest } ==> (rest > 0 ==> (stream_step(answer) matches Err(
            DecodeError::FinishedEarly { left: l, produced: None },
        ) && l == rest)),
{
}

/// Takes the decoder's answer to a piece of the stream.
pub fn run_zlib_step(answer: Answer) -> (r: Result<(), DecodeError>)
    ensures
        r == stream_step(answer),
        r is Ok <==> (answer is Consumed || answer matches Answer::Finished { rest: 0 }),
        answer matches Answer::Failed { error, .. } ==> (r matches Err(
            DecodeError::Failed { error: e, produced: None },
        ) && e == error),
{
    proof {
        lemma_stream_failure_ends_run(answer);
    }
    match answer {
        Answer::Consumed => Ok(()),
        Answer::Finished { rest } => {
            if rest == 0 {
                Ok(())
            } else {
                Err(DecodeError::FinishedEarly { left: rest, produced: None })
            }
        },
        Answer::Failed { error, .. } => Err(DecodeError::Failed { error, produced: None }),
    }
}

/// Ends a run at the end of the stream: the decoder's output when it has
/// finished (`finished_output` is `Some`), an error when it has not.
pub fn run_zlib(finished_output: Option<Vec<u8>>) -> (r: Result<Vec<u8>, DecodeError>)
    ensures
        finished_output matches Some(out) ==> (r matches Ok(o) && o@ == out@),
        finished_output is None ==> r matches Err(DecodeError::Unfinished { produced: None }),
{
    match finished_output {
        Some(out) => Ok(out),
        None => Err(DecodeError::Unfinished { produced: None }),
    }
}

/// Judges a run against the expected data: `Ok` when it gave exactly that
/// data, the run's own error when it failed, and a wrong-result error
/// otherwise.
pub fn test_zlib(expected: &[u8], result: Result<Vec<u8>, DecodeError>) -> (r: Result<(), DecodeError>)
    ensures
        result matches Ok(out) ==> (out@ == expected@ <==> r is Ok),
        result matches Ok(out) && out@ != expected@ ==> r matches Err(DecodeError::WrongResult),
        result matches Err(e) ==> (r matches Err(e2) && e2 == e),
{
    match result {
        Ok(out) => {
            if same_bytes(expected, out.as_slice()) {
                Ok(())
            } else {
                Err(DecodeError::WrongResult)
            }
        },
        Err(e) => Err(e),
    }
}

/// The time a run took, in nanoseconds, when it did not fail; the output
/// itself is not judged.
pub fn bench_zlib(result: Result<Vec<u8>, DecodeError>, start: Timestamp, end: Timestamp) -> (r: Result<i128, DecodeError>)
    ensures
        result is Ok ==> (r matches Ok(t) && t == start.nanos_until(end)),
        result matches Err(e) ==> (r matches Err(e2) && e2 == e),
{
    match result {
        Ok(_) => Ok(elapsed_nanos(start, end)),
        Err(e) => Err(e),
    }
}


/// The spaces written after a sample's name in a benchmark line, so that the
/// time starts forty columns on (the name's length counted in bytes).
pub fn bench_padding(name: &str) -> (r: String)
    requires
        name.spec_bytes().len() <= 40,
    ensures
        r@ == repeat_char(' ', (40 - name.spec_bytes().len()) as nat),
{
    let n = 40 - name.len();
    let mut r = String::new();
    let mut i: usize = 0;
    while i < n
        invariant
            i <= n,
            r@ == repeat_char(' ', i as nat),
        decreases n - i,
    {
        proof {
            reveal_strlit(" ");
        }
        r.append(" ");
        i = i + 1;
        assert(r@ =~= repeat_char(' ', i as nat));
    }
    r
}

} // verus!
