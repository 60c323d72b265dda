//! Why decoding a test file did not give the expected data, and how that is
//! reported.

use vstd::prelude::*;
use crate::text::{decimal, decimal_chars};

verus! {

/// Why a run of the decoder did not give the expected data. Where a count of
/// output bytes is known it is carried along, for the report.
#[derive(Debug)]
pub enum DecodeError {
    /// The decoder reached the end of the compressed stream with `left` bytes
    /// of its last input unused.
    FinishedEarly { left: usize, produced: Option<usize> },
    /// The decoder reported an error.
    Failed { error: String, produced: Option<usize> },
    /// The input ran out, or was not all fed, before the decoder finished.
    Unfinished { produced: Option<usize> },
    /// Gzip input is not decoded.
    GzipUnsupported,
    /// The decoder's output differs from the expected data.
    WrongResult,
}

/// ` (N bytes in output)` for a known count, nothing otherwise.
pub open spec fn produced_note(produced: Option<usize>) -> Seq<char> {
    match produced {
        Some(p) => " ("@ + decimal_chars(p as nat) + " bytes in output)"@,
        None => Seq::empty(),
    }
}

/// The report text of an error.
pub open spec fn message_chars(e: DecodeError) -> Seq<char> {
    match e {
        DecodeError::FinishedEarly { left, produced } => match produced {
            Some(p) => "decoder finished before end of input ("@ + decimal_chars(left as nat)
                + " bytes left in input buffer, "@ + decimal_chars(p as nat) + " bytes in output)"@,
            None => "decoder finished before end of input ("@ + decimal_chars(left as nat)
                + " bytes)"@,
        },
        DecodeError::Failed { error, produced } => "decoder returned error: "@ + error@
            + produced_note(produced),
        DecodeError::Unfinished { produced } => "decoder has not finished before end of input"@
            + produced_note(produced),
        DecodeError::GzipUnsupported => "gzip not implemented yet"@,
        DecodeError::WrongResult => "decoder returned wrong result!!!"@,
    }
}

fn append_produced_note(s: &mut String, produced: Option<usize>)
    ensures
        final(s)@ == old(s)@ + produced_note(produced),
{
    match produced {
        Some(p) => {
            s.append(" (");
            let n = decimal(p as u64);
            s.append(n.as_str());
            s.append(" bytes in output)");
        },
        None => {
            assert(old(s)@ + Seq::<char>::empty() =~= old(s)@);
        },
    }
}

impl DecodeError {
    /// The text that reports this error.
    pub fn message(&self) -> (r: String)
        ensures
            r@ == message_chars(*self),
    {
        match self {
            DecodeError::FinishedEarly { left, produced } => {
                let mut s = String::from_str("decoder finished before end of input (");
                let l = decimal(*left as u64);
                s.append(l.as_str());
                match produced {
                    Some(p) => {
                        s.append(" bytes left in input buffer, ");
                        let n = decimal(*p as u64);
                        s.append(n.as_str());
                        s.append(" bytes in output)");
                    },
                    None => {
                        s.append(" bytes)");
                    },
                }
                s
            },
            DecodeError::Failed { error, produced } => {
                let mut s = String::from_str("decoder returned error: ");
                s.append(error.as_str());
                append_produced_note(&mut s, *produced);
                s
            },
            DecodeError::Unfinished { produced } => {
                let mut s = String::from_str("decoder has not finished before end of input");
                append_produced_note(&mut s, *produced);
                s
            },
            DecodeError::GzipUnsupported => String::from_str("gzip not implemented yet"),
            DecodeError::WrongResult => String::from_str("decoder returned wrong result!!!"),
        }
    }
}

} // verus!
