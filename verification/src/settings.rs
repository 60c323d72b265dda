//! Settings taken from the environment and the command line: the chunk size
//! and the file to decode.

use vstd::prelude::*;
use crate::text::{decimal_chars, lemma_decimal_parse_roundtrip, parse_decimal, parsed_unsigned};

verus! {

/// The chunk size used when none is given.
pub const DEFAULT_CHUNK_SIZE: usize = 1024;

/// The chunk size set by the value of the `CHUNK_SIZE` variable: the number it
/// spells when that is above zero, the default otherwise (and when unset).
pub open spec fn chunk_size_of(var: Option<Seq<char>>) -> usize {
    match var {
        Some(s) => match parsed_unsigned(s) {
            Some(n) => if n > 0 { n } else { DEFAULT_CHUNK_SIZE },
            None => DEFAULT_CHUNK_SIZE,
        },
        None => DEFAULT_CHUNK_SIZE,
    }
}

/// Any number above zero that the variable spells is the chunk size, however
/// large; zero, text that is no number, and no variable at all give the
/// default.
pub proof fn lemma_chunk_size_choice(s: Seq<char>)
    ensures
        parsed_unsigned(s) matches Some(n) ==> (n > 0 ==> chunk_size_of(Some(s)) == n),
        parsed_unsigned(s) matches Some(n) ==> (n == 0 ==> chunk_size_of(Some(s))
            == DEFAULT_CHUNK_SIZE),
        parsed_unsigned(s) is None ==> chunk_size_of(Some(s)) == DEFAULT_CHUNK_SIZE,
        chunk_size_of(None) == DEFAULT_CHUNK_SIZE,
{
}

/// The variable set to the decimal writing of any number above zero gives
/// that number as the chunk size.
pub proof fn lemma_chunk_size_of_decimal(n: u64)
    requires
        0 < n <= usize::MAX,
    ensures
        chunk_size_of(Some(decimal_chars(n as nat))) == n,
{
    lemma_decimal_parse_roundtrip(n);
}

/// The chunk size set by the value of the `CHUNK_SIZE` variable, if set.
pub fn chunk_size_setting(var: Option<&str>) -> (r: usize)
    ensures
        r == chunk_size_of(
            match var {
                Some(s) => Some(s@),
                None => None,
            },
        ),
        r > 0,
        var matches Some(s) ==> (parsed_unsigned(s@) matches Some(n) ==> (n > 0 ==> r == n)),
        var matches Some(s) ==> (parsed_unsigned(s@) matches Some(n) ==> (n == 0 ==> r
            == DEFAULT_CHUNK_SIZE)),
        var matches Some(s) ==> (parsed_unsigned(s@) is None ==> r == DEFAULT_CHUNK_SIZE),
        var is None ==> r == DEFAULT_CHUNK_SIZE,
{
    proof {
        if let Some(s) = var {
            lemma_chunk_size_choice(s@);
        }
    }
    match var {
        Some(s) => match parse_decimal(s) {
            Some(n) => if n > 0 { n } else { DEFAULT_CHUNK_SIZE },
            None => DEFAULT_CHUNK_SIZE,
        },
        None => DEFAULT_CHUNK_SIZE,
    }
}

/// Why the command line was refused.
#[derive(Clone, Copy, Debug, PartialEq, Eq, Structural)]
pub enum ArgsError {
    /// The chunk size given is not a number.
    NotANumber,
    /// There are not one or two arguments.
    Usage,
}

impl ArgsError {
    /// The text that reports this error.
    pub fn message(&self) -> (r: String)
        ensures
            *self == ArgsError::NotANumber ==> r@ == "chunk_size was not a number\n"@,
            *self == ArgsError::Usage ==> r@ == "Args: input_file [chunk_size]\n"@,
    {
        match self {
            ArgsError::NotANumber => String::from_str("chunk_size was not a number\n"),
            ArgsError::Usage => String::from_str("Args: input_file [chunk_size]\n"),
        }
    }
}

/// The file to decode and the chunk size, from the command line (the
/// program's name first): one argument names the file and takes the default
/// chunk size; a second one gives the chunk size, which may be zero.
pub fn parse_args(args: &[String]) -> (r: Result<(String, usize), ArgsError>)
    requires
        args@.len() >= 1,
    ensures
        args@.len() == 2 ==> (r matches Ok((f, n)) && f@ == args@[1]@ && n == DEFAULT_CHUNK_SIZE),
        args@.len() == 3 ==> match parsed_unsigned(args@[2]@) {
            Some(n) => r matches Ok((f, m)) && f@ == args@[1]@ && m == n,
            None => r == Err::<(String, usize), ArgsError>(ArgsError::NotANumber),
        },
        args@.len() != 2 && args@.len() != 3 ==> r == Err::<(String, usize), ArgsError>(
            ArgsError::Usage,
        ),
{
    if args.len() == 2 {
        Ok((args[1].clone(), DEFAULT_CHUNK_SIZE))
    } else if args.len() == 3 {
        match parse_decimal(args[2].as_str()) {
            Some(n) => Ok((args[1].clone(), n)),
            None => Err(ArgsError::NotANumber),
        }
    } else {
        Err(ArgsError::Usage)
    }
}

} // verus!
