//! Judging decoded files against their samples, timing, and the totals and
//! lines of a report.

use vstd::prelude::*;
use crate::error::{DecodeError, message_chars};
use crate::text::{decimal, decimal_chars, pad_left, pad_right, padded_left, padded_right, repeat_char, same_text};

verus! {

/// A point in time: whole seconds and nanoseconds.
#[derive(Clone, Copy, Debug, PartialEq, Eq, Structural)]
pub struct Timestamp {
    pub sec: i64,
    pub nsec: i32,
}

impl Timestamp {
    /// The nanoseconds from `self` to `later`.
    pub open spec fn nanos_until(self, later: Timestamp) -> int {
        (later.sec - self.sec) * 1_000_000_000 + (later.nsec - self.nsec)
    }
}

/// A bound on the size of any time span between two timestamps, in
/// nanoseconds.
pub open spec fn within_time_bound(t: int) -> bool {
    -0x8000_0000_0000_0000_0000_0000 <= t <= 0x8000_0000_0000_0000_0000_0000
}

/// The nanoseconds from `start` to `end`.
pub fn elapsed_nanos(start: Timestamp, end: Timestamp) -> (r: i128)
    ensures
        r == start.nanos_until(end),
        within_time_bound(r as int),
{
    let secs = end.sec as i128 - start.sec as i128;
    let nanos = end.nsec as i128 - start.nsec as i128;
    assert(-0x1_0000_0000_0000_0000 <= secs <= 0x1_0000_0000_0000_0000);
    assert(-0x1_0000_0000_0000_0000 * 1_000_000_000 <= secs * 1_000_000_000
        <= 0x1_0000_0000_0000_0000 * 1_000_000_000) by (nonlinear_arith)
        requires
            -0x1_0000_0000_0000_0000 <= secs <= 0x1_0000_0000_0000_0000,
    ;
    secs * 1_000_000_000 + nanos
}

/// Whether two byte strings are equal.
pub fn same_bytes(a: &[u8], b: &[u8]) -> (r: bool)
    ensures
        r == (a@ == b@),
{
    if a.len() != b.len() {
        return false;
    }
    let mut i: usize = 0;
    while i < a.len()
        invariant
            a@.len() == b@.len(),
            i <= a@.len(),
            forall|j: int| 0 <= j < i ==> a@[j] == b@[j],
        decreases a@.len() - i,
    {
        if a[i] != b[i] {
            return false;
        }
        i = i + 1;
    }
    assert(a@ =~= b@);
    true
}


/// How a decoded file compares with its sample: the time its decoding took,
/// in nanoseconds, when it gave exactly the sample's data; the decoding's own
/// error when it failed; a wrong-result error otherwise.
pub fn process_file(expected: &[u8], result: Result<Vec<u8>, DecodeError>, start: Timestamp, end: Timestamp) -> (r: Result<i128, DecodeError>)
    ensures
        result matches Ok(out) && out@ == expected@ ==> (r matches Ok(t) && t == start.nanos_until(end)),
        result matches Ok(out) && out@ != expected@ ==> r matches Err(DecodeError::WrongResult),
        result matches Err(e) ==> (r matches Err(e2) && e2 == e),
        r matches Ok(t) ==> within_time_bound(t as int),
{
    match result {
        Ok(out) => {
            if same_bytes(expected, out.as_slice()) {
                Ok(elapsed_nanos(start, end))
            } else {
                Err(DecodeError::WrongResult)
            }
        },
        Err(e) => Err(e),
    }
}

/// The sum of the times of the files that were decoded right.
pub open spec fn ok_total(outcomes: Seq<Result<i128, DecodeError>>) -> int
    decreases outcomes.len(),
{
    if outcomes.len() == 0 {
        0
    } else {
        ok_total(outcomes.drop_last()) + match outcomes.last() {
            Ok(t) => t as int,
            Err(_) => 0,
        }
    }
}

/// The number of files that were not decoded right.
pub open spec fn error_count(outcomes: Seq<Result<i128, DecodeError>>) -> nat
    decreases outcomes.len(),
{
    if outcomes.len() == 0 {
        0
    } else {
        error_count(outcomes.drop_last()) + if outcomes.last() is Err { 1nat } else { 0nat }
    }
}

/// Every failed file counts once as an error, whatever its error, and no
/// file decoded right does; only the files decoded right add their time.
pub proof fn lemma_outcome_push(s: Seq<Result<i128, DecodeError>>, o: Result<i128, DecodeError>)
    ensures
        o is Err ==> error_count(s.push(o)) == error_count(s) + 1,
        o is Ok ==> error_count(s.push(o)) == error_count(s),
        o matches Ok(t) ==> ok_total(s.push(o)) == ok_total(s) + t,
        o is Err ==> ok_total(s.push(o)) == ok_total(s),
{
    assert(s.push(o).drop_last() =~= s);
}

/// The error count is the number of outcomes that are errors, of whatever
/// kind; it is never more than the number of files.
pub proof fn lemma_error_count_counts_failures(s: Seq<Result<i128, DecodeError>>)
    ensures
        error_count(s) == s.filter(|o: Result<i128, DecodeError>| o is Err).len(),
        error_count(s) <= s.len(),
    decreases s.len(),
{
    reveal(Seq::filter);
    if s.len() > 0 {
        lemma_error_count_counts_failures(s.drop_last());
    }
}

/// The totals of a directory of test files.
#[derive(Clone, Copy, Debug, PartialEq, Eq, Structural)]
pub struct SubdirTotals {
    /// The time taken by the files decoded right, in nanoseconds.
    pub total_nanos: i128,
    /// How many files were not decoded right.
    pub errors: usize,
}

/// The totals of a directory of test files, from the outcome of each file:
/// the time of the files decoded right, added up, and the number of the others.
pub fn process_subdir(outcomes: &[Result<i128, DecodeError>]) -> (r: SubdirTotals)
    requires
        outcomes@.len() <= 0xffff_ffff,
        forall|i: int| 0 <= i < outcomes@.len() ==> (#[trigger] outcomes@[i] matches Ok(t)
            ==> within_time_bound(t as int)),
    ensures
        r.total_nanos == ok_total(outcomes@),
        r.errors == error_count(outcomes@),
        r.errors == outcomes@.filter(|o: Result<i128, DecodeError>| o is Err).len(),
        r.errors <= outcomes@.len(),
{
    proof {
        lemma_error_count_counts_failures(outcomes@);
    }
    let mut total: i128 = 0;
    let mut errors: usize = 0;
    let mut i: usize = 0;
    while i < outcomes.len()
        invariant
            outcomes@.len() <= 0xffff_ffff,
            forall|j: int| 0 <= j < outcomes@.len() ==> (#[trigger] outcomes@[j] matches Ok(t)
                ==> within_time_bound(t as int)),
            i <= outcomes@.len(),
            total == ok_total(outcomes@.take(i as int)),
            errors == error_count(outcomes@.take(i as int)),
            -0x8000_0000_0000_0000_0000_0000 * i <= total <= 0x8000_0000_0000_0000_0000_0000 * i,
            errors <= i,
        decreases outcomes@.len() - i,
    {
        assert(outcomes@.take(i + 1).drop_last() =~= outcomes@.take(i as int));
        assert(outcomes@.take(i + 1).last() == outcomes@[i as int]);
        match &outcomes[i] {
            Ok(t) => {
                assert(within_time_bound(*t as int));
                total = total + *t;
            },
            Err(_) => {
                errors = errors + 1;
            },
        }
        i = i + 1;
    }
    assert(outcomes@.take(i as int) =~= outcomes@);
    SubdirTotals { total_nanos: total, errors }
}

/// A sample: its name and its data.
#[derive(Debug)]
pub struct Sample {
    pub name: String,
    pub data: Vec<u8>,
}

/// The first sample named `name`, if any.
pub fn find_sample(samples: &[Sample], name: &str) -> (r: Option<usize>)
    ensures
        r matches Some(i) ==> i < samples@.len() && samples@[i as int].name@ == name@
            && forall|j: int| 0 <= j < i ==> samples@[j].name@ != name@,
        r is None ==> forall|j: int| 0 <= j < samples@.len() ==> samples@[j].name@ != name@,
{
    let mut i: usize = 0;
    while i < samples.len()
        invariant
            i <= samples@.len(),
            forall|j: int| 0 <= j < i ==> samples@[j].name@ != name@,
        decreases samples@.len() - i,
    {
        if same_text(samples[i].name.as_str(), name) {
            return Some(i);
        }
        i = i + 1;
    }
    None
}

/// The line that starts the report on a file: its name in a field of forty
/// characters.
pub fn file_label(name: &str) -> (r: String)
    ensures
        r@ == "  "@ + padded_right(name@, 40) + " "@,
{
    let mut r = String::from_str("  ");
    let n = pad_right(name, 40);
    r.append(n.as_str());
    r.append(" ");
    r
}

/// The line that reports a failed file.
pub fn error_line(e: &DecodeError) -> (r: String)
    ensures
        r@ == "err!: "@ + message_chars(*e) + "\n"@,
{
    let mut r = String::from_str("err!: ");
    let m = e.message();
    r.append(m.as_str());
    r.append("\n");
    r
}

/// The line that reports how many files of a directory failed.
pub fn subdir_errors_line(errors: usize) -> (r: String)
    ensures
        r@ == "  "@ + repeat_char(' ', 40) + " "@ + padded_left(decimal_chars(errors as nat), 5)
            + " errors\n"@,
{
    let mut r = String::from_str("  ");
    let blank = pad_right("", 40);
    proof {
        reveal_strlit("");
        assert(padded_right(""@, 40) =~= repeat_char(' ', 40));
    }
    r.append(blank.as_str());
    r.append(" ");
    let d = decimal(errors as u64);
    let p = pad_left(d.as_str(), 5);
    r.append(p.as_str());
    r.append(" errors\n");
    r
}

/// The line that reports how many files failed in all.
pub fn total_errors_line(errors: usize) -> (r: String)
    ensures
        r@ == "  "@ + padded_left(decimal_chars(errors as nat), 5) + " errors\n"@,
{
    let mut r = String::from_str("  ");
    let d = decimal(errors as u64);
    let p = pad_left(d.as_str(), 5);
    r.append(p.as_str());
    r.append(" errors\n");
    r
}

} // verus!
