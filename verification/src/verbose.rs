//! The verbose decoding of one file: the input is fed in chunks, and for each
//! chunk the bytes the decoder produced are dumped, twenty to a row, in
//! hexadecimal and escaped, followed by what the decoder answered. The decoder
//! is run, and the text written, by the caller.

use vstd::prelude::*;
use crate::chunked::{Answer, chunk_end};
use crate::text::{
    decimal,
    decimal_chars,
    escape_byte,
    escaped_byte_chars,
    hex_byte,
    hex_byte_chars,
    pad_left,
    padded_left,
};

verus! {

/// How many bytes a row of the dump holds.
pub const ROW_LEN: usize = 20;

/// Whether every byte is ASCII, as the dump's escaped column needs.
pub open spec fn all_ascii(bytes: Seq<u8>) -> bool {
    forall|i: int| 0 <= i < bytes.len() ==> #[trigger] bytes[i] < 128
}

/// The hexadecimal column of a row: each byte in two digits and a space.
pub open spec fn hex_column(row: Seq<u8>) -> Seq<char>
    decreases row.len(),
{
    if row.len() == 0 {
        Seq::empty()
    } else {
        hex_column(row.drop_last()) + hex_byte_chars(row.last()) + " "@
    }
}

/// The escaped column of a row: each byte escaped as a character.
pub open spec fn escape_column(row: Seq<u8>) -> Seq<char>
    decreases row.len(),
{
    if row.len() == 0 {
        Seq::empty()
    } else {
        escape_column(row.drop_last()) + escaped_byte_chars(row.last())
    }
}

/// One row of the dump.
pub open spec fn row_chars(row: Seq<u8>) -> Seq<char> {
    "    "@ + hex_column(row) + "  \""@ + escape_column(row) + "\"\n"@
}

/// The dump of `bytes`: a row for each twenty bytes, the last row holding
/// what is left; nothing for no bytes.
pub open spec fn dump_chars(bytes: Seq<u8>) -> Seq<char>
    decreases bytes.len(),
{
    if bytes.len() == 0 {
        Seq::empty()
    } else if bytes.len() <= ROW_LEN {
        row_chars(bytes)
    } else {
        row_chars(bytes.take(ROW_LEN as int)) + dump_chars(bytes.skip(ROW_LEN as int))
    }
}

/// A number right-aligned in six columns (`%6u`).
pub open spec fn num6(n: nat) -> Seq<char> {
    padded_left(decimal_chars(n), 6)
}

fn num6_string(n: usize) -> (r: String)
    ensures
        r@ == num6(n as nat),
{
    let d = decimal(n as u64);
    pad_left(d.as_str(), 6)
}

fn row(bytes: &[u8]) -> (r: String)
    requires
        all_ascii(bytes@),
    ensures
        r@ == row_chars(bytes@),
{
    let mut hex = String::new();
    let mut i: usize = 0;
    while i < bytes.len()
        invariant
            i <= bytes@.len(),
            hex@ == hex_column(bytes@.take(i as int)),
        decreases bytes@.len() - i,
    {
        assert(bytes@.take(i + 1).drop_last() =~= bytes@.take(i as int));
        let h = hex_byte(bytes[i]);
        hex.append(h.as_str());
        hex.append(" ");
        i = i + 1;
    }
    let mut esc = String::new();
    let mut k: usize = 0;
    while k < bytes.len()
        invariant
            all_ascii(bytes@),
            k <= bytes@.len(),
            esc@ == escape_column(bytes@.take(k as int)),
        decreases bytes@.len() - k,
    {
        assert(bytes@.take(k + 1).drop_last() =~= bytes@.take(k as int));
        let e = escape_byte(bytes[k]);
        esc.append(e.as_str());
        k = k + 1;
    }
    assert(bytes@.take(bytes@.len() as int) =~= bytes@);
    let mut r = String::from_str("    ");
    r.append(hex.as_str());
    r.append("  \"");
    r.append(esc.as_str());
    r.append("\"\n");
    r
}

/// Dumps `bytes`, twenty to a row.
pub fn dump(bytes: &[u8]) -> (r: String)
    requires
        all_ascii(bytes@),
    ensures
        r@ == dump_chars(bytes@),
{
    let n = bytes.len();
    let mut text = String::new();
    let mut i: usize = 0;
    assert(bytes@.skip(0) =~= bytes@);
    while i < n
        invariant
            n == bytes@.len(),
            all_ascii(bytes@),
            i <= n,
            text@ + dump_chars(bytes@.skip(i as int)) =~= dump_chars(bytes@),
        decreases n - i,
    {
        let j = if n - i > ROW_LEN { i + ROW_LEN } else { n };
        let ghost rest = bytes@.skip(i as int);
        assert(all_ascii(bytes@.subrange(i as int, j as int))) by {
            assert forall|m: int| 0 <= m < j - i implies #[trigger] bytes@.subrange(i as int, j as int)[m] < 128 by {
                assert(bytes@.subrange(i as int, j as int)[m] == bytes@[i + m]);
            }
        }
        let r = row(&bytes[i..j]);
        if n - i > ROW_LEN {
            assert(rest.take(ROW_LEN as int) =~= bytes@.subrange(i as int, j as int));
            assert(rest.skip(ROW_LEN as int) =~= bytes@.skip(j as int));
        } else {
            assert(rest =~= bytes@.subrange(i as int, j as int));
            assert(bytes@.skip(j as int) =~= Seq::<u8>::empty());
        }
        let ghost before = text@;
        text.append(r.as_str());
        assert(text@ + dump_chars(bytes@.skip(j as int)) =~= before + dump_chars(rest));
        i = j;
    }
    assert(bytes@.skip(n as int) =~= Seq::<u8>::empty());
    assert(text@ + Seq::<char>::empty() =~= text@);
    text
}

/// The state of a verbose run: the input's length, the chunk size, where the
/// next chunk starts, and how many bytes the decoder has produced so far.
pub struct DumperView {
    pub len: nat,
    pub chunk_size: nat,
    pub begin: nat,
    pub total: nat,
}

/// What ends a run whose input ran out before the decoder finished.
pub open spec fn unfinished_chars() -> Seq<char> {
    "! the decoder did not finish\n"@
}

/// What the decoder's answer to the current chunk, and the bytes it produced
/// for it, lead to: the text to write (the dump of those bytes, then a line on
/// the answer), and the state of the run if it goes on. A consumed chunk is
/// counted and the run moves to the next chunk, or ends when none is left. A
/// finish or a failure ends the run: a finish on the last chunk is reported as
/// ok, one before it with the count of unused bytes, a failure with its error.
pub open spec fn dump_step(v: DumperView, output: Seq<u8>, answer: Answer) -> (Seq<char>, Option<
    DumperView,
>) {
    let end = chunk_end(v.len, v.chunk_size, v.begin);
    let dumped = dump_chars(output);
    match answer {
        Answer::Consumed => {
            let total = v.total + output.len();
            let line = "  > out "@ + num6(output.len()) + " b, total "@ + num6(total) + " b\n"@;
            if end < v.len {
                (dumped + line, Some(DumperView { begin: end, total, ..v }))
            } else {
                (dumped + line + unfinished_chars(), None)
            }
        },
        Answer::Finished { rest } => {
            let head = " >  "@ + num6(rest as nat) + " bytes left: "@;
            if end == v.len {
                (dumped + head + "ok\n"@, None)
            } else {
                (dumped + head + "! finished with "@ + num6(rest as nat) + " b left\n"@, None)
            }
        },
        Answer::Failed { error, rest } => {
            let head = " >  "@ + num6(rest as nat) + " bytes left: "@;
            (dumped + head + "! err: "@ + error@ + "\n"@, None)
        },
    }
}

/// Whether `prefix` begins `text`.
pub open spec fn begins_with(text: Seq<char>, prefix: Seq<char>) -> bool {
    prefix.len() <= text.len() && text.take(prefix.len() as int) == prefix
}

/// Whatever the decoder answered, the text of a step starts with the dump of
/// every byte it produced for the chunk, before the line on its answer; only a
/// consumed chunk lets the run go on; and the answer lines are: for a finish
/// on the last chunk, the bytes left and `ok`; for a finish before it, the
/// bytes left twice; for a failure, the bytes left and the error.
pub proof fn lemma_dump_comes_first(v: DumperView, output: Seq<u8>, answer: Answer)
    ensures
        begins_with(dump_step(v, output, answer).0, dump_chars(output)),
        dump_step(v, output, answer).1 is Some ==> answer is Consumed,
        answer is Consumed ==> (dump_step(v, output, answer).1 is Some <==> chunk_end(
            v.len,
            v.chunk_size,
            v.begin,
        ) < v.len),
        answer is Consumed ==> (dump_step(v, output, answer).1 matches Some(w) ==> (w.begin
            == chunk_end(v.len, v.chunk_size, v.begin) && w.total == v.total + output.len())),
        answer is Consumed ==> (chunk_end(v.len, v.chunk_size, v.begin) >= v.len ==> dump_step(
            v,
            output,
            answer,
        ).0 == dump_chars(output) + "  > out "@ + num6(output.len()) + " b, total "@ + num6(
            v.total + output.len(),
        ) + " b\n"@ + unfinished_chars()),
        answer matches Answer::Finished { rest } ==> (chunk_end(v.len, v.chunk_size, v.begin)
            == v.len ==> dump_step(v, output, answer).0 == dump_chars(output) + " >  "@ + num6(
            rest as nat,
        ) + " bytes left: "@ + "ok\n"@),
        answer matches Answer::Finished { rest } ==> (chunk_end(v.len, v.chunk_size, v.begin)
            != v.len ==> dump_step(v, output, answer).0 == dump_chars(output) + " >  "@ + num6(
            rest as nat,
        ) + " bytes left: "@ + "! finished with "@ + num6(rest as nat) + " b left\n"@),
        answer matches Answer::Failed { error, rest } ==> dump_step(v, output, answer).0
            == dump_chars(output) + " >  "@ + num6(rest as nat) + " bytes left: "@ + "! err: "@
            + error@ + "\n"@,
{
    let text = dump_step(v, output, answer).0;
    let d = dump_chars(output);
    let tail = text.skip(d.len() as int);
    match answer {
        Answer::Consumed => {
            let total = v.total + output.len();
            let line = "  > out "@ + num6(output.len()) + " b, total "@ + num6(total) + " b\n"@;
            if chunk_end(v.len, v.chunk_size, v.begin) < v.len {
                assert(text == d + line);
                assert((d + line).take(d.len() as int) =~= d);
            } else {
                assert(text =~= d + (line + unfinished_chars()));
                assert((d + (line + unfinished_chars())).take(d.len() as int) =~= d);
            }
        },
        Answer::Finished { rest } => {
            let head = " >  "@ + num6(rest as nat) + " bytes left: "@;
            if chunk_end(v.len, v.chunk_size, v.begin) == v.len {
                assert(text =~= d + (head + "ok\n"@));
                assert((d + (head + "ok\n"@)).take(d.len() as int) =~= d);
            } else {
                let l = head + "! finished with "@ + num6(rest as nat) + " b left\n"@;
                assert(text =~= d + l);
                assert((d + l).take(d.len() as int) =~= d);
            }
        },
        Answer::Failed { error, rest } => {
            let l = " >  "@ + num6(rest as nat) + " bytes left: "@ + "! err: "@ + error@ + "\n"@;
            assert(text =~= d + l);
            assert((d + l).take(d.len() as int) =~= d);
        },
    }
}

/// With chunks of at least one byte, every step moves forward: a run that
/// goes on next feeds a chunk that starts further into the same input, before
/// its end, with the decoder's bytes counted; so it feeds at most as many
/// chunks as the input has bytes. (With chunks of zero bytes a run that keeps
/// getting `Consumed` stays where it is.)
pub proof fn lemma_dump_progress(v: DumperView, output: Seq<u8>, answer: Answer)
    requires
        v.chunk_size > 0,
        v.begin < v.len,
    ensures
        dump_step(v, output, answer).1 matches Some(w) ==> {
            &&& v.begin < w.begin < w.len
            &&& w.len == v.len
            &&& w.chunk_size == v.chunk_size
            &&& w.total == v.total + output.len()
        },
{
}

/// A verbose run that still feeds the decoder.
pub struct Dumper {
    len: usize,
    chunk_size: usize,
    begin: usize,
    total: usize,
}

impl View for Dumper {
    type V = DumperView;

    closed spec fn view(&self) -> DumperView {
        DumperView {
            len: self.len as nat,
            chunk_size: self.chunk_size as nat,
            begin: self.begin as nat,
            total: self.total as nat,
        }
    }
}

impl Dumper {
    #[verifier::type_invariant]
    spec fn well_formed(self) -> bool {
        self.begin < self.len
    }

    /// Where the current chunk starts and ends in the input.
    pub fn chunk_bounds(&self) -> (r: (usize, usize))
        ensures
            r.0 == self@.begin,
            r.1 == chunk_end(self@.len, self@.chunk_size, self@.begin),
            r.0 <= r.1 <= self@.len,
    {
        proof {
            use_type_invariant(self);
        }
        if self.chunk_size < self.len - self.begin {
            (self.begin, self.begin + self.chunk_size)
        } else {
            (self.begin, self.len)
        }
    }

    /// The current chunk of `data`, the input this run was started on.
    pub fn chunk_of<'a>(&self, data: &'a [u8]) -> (r: &'a [u8])
        requires
            data@.len() == self@.len,
        ensures
            r@ == data@.subrange(
                self@.begin as int,
                chunk_end(self@.len, self@.chunk_size, self@.begin) as int,
            ),
    {
        let (begin, end) = self.chunk_bounds();
        &data[begin..end]
    }

    /// The line written before the current chunk is fed: where it starts and
    /// ends.
    pub fn chunk_header(&self) -> (r: String)
        ensures
            r@ == "- "@ + num6(self@.begin) + " ... "@ + num6(
                chunk_end(self@.len, self@.chunk_size, self@.begin),
            ) + "\n"@,
    {
        let (begin, end) = self.chunk_bounds();
        let mut r = String::from_str("- ");
        let b = num6_string(begin);
        r.append(b.as_str());
        r.append(" ... ");
        let e = num6_string(end);
        r.append(e.as_str());
        r.append("\n");
        r
    }

    /// Takes the decoder's answer to the current chunk and the bytes it
    /// produced for it: gives the text to write, and the run if it goes on.
    pub fn feed(self, output: &[u8], answer: Answer) -> (r: (String, Option<Dumper>))
        requires
            all_ascii(output@),
            self@.total + output@.len() <= usize::MAX,
        ensures
            r.0@ == dump_step(self@, output@, answer).0,
            match dump_step(self@, output@, answer).1 {
                Some(v) => r.1 matches Some(d) && d@ == v,
                None => r.1 is None,
            },
            begins_with(r.0@, dump_chars(output@)),
            r.1 is Some ==> answer is Consumed,
    {
        proof {
            lemma_dump_comes_first(self@, output@, answer);
        }
        let (_, end) = self.chunk_bounds();
        let dumped = dump(output);
        let ghost step = dump_step(self@, output@, answer);
        let res = match answer {
            Answer::Consumed => {
                let total = self.total + output.len();
                let line = consumed_line(output.len(), total);
                let mut text = dumped;
                text.append(line.as_str());
                if end < self.len {
                    (text, Some(Dumper { len: self.len, chunk_size: self.chunk_size, begin: end, total }))
                } else {
                    text.append("! the decoder did not finish\n");
                    (text, None)
                }
            },
            Answer::Finished { rest } => {
                let line = finished_line(rest, end == self.len);
                let mut text = dumped;
                text.append(line.as_str());
                (text, None)
            },
            Answer::Failed { error, rest } => {
                let line = failed_line(rest, &error);
                let mut text = dumped;
                text.append(line.as_str());
                (text, None)
            },
        };
        proof {
            assert(res.0@ =~= step.0);
        }
        res
    }
}

fn consumed_line(out: usize, total: usize) -> (r: String)
    ensures
        r@ == "  > out "@ + num6(out as nat) + " b, total "@ + num6(total as nat) + " b\n"@,
{
    let mut r = String::from_str("  > out ");
    let o = num6_string(out);
    r.append(o.as_str());
    r.append(" b, total ");
    let t = num6_string(total);
    r.append(t.as_str());
    r.append(" b\n");
    r
}

fn left_head(rest: usize) -> (r: String)
    ensures
        r@ == " >  "@ + num6(rest as nat) + " bytes left: "@,
{
    let mut r = String::from_str(" >  ");
    let n = num6_string(rest);
    r.append(n.as_str());
    r.append(" bytes left: ");
    r
}

fn finished_line(rest: usize, last: bool) -> (r: String)
    ensures
        last ==> r@ == " >  "@ + num6(rest as nat) + " bytes left: "@ + "ok\n"@,
        !last ==> r@ == " >  "@ + num6(rest as nat) + " bytes left: "@ + "! finished with "@
            + num6(rest as nat) + " b left\n"@,
{
    let mut r = left_head(rest);
    if last {
        r.append("ok\n");
    } else {
        r.append("! finished with ");
        let n = num6_string(rest);
        r.append(n.as_str());
        r.append(" b left\n");
    }
    r
}

fn failed_line(rest: usize, error: &String) -> (r: String)
    ensures
        r@ == " >  "@ + num6(rest as nat) + " bytes left: "@ + "! err: "@ + error@ + "\n"@,
{
    let mut r = left_head(rest);
    r.append("! err: ");
    r.append(error.as_str());
    r.append("\n");
    r
}

/// Starts the verbose decoding of `compr_data` in chunks of `chunk_size`
/// bytes (which may be zero): gives the text to write, and the run if there is
/// input to feed.
pub fn decode(compr_data: &[u8], chunk_size: usize) -> (r: (String, Option<Dumper>))
    ensures
        compr_data@.len() == 0 ==> r.0@ == unfinished_chars() && r.1 is None,
        compr_data@.len() > 0 ==> r.0@ == Seq::<char>::empty() && (r.1 matches Some(d) && d@
            == DumperView { len: compr_data@.len(), chunk_size: chunk_size as nat, begin: 0, total: 0 }),
{
    let len = compr_data.len();
    if len == 0 {
        (String::from_str("! the decoder did not finish\n"), None)
    } else {
        (String::new(), Some(Dumper { len, chunk_size, begin: 0, total: 0 }))
    }
}

/// The line that names the input and the chunk size.
pub fn input_line(file_name: &str, chunk_size: usize) -> (r: String)
    ensures
        r@ == "input "@ + file_name@ + ", chunk size "@ + decimal_chars(chunk_size as nat) + "\n"@,
{
    let mut r = String::from_str("input ");
    r.append(file_name);
    r.append(", chunk size ");
    let d = decimal(chunk_size as u64);
    r.append(d.as_str());
    r.append("\n");
    r
}

/// The line that reports the input read, with its size.
pub fn read_ok_line(len: usize) -> (r: String)
    ensures
        r@ == " ok, "@ + decimal_chars(len as nat) + " b\n"@,
{
    let mut r = String::from_str(" ok, ");
    let d = decimal(len as u64);
    r.append(d.as_str());
    r.append(" b\n");
    r
}

} // verus!
