//! Decompression of a whole buffer fed to the decoder in chunks of a fixed
//! size. The decoder itself is run by the caller: this module says which chunk
//! to feed next and what each answer of the decoder leads to.

use vstd::prelude::*;
use crate::error::DecodeError;
use crate::naming::Format;

verus! {

/// What the decoder answered to one chunk of input.
#[derive(Debug)]
pub enum Answer {
    /// It used the whole chunk and wants more input.
    Consumed,
    /// It reached the end of the compressed stream, leaving `rest` bytes of the
    /// chunk unused.
    Finished { rest: usize },
    /// It failed with the given error, leaving `rest` bytes of the chunk
    /// unused.
    Failed { error: String, rest: usize },
}

/// The state of a run that still feeds the decoder: the input's length, the
/// chunk size, where the next chunk starts, and the output gathered so far.
pub struct FeederView {
    pub len: nat,
    pub chunk_size: nat,
    pub pos: nat,
    pub output: Seq<u8>,
}

/// Where the chunk that starts at `pos` ends: `chunk_size` bytes further, or at
/// the end of the input, whichever comes first.
pub open spec fn chunk_end(len: nat, chunk_size: nat, pos: nat) -> nat {
    if pos + chunk_size < len {
        pos + chunk_size
    } else {
        len
    }
}

/// What a step of a run leads to: another chunk to feed, the decoded output,
/// or an error.
pub enum Next {
    Feed(FeederView),
    Output(Seq<u8>),
    Fail(DecodeError),
}

/// How a run starts: empty input gives empty output at once, other input is
/// fed from its first byte on.
pub open spec fn first_step(len: nat, chunk_size: nat) -> Next {
    if len == 0 {
        Next::Output(Seq::empty())
    } else {
        Next::Feed(FeederView { len, chunk_size, pos: 0, output: Seq::empty() })
    }
}

/// What the decoder's answer to the current chunk, and the bytes it produced
/// for it, lead to. The produced bytes are added to the output first. A
/// consumed chunk moves on to the next chunk, or ends the run with the output
/// when none is left. A finish that leaves bytes of the chunk unused is an
/// error; a clean finish gives the output when no chunk is left, and is an
/// error when chunks are still to come. A failure of the decoder is an error.
pub open spec fn next_step(v: FeederView, produced: Seq<u8>, answer: Answer) -> Next {
    let out = v.output + produced;
    let end = chunk_end(v.len, v.chunk_size, v.pos);
    match answer {
        Answer::Consumed => if end < v.len {
            Next::Feed(FeederView { pos: end, output: out, ..v })
        } else {
            Next::Output(out)
        },
        Answer::Finished { rest } => if rest > 0 {
            Next::Fail(DecodeError::FinishedEarly { left: rest, produced: Some(out.len() as usize) })
        } else if end < v.len {
            Next::Fail(DecodeError::Unfinished { produced: Some(out.len() as usize) })
        } else {
            Next::Output(out)
        },
        Answer::Failed { error, .. } => Next::Fail(
            DecodeError::Failed { error, produced: Some(out.len() as usize) },
        ),
    }
}

/// A run that still feeds the decoder.
pub struct Feeder {
    len: usize,
    chunk_size: usize,
    pos: usize,
    output: Vec<u8>,
}

impl View for Feeder {
    type V = FeederView;

    closed spec fn view(&self) -> FeederView {
        FeederView {
            len: self.len as nat,
            chunk_size: self.chunk_size as nat,
            pos: self.pos as nat,
            output: self.output@,
        }
    }
}

impl Feeder {
    #[verifier::type_invariant]
    spec fn well_formed(self) -> bool {
        &&& self.chunk_size > 0
        &&& self.pos < self.len
    }

    /// Where the next chunk starts and ends in the input.
    pub fn chunk_bounds(&self) -> (r: (usize, usize))
        ensures
            r.0 == self@.pos,
            r.1 == chunk_end(self@.len, self@.chunk_size, self@.pos),
            r.0 < r.1,
    {
        proof {
            use_type_invariant(self);
        }
        if self.chunk_size < self.len - self.pos {
            (self.pos, self.pos + self.chunk_size)
        } else {
            (self.pos, self.len)
        }
    }

    /// The next chunk of `data`, the input this run was started on.
    pub fn chunk_of<'a>(&self, data: &'a [u8]) -> (r: &'a [u8])
        requires
            data@.len() == self@.len,
        ensures
            r@ == data@.subrange(
                self@.pos as int,
                chunk_end(self@.len, self@.chunk_size, self@.pos) as int,
            ),
    {
        let (begin, end) = self.chunk_bounds();
        &data[begin..end]
    }

    /// Takes the decoder's answer to the current chunk and the bytes it
    /// produced for it.
    pub fn feed(self, produced: Vec<u8>, answer: Answer) -> (r: ZlibRun)
        ensures
            run_is(r, next_step(self@, produced@, answer)),
            answer matches Answer::Failed { error, .. } ==> (r matches ZlibRun::Done(
                Err(DecodeError::Failed { error: e, produced: n }),
            ) && e == error && n == gathered(self@, produced@)),
            r matches ZlibRun::Done(Ok(o)) ==> (o@ == self@.output + produced@ && on_last_chunk(
                self@,
            ) && (answer is Consumed || clean_finish(answer))),
    {
        proof {
            use_type_invariant(&self);
            lemma_failure_ends_run(self@, produced@, answer);
            lemma_output_only_when_done(self@, produced@, answer);
        }
        let ghost v = self@;
        let (_, end) = self.chunk_bounds();
        let Feeder { len, chunk_size, pos, output } = self;
        let mut out = output;
        let mut produced = produced;
        out.append(&mut produced);
        let count = out.len();
        match answer {
            Answer::Consumed => {
                if end < len {
                    ZlibRun::Feeding(Feeder { len, chunk_size, pos: end, output: out })
                } else {
                    ZlibRun::Done(Ok(out))
                }
            },
            Answer::Finished { rest } => {
                if rest > 0 {
                    ZlibRun::Done(Err(DecodeError::FinishedEarly { left: rest, produced: Some(count) }))
                } else if end < len {
                    ZlibRun::Done(Err(DecodeError::Unfinished { produced: Some(count) }))
                } else {
                    ZlibRun::Done(Ok(out))
                }
            },
            Answer::Failed { error, .. } => {
                ZlibRun::Done(Err(DecodeError::Failed { error, produced: Some(count) }))
            },
        }
    }
}

/// Where a chunked run stands: still feeding the decoder, or done with its
/// result.
pub enum ZlibRun {
    Feeding(Feeder),
    Done(Result<Vec<u8>, DecodeError>),
}

/// Whether `r` is the step `n`.
pub open spec fn run_is(r: ZlibRun, n: Next) -> bool {
    match n {
        Next::Feed(v) => r matches ZlibRun::Feeding(f) && f@ == v,
        Next::Output(out) => r matches ZlibRun::Done(Ok(o)) && o@ == out,
        Next::Fail(e) => r matches ZlibRun::Done(Err(e2)) && e2 == e,
    }
}

/// Starts decompressing zlib data fed in chunks of `chunk_size` bytes.
pub fn decompress_zlib(compr_data: &[u8], chunk_size: usize) -> (r: ZlibRun)
    requires
        chunk_size > 0,
    ensures
        run_is(r, first_step(compr_data@.len(), chunk_size as nat)),
{
    let len = compr_data.len();
    if len == 0 {
        ZlibRun::Done(Ok(Vec::new()))
    } else {
        ZlibRun::Feeding(Feeder { len, chunk_size, pos: 0, output: Vec::new() })
    }
}

/// Gzip data is not decoded: this always answers so.
pub fn decompress_gzip(compr_data: &[u8], chunk_size: usize) -> (r: Result<Vec<u8>, DecodeError>)
    ensures
        r matches Err(DecodeError::GzipUnsupported),
{
    Err(DecodeError::GzipUnsupported)
}

/// Starts decompressing data of the given format fed in chunks of
/// `chunk_size` bytes; gzip data is refused at once.
pub fn decompress(format: Format, compr_data: &[u8], chunk_size: usize) -> (r: ZlibRun)
    requires
        format == Format::ZlibFormat ==> chunk_size > 0,
    ensures
        format == Format::ZlibFormat ==> run_is(r, first_step(compr_data@.len(), chunk_size as nat)),
        format == Format::GzipFormat ==> r matches ZlibRun::Done(Err(DecodeError::GzipUnsupported)),
{
    match format {
        Format::ZlibFormat => decompress_zlib(compr_data, chunk_size),
        Format::GzipFormat => ZlibRun::Done(decompress_gzip(compr_data, chunk_size)),
    }
}


/// The count of bytes a run has gathered once `produced` is added.
pub open spec fn gathered(v: FeederView, produced: Seq<u8>) -> Option<usize> {
    Some((v.output + produced).len() as usize)
}

/// Whether the decoder finished on the chunk and used all of it.
pub open spec fn clean_finish(answer: Answer) -> bool {
    answer matches Answer::Finished { rest: 0 }
}

/// Whether the chunk that a run feeds now is the last one.
pub open spec fn on_last_chunk(v: FeederView) -> bool {
    chunk_end(v.len, v.chunk_size, v.pos) >= v.len
}

/// A failure of the decoder always ends the run with that failure, carrying
/// the count of all bytes produced so far, on whichever chunk it comes (the
/// last one included): it never gives the output.
pub proof fn lemma_failure_ends_run(v: FeederView, produced: Seq<u8>, answer: Answer)
    ensures
        answer matches Answer::Failed { error, .. } ==> (next_step(v, produced, answer)
            matches Next::Fail(DecodeError::Failed { error: e, produced: n }) && e == error
            && n == gathered(v, produced)),
        answer is Failed ==> !(next_step(v, produced, answer) is Output),
        answer is Failed ==> !(next_step(v, produced, answer) is Feed),
{
}

/// A run gives its output only when the chunk just fed was the last one and
/// the decoder either used it whole or finished cleanly on it; the output is
/// then everything gathered before, followed by what the decoder produced for
/// that chunk. A finish that leaves bytes unused is always an error naming how
/// many; a clean finish before the last chunk is always an unfinished run.
pub proof fn lemma_output_only_when_done(v: FeederView, produced: Seq<u8>, answer: Answer)
    ensures
        next_step(v, produced, answer) matches Next::Output(o) ==> (o == v.output + produced
            && on_last_chunk(v) && (answer is Consumed || clean_finish(answer))),
        answer matches Answer::Finished { rest } ==> (rest > 0 ==> (next_step(v, produced, answer)
            matches Next::Fail(DecodeError::FinishedEarly { left: l, produced: n }) && l == rest
            && n == gathered(v, produced))),
        clean_finish(answer) && !on_last_chunk(v) ==> (next_step(v, produced, answer)
            matches Next::Fail(DecodeError::Unfinished { produced: n }) && n == gathered(
            v,
            produced,
        )),
        answer is Consumed && !on_last_chunk(v) ==> next_step(v, produced, answer) == Next::Feed(
            (FeederView {
                pos: chunk_end(v.len, v.chunk_size, v.pos),
                output: v.output + produced,
                ..v
            }),
        ),
        (answer is Consumed || clean_finish(answer)) && on_last_chunk(v) ==> next_step(
            v,
            produced,
            answer,
        ) == Next::Output(v.output + produced),
{
}

/// Every step moves forward: a run that goes on next feeds a chunk that starts
/// further into the same input, before its end, with the output grown by what
/// the decoder produced; so a run feeds at most as many chunks as the input
/// has bytes.
pub proof fn lemma_step_progress(v: FeederView, produced: Seq<u8>, answer: Answer)
    requires
        v.chunk_size > 0,
        v.pos < v.len,
    ensures
        next_step(v, produced, answer) matches Next::Feed(w) ==> {
            &&& v.pos < w.pos < w.len
            &&& w.len == v.len
            &&& w.chunk_size == v.chunk_size
            &&& w.output == v.output + produced
        },
{
}

/// The concatenation of `pieces`, in order.
pub open spec fn flatten(pieces: Seq<Seq<u8>>) -> Seq<u8>
    decreases pieces.len(),
{
    if pieces.len() == 0 {
        Seq::empty()
    } else {
        pieces[0] + flatten(pieces.drop_first())
    }
}

/// Where a run that stands at `n` goes when the decoder gives `answers`, one
/// for each chunk fed (with the bytes it produced for it), as long as the run
/// still feeds.
pub open spec fn run_answers(n: Next, answers: Seq<(Seq<u8>, Answer)>) -> Next
    decreases answers.len(),
{
    if answers.len() == 0 {
        n
    } else {
        match n {
            Next::Feed(v) => run_answers(
                next_step(v, answers[0].0, answers[0].1),
                answers.drop_first(),
            ),
            _ => n,
        }
    }
}

/// The number of chunks of `chunk_size` bytes (the last one possibly
/// shorter) that an input of `len` bytes is cut into.
pub open spec fn chunk_count(len: nat, chunk_size: nat) -> nat {
    if len == 0 {
        0
    } else {
        ((len - 1) as nat / chunk_size + 1) as nat
    }
}

/// The answers of a decoder that consumes every chunk, producing `pieces`.
pub open spec fn all_consumed(pieces: Seq<Seq<u8>>) -> Seq<(Seq<u8>, Answer)> {
    Seq::new(pieces.len(), |i: int| (pieces[i], Answer::Consumed))
}

/// The `k`-th chunk starts at `k * chunk_size`; each chunk but the last ends
/// where the next starts, and the last ends at the end of the input.
pub proof fn lemma_chunk_positions(len: nat, chunk_size: nat, k: nat)
    requires
        chunk_size > 0,
        k < chunk_count(len, chunk_size),
    ensures
        k * chunk_size < len,
        k + 1 < chunk_count(len, chunk_size) ==> (k + 1) * chunk_size < len,
        k + 1 < chunk_count(len, chunk_size) ==> chunk_end(len, chunk_size, k * chunk_size) == (k
            + 1) * chunk_size,
        k + 1 == chunk_count(len, chunk_size) ==> chunk_end(len, chunk_size, k * chunk_size)
            == len,
{
    let x = (len - 1) as nat;
    let q = x / chunk_size;
    let r = x % chunk_size;
    vstd::arithmetic::div_mod::lemma_fundamental_div_mod(x as int, chunk_size as int);
    vstd::arithmetic::div_mod::lemma_mod_bound(x as int, chunk_size as int);
    assert(k <= q);
    assert(k * chunk_size <= q * chunk_size) by (nonlinear_arith)
        requires
            k <= q,
            chunk_size > 0,
    ;
    assert((k + 1) * chunk_size == k * chunk_size + chunk_size) by (nonlinear_arith);
    assert(q * chunk_size == chunk_size * q) by (nonlinear_arith);
    if k + 1 < chunk_count(len, chunk_size) {
        assert((k + 1) * chunk_size <= q * chunk_size) by (nonlinear_arith)
            requires
                k + 1 <= q,
                chunk_size > 0,
        ;
    }
}

proof fn lemma_consumed_from(v: FeederView, k: nat, pieces: Seq<Seq<u8>>)
    requires
        v.chunk_size > 0,
        v.pos == k * v.chunk_size,
        k < chunk_count(v.len, v.chunk_size),
        k + pieces.len() <= chunk_count(v.len, v.chunk_size),
    ensures
        k + pieces.len() < chunk_count(v.len, v.chunk_size) ==> run_answers(
            Next::Feed(v),
            all_consumed(pieces),
        ) == Next::Feed(
            FeederView {
                pos: (k + pieces.len()) * v.chunk_size,
                output: v.output + flatten(pieces),
                ..v
            },
        ),
        k + pieces.len() == chunk_count(v.len, v.chunk_size) ==> run_answers(
            Next::Feed(v),
            all_consumed(pieces),
        ) == Next::Output(v.output + flatten(pieces)),
    decreases pieces.len(),
{
    let count = chunk_count(v.len, v.chunk_size);
    if pieces.len() == 0 {
        assert(v.output + flatten(pieces) =~= v.output);
        assert(all_consumed(pieces) =~= Seq::empty());
    } else {
        lemma_chunk_positions(v.len, v.chunk_size, k);
        let answers = all_consumed(pieces);
        let rest = pieces.drop_first();
        assert(answers.drop_first() =~= all_consumed(rest));
        assert(answers[0] == (pieces[0], Answer::Consumed));
        let out = v.output + pieces[0];
        assert(v.output + flatten(pieces) =~= out + flatten(rest));
        if k + 1 < count {
            let v2 = FeederView { pos: (k + 1) * v.chunk_size, output: out, ..v };
            assert(next_step(v, pieces[0], Answer::Consumed) == Next::Feed(v2));
            lemma_consumed_from(v2, k + 1, rest);
        } else {
            assert(rest.len() == 0);
            assert(out + flatten(rest) =~= out);
            assert(next_step(v, pieces[0], Answer::Consumed) == Next::Output(out));
            assert(run_answers(Next::Output(out), answers.drop_first()) == Next::Output(out));
        }
    }
}

/// When the decoder consumes every chunk, producing `pieces`, the run feeds
/// the chunks one after another, the `k`-th starting at `k * chunk_size`; it
/// feeds exactly `chunk_count(len, chunk_size)` chunks, and then gives as its
/// output everything the decoder produced, in order.
pub proof fn lemma_consumed_run(len: nat, chunk_size: nat, pieces: Seq<Seq<u8>>)
    requires
        chunk_size > 0,
        pieces.len() <= chunk_count(len, chunk_size),
    ensures
        pieces.len() < chunk_count(len, chunk_size) ==> run_answers(
            first_step(len, chunk_size),
            all_consumed(pieces),
        ) == Next::Feed(
            FeederView { len, chunk_size, pos: pieces.len() * chunk_size, output: flatten(pieces) },
        ),
        pieces.len() == chunk_count(len, chunk_size) ==> run_answers(
            first_step(len, chunk_size),
            all_consumed(pieces),
        ) == Next::Output(flatten(pieces)),
{
    if len == 0 {
        assert(pieces.len() == 0);
        assert(flatten(pieces) =~= Seq::<u8>::empty());
        assert(all_consumed(pieces) =~= Seq::empty());
    } else {
        let v = FeederView { len, chunk_size, pos: 0, output: Seq::empty() };
        assert(0 * chunk_size == 0);
        lemma_consumed_from(v, 0, pieces);
        assert(Seq::<u8>::empty() + flatten(pieces) =~= flatten(pieces));
    }
}

} // verus!
