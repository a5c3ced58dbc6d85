//! Line framing and in-band SRQ extraction.
//!
//! The raw byte stream mixes `\r`-terminated ASCII lines with pairs of
//! attention bytes that have the high bit set: a device raises an SRQ
//! by sending `0x80 | addr` twice in a row. The filter below consumes
//! high-bit bytes through a one-byte pending slot, emits the address on
//! the second matching byte, and passes everything else through
//! unchanged, so that no attention byte ever reaches a command
//! response.

use vstd::prelude::*;
use crate::types::{Addr, Error, LINE_TERM};

verus! {

/// Whether a byte is an in-band attention byte, and for which address.
pub fn byte_is_intr(b: u8) -> (r: Option<Addr>)
    ensures
        r == (if b >= 0x80 {
            Some((b - 0x80) as Addr)
        } else {
            None::<Addr>
        }),
{
    if b >= 0x80 {
        Some(b - 0x80)
    } else {
        None
    }
}

/// The pending slot after the filter consumes one byte.
pub open spec fn step_pending(pending: Option<u8>, b: u8) -> Option<u8> {
    if b >= 0x80 {
        match pending {
            None => Some((b - 0x80) as u8),
            Some(_) => None,
        }
    } else {
        None
    }
}

/// The bytes the filter passes through when it consumes one byte.
pub open spec fn step_passed(b: u8) -> Seq<u8> {
    if b >= 0x80 {
        Seq::empty()
    } else {
        seq![b]
    }
}

/// The SRQ addresses the filter emits when it consumes one byte: the
/// second of two matching attention bytes completes a pair. A
/// mismatched pair or a singleton followed by a plain byte is dropped.
pub open spec fn step_intrs(pending: Option<u8>, b: u8) -> Seq<u8> {
    if b >= 0x80 && pending == Some((b - 0x80) as u8) {
        seq![(b - 0x80) as u8]
    } else {
        Seq::empty()
    }
}

/// The pending slot after the filter consumes a whole byte string.
pub open spec fn filter_pending(pending: Option<u8>, input: Seq<u8>) -> Option<u8>
    decreases input.len(),
{
    if input.len() == 0 {
        pending
    } else {
        filter_pending(step_pending(pending, input[0]), input.drop_first())
    }
}

/// The bytes passed through after consuming a whole byte string.
pub open spec fn filter_passed(pending: Option<u8>, input: Seq<u8>) -> Seq<u8>
    decreases input.len(),
{
    if input.len() == 0 {
        Seq::empty()
    } else {
        step_passed(input[0]) + filter_passed(step_pending(pending, input[0]), input.drop_first())
    }
}

/// The SRQ addresses emitted after consuming a whole byte string.
pub open spec fn filter_intrs(pending: Option<u8>, input: Seq<u8>) -> Seq<u8>
    decreases input.len(),
{
    if input.len() == 0 {
        Seq::empty()
    } else {
        step_intrs(pending, input[0]) + filter_intrs(
            step_pending(pending, input[0]),
            input.drop_first(),
        )
    }
}

/// Consuming one more byte extends the filter's outputs by one step.
pub proof fn lemma_filter_snoc(pending: Option<u8>, s: Seq<u8>, b: u8)
    ensures
        filter_pending(pending, s.push(b)) == step_pending(filter_pending(pending, s), b),
        filter_passed(pending, s.push(b)) == filter_passed(pending, s) + step_passed(b),
        filter_intrs(pending, s.push(b)) == filter_intrs(pending, s) + step_intrs(
            filter_pending(pending, s),
            b,
        ),
    decreases s.len(),
{
    if s.len() == 0 {
        let p1 = step_pending(pending, b);
        assert(s.push(b)[0] == b);
        assert(s.push(b).drop_first() =~= Seq::<u8>::empty());
        assert(filter_pending(p1, Seq::<u8>::empty()) == p1);
        assert(filter_passed(p1, Seq::<u8>::empty()) == Seq::<u8>::empty());
        assert(filter_intrs(p1, Seq::<u8>::empty()) == Seq::<u8>::empty());
        assert(filter_passed(pending, s.push(b)) =~= filter_passed(pending, s) + step_passed(b));
        assert(filter_intrs(pending, s.push(b)) =~= filter_intrs(pending, s) + step_intrs(
            filter_pending(pending, s),
            b,
        ));
    } else {
        let p1 = step_pending(pending, s[0]);
        assert(s.push(b)[0] == s[0]);
        assert(s.push(b).drop_first() =~= s.drop_first().push(b));
        lemma_filter_snoc(p1, s.drop_first(), b);
        assert(filter_passed(pending, s.push(b)) =~= filter_passed(pending, s) + step_passed(b));
        assert(filter_intrs(pending, s.push(b)) =~= filter_intrs(pending, s) + step_intrs(
            filter_pending(pending, s),
            b,
        ));
    }
}

/// The one-byte-pending SRQ filter that sits between the raw byte
/// stream and line framing.
pub struct SrqFilter {
    pending: Option<u8>,
}

impl SrqFilter {
    /// The pending slot: the address of a first attention byte whose
    /// pair has not arrived yet.
    pub closed spec fn pending(&self) -> Option<u8> {
        self.pending
    }

    pub fn new() -> (r: Self)
        ensures
            r.pending() == None::<u8>,
    {
        SrqFilter { pending: None }
    }

    /// Consume one chunk of raw input. Returns the bytes to hand to
    /// line framing and the addresses of completed SRQ pairs, in order.
    pub fn feed(&mut self, input: &[u8]) -> (r: (Vec<u8>, Vec<u8>))
        ensures
            final(self).pending() == filter_pending(old(self).pending(), input@),
            r.0@ == filter_passed(old(self).pending(), input@),
            r.1@ == filter_intrs(old(self).pending(), input@),
    {
        let ghost p0 = self.pending;
        let mut passed: Vec<u8> = Vec::new();
        let mut intrs: Vec<u8> = Vec::new();
        let mut i: usize = 0;
        while i < input.len()
            invariant
                0 <= i <= input@.len(),
                self.pending == filter_pending(p0, input@.take(i as int)),
                passed@ == filter_passed(p0, input@.take(i as int)),
                intrs@ == filter_intrs(p0, input@.take(i as int)),
            decreases input@.len() - i,
        {
            let b = input[i];
            proof {
                lemma_filter_snoc(p0, input@.take(i as int), b);
                assert(input@.take(i as int).push(b) =~= input@.take(i as int + 1));
            }
            if b >= 0x80 {
                let a = b - 0x80;
                match self.pending {
                    None => {
                        self.pending = Some(a);
                    },
                    Some(p) => {
                        if p == a {
                            intrs.push(a);
                        }
                        // A mismatched pair is dropped as a line error.
                        self.pending = None;
                    },
                }
            } else {
                // A pending singleton followed by a plain byte is
                // dropped as a line error; the plain byte passes.
                self.pending = None;
                passed.push(b);
            }
            i = i + 1;
        }
        proof {
            assert(input@.take(input@.len() as int) =~= input@);
        }
        (passed, intrs)
    }
}

/// Whether a byte string is free of attention bytes.
pub open spec fn clean(s: Seq<u8>) -> bool {
    forall|i: int| 0 <= i < s.len() ==> #[trigger] s[i] < 0x80
}

/// Whatever comes in, the filter passes no attention byte through: a
/// command response can never contain an SRQ byte.
pub proof fn lemma_filter_output_clean(pending: Option<u8>, input: Seq<u8>)
    ensures
        clean(filter_passed(pending, input)),
    decreases input.len(),
{
    if input.len() > 0 {
        lemma_filter_output_clean(step_pending(pending, input[0]), input.drop_first());
    }
}

/// Attention-free input passes through unchanged and emits no SRQ.
pub proof fn lemma_filter_clean_input(pending: Option<u8>, input: Seq<u8>)
    requires
        clean(input),
    ensures
        filter_passed(pending, input) == input,
        filter_intrs(pending, input) == Seq::<u8>::empty(),
    decreases input.len(),
{
    if input.len() == 0 {
        assert(filter_passed(pending, input) =~= input);
    } else {
        assert(clean(input.drop_first())) by {
            assert(forall|i: int|
                0 <= i < input.drop_first().len()
                    ==> input.drop_first()[i] == #[trigger] input[i + 1]);
        }
        lemma_filter_clean_input(step_pending(pending, input[0]), input.drop_first());
        assert(filter_passed(pending, input) =~= input);
        assert(filter_intrs(pending, input) =~= Seq::<u8>::empty());
    }
}

/// A matching SRQ byte pair embedded in otherwise attention-free input
/// is delivered exactly once for its address, and leaves no trace in
/// the passed-through bytes.
pub proof fn lemma_srq_pair_delivered(a: u8, xs: Seq<u8>, ys: Seq<u8>)
    requires
        a < 0x80,
        clean(xs),
        clean(ys),
    ensures
        filter_intrs(None, xs + seq![(0x80 + a) as u8, (0x80 + a) as u8] + ys) == seq![a],
        filter_passed(None, xs + seq![(0x80 + a) as u8, (0x80 + a) as u8] + ys) == xs + ys,
    decreases xs.len(),
{
    let pair = seq![(0x80 + a) as u8, (0x80 + a) as u8];
    let input = xs + pair + ys;
    if xs.len() == 0 {
        let ib = (0x80 + a) as u8;
        assert(input[0] == ib);
        let rest1 = input.drop_first();
        assert(rest1[0] == ib);
        let rest2 = rest1.drop_first();
        assert(rest2 =~= ys);
        assert(step_pending(None, ib) == Some(a));
        assert(step_pending(Some(a), ib) == None::<u8>);
        assert(step_intrs(None, ib) =~= Seq::<u8>::empty());
        assert(step_intrs(Some(a), ib) =~= seq![a]);
        assert(step_passed(ib) =~= Seq::<u8>::empty());
        lemma_filter_clean_input(None, ys);
        assert(filter_intrs(None, input) == step_intrs(None, ib) + filter_intrs(Some(a), rest1));
        assert(filter_intrs(Some(a), rest1) == step_intrs(Some(a), ib) + filter_intrs(None, rest2));
        assert(filter_intrs(None, input) =~= seq![a]);
        assert(filter_passed(None, input) == step_passed(ib) + filter_passed(Some(a), rest1));
        assert(filter_passed(Some(a), rest1) == step_passed(ib) + filter_passed(None, rest2));
        assert(filter_passed(None, input) =~= xs + ys);
    } else {
        let x = xs[0];
        assert(input[0] == x);
        assert(x < 0x80);
        assert(step_pending(None, x) == None::<u8>);
        assert(input.drop_first() =~= xs.drop_first() + pair + ys);
        assert(clean(xs.drop_first())) by {
            assert(forall|i: int|
                0 <= i < xs.drop_first().len() ==> xs.drop_first()[i] == #[trigger] xs[i + 1]);
        }
        lemma_srq_pair_delivered(a, xs.drop_first(), ys);
        assert(filter_intrs(None, input) =~= seq![a]);
        assert(filter_passed(None, input) =~= xs + ys);
    }
}

/// Append the line terminator to a command, producing the bytes that
/// go on the wire. Empty commands are not valid lines.
pub fn frame_command(cmd: &[u8]) -> (r: Vec<u8>)
    requires
        cmd@.len() > 0,
        cmd@.len() < usize::MAX,
    ensures
        r@ == cmd@ + seq![LINE_TERM],
{
    let mut out: Vec<u8> = Vec::new();
    out.extend_from_slice(cmd);
    out.push(LINE_TERM);
    out
}

/// Strip the terminator from one received line. A buffer that does not
/// end in the terminator means the stream closed mid-line, which is an
/// I/O failure.
pub fn strip_line_term(buf: Vec<u8>) -> (r: Result<Vec<u8>, Error>)
    ensures
        (match r {
            Ok(line) => buf@.len() > 0 && buf@.last() == LINE_TERM && line@ == buf@.drop_last(),
            Err(e) => (buf@.len() == 0 || buf@.last() != LINE_TERM) && e matches Error::Io,
        }),
{
    let mut buf = buf;
    match buf.pop() {
        Some(b) => {
            if b == LINE_TERM {
                Ok(buf)
            } else {
                Err(Error::Io)
            }
        },
        None => Err(Error::Io),
    }
}

/// Strip the terminator from one received reply and decode it as text.
/// The wire protocol's lines are ASCII — the subset of UTF-8 the
/// devices speak — and every high-bit byte belongs to the SRQ filter,
/// never to a line: one that still reaches framing is not decodable
/// text and is a decode failure, as distinct from the stream closing
/// mid-line, which is an I/O failure.
pub fn decode_line(buf: Vec<u8>) -> (r: Result<Vec<u8>, Error>)
    ensures
        (match r {
            Ok(line) => {
                &&& buf@.len() > 0
                &&& buf@.last() == LINE_TERM
                &&& line@ == buf@.drop_last()
                &&& clean(line@)
            },
            Err(e) => (match e {
                Error::Io => buf@.len() == 0 || buf@.last() != LINE_TERM,
                Error::Decode => buf@.len() > 0 && buf@.last() == LINE_TERM && !clean(
                    buf@.drop_last(),
                ),
                _ => false,
            }),
        }),
{
    let ghost buf0 = buf@;
    let line = match strip_line_term(buf) {
        Ok(line) => line,
        Err(e) => {
            return Err(e);
        },
    };
    let mut i: usize = 0;
    while i < line.len()
        invariant
            0 <= i <= line@.len(),
            buf0 == buf@,
            buf0.len() > 0 && buf0.last() == LINE_TERM && line@ == buf0.drop_last(),
            forall|j: int| 0 <= j < i ==> #[trigger] line@[j] < 0x80,
        decreases line@.len() - i,
    {
        if line[i] >= 0x80 {
            assert(!clean(line@));
            return Err(Error::Decode);
        }
        i = i + 1;
    }
    Ok(line)
}

} // verus!
