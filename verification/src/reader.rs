//! The reader of a growing log: it keeps the bytes that were read but do not yet form
//! whole records, and hands out the whole records as text.

use vstd::prelude::*;
use vstd::slice::slice_subrange;
use vstd::utf8::{decode_utf8, encode_utf8, valid_utf8};
use crate::segment::{
    boundary, complete_len, has_marker, is_line_break, last_marker_end, lemma_boundary_bounds,
    lemma_boundary_is, lemma_last_marker_end, lemma_line_breaks_end, lemma_marker_in_back,
    lemma_marker_in_front, lemma_no_marker_inside, lemma_rest_has_no_marker, line_breaks_end,
    marker_at,
};

verus! {

/// The whole records at the front of `buf`.
pub open spec fn chunk_bytes(buf: Seq<u8>) -> Seq<u8> {
    buf.take(boundary(buf))
}

/// What is left of `buf` once its whole records are taken away.
pub open spec fn rest_bytes(buf: Seq<u8>) -> Seq<u8> {
    buf.skip(boundary(buf))
}

/// The bytes that a reader which started empty still holds after it was handed
/// `reads`, one read at a time, and every chunk could be decoded.
pub open spec fn pending_after(reads: Seq<Seq<u8>>) -> Seq<u8>
    decreases reads.len(),
{
    if reads.len() == 0 {
        Seq::empty()
    } else {
        rest_bytes(pending_after(reads.drop_last()) + reads.last())
    }
}

/// The bytes of all the chunks, in the order in which they were handed out, that a
/// reader which started empty gave while it was handed `reads`, one read at a time.
pub open spec fn emitted_after(reads: Seq<Seq<u8>>) -> Seq<u8>
    decreases reads.len(),
{
    if reads.len() == 0 {
        Seq::empty()
    } else {
        emitted_after(reads.drop_last()) + chunk_bytes(
            pending_after(reads.drop_last()) + reads.last(),
        )
    }
}

/// The records taken off the front of a buffer are complete: their own boundary is
/// their end.
pub proof fn lemma_chunk_is_complete(buf: Seq<u8>)
    ensures
        boundary(chunk_bytes(buf)) == chunk_bytes(buf).len(),
        chunk_bytes(buf) + rest_bytes(buf) == buf,
{
    let b = boundary(buf);
    let chunk = chunk_bytes(buf);
    lemma_boundary_bounds(buf);
    assert(chunk + rest_bytes(buf) =~= buf);
    if b == 0 {
        lemma_boundary_bounds(chunk);
    } else {
        let end = last_marker_end(buf, buf.len() as int);
        lemma_last_marker_end(buf, buf.len() as int);
        lemma_line_breaks_end(buf, end);
        lemma_marker_in_front(chunk, rest_bytes(buf), end - 5);
        assert forall|j: int| marker_at(chunk, j) implies j <= end - 5 by {
            lemma_marker_in_front(chunk, rest_bytes(buf), j);
        }
        assert forall|j: int| end <= j < b implies is_line_break(#[trigger] chunk[j]) by {
            assert(chunk[j] == buf[j]);
        }
        lemma_boundary_is(chunk, end - 5, b);
    }
}

/// Complete records followed by complete records are complete records.
pub proof fn lemma_complete_append(a: Seq<u8>, c: Seq<u8>)
    requires
        boundary(a) == a.len(),
        boundary(c) == c.len(),
    ensures
        boundary(a + c) == a.len() + c.len(),
{
    let all = a + c;
    if c.len() == 0 {
        assert(all =~= a);
    } else {
        let p = a.len() as int;
        let end = last_marker_end(c, c.len() as int);
        lemma_boundary_bounds(c);
        lemma_last_marker_end(c, c.len() as int);
        lemma_line_breaks_end(c, end);
        lemma_marker_in_back(a, c, end - 5);
        assert forall|k: int| p + end <= k < all.len() implies is_line_break(
            #[trigger] all[k],
        ) by {
            assert(all[k] == c[k - p]);
        }
        assert forall|j: int| marker_at(all, j) implies j <= p + end - 5 by {
            if j > p + end - 5 {
                lemma_no_marker_inside(all, p + end - 5, all.len() as int, j);
            }
        }
        lemma_boundary_is(all, p + end - 5, all.len() as int);
    }
}

/// Where complete records are followed by bytes without a marker, the last marker of
/// the whole lies in the records, and the boundary of the whole lies at their end or
/// behind it, by the line breaks with which the other bytes begin.
pub proof fn lemma_complete_then_pending(done: Seq<u8>, pending: Seq<u8>)
    requires
        boundary(done) == done.len(),
        !has_marker(pending),
    ensures
        last_marker_end(done + pending, (done + pending).len() as int) <= done.len()
            <= boundary(done + pending),
        done.len() > 0 ==> boundary(done + pending) == line_breaks_end(
            done + pending,
            done.len() as int,
        ),
        done.len() == 0 ==> boundary(done + pending) == 0,
{
    let all = done + pending;
    let p = done.len() as int;
    lemma_boundary_bounds(all);
    lemma_last_marker_end(all, all.len() as int);
    if p == 0 {
        assert(all =~= pending);
    } else {
        let end = last_marker_end(done, p);
        lemma_boundary_bounds(done);
        lemma_last_marker_end(done, p);
        lemma_line_breaks_end(done, end);
        lemma_marker_in_front(done, pending, end - 5);
        assert forall|k: int| end <= k < p implies is_line_break(#[trigger] all[k]) by {
            assert(all[k] == done[k]);
        }
        assert forall|j: int| marker_at(all, j) implies j <= end - 5 by {
            if j > end - 5 {
                if j < p {
                    lemma_no_marker_inside(all, end - 5, p, j);
                } else {
                    lemma_marker_in_back(done, pending, j - p);
                }
            }
        }
        let stop = line_breaks_end(all, p);
        lemma_line_breaks_end(all, p);
        assert forall|k: int| end <= k < stop implies is_line_break(#[trigger] all[k]) by {
            if k < p {
                assert(all[k] == done[k]);
            }
        }
        lemma_boundary_is(all, end - 5, stop);
    }
}

/// Nothing is lost and nothing is handed out twice. After any run of reads, the bytes
/// of the chunks that were handed out, followed by the bytes still pending, are the
/// bytes that were read, in their order. The chunks are complete records, and the
/// pending bytes hold no marker: the chunks reach up to the last terminator that was
/// read, short of at most the line breaks of it that arrived in a later read than its
/// marker.
pub proof fn nothing_lost_nothing_twice(reads: Seq<Seq<u8>>)
    ensures
        emitted_after(reads) + pending_after(reads) == reads.flatten(),
        boundary(emitted_after(reads)) == emitted_after(reads).len(),
        !has_marker(pending_after(reads)),
        last_marker_end(reads.flatten(), reads.flatten().len() as int) <= emitted_after(
            reads,
        ).len() <= boundary(reads.flatten()),
    decreases reads.len(),
{
    let done = emitted_after(reads);
    let pending = pending_after(reads);
    if reads.len() == 0 {
        assert(reads.flatten() =~= Seq::<u8>::empty());
        assert(done + pending =~= Seq::<u8>::empty());
        lemma_boundary_bounds(Seq::<u8>::empty());
    } else {
        let before = reads.drop_last();
        let buf = pending_after(before) + reads.last();
        nothing_lost_nothing_twice(before);
        assert(before.push(reads.last()) =~= reads);
        before.lemma_flatten_push(reads.last());
        lemma_chunk_is_complete(buf);
        assert(done + pending =~= emitted_after(before) + (chunk_bytes(buf) + rest_bytes(buf)));
        assert(done + pending =~= reads.flatten());
        lemma_complete_append(emitted_after(before), chunk_bytes(buf));
        lemma_rest_has_no_marker(buf);
    }
    lemma_complete_then_pending(done, pending);
}

/// Once a chunk was asked for, asking again without new bytes gives none and changes
/// nothing, as often as it is done: what a reader keeps never holds a complete record.
pub proof fn drained_until_new_bytes(buf: Seq<u8>)
    ensures
        boundary(rest_bytes(buf) + Seq::<u8>::empty()) == 0,
        rest_bytes(buf) + Seq::<u8>::empty() == rest_bytes(buf),
        boundary(buf) == 0 ==> rest_bytes(buf) == buf,
{
    lemma_rest_has_no_marker(buf);
    assert(rest_bytes(buf) + Seq::<u8>::empty() =~= rest_bytes(buf));
    if boundary(buf) == 0 {
        assert(rest_bytes(buf) =~= buf);
    }
}

/// The whole records at the front of the buffer are not valid UTF-8.
#[derive(Debug, Clone, Copy, PartialEq, Eq)]
pub struct InvalidText {
    /// Number of bytes in the records that could not be decoded.
    pub len: usize,
}

/// Reader of ADIF records from bytes that arrive piece by piece.
pub struct RecordsReader {
    buffer: Vec<u8>,
}

impl View for RecordsReader {
    type V = Seq<u8>;

    /// The pending bytes: read, and not yet handed out.
    closed spec fn view(&self) -> Seq<u8> {
        self.buffer@
    }
}

/// `std::str::from_utf8`: the bytes are returned as text exactly when they are valid
/// UTF-8, and the text is then what they encode. Nothing else is claimed.
#[verifier::external_body]
fn text_of(bytes: &[u8]) -> (text: Option<&str>)
    ensures
        text is Some <==> valid_utf8(bytes@),
        text matches Some(s) ==> s@ == decode_utf8(bytes@),
{
    match std::str::from_utf8(bytes) {
        Ok(s) => Some(s),
        Err(_) => None,
    }
}

impl RecordsReader {
    /// Number of bytes to ask of the log in one read.
    pub const CHUNK_SIZE: usize = 256 * 1024;

    /// A reader with nothing pending.
    pub fn new() -> (reader: Self)
        ensures
            reader@ == Seq::<u8>::empty(),
    {
        RecordsReader { buffer: Vec::new() }
    }

    /// The pending bytes.
    pub fn pending(&self) -> (bytes: &[u8])
        ensures
            bytes@ == self@,
    {
        self.buffer.as_slice()
    }

    /// Length of the longest run of complete records at the front of the pending bytes.
    pub fn complete(&self) -> (n: usize)
        ensures
            n == boundary(self@),
    {
        complete_len(self.buffer.as_slice())
    }

    /// Appends bytes that were just read from the log.
    pub fn fill(&mut self, fresh: &[u8])
        ensures
            final(self)@ == old(self)@ + fresh@,
    {
        self.buffer.extend_from_slice(fresh);
        assert(self.buffer@ =~= old(self).buffer@ + fresh@);
    }

    /// Takes the complete records off the front of the pending bytes and returns them
    /// as text. `None` says that no record is complete yet. Where the records are not
    /// valid UTF-8 nothing is taken.
    pub fn take_chunk(&mut self) -> (chunk: Result<Option<String>, InvalidText>)
        ensures
            match chunk {
                Ok(None) => boundary(old(self)@) == 0 && final(self)@ == old(self)@,
                Ok(Some(text)) => {
                    &&& boundary(old(self)@) > 0
                    &&& valid_utf8(chunk_bytes(old(self)@))
                    &&& text@ == decode_utf8(chunk_bytes(old(self)@))
                    &&& encode_utf8(text@) == chunk_bytes(old(self)@)
                    &&& final(self)@ == rest_bytes(old(self)@)
                },
                Err(e) => {
                    &&& boundary(old(self)@) > 0
                    &&& !valid_utf8(chunk_bytes(old(self)@))
                    &&& e.len == boundary(old(self)@)
                    &&& final(self)@ == old(self)@
                },
            },
    {
        broadcast use vstd::utf8::decode_utf8_encode_utf8;

        proof {
            lemma_boundary_bounds(self@);
        }
        let n: usize = complete_len(self.buffer.as_slice());
        if n == 0 {
            return Ok(None);
        }
        let decoded: Option<String> = match text_of(slice_subrange(self.buffer.as_slice(), 0, n)) {
            Some(s) => Some(s.to_owned()),
            None => None,
        };
        match decoded {
            Some(text) => {
                let rest: Vec<u8> = self.buffer.split_off(n);
                self.buffer = rest;
                Ok(Some(text))
            },
            None => Err(InvalidText { len: n }),
        }
    }

    /// Reads a chunk of complete records: appends `fresh`, the bytes that one read of
    /// the log gave, and takes the complete records off the front. `None` says that
    /// the log holds no further complete record for now.
    pub fn next(&mut self, fresh: &[u8]) -> (chunk: Result<Option<String>, InvalidText>)
        ensures
            match chunk {
                Ok(None) => {
                    &&& boundary(old(self)@ + fresh@) == 0
                    &&& final(self)@ == old(self)@ + fresh@
                },
                Ok(Some(text)) => {
                    &&& boundary(old(self)@ + fresh@) > 0
                    &&& valid_utf8(chunk_bytes(old(self)@ + fresh@))
                    &&& text@ == decode_utf8(chunk_bytes(old(self)@ + fresh@))
                    &&& encode_utf8(text@) == chunk_bytes(old(self)@ + fresh@)
                    &&& final(self)@ == rest_bytes(old(self)@ + fresh@)
                },
                Err(e) => {
                    &&& boundary(old(self)@ + fresh@) > 0
                    &&& !valid_utf8(chunk_bytes(old(self)@ + fresh@))
                    &&& e.len == boundary(old(self)@ + fresh@)
                    &&& final(self)@ == old(self)@ + fresh@
                },
            },
    {
        self.fill(fresh);
        self.take_chunk()
    }
}

} // verus!
