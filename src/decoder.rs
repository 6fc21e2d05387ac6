//! An accumulating decoder that cuts a byte stream into suffix-delimited frames.
use vstd::prelude::*;
use crate::framing::{
    copy_range, encode_all, find_suffix, first_occurrence, frameable, frames, lemma_frames_concat,
    lemma_frames_step, lemma_framing_round_trip, remainder, views,
};

verus! {

/// Bytes received so far that do not yet form complete frames, and the delimiter.
pub struct FrameDecoder {
    buf: Vec<u8>,
    suffix: Vec<u8>,
}

/// The bytes of `chunks`, one after another.
pub open spec fn concat_all(chunks: Seq<Seq<u8>>) -> Seq<u8>
    decreases chunks.len(),
{
    if chunks.len() == 0 {
        Seq::empty()
    } else {
        chunks[0] + concat_all(chunks.drop_first())
    }
}

/// The frames a reader hands to its handler when the stream arrives as `chunks` and
/// `pending` was held over: after each read, every complete frame in the buffer.
pub open spec fn delivered(pending: Seq<u8>, chunks: Seq<Seq<u8>>, suffix: Seq<u8>) -> Seq<Seq<u8>>
    decreases chunks.len(),
{
    if chunks.len() == 0 {
        Seq::empty()
    } else {
        let buf = pending + chunks[0];
        frames(buf, suffix) + delivered(remainder(buf, suffix), chunks.drop_first(), suffix)
    }
}

/// What is left after the complete frames holds no complete frame.
pub proof fn lemma_remainder_has_no_frames(buf: Seq<u8>, suffix: Seq<u8>)
    requires
        suffix.len() > 0,
    ensures
        frames(remainder(buf, suffix), suffix) == Seq::<Seq<u8>>::empty(),
    decreases buf.len(),
{
    match first_occurrence(buf, suffix) {
        None => {
            assert(frames(buf, suffix) =~= Seq::<Seq<u8>>::empty());
        },
        Some(i) => {
            lemma_frames_step(buf, suffix, i);
            lemma_remainder_has_no_frames(buf.subrange(i + suffix.len(), buf.len() as int), suffix);
        },
    }
}

/// However the stream is cut into reads, the handler sees the frames of the whole stream.
pub proof fn lemma_chunked_delivery(pending: Seq<u8>, chunks: Seq<Seq<u8>>, suffix: Seq<u8>)
    requires
        suffix.len() > 0,
        frames(pending, suffix) == Seq::<Seq<u8>>::empty(),
    ensures
        delivered(pending, chunks, suffix) == frames(pending + concat_all(chunks), suffix),
    decreases chunks.len(),
{
    if chunks.len() == 0 {
        assert(pending + concat_all(chunks) =~= pending);
    } else {
        let buf = pending + chunks[0];
        let rest = chunks.drop_first();
        lemma_remainder_has_no_frames(buf, suffix);
        lemma_chunked_delivery(remainder(buf, suffix), rest, suffix);
        lemma_frames_concat(buf, concat_all(rest), suffix);
        assert(pending + concat_all(chunks) =~= buf + concat_all(rest));
    }
}

/// Echo round trip: when a peer echoes the frames of frameable payloads, a fresh reader
/// hands its handler exactly those payloads, in order, however the bytes are cut into reads.
pub proof fn lemma_echo_round_trip(payloads: Seq<Seq<u8>>, chunks: Seq<Seq<u8>>, suffix: Seq<u8>)
    requires
        suffix.len() > 0,
        forall|k: int| 0 <= k < payloads.len() ==> frameable(#[trigger] payloads[k], suffix),
        concat_all(chunks) == encode_all(payloads, suffix),
    ensures
        delivered(Seq::empty(), chunks, suffix) == payloads,
{
    let empty = Seq::<u8>::empty();
    assert(first_occurrence(empty, suffix) is None);
    assert(frames(empty, suffix) =~= Seq::<Seq<u8>>::empty());
    lemma_chunked_delivery(empty, chunks, suffix);
    assert(empty + concat_all(chunks) =~= encode_all(payloads, suffix));
    lemma_framing_round_trip(payloads, suffix);
}

impl FrameDecoder {
    /// The bytes held and not yet delivered as frames.
    pub closed spec fn buffered(&self) -> Seq<u8> {
        self.buf@
    }

    /// The delimiter.
    pub closed spec fn suffix(&self) -> Seq<u8> {
        self.suffix@
    }

    /// A decoder is usable only with a delimiter of at least one byte.
    pub open spec fn wf(&self) -> bool {
        self.suffix().len() > 0
    }

    /// An empty decoder for frames ended by `suffix`.
    pub fn new(suffix: Vec<u8>) -> (r: Self)
        requires
            suffix@.len() > 0,
        ensures
            r.wf(),
            r.buffered() == Seq::<u8>::empty(),
            r.suffix() == suffix@,
    {
        FrameDecoder { buf: Vec::new(), suffix }
    }

    /// The delimiter, as bytes.
    pub fn suffix_bytes(&self) -> (r: &[u8])
        ensures
            r@ == self.suffix(),
    {
        self.suffix.as_slice()
    }

    /// Appends bytes read from the stream.
    pub fn extend(&mut self, data: &[u8])
        ensures
            final(self).buffered() == old(self).buffered() + data@,
            final(self).suffix() == old(self).suffix(),
    {
        let mut k: usize = 0;
        while k < data.len()
            invariant
                k <= data@.len(),
                self.buf@ == old(self).buf@ + data@.subrange(0, k as int),
                self.suffix@ == old(self).suffix@,
            decreases data@.len() - k,
        {
            self.buf.push(data[k]);
            k = k + 1;
            proof {
                assert(self.buf@ =~= old(self).buf@ + data@.subrange(0, k as int));
            }
        }
        proof {
            assert(data@.subrange(0, data@.len() as int) =~= data@);
        }
    }

    /// Takes the earliest complete frame out of the buffer, without its suffix.
    pub fn next_frame(&mut self) -> (r: Option<Vec<u8>>)
        requires
            old(self).wf(),
        ensures
            final(self).wf(),
            final(self).suffix() == old(self).suffix(),
            frames(old(self).buffered(), old(self).suffix()).len() == 0 ==> r is None
                && final(self).buffered() == old(self).buffered()
                && remainder(final(self).buffered(), final(self).suffix()) == final(self).buffered(),
            frames(old(self).buffered(), old(self).suffix()).len() > 0 ==> r is Some
                && r->0@ == frames(old(self).buffered(), old(self).suffix())[0]
                && final(self).buffered().len() < old(self).buffered().len()
                && frames(final(self).buffered(), final(self).suffix()) == frames(
                old(self).buffered(),
                old(self).suffix(),
            ).drop_first(),
            remainder(final(self).buffered(), final(self).suffix()) == remainder(
                old(self).buffered(),
                old(self).suffix(),
            ),
    {
        match find_suffix(self.buf.as_slice(), self.suffix.as_slice()) {
            None => {
                proof {
                    assert(frames(self.buf@, self.suffix@) =~= Seq::<Seq<u8>>::empty());
                }
                None
            },
            Some(i) => {
                proof {
                    lemma_frames_step(self.buf@, self.suffix@, i as int);
                }
                let frame = copy_range(self.buf.as_slice(), 0, i);
                let n: usize = self.buf.len();
                let rest = copy_range(self.buf.as_slice(), i + self.suffix.len(), n);
                self.buf = rest;
                proof {
                    let old_frames = frames(old(self).buf@, self.suffix@);
                    assert(old_frames.drop_first() =~= frames(self.buf@, self.suffix@));
                }
                Some(frame)
            },
        }
    }

    /// Takes every complete frame out of the buffer, in stream order; what follows
    /// the last suffix stays buffered.
    pub fn drain_frames(&mut self) -> (r: Vec<Vec<u8>>)
        requires
            old(self).wf(),
        ensures
            final(self).wf(),
            final(self).suffix() == old(self).suffix(),
            views(r@) == frames(old(self).buffered(), old(self).suffix()),
            final(self).buffered() == remainder(old(self).buffered(), old(self).suffix()),
    {
        let mut out: Vec<Vec<u8>> = Vec::new();
        loop
            invariant
                self.wf(),
                self.suffix() == old(self).suffix(),
                views(out@) + frames(self.buffered(), self.suffix()) == frames(
                    old(self).buffered(),
                    old(self).suffix(),
                ),
                remainder(self.buffered(), self.suffix()) == remainder(
                    old(self).buffered(),
                    old(self).suffix(),
                ),
            ensures
                frames(self.buffered(), self.suffix()).len() == 0,
                remainder(self.buffered(), self.suffix()) == self.buffered(),
            decreases self.buffered().len(),
        {
            let ghost before = self.buffered();
            match self.next_frame() {
                Some(f) => {
                    proof {
                        let fs = frames(before, self.suffix());
                        assert(views(out@.push(f)) =~= views(out@).push(f@));
                        assert(views(out@).push(f@) + fs.drop_first() =~= views(out@) + fs);
                    }
                    out.push(f);
                },
                None => {
                    proof {
                        assert(self.buffered() == before);
                        assert(views(out@) + frames(before, self.suffix()) =~= views(out@));
                    }
                    break;
                },
            }
        }
        proof {
            assert(views(out@) + frames(self.buffered(), self.suffix()) =~= views(out@));
        }
        out
    }
}

} // verus!
