//! Suffix-delimited framing of a byte stream.
use vstd::prelude::*;

verus! {

/// `suffix` occurs in `buf` starting at index `i`.
pub open spec fn occurs_at(buf: Seq<u8>, suffix: Seq<u8>, i: int) -> bool {
    0 <= i && i + suffix.len() <= buf.len() && buf.subrange(i, i + suffix.len()) == suffix
}

/// `buf` ends with `suffix`.
pub open spec fn ends_with(buf: Seq<u8>, suffix: Seq<u8>) -> bool {
    suffix.len() <= buf.len() && occurs_at(buf, suffix, buf.len() - suffix.len())
}

/// The earliest index at or after `from` where `suffix` occurs in `buf`.
pub open spec fn first_from(buf: Seq<u8>, suffix: Seq<u8>, from: int) -> Option<int>
    decreases buf.len() + 1 - from,
{
    if from < 0 || from + suffix.len() > buf.len() {
        None
    } else if occurs_at(buf, suffix, from) {
        Some(from)
    } else {
        first_from(buf, suffix, from + 1)
    }
}

/// The earliest occurrence of `suffix` in `buf`.
pub open spec fn first_occurrence(buf: Seq<u8>, suffix: Seq<u8>) -> Option<int> {
    first_from(buf, suffix, 0)
}

/// The complete frames held by `buf`, in stream order, without their suffixes.
pub open spec fn frames(buf: Seq<u8>, suffix: Seq<u8>) -> Seq<Seq<u8>>
    decreases buf.len(),
{
    if suffix.len() == 0 {
        Seq::empty()
    } else {
        match first_occurrence(buf, suffix) {
            Some(i) => if 0 <= i && i + suffix.len() <= buf.len() {
                seq![buf.subrange(0, i)] + frames(buf.subrange(i + suffix.len(), buf.len() as int), suffix)
            } else {
                Seq::empty()
            },
            None => Seq::empty(),
        }
    }
}

/// The bytes of `buf` after its last complete frame.
pub open spec fn remainder(buf: Seq<u8>, suffix: Seq<u8>) -> Seq<u8>
    decreases buf.len(),
{
    if suffix.len() == 0 {
        buf
    } else {
        match first_occurrence(buf, suffix) {
            Some(i) => if 0 <= i && i + suffix.len() <= buf.len() {
                remainder(buf.subrange(i + suffix.len(), buf.len() as int), suffix)
            } else {
                buf
            },
            None => buf,
        }
    }
}

/// The bytes written on the wire for `payload`: the payload, then the suffix.
pub open spec fn encode(payload: Seq<u8>, suffix: Seq<u8>) -> Seq<u8> {
    payload + suffix
}

/// The bytes written on the wire for a sequence of payloads sent one after another.
pub open spec fn encode_all(payloads: Seq<Seq<u8>>, suffix: Seq<u8>) -> Seq<u8>
    decreases payloads.len(),
{
    if payloads.len() == 0 {
        Seq::empty()
    } else {
        encode(payloads[0], suffix) + encode_all(payloads.drop_first(), suffix)
    }
}

/// A payload that comes back whole from its own encoding: the first occurrence of the
/// suffix in `encode(payload, suffix)` is the one appended to it.
pub open spec fn frameable(payload: Seq<u8>, suffix: Seq<u8>) -> bool {
    first_occurrence(encode(payload, suffix), suffix) == Some(payload.len() as int)
}

/// Views of a sequence of byte vectors.
pub open spec fn views(v: Seq<Vec<u8>>) -> Seq<Seq<u8>> {
    v.map_values(|x: Vec<u8>| x@)
}

/// The earliest occurrence found from `from` is an occurrence, and none lies between.
pub proof fn lemma_first_from(buf: Seq<u8>, suffix: Seq<u8>, from: int)
    requires
        0 <= from,
    ensures
        match first_from(buf, suffix, from) {
            Some(i) => from <= i && occurs_at(buf, suffix, i) && forall|j: int|
                from <= j < i ==> !occurs_at(buf, suffix, j),
            None => forall|j: int| from <= j ==> !occurs_at(buf, suffix, j),
        },
    decreases buf.len() + 1 - from,
{
    if from + suffix.len() <= buf.len() && !occurs_at(buf, suffix, from) {
        lemma_first_from(buf, suffix, from + 1);
    }
}

/// Unfolds `frames` and `remainder` once at the earliest occurrence of the suffix.
pub proof fn lemma_frames_step(buf: Seq<u8>, suffix: Seq<u8>, i: int)
    requires
        suffix.len() > 0,
        first_occurrence(buf, suffix) == Some(i),
    ensures
        0 <= i,
        i + suffix.len() <= buf.len(),
        frames(buf, suffix) == seq![buf.subrange(0, i)] + frames(
            buf.subrange(i + suffix.len(), buf.len() as int),
            suffix,
        ),
        remainder(buf, suffix) == remainder(buf.subrange(i + suffix.len(), buf.len() as int), suffix),
{
    lemma_first_from(buf, suffix, 0);
}

/// An occurrence found within a prefix stays the earliest once more bytes follow.
pub proof fn lemma_first_from_prefix(a: Seq<u8>, b: Seq<u8>, suffix: Seq<u8>, from: int, i: int)
    requires
        0 <= from,
        first_from(a, suffix, from) == Some(i),
    ensures
        first_from(a + b, suffix, from) == Some(i),
    decreases a.len() + 1 - from,
{
    if from + suffix.len() <= a.len() {
        assert((a + b).subrange(from, from + suffix.len()) =~= a.subrange(from, from + suffix.len()));
        if !occurs_at(a, suffix, from) {
            lemma_first_from_prefix(a, b, suffix, from + 1, i);
        }
    }
}

/// Chunking does not matter: the frames of `a + b` are those of `a`, then those of
/// what `a` left over followed by `b`. A suffix split across two reads is found.
pub proof fn lemma_frames_concat(a: Seq<u8>, b: Seq<u8>, suffix: Seq<u8>)
    requires
        suffix.len() > 0,
    ensures
        frames(a + b, suffix) == frames(a, suffix) + frames(remainder(a, suffix) + b, suffix),
        remainder(a + b, suffix) == remainder(remainder(a, suffix) + b, suffix),
    decreases a.len(),
{
    match first_occurrence(a, suffix) {
        None => {
            assert(frames(a, suffix) =~= Seq::<Seq<u8>>::empty());
            assert(frames(a + b, suffix) =~= frames(a, suffix) + frames(remainder(a, suffix) + b, suffix));
        },
        Some(i) => {
            lemma_frames_step(a, suffix, i);
            lemma_first_from_prefix(a, b, suffix, 0, i);
            lemma_frames_step(a + b, suffix, i);
            let a1 = a.subrange(i + suffix.len(), a.len() as int);
            lemma_frames_concat(a1, b, suffix);
            assert((a + b).subrange(0, i) =~= a.subrange(0, i));
            assert((a + b).subrange(i + suffix.len(), (a + b).len() as int) =~= a1 + b);
            assert(frames(a + b, suffix) =~= frames(a, suffix) + frames(remainder(a, suffix) + b, suffix));
        },
    }
}

/// Framing round trip: when every payload is frameable, decoding the bytes written
/// for a sequence of payloads yields exactly those payloads, in order, and leaves
/// nothing behind.
pub proof fn lemma_framing_round_trip(payloads: Seq<Seq<u8>>, suffix: Seq<u8>)
    requires
        suffix.len() > 0,
        forall|k: int| 0 <= k < payloads.len() ==> frameable(#[trigger] payloads[k], suffix),
    ensures
        frames(encode_all(payloads, suffix), suffix) == payloads,
        remainder(encode_all(payloads, suffix), suffix) == Seq::<u8>::empty(),
    decreases payloads.len(),
{
    let buf = encode_all(payloads, suffix);
    if payloads.len() == 0 {
        assert(first_occurrence(buf, suffix) is None);
        assert(frames(buf, suffix) =~= payloads);
    } else {
        let p = payloads[0];
        let rest = payloads.drop_first();
        assert(frameable(p, suffix));
        assert forall|k: int| 0 <= k < rest.len() implies frameable(#[trigger] rest[k], suffix) by {
            assert(rest[k] == payloads[k + 1]);
        }
        lemma_framing_round_trip(rest, suffix);
        let tail = encode_all(rest, suffix);
        lemma_first_from_prefix(encode(p, suffix), tail, suffix, 0, p.len() as int);
        assert(buf == encode(p, suffix) + tail);
        lemma_frames_step(buf, suffix, p.len() as int);
        assert(buf.subrange(0, p.len() as int) =~= p);
        assert(buf.subrange((p.len() + suffix.len()) as int, buf.len() as int) =~= tail);
        assert(frames(buf, suffix) =~= payloads);
    }
}

/// No frame delivered holds the suffix: not anywhere, and so not at its end.
pub proof fn lemma_frames_exclude_suffix(buf: Seq<u8>, suffix: Seq<u8>)
    requires
        suffix.len() > 0,
    ensures
        forall|k: int, j: int|
            0 <= k < frames(buf, suffix).len() ==> !#[trigger] occurs_at(frames(buf, suffix)[k], suffix, j),
        forall|k: int|
            0 <= k < frames(buf, suffix).len() ==> !ends_with(#[trigger] frames(buf, suffix)[k], suffix),
    decreases buf.len(),
{
    match first_occurrence(buf, suffix) {
        None => {},
        Some(i) => {
            lemma_frames_step(buf, suffix, i);
            lemma_first_from(buf, suffix, 0);
            let f = buf.subrange(0, i);
            let after = buf.subrange(i + suffix.len(), buf.len() as int);
            lemma_frames_exclude_suffix(after, suffix);
            assert forall|j: int| !occurs_at(f, suffix, j) by {
                if occurs_at(f, suffix, j) {
                    assert(f.subrange(j, j + suffix.len()) =~= buf.subrange(j, j + suffix.len()));
                    assert(occurs_at(buf, suffix, j));
                }
            }
            let fs = frames(buf, suffix);
            assert forall|k: int, j: int| 0 <= k < fs.len() implies !#[trigger] occurs_at(fs[k], suffix, j) by {
                if k > 0 {
                    assert(fs[k] == frames(after, suffix)[k - 1]);
                }
            }
        },
    }
    let fs = frames(buf, suffix);
    assert forall|k: int| 0 <= k < fs.len() implies !ends_with(#[trigger] fs[k], suffix) by {
        assert(!occurs_at(fs[k], suffix, fs[k].len() - suffix.len()));
    }
}

/// Whether `suffix` occurs in `buf` at index `i`.
pub fn matches_at(buf: &[u8], suffix: &[u8], i: usize) -> (r: bool)
    requires
        i + suffix@.len() <= buf@.len(),
    ensures
        r == occurs_at(buf@, suffix@, i as int),
{
    let n: usize = buf.len();
    let mut k: usize = 0;
    while k < suffix.len()
        invariant
            k <= suffix@.len(),
            n == buf@.len(),
            i + suffix@.len() <= buf@.len(),
            forall|j: int| 0 <= j < k ==> buf@[i + j] == suffix@[j],
        decreases suffix@.len() - k,
    {
        if buf[i + k] != suffix[k] {
            proof {
                assert(buf@.subrange(i as int, i + suffix@.len())[k as int] != suffix@[k as int]);
            }
            return false;
        }
        k = k + 1;
    }
    proof {
        assert(buf@.subrange(i as int, i + suffix@.len()) =~= suffix@);
    }
    true
}

/// Index of the earliest occurrence of `suffix` in `buf`.
pub fn find_suffix(buf: &[u8], suffix: &[u8]) -> (r: Option<usize>)
    ensures
        match r {
            Some(i) => first_occurrence(buf@, suffix@) == Some(i as int),
            None => first_occurrence(buf@, suffix@) is None,
        },
{
    if suffix.len() > buf.len() {
        return None;
    }
    let last: usize = buf.len() - suffix.len();
    let mut i: usize = 0;
    while i <= last
        invariant
            last + suffix@.len() == buf@.len(),
            i <= last + 1,
            first_from(buf@, suffix@, 0) == first_from(buf@, suffix@, i as int),
        decreases last + 1 - i,
    {
        if matches_at(buf, suffix, i) {
            return Some(i);
        }
        assert(first_from(buf@, suffix@, i as int) == first_from(buf@, suffix@, i + 1));
        if i == last {
            assert(first_from(buf@, suffix@, i + 1) is None);
            return None;
        }
        i = i + 1;
    }
    None
}

/// A copy of `v[lo..hi]`.
pub fn copy_range(v: &[u8], lo: usize, hi: usize) -> (r: Vec<u8>)
    requires
        lo <= hi <= v@.len(),
    ensures
        r@ == v@.subrange(lo as int, hi as int),
{
    let mut out: Vec<u8> = Vec::new();
    let mut k: usize = lo;
    while k < hi
        invariant
            lo <= k <= hi <= v@.len(),
            out@ == v@.subrange(lo as int, k as int),
        decreases hi - k,
    {
        out.push(v[k]);
        k = k + 1;
        proof {
            assert(out@ =~= v@.subrange(lo as int, k as int));
        }
    }
    out
}

/// The bytes written for `payload`: the payload followed by `suffix`.
pub fn encode_frame(payload: &[u8], suffix: &[u8]) -> (r: Vec<u8>)
    ensures
        r@ == encode(payload@, suffix@),
{
    let mut out: Vec<u8> = Vec::new();
    let mut k: usize = 0;
    while k < payload.len()
        invariant
            k <= payload@.len(),
            out@ == payload@.subrange(0, k as int),
        decreases payload@.len() - k,
    {
        out.push(payload[k]);
        k = k + 1;
        proof {
            assert(out@ =~= payload@.subrange(0, k as int));
        }
    }
    let mut k: usize = 0;
    while k < suffix.len()
        invariant
            k <= suffix@.len(),
            out@ == payload@ + suffix@.subrange(0, k as int),
        decreases suffix@.len() - k,
    {
        out.push(suffix[k]);
        k = k + 1;
        proof {
            assert(out@ =~= payload@ + suffix@.subrange(0, k as int));
        }
    }
    proof {
        assert(payload@.subrange(0, payload@.len() as int) =~= payload@);
        assert(suffix@.subrange(0, suffix@.len() as int) =~= suffix@);
    }
    out
}

} // verus!
