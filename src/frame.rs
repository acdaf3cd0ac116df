//! Length-prefixed framing of the byte stream between two nodes: each frame
//! is its payload's length as a big-endian 16-bit number, then the payload.
use vstd::prelude::*;

verus! {

/// The largest payload a frame can carry.
pub const MAX_FRAME_PAYLOAD: usize = 65535;

/// The frame carrying `p`.
pub open spec fn frame_of(p: Seq<u8>) -> Seq<u8> {
    seq![(p.len() / 256) as u8, (p.len() % 256) as u8] + p
}

/// The frames carrying each of `ps`, one after the other.
pub open spec fn frames_of(ps: Seq<Seq<u8>>) -> Seq<u8>
    decreases ps.len(),
{
    if ps.len() == 0 {
        Seq::empty()
    } else {
        frame_of(ps[0]) + frames_of(ps.drop_first())
    }
}

/// The payload length announced by the header at the front of `s`.
pub open spec fn announced(s: Seq<u8>) -> nat {
    s[0] as nat * 256 + s[1] as nat
}

/// Whether a whole frame stands at the front of `s`.
pub open spec fn has_frame(s: Seq<u8>) -> bool {
    s.len() >= 2 && 2 + announced(s) <= s.len()
}

/// The payloads of the whole frames at the front of `s`, and how many bytes they take.
pub open spec fn parse_frames(s: Seq<u8>) -> (Seq<Seq<u8>>, nat)
    decreases s.len(),
{
    if has_frame(s) {
        let l = announced(s);
        let rest = parse_frames(s.subrange(2 + l as int, s.len() as int));
        (seq![s.subrange(2, 2 + l as int)] + rest.0, 2 + l + rest.1)
    } else {
        (Seq::empty(), 0)
    }
}

/// The views of a sequence of byte vectors.
pub open spec fn payloads(v: Seq<Vec<u8>>) -> Seq<Seq<u8>> {
    v.map_values(|b: Vec<u8>| b@)
}

/// The frame carrying `payload`; `None` when it is longer than a frame can carry.
pub fn encode_frame(payload: &Vec<u8>) -> (r: Option<Vec<u8>>)
    ensures
        r.is_some() == (payload@.len() <= MAX_FRAME_PAYLOAD),
        r.is_some() ==> r.unwrap()@ == frame_of(payload@),
{
    let n = payload.len();
    if n > MAX_FRAME_PAYLOAD {
        return None;
    }
    let mut out: Vec<u8> = Vec::new();
    out.push((n / 256) as u8);
    out.push((n % 256) as u8);
    let mut i: usize = 0;
    while i < n
        invariant
            n == payload@.len(),
            0 <= i <= n,
            out@ == seq![(n / 256) as u8, (n % 256) as u8] + payload@.subrange(0, i as int),
        decreases n - i,
    {
        out.push(payload[i]);
        i = i + 1;
        assert(out@ =~= seq![(n / 256) as u8, (n % 256) as u8] + payload@.subrange(0, i as int));
    }
    assert(payload@.subrange(0, n as int) =~= payload@);
    Some(out)
}

/// Splits off the whole frames at the front of `data`: their payloads, and
/// how many bytes they take. What follows is the start of a frame not yet
/// complete.
pub fn split_frames(data: &Vec<u8>) -> (r: (Vec<Vec<u8>>, usize))
    ensures
        payloads(r.0@) == parse_frames(data@).0,
        r.1 == parse_frames(data@).1,
{
    let mut frames: Vec<Vec<u8>> = Vec::new();
    let mut pos: usize = 0;
    let n = data.len();
    assert(data@.subrange(0, n as int) =~= data@);
    loop
        invariant
            n == data@.len(),
            0 <= pos <= n,
            payloads(frames@) + parse_frames(data@.subrange(pos as int, n as int)).0 == parse_frames(
                data@,
            ).0,
            pos + parse_frames(data@.subrange(pos as int, n as int)).1 == parse_frames(data@).1,
        ensures
            payloads(frames@) == parse_frames(data@).0,
            pos == parse_frames(data@).1,
        decreases n - pos,
    {
        let ghost s = data@.subrange(pos as int, n as int);
        if n - pos < 2 {
            assert(!has_frame(s));
            assert(parse_frames(s) == (Seq::<Seq<u8>>::empty(), 0nat));
            assert(payloads(frames@) + Seq::<Seq<u8>>::empty() =~= payloads(frames@));
            break;
        }
        let len = data[pos] as usize * 256 + data[pos + 1] as usize;
        assert(announced(s) == len);
        if len > n - pos - 2 {
            assert(!has_frame(s));
            assert(parse_frames(s) == (Seq::<Seq<u8>>::empty(), 0nat));
            assert(payloads(frames@) + Seq::<Seq<u8>>::empty() =~= payloads(frames@));
            break;
        }
        let start = pos + 2;
        let end = start + len;
        let mut f: Vec<u8> = Vec::new();
        let mut i: usize = start;
        while i < end
            invariant
                start <= i <= end <= n,
                n == data@.len(),
                f@ == data@.subrange(start as int, i as int),
            decreases end - i,
        {
            f.push(data[i]);
            i = i + 1;
            assert(f@ =~= data@.subrange(start as int, i as int));
        }
        proof {
            assert(has_frame(s));
            assert(s.subrange(2, 2 + len as int) =~= f@);
            assert(s.subrange(2 + len as int, s.len() as int) =~= data@.subrange(
                end as int,
                n as int,
            ));
        }
        let ghost before = frames@;
        frames.push(f);
        assert(payloads(frames@) =~= payloads(before).push(f@));
        assert(payloads(frames@) + parse_frames(data@.subrange(end as int, n as int)).0
            =~= payloads(before) + parse_frames(s).0);
        pos = end;
    }
    (frames, pos)
}

/// Splitting the frames of a sequence of payloads, each short enough for
/// one frame, gives the payloads back and takes every byte.
pub proof fn frames_round_trip(ps: Seq<Seq<u8>>)
    requires
        forall|i: int| 0 <= i < ps.len() ==> #[trigger] ps[i].len() <= MAX_FRAME_PAYLOAD,
    ensures
        parse_frames(frames_of(ps)) == (ps, frames_of(ps).len()),
    decreases ps.len(),
{
    if ps.len() > 0 {
        let p = ps[0];
        let rest = ps.drop_first();
        assert forall|i: int| 0 <= i < rest.len() implies #[trigger] rest[i].len()
            <= MAX_FRAME_PAYLOAD by {
            assert(rest[i] == ps[i + 1]);
        }
        frames_round_trip(rest);
        let s = frames_of(ps);
        assert(s == frame_of(p) + frames_of(rest));
        assert(announced(s) == p.len()) by {
            assert(s[0] == (p.len() / 256) as u8);
            assert(s[1] == (p.len() % 256) as u8);
        }
        assert(s.subrange(2, 2 + p.len() as int) =~= p);
        assert(s.subrange(2 + p.len() as int, s.len() as int) =~= frames_of(rest));
        assert(seq![p] + rest =~= ps);
    }
}


/// Reading whole frames does not depend on where the stream was cut: the
/// frames of `s + x` are those of `s`, then those of what `s` left over
/// followed by `x`.
pub proof fn frames_ignore_chunking(s: Seq<u8>, x: Seq<u8>)
    ensures
        ({
            let (fs, used) = parse_frames(s);
            let (gs, more) = parse_frames(s.subrange(used as int, s.len() as int) + x);
            &&& used <= s.len()
            &&& parse_frames(s + x) == (fs + gs, used + more)
        }),
    decreases s.len(),
{
    let (fs, used) = parse_frames(s);
    if has_frame(s) {
        let l = announced(s);
        let rest = s.subrange(2 + l as int, s.len() as int);
        frames_ignore_chunking(rest, x);
        let sx = s + x;
        assert(announced(sx) == l);
        assert(has_frame(sx));
        assert(sx.subrange(2, 2 + l as int) =~= s.subrange(2, 2 + l as int));
        assert(sx.subrange(2 + l as int, sx.len() as int) =~= rest + x);
        let (rs, rused) = parse_frames(rest);
        assert(rest.subrange(rused as int, rest.len() as int) =~= s.subrange(
            used as int,
            s.len() as int,
        ));
        let (gs, more) = parse_frames(s.subrange(used as int, s.len() as int) + x);
        assert(seq![s.subrange(2, 2 + l as int)] + (rs + gs) =~= fs + gs);
    } else {
        assert(s.subrange(0, s.len() as int) =~= s);
        let (gs, more) = parse_frames(s + x);
        assert(fs + gs =~= gs);
    }
}

/// Reassembles frames from a byte stream read in arbitrary chunks, keeping
/// the start of a frame not yet complete until the rest arrives.
#[derive(Debug)]
pub struct FrameReader {
    pending: Vec<u8>,
}

impl FrameReader {
    /// Bytes received that do not yet form a whole frame.
    pub closed spec fn pending_bytes(&self) -> Seq<u8> {
        self.pending@
    }

    /// A reader that has received nothing.
    pub fn new() -> (r: FrameReader)
        ensures
            r.pending_bytes().len() == 0,
    {
        FrameReader { pending: Vec::new() }
    }

    /// Takes the next chunk of the stream and returns the payloads of the
    /// frames it completes, in stream order.
    pub fn push(&mut self, chunk: &[u8]) -> (r: Vec<Vec<u8>>)
        ensures
            ({
                let s = old(self).pending_bytes() + chunk@;
                &&& payloads(r@) == parse_frames(s).0
                &&& final(self).pending_bytes() == s.subrange(parse_frames(s).1 as int, s.len() as int)
            }),
    {
        let ghost s = self.pending@ + chunk@;
        let mut i: usize = 0;
        while i < chunk.len()
            invariant
                0 <= i <= chunk@.len(),
                self.pending@ == old(self).pending@ + chunk@.subrange(0, i as int),
            decreases chunk@.len() - i,
        {
            self.pending.push(chunk[i]);
            i = i + 1;
            assert(self.pending@ =~= old(self).pending@ + chunk@.subrange(0, i as int));
        }
        assert(chunk@.subrange(0, chunk@.len() as int) =~= chunk@);
        let (frames, used) = split_frames(&self.pending);
        proof {
            frames_ignore_chunking(self.pending@, Seq::empty());
            assert(self.pending@ + Seq::<u8>::empty() =~= self.pending@);
        }
        let mut rest: Vec<u8> = Vec::new();
        let mut j: usize = used;
        while j < self.pending.len()
            invariant
                used <= j <= self.pending@.len(),
                rest@ == self.pending@.subrange(used as int, j as int),
            decreases self.pending@.len() - j,
        {
            rest.push(self.pending[j]);
            j = j + 1;
            assert(rest@ =~= self.pending@.subrange(used as int, j as int));
        }
        self.pending = rest;
        frames
    }
}

} // verus!
