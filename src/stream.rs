//! Reading frames from a byte stream a piece at a time, so that a reader
//! never takes a byte of the next frame and always knows whether it stands
//! on a frame boundary.
use crate::codec::{
    announced, decode, decode_stream, frame_of, frame_result, lemma_round_trip, payload_of,
    ReadError, HEADER_LEN,
};
use crate::message::Message;
use crate::wire::{le_u64_bytes, le_u64_decode, le_u64_value, lemma_le_u64_round_trip};
use vstd::prelude::*;

verus! {

/// How many more bytes `s` needs before it holds a whole frame.
pub open spec fn bytes_missing(s: Seq<u8>) -> int {
    if s.len() < 8 {
        8 - s.len()
    } else {
        8 + announced(s) - s.len()
    }
}

/// Collects the bytes of one frame as they arrive.
pub struct FrameReader {
    buf: Vec<u8>,
}

impl View for FrameReader {
    type V = Seq<u8>;

    /// The bytes of the current frame received so far.
    closed spec fn view(&self) -> Seq<u8> {
        self.buf@
    }
}

impl FrameReader {
    /// The reader holds part of one frame, never a whole one.
    pub open spec fn wf(&self) -> bool {
        bytes_missing(self@) > 0
    }

    /// A reader on a frame boundary.
    pub fn new() -> (r: FrameReader)
        ensures
            r@ == Seq::<u8>::empty(),
            r.wf(),
    {
        FrameReader { buf: Vec::new() }
    }

    /// Whether no byte of a frame has arrived yet: the only point at which
    /// this reader may be dropped and the stream still read by another.
    pub fn at_boundary(&self) -> (r: bool)
        ensures
            r == (self@.len() == 0),
    {
        self.buf.len() == 0
    }

    /// How many more bytes the current frame needs: the most that may be
    /// read from the stream before the frame is complete.
    pub fn bytes_missing(&self) -> (r: u64)
        requires
            self.wf(),
        ensures
            r == bytes_missing(self@),
            r > 0,
    {
        let len = self.buf.len();
        if len < HEADER_LEN {
            (HEADER_LEN - len) as u64
        } else {
            let n = le_u64_decode(self.buf.as_slice());
            n - (len - HEADER_LEN) as u64
        }
    }

    /// Takes bytes from the front of `chunk`, no more than the current frame
    /// needs, and says how many it took. When they complete the frame, the
    /// frame is decoded and handed back, and the reader is on a boundary
    /// again.
    pub fn fill<M: Message>(&mut self, chunk: &[u8]) -> (r: (usize, Option<Result<M, ReadError>>))
        requires
            old(self).wf(),
        ensures
            final(self).wf(),
            r.0 as int == if chunk@.len() < bytes_missing(old(self)@) {
                chunk@.len() as int
            } else {
                bytes_missing(old(self)@)
            },
            ({
                let s = old(self)@ + chunk@.subrange(0, r.0 as int);
                if bytes_missing(s) == 0 {
                    r.1 == Some(frame_result::<M>(s)) && final(self)@ == Seq::<u8>::empty()
                } else {
                    r.1 is None && final(self)@ == s
                }
            }),
    {
        let missing = self.bytes_missing();
        let take: usize = if (chunk.len() as u64) < missing {
            chunk.len()
        } else {
            missing as usize
        };
        let ghost start = self@;
        let mut i: usize = 0;
        while i < take
            invariant
                take <= chunk@.len(),
                i <= take,
                self.buf@ == start + chunk@.subrange(0, i as int),
            decreases take - i,
        {
            self.buf.push(chunk[i]);
            i = i + 1;
            assert(self.buf@ =~= start + chunk@.subrange(0, i as int));
        }
        let ghost s = self.buf@;
        proof {
            lemma_missing_shrinks(start, chunk@.subrange(0, take as int));
        }
        if self.buf.len() >= HEADER_LEN && self.bytes_complete() {
            let result = match decode::<M>(self.buf.as_slice()) {
                Ok((m, _)) => Ok(m),
                Err(e) => Err(e),
            };
            self.buf = Vec::new();
            (take, Some(result))
        } else {
            (take, None)
        }
    }

    /// Whether the header has arrived and the payload it announces with it.
    fn bytes_complete(&self) -> (r: bool)
        requires
            self@.len() >= 8,
        ensures
            r == (bytes_missing(self@) <= 0),
    {
        let n = le_u64_decode(self.buf.as_slice());
        (self.buf.len() - HEADER_LEN) as u64 >= n
    }

    /// Why reading stops when the stream closes now: cleanly on a frame
    /// boundary, or short inside a frame. This is what decoding the bytes
    /// received so far gives.
    pub fn end_of_stream(&self) -> (r: ReadError)
        requires
            self.wf(),
        ensures
            r == (if self@.len() == 0 {
                ReadError::Disconnected
            } else {
                ReadError::ShortRead
            }),
    {
        if self.buf.len() == 0 {
            ReadError::Disconnected
        } else {
            ReadError::ShortRead
        }
    }
}

/// Adding at most the missing bytes to a partial frame never goes past the
/// end of that frame; once the header is in, each byte added is one fewer
/// missing.
proof fn lemma_missing_shrinks(s: Seq<u8>, c: Seq<u8>)
    requires
        bytes_missing(s) > 0,
        c.len() <= bytes_missing(s),
    ensures
        bytes_missing(s + c) >= 0,
        s.len() >= 8 ==> bytes_missing(s + c) == bytes_missing(s) - c.len(),
{
    let t = s + c;
    if s.len() >= 8 {
        assert(t[0] == s[0] && t[1] == s[1] && t[2] == s[2] && t[3] == s[3]);
        assert(t[4] == s[4] && t[5] == s[5] && t[6] == s[6] && t[7] == s[7]);
    }
}

/// When the stream closes with a partial frame in the reader, the error the
/// reader gives is the one decoding those bytes gives.
pub proof fn lemma_end_of_stream_agrees<M: Message>(s: Seq<u8>)
    requires
        bytes_missing(s) > 0,
    ensures
        decode_stream::<M>(s) is Err,
        decode_stream::<M>(s)->Err_0 == (if s.len() == 0 {
            ReadError::Disconnected
        } else {
            ReadError::ShortRead
        }),
{
}

/// A reader fed the frame of a value, in whatever pieces, holds a partial
/// frame until the frame's last byte and a whole one exactly then, and that
/// frame gives the value: a partial frame is never handed out.
pub proof fn lemma_reader_completes_at_frame_end<M: Message>(m: M, k: int)
    requires
        0 <= k < frame_of(m).len(),
    ensures
        k < 8 ==> bytes_missing(frame_of(m).subrange(0, k)) == 8 - k,
        k >= 8 ==> bytes_missing(frame_of(m).subrange(0, k)) == frame_of(m).len() - k,
        bytes_missing(frame_of(m)) == 0,
        frame_result::<M>(frame_of(m)) is Ok,
        frame_result::<M>(frame_of(m))->Ok_0 == m,
{
    let f = frame_of(m);
    let n = payload_of(m).len() as u64;
    let h = le_u64_bytes(n);
    lemma_round_trip(m);
    lemma_le_u64_round_trip(n);
    assert(f[0] == h[0] && f[1] == h[1] && f[2] == h[2] && f[3] == h[3]);
    assert(f[4] == h[4] && f[5] == h[5] && f[6] == h[6] && f[7] == h[7]);
    assert(le_u64_value(f) == n);
    if k >= 8 {
        let p = f.subrange(0, k);
        assert(p[0] == f[0] && p[1] == f[1] && p[2] == f[2] && p[3] == f[3]);
        assert(p[4] == f[4] && p[5] == f[5] && p[6] == f[6] && p[7] == f[7]);
    }
}

} // verus!
