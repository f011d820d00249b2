//! Frame delimiting for the wire. A byte stream has no message boundaries
//! of its own: one read may carry half a frame or three frames at once. So
//! every encoded payload is sent as `payload` + delimiter, the delimiter
//! is not permitted inside a payload, and the reader buffers raw bytes and
//! cuts them at delimiters, independently of how the reads fell.

use vstd::prelude::*;

verus! {

/// The frame delimiter, a line feed. Payloads must not contain it.
pub const FRAME_DELIMITER: u8 = 10;

/// Accumulates raw bytes as they arrive off the stream and hands back one
/// complete frame at a time.
pub struct FrameBuffer {
    buf: Vec<u8>,
}

impl FrameBuffer {
    /// The bytes buffered and not yet cut into frames.
    pub closed spec fn contents(self) -> Seq<u8> {
        self.buf@
    }

    /// An empty buffer.
    pub fn new() -> (r: FrameBuffer)
        ensures
            r.contents() == Seq::<u8>::empty(),
    {
        FrameBuffer { buf: Vec::new() }
    }

    /// Appends one chunk exactly as it was read from the stream.
    pub fn feed(&mut self, data: &[u8])
        ensures
            final(self).contents() == old(self).contents() + data@,
    {
        let n = data.len();
        let mut i: usize = 0;
        while i < n
            invariant
                n == data@.len(),
                i <= n,
                self.buf@ == old(self).buf@ + data@.subrange(0, i as int),
            decreases n - i,
        {
            self.buf.push(data[i]);
            proof {
                assert(old(self).buf@ + data@.subrange(0, i as int) + seq![data@[i as int]]
                    =~= old(self).buf@ + data@.subrange(0, i + 1));
            }
            i = i + 1;
        }
        proof {
            assert(data@.subrange(0, n as int) =~= data@);
        }
    }

    /// Cuts the first complete frame off the front: the bytes up to (not
    /// including) the first delimiter, which is consumed with them. With
    /// no delimiter buffered yet, nothing changes and nothing is returned.
    pub fn next_frame(&mut self) -> (r: Option<Vec<u8>>)
        ensures
            match r {
                None => {
                    &&& final(self).contents() == old(self).contents()
                    &&& forall|i: int|
                        0 <= i < old(self).contents().len() ==> old(self).contents()[i]
                            != FRAME_DELIMITER
                },
                Some(f) => exists|i: int|
                    {
                        &&& 0 <= i < old(self).contents().len()
                        &&& old(self).contents()[i] == FRAME_DELIMITER
                        &&& forall|j: int|
                            0 <= j < i ==> old(self).contents()[j] != FRAME_DELIMITER
                        &&& f@ == old(self).contents().take(i)
                        &&& final(self).contents() == old(self).contents().skip(i + 1)
                    },
            },
    {
        let n = self.buf.len();
        let mut i: usize = 0;
        while i < n && self.buf[i] != FRAME_DELIMITER
            invariant
                *self == *old(self),
                n == self.buf@.len(),
                i <= n,
                forall|j: int| 0 <= j < i ==> self.buf@[j] != FRAME_DELIMITER,
            decreases n - i,
        {
            i = i + 1;
        }
        if i == n {
            return None;
        }
        let mut frame: Vec<u8> = Vec::new();
        let mut j: usize = 0;
        while j < i
            invariant
                *self == *old(self),
                i < self.buf@.len(),
                j <= i,
                frame@ == self.buf@.subrange(0, j as int),
            decreases i - j,
        {
            frame.push(self.buf[j]);
            proof {
                assert(self.buf@.subrange(0, j as int) + seq![self.buf@[j as int]]
                    =~= self.buf@.subrange(0, j + 1));
            }
            j = j + 1;
        }
        let mut rest: Vec<u8> = Vec::new();
        let mut k: usize = i + 1;
        while k < n
            invariant
                *self == *old(self),
                n == self.buf@.len(),
                i + 1 <= k <= n,
                rest@ == self.buf@.subrange(i + 1, k as int),
            decreases n - k,
        {
            rest.push(self.buf[k]);
            proof {
                assert(self.buf@.subrange(i + 1, k as int) + seq![self.buf@[k as int]]
                    =~= self.buf@.subrange(i + 1, k + 1));
            }
            k = k + 1;
        }
        self.buf = rest;
        proof {
            assert(frame@ =~= old(self).contents().take(i as int));
            assert(self.buf@ =~= old(self).contents().skip(i + 1));
        }
        Some(frame)
    }
}

/// Wraps one encoded payload into a frame: the payload followed by the
/// delimiter. Refused (nothing returned) if the payload contains the
/// delimiter, since the boundary would be ambiguous on the wire.
pub fn encode_frame(payload: &[u8]) -> (r: Option<Vec<u8>>)
    ensures
        match r {
            Some(f) => {
                &&& forall|i: int| 0 <= i < payload@.len() ==> payload@[i] != FRAME_DELIMITER
                &&& f@ == payload@ + seq![FRAME_DELIMITER]
            },
            None => exists|i: int|
                0 <= i < payload@.len() && payload@[i] == FRAME_DELIMITER,
        },
{
    let n = payload.len();
    let mut out: Vec<u8> = Vec::new();
    let mut i: usize = 0;
    while i < n
        invariant
            n == payload@.len(),
            i <= n,
            out@ == payload@.subrange(0, i as int),
            forall|j: int| 0 <= j < i ==> payload@[j] != FRAME_DELIMITER,
        decreases n - i,
    {
        if payload[i] == FRAME_DELIMITER {
            return None;
        }
        out.push(payload[i]);
        proof {
            assert(payload@.subrange(0, i as int) + seq![payload@[i as int]]
                =~= payload@.subrange(0, i + 1));
        }
        i = i + 1;
    }
    out.push(FRAME_DELIMITER);
    proof {
        assert(payload@.subrange(0, n as int) =~= payload@);
        assert(out@ =~= payload@ + seq![FRAME_DELIMITER]);
    }
    Some(out)
}

} // verus!
