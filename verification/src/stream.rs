//! A fixed-capacity writer for little-endian command streams.

use vstd::prelude::*;
use crate::bytes;

verus! {

/// Largest command stream built for any single control command.
pub const MAX_CMD_BYTES: usize = 512;

/// The bytes kept after one more write of `data`: all of it, or none of it once
/// the writes together exceed the capacity.
#[verifier::opaque]
pub open spec fn kept(before: Seq<u8>, data: Seq<u8>, fits: bool) -> Seq<u8> {
    if fits {
        before + data
    } else {
        before
    }
}

/// A stream of at most `N` bytes. A write that does not fit is dropped whole, and
/// the stream refuses to hand out its bytes from then on.
///
/// The view is the message: every byte that was written, in order. The stream
/// holds the message exactly while the message fits.
pub struct StreamWriter<const N: usize> {
    buf: [u8; N],
    len: usize,
    overflow: bool,
    message: Ghost<Seq<u8>>,
}

/// The control-command writer.
pub type Writer = StreamWriter<MAX_CMD_BYTES>;

impl<const N: usize> View for StreamWriter<N> {
    type V = Seq<u8>;

    closed spec fn view(&self) -> Seq<u8> {
        self.message@
    }
}

impl<const N: usize> Default for StreamWriter<N> {
    fn default() -> (w: Self)
        ensures
            w.wf(),
            w@ == Seq::<u8>::empty(),
            w.accepted() == Seq::<u8>::empty(),
    {
        Self::new()
    }
}

impl<const N: usize> StreamWriter<N> {
    pub closed spec fn wf(&self) -> bool {
        &&& self.len <= N
        &&& self.overflow <==> self.message@.len() > N
        &&& !self.overflow ==> self.buf@.take(self.len as int) == self.message@
        &&& self.len <= self.message@.len()
        &&& self.buf@.take(self.len as int) == self.message@.take(self.len as int)
    }

    /// The bytes that were not dropped.
    pub closed spec fn accepted(&self) -> Seq<u8> {
        self.buf@.take(self.len as int)
    }

    pub fn new() -> (w: Self)
        ensures
            w.wf(),
            w@ == Seq::<u8>::empty(),
            w.accepted() == Seq::<u8>::empty(),
    {
        let w = StreamWriter {
            buf: [0u8; N],
            len: 0,
            overflow: false,
            message: Ghost(Seq::empty()),
        };
        assert(w.buf@.take(0) =~= Seq::empty());
        assert(w.message@.take(0) =~= Seq::empty());
        w
    }

    /// Whether `n` more bytes fit; if they do not, the writer is poisoned.
    fn reserve(&mut self, n: usize) -> (fits: bool)
        requires
            old(self).wf(),
        ensures
            fits == (old(self)@.len() + n <= N),
            final(self).buf == old(self).buf,
            final(self).len == old(self).len,
            final(self).overflow == !fits,
            final(self).message == old(self).message,
    {
        if self.overflow || n > N - self.len {
            self.overflow = true;
            return false;
        }
        true
    }

    /// Writes `data` without padding.
    fn put(&mut self, data: &[u8])
        requires
            old(self).wf(),
        ensures
            final(self).wf(),
            final(self)@ == old(self)@ + data@,
            final(self).accepted() == kept(old(self).accepted(), data@, final(self)@.len() <= N),
    {
        reveal(kept);
        let ghost start = *self;
        let fits = self.reserve(data.len());
        proof {
            self.message@ = self.message@ + data@;
        }
        if !fits {
            assert(self.message@.take(self.len as int) =~= start.message@.take(self.len as int));
            return;
        }
        let mut i: usize = 0;
        let ghost before = start.accepted();
        while i < data.len()
            invariant
                i <= data@.len(),
                self.len == start.len,
                self.len + data@.len() <= N,
                self.len == before.len(),
                self.overflow == false,
                self.message@ == start.message@ + data@,
                self.buf@.take(self.len + i) == before + data@.take(i as int),
            decreases data@.len() - i,
        {
            let ghost prior = self.buf@;
            self.buf[self.len + i] = data[i];
            assert(self.buf@.take(self.len + i + 1) =~= prior.take(self.len + i).push(
                data@[i as int],
            ));
            assert(data@.take(i + 1) =~= data@.take(i as int).push(data@[i as int]));
            i = i + 1;
        }
        assert(data@.take(i as int) =~= data@);
        self.len = self.len + data.len();
        assert(self.message@.take(self.len as int) =~= self.message@);
    }

    /// A 16-bit word, without padding.
    pub(crate) fn u16(&mut self, v: u16)
        requires
            old(self).wf(),
        ensures
            final(self).wf(),
            final(self)@ == old(self)@ + bytes::le16(v),
    {
        let b: [u8; 2] = bytes::le16_bytes(v);
        self.put(&b);
    }

    /// Bytes, without padding.
    pub(crate) fn bytes(&mut self, data: &[u8])
        requires
            old(self).wf(),
        ensures
            final(self).wf(),
            final(self)@ == old(self)@ + data@,
    {
        self.put(data);
    }

    pub fn u32(&mut self, v: u32)
        requires
            old(self).wf(),
        ensures
            final(self).wf(),
            final(self)@ == old(self)@ + bytes::le32(v),
            final(self).accepted() == kept(
                old(self).accepted(),
                bytes::le32(v),
                final(self)@.len() <= N,
            ),
    {
        let b: [u8; 4] = bytes::le32_bytes(v);
        self.put(&b);
    }

    pub fn i32(&mut self, v: i32)
        requires
            old(self).wf(),
        ensures
            final(self).wf(),
            final(self)@ == old(self)@ + bytes::le32(v as u32),
            final(self).accepted() == kept(
                old(self).accepted(),
                bytes::le32(v as u32),
                final(self)@.len() <= N,
            ),
    {
        self.u32(v as u32);
    }

    pub fn u64(&mut self, v: u64)
        requires
            old(self).wf(),
        ensures
            final(self).wf(),
            final(self)@ == old(self)@ + bytes::le64(v),
            final(self).accepted() == kept(
                old(self).accepted(),
                bytes::le64(v),
                final(self)@.len() <= N,
            ),
    {
        let b: [u8; 8] = bytes::le64_bytes(v);
        self.put(&b);
    }

    /// A pointer or array marker: one if present, zero if absent.
    pub fn count(&mut self, present: bool)
        requires
            old(self).wf(),
        ensures
            final(self).wf(),
            final(self)@ == old(self)@ + bytes::present(present),
            final(self).accepted() == kept(
                old(self).accepted(),
                bytes::present(present),
                final(self)@.len() <= N,
            ),
    {
        self.u64(if present { 1 } else { 0 });
    }

    /// Copies `data` and zero-fills to the next four-byte boundary.
    pub fn bytes_padded(&mut self, data: &[u8])
        requires
            old(self).wf(),
        ensures
            final(self).wf(),
            final(self)@ == old(self)@ + bytes::padded4(data@),
            final(self).accepted() == kept(
                old(self).accepted(),
                bytes::padded4(data@),
                final(self)@.len() <= N,
            ),
    {
        reveal(kept);
        let pad: usize = (4 - data.len() % 4) % 4;
        let ghost start = *self;
        if self.overflow || data.len() > N - self.len || pad > N - self.len - data.len() {
            self.overflow = true;
            proof {
                self.message@ = self.message@ + bytes::padded4(data@);
            }
            assert(self.message@.take(self.len as int) =~= start.message@.take(self.len as int));
            return;
        }
        self.put(data);
        let zeros: [u8; 3] = [0, 0, 0];
        self.put(vstd::slice::slice_subrange(&zeros, 0, pad));
        assert(self@ =~= start@ + bytes::padded4(data@));
        assert(self.accepted() =~= start.accepted() + bytes::padded4(data@));
    }

    /// A Vulkan object handle, written as the 64-bit value it converts to.
    pub fn handle<H: Into<u64>>(&mut self, h: H)
        requires
            old(self).wf(),
            call_requires(<H as Into<u64>>::into, (h,)),
        ensures
            final(self).wf(),
            exists|v: u64|
                call_ensures(<H as Into<u64>>::into, (h,), v) && final(self)@ == old(self)@
                    + #[trigger] bytes::le64(v) && final(self).accepted() == kept(
                    old(self).accepted(),
                    bytes::le64(v),
                    final(self)@.len() <= N,
                ),
    {
        let v: u64 = h.into();
        self.u64(v);
    }

    /// The command header: command type, then command flags.
    pub fn header(&mut self, cmd_type: u32, flags: u32)
        requires
            old(self).wf(),
        ensures
            final(self).wf(),
            final(self)@ == old(self)@ + bytes::le32(cmd_type) + bytes::le32(flags),
            final(self).accepted() == kept(
                kept(old(self).accepted(), bytes::le32(cmd_type), old(self)@.len() + 4 <= N),
                bytes::le32(flags),
                final(self)@.len() <= N,
            ),
    {
        self.u32(cmd_type);
        self.u32(flags);
    }

    /// Bytes accepted so far.
    pub fn len(&self) -> (n: usize)
        requires
            self.wf(),
        ensures
            n == self.accepted().len(),
            self@.len() <= N ==> n == self@.len(),
    {
        self.len
    }

    pub fn is_empty(&self) -> (b: bool)
        requires
            self.wf(),
        ensures
            b == (self.accepted().len() == 0),
    {
        self.len == 0
    }

    /// True once any write has been refused for want of room.
    pub fn overflowed(&self) -> (b: bool)
        requires
            self.wf(),
        ensures
            b == (self@.len() > N),
    {
        self.overflow
    }

    /// The first word of the stream, or zero if it holds none.
    pub fn cmd_type(&self) -> (v: u32)
        requires
            self.wf(),
        ensures
            v == (if self.accepted().len() < 4 {
                0
            } else {
                bytes::word32(self.accepted(), 0)
            }),
    {
        if self.len < 4 {
            return 0;
        }
        bytes::read32(&self.buf, 0)
    }

    /// The bytes of a stream that is exactly full.
    pub(crate) fn to_array(&self) -> (out: [u8; N])
        requires
            self.wf(),
            self@.len() == N,
        ensures
            out@ == self@,
    {
        assert(self.buf@.take(N as int) =~= self.buf@);
        self.buf
    }

    /// The encoded stream, or `None` if any write was refused.
    pub fn finished(&self) -> (out: Option<&[u8]>)
        requires
            self.wf(),
        ensures
            out is Some <==> self@.len() <= N,
            out matches Some(b) ==> b@ == self@,
    {
        if self.overflow {
            None
        } else {
            Some(vstd::slice::slice_subrange(&self.buf, 0, self.len))
        }
    }
}

/// What has been accepted is always a prefix of what was written, and all of it
/// as long as what was written fits.
pub proof fn law_stream_holds_its_message<const N: usize>(w: StreamWriter<N>)
    requires
        w.wf(),
    ensures
        w.accepted().len() <= w@.len(),
        w.accepted() == w@.take(w.accepted().len() as int),
        w@.len() <= N ==> w.accepted() == w@,
        w@.len() > N ==> w.accepted().len() <= N,
{
}

} // verus!
