//! A byte buffer and the cursors that walk it.
//!
//! A [`RawBuf`] owns one contiguous allocation. A [`RawBufRef`] is a window
//! into such an allocation, a start offset and a remaining length, and owns
//! nothing: several of them may look at the same buffer at different offsets.

use vstd::prelude::*;
use crate::error::NetError;
use crate::header::Header;

verus! {

/// A contiguous byte allocation.
#[derive(Debug)]
pub struct RawBuf {
    pub bytes: Vec<u8>,
}

impl View for RawBuf {
    type V = Seq<u8>;

    open spec fn view(&self) -> Seq<u8> {
        self.bytes@
    }
}

/// A cursor into a buffer: where it stands and how many bytes remain.
#[derive(Clone, Copy, Debug)]
pub struct RawBufRef {
    start: usize,
    len: usize,
}

impl RawBuf {
    /// A buffer of `capacity` zero bytes.
    pub fn with_capacity(capacity: usize) -> (buf: RawBuf)
        ensures
            buf@ == Seq::new(capacity as nat, |i: int| 0u8),
    {
        let mut bytes: Vec<u8> = Vec::with_capacity(capacity);
        let mut i: usize = 0;
        while i < capacity
            invariant
                i <= capacity,
                bytes@ == Seq::new(i as nat, |j: int| 0u8),
            decreases capacity - i,
        {
            bytes.push(0u8);
            i += 1;
            assert(bytes@ =~= Seq::new(i as nat, |j: int| 0u8));
        }
        RawBuf { bytes }
    }

    /// A buffer holding a copy of `bytes`.
    pub fn new_from_slice(bytes: &[u8]) -> (buf: RawBuf)
        ensures
            buf@ == bytes@,
    {
        let mut copy: Vec<u8> = Vec::with_capacity(bytes.len());
        let mut i: usize = 0;
        while i < bytes.len()
            invariant
                i <= bytes@.len(),
                copy@ == bytes@.subrange(0, i as int),
            decreases bytes@.len() - i,
        {
            copy.push(bytes[i]);
            i += 1;
            assert(copy@ =~= bytes@.subrange(0, i as int));
        }
        assert(copy@ =~= bytes@);
        RawBuf { bytes: copy }
    }

    pub fn len(&self) -> (n: usize)
        ensures
            n == self@.len(),
    {
        self.bytes.len()
    }

    /// A cursor over the whole buffer.
    pub fn to_ref(&self) -> (r: RawBufRef)
        ensures
            r.spec_start() == 0,
            r.spec_rem_len() == self@.len(),
            r.within(*self),
    {
        RawBufRef { start: 0, len: self.bytes.len() }
    }
}

impl RawBufRef {
    #[verifier::type_invariant]
    spec fn inv(self) -> bool {
        self.start + self.len <= usize::MAX
    }

    /// Offset of the cursor from the start of its buffer.
    pub closed spec fn spec_start(&self) -> usize {
        self.start
    }

    /// Number of bytes from the cursor to the end of its window.
    pub closed spec fn spec_rem_len(&self) -> usize {
        self.len
    }

    /// Whether the window lies inside `buf`.
    pub open spec fn within(self, buf: RawBuf) -> bool {
        self.spec_start() + self.spec_rem_len() <= buf@.len()
    }

    /// The bytes of `buf` that the window covers.
    pub open spec fn bytes_of(self, buf: RawBuf) -> Seq<u8>
        recommends
            self.within(buf),
    {
        buf@.subrange(self.spec_start() as int, self.spec_start() + self.spec_rem_len())
    }

    /// The window of `len` bytes at `start`, if no offset inside it overflows.
    pub fn new(start: usize, len: usize) -> (r: Option<RawBufRef>)
        ensures
            r is Some <==> start + len <= usize::MAX,
            r is Some ==> r.unwrap().spec_start() == start && r.unwrap().spec_rem_len() == len,
    {
        if len <= usize::MAX - start {
            Some(RawBufRef { start, len })
        } else {
            None
        }
    }

    #[verifier::when_used_as_spec(spec_start)]
    pub fn start(&self) -> (n: usize)
        ensures
            n == self.spec_start(),
    {
        self.start
    }

    #[verifier::when_used_as_spec(spec_rem_len)]
    pub fn rem_len(&self) -> (n: usize)
        ensures
            n == self.spec_rem_len(),
    {
        self.len
    }

    /// Whether the window lies inside `buf`.
    pub fn is_within(&self, buf: &RawBuf) -> (r: bool)
        ensures
            r == self.within(*buf),
    {
        proof {
            use_type_invariant(self);
        }
        self.start + self.len <= buf.bytes.len()
    }

    /// Takes the next `T::size()` bytes off the front of the window.
    ///
    /// The result is the window of exactly those bytes, over which a `T` can be
    /// read or written; the cursor then stands behind them. A window that
    /// holds fewer bytes is left as it is.
    pub fn consume<T: Header>(&mut self) -> (r: Result<RawBufRef, NetError>)
        ensures
            old(self).spec_rem_len() < T::spec_size() ==> r == Err::<RawBufRef, NetError>(
                NetError::TruncatedBuffer,
            ) && *final(self) == *old(self),
            old(self).spec_rem_len() >= T::spec_size() ==> r is Ok
                && r.unwrap().spec_start() == old(self).spec_start()
                && r.unwrap().spec_rem_len() == T::spec_size()
                && final(self).spec_start() == old(self).spec_start() + T::spec_size()
                && final(self).spec_rem_len() == old(self).spec_rem_len() - T::spec_size(),
    {
        proof {
            use_type_invariant(&*self);
        }
        let size = T::size();
        if self.len < size {
            return Err(NetError::TruncatedBuffer);
        }
        let head = RawBufRef { start: self.start, len: size };
        *self = RawBufRef { start: self.start + size, len: self.len - size };
        Ok(head)
    }

    /// The window of the next `T::size()` bytes, without moving the cursor.
    pub fn cast<T: Header>(&self) -> (r: Result<RawBufRef, NetError>)
        ensures
            self.spec_rem_len() < T::spec_size() ==> r == Err::<RawBufRef, NetError>(
                NetError::TruncatedBuffer,
            ),
            self.spec_rem_len() >= T::spec_size() ==> r is Ok && r.unwrap().spec_start()
                == self.spec_start() && r.unwrap().spec_rem_len() == T::spec_size(),
    {
        proof {
            use_type_invariant(self);
        }
        let size = T::size();
        if self.len < size {
            return Err(NetError::TruncatedBuffer);
        }
        Ok(RawBufRef { start: self.start, len: size })
    }

    /// Reads the header at the front of the window, byte for byte.
    pub fn read_unaligned<T: Header>(&self, buf: &RawBuf) -> (h: T)
        requires
            self.within(*buf),
            self.spec_rem_len() >= T::spec_size(),
        ensures
            h == T::spec_decode(
                buf@.subrange(self.spec_start() as int, self.spec_start() + T::spec_size()),
            ),
    {
        T::decode(buf.bytes.as_slice(), self.start)
    }

    /// Writes a header over the front of the window, byte for byte.
    pub fn write_unaligned<T: Header>(&self, buf: &mut RawBuf, h: &T)
        requires
            self.within(*old(buf)),
            self.spec_rem_len() >= T::spec_size(),
        ensures
            final(buf)@.len() == old(buf)@.len(),
            final(buf)@ == old(buf)@.subrange(0, self.spec_start() as int) + h.spec_encode() + old(
                buf,
            )@.subrange(self.spec_start() + T::spec_size(), old(buf)@.len() as int),
    {
        let mut encoded: Vec<u8> = Vec::new();
        h.encode(&mut encoded);
        assert(encoded@ =~= h.spec_encode());
        let size = encoded.len();
        let total = buf.bytes.len();
        let ghost before = buf@;
        assert(buf@ =~= before.subrange(0, self.start as int) + encoded@.subrange(0, 0)
            + before.subrange(self.start + 0, before.len() as int));
        let mut i: usize = 0;
        while i < size
            invariant
                i <= size,
                size == T::spec_size(),
                size == encoded@.len(),
                encoded@ == h.spec_encode(),
                self.start + size <= total,
                total == buf@.len(),
                buf@.len() == before.len(),
                buf@ == before.subrange(0, self.start as int) + encoded@.subrange(0, i as int)
                    + before.subrange(self.start + i, before.len() as int),
            decreases size - i,
        {
            let b = encoded[i];
            buf.bytes.set(self.start + i, b);
            i += 1;
            assert(buf@ =~= before.subrange(0, self.start as int) + encoded@.subrange(0, i as int)
                + before.subrange(self.start + i, before.len() as int));
        }
        assert(encoded@.subrange(0, size as int) =~= encoded@);
    }

    /// A copy of the bytes that the window covers.
    pub fn cur_slice(&self, buf: &RawBuf) -> (bytes: Vec<u8>)
        requires
            self.within(*buf),
        ensures
            bytes@ == self.bytes_of(*buf),
    {
        let mut out: Vec<u8> = Vec::with_capacity(self.len);
        let total = buf.bytes.len();
        let mut i: usize = 0;
        while i < self.len
            invariant
                i <= self.len,
                self.start + self.len <= total,
                total == buf@.len(),
                out@ == buf@.subrange(self.start as int, self.start + i),
            decreases self.len - i,
        {
            out.push(buf.bytes[self.start + i]);
            i += 1;
            assert(out@ =~= buf@.subrange(self.start as int, self.start + i));
        }
        out
    }
}

} // verus!
