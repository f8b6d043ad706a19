//! The packet buffer: one owned allocation, the write-once views that the
//! protocol layers lay over it, and the link to the next segment of a
//! multi-segment packet.

use vstd::prelude::*;
use crate::error::NetError;
use crate::rawbuf::{RawBuf, RawBufRef};

verus! {

/// A packet buffer.
///
/// `data` owns the bytes. `phy` is the view of the whole frame, `nh` the view
/// behind the link-layer header and `th` the view behind the network header.
/// Each of the four is set at most once. `next` owns the segment that is sent
/// after this one.
#[derive(Debug)]
pub struct SkBuff {
    pub next: Option<Box<SkBuff>>,
    pub data: Option<RawBuf>,
    pub th: Option<RawBufRef>,
    pub nh: Option<RawBufRef>,
    pub phy: Option<RawBufRef>,
}

/// Assembles packet buffers step by step.
pub struct SkBuffBuilder {}

impl Default for SkBuff {
    /// A buffer with nothing set.
    fn default() -> (skb: SkBuff)
        ensures
            skb.next is None,
            skb.data is None,
            skb.th is None,
            skb.nh is None,
            skb.phy is None,
    {
        SkBuff { next: None, data: None, th: None, nh: None, phy: None }
    }
}

impl SkBuff {
    /// Whether this segment can be sent: it owns bytes and its physical-layer
    /// view lies inside them.
    pub open spec fn sendable(&self) -> bool {
        self.data is Some && self.phy is Some && self.phy.unwrap().within(self.data.unwrap())
    }

    /// The bytes of this segment that go on the wire: those under the
    /// physical-layer view.
    pub open spec fn segment(&self) -> Seq<u8>
        recommends
            self.sendable(),
    {
        self.phy.unwrap().bytes_of(self.data.unwrap())
    }

    /// Whether every segment of the chain can be sent.
    pub open spec fn chain_sendable(&self) -> bool
        decreases self,
    {
        self.sendable() && match self.next {
            Some(next) => next.chain_sendable(),
            None => true,
        }
    }

    /// The segments of the chain in the order of transmission, head first.
    pub open spec fn chain(&self) -> Seq<Seq<u8>>
        decreases self,
    {
        match self.next {
            Some(next) => seq![self.segment()] + next.chain(),
            None => seq![self.segment()],
        }
    }

    /// A buffer that owns `capacity` zero bytes, with the physical-layer view
    /// over all of them.
    pub fn with_capacity(capacity: usize) -> (skb: SkBuff)
        ensures
            skb.data is Some,
            skb.data.unwrap()@ == Seq::new(capacity as nat, |i: int| 0u8),
            skb.phy is Some,
            skb.phy.unwrap().spec_start() == 0,
            skb.phy.unwrap().spec_rem_len() == capacity,
            skb.nh is None,
            skb.th is None,
            skb.next is None,
            skb.sendable(),
    {
        let data = RawBuf::with_capacity(capacity);
        let phy = data.to_ref();
        SkBuff { next: None, data: Some(data), th: None, nh: None, phy: Some(phy) }
    }

    /// A buffer that owns a copy of a received frame, with the physical-layer
    /// view over all of it.
    pub fn from_received(bytes: &[u8]) -> (skb: SkBuff)
        ensures
            skb.data is Some,
            skb.data.unwrap()@ == bytes@,
            skb.phy is Some,
            skb.phy.unwrap().spec_start() == 0,
            skb.phy.unwrap().spec_rem_len() == bytes@.len(),
            skb.nh is None,
            skb.th is None,
            skb.next is None,
            skb.sendable(),
            skb.segment() == bytes@,
    {
        let data = RawBuf::new_from_slice(bytes);
        let phy = data.to_ref();
        assert(bytes@.subrange(0, bytes@.len() as int) =~= bytes@);
        SkBuff { next: None, data: Some(data), th: None, nh: None, phy: Some(phy) }
    }

    /// Hands the buffer its bytes. Fails, changing nothing, if it owns some
    /// already.
    pub fn set_data(&mut self, data: RawBuf) -> (r: Result<(), NetError>)
        ensures
            old(self).data is Some ==> r == Err::<(), NetError>(NetError::ViewAlreadySet)
                && *final(self) == *old(self),
            old(self).data is None ==> r is Ok && final(self).data == Some(data) && final(self).phy
                == old(self).phy && final(self).nh == old(self).nh && final(self).th == old(
                self,
            ).th && final(self).next == old(self).next,
    {
        if self.data.is_some() {
            return Err(NetError::ViewAlreadySet);
        }
        self.data = Some(data);
        Ok(())
    }

    /// Sets the physical-layer view. Fails, changing nothing, if it is set
    /// already.
    pub fn set_phy(&mut self, view: RawBufRef) -> (r: Result<(), NetError>)
        ensures
            old(self).phy is Some ==> r == Err::<(), NetError>(NetError::ViewAlreadySet)
                && *final(self) == *old(self),
            old(self).phy is None ==> r is Ok && final(self).phy == Some(view) && final(self).data
                == old(self).data && final(self).nh == old(self).nh && final(self).th == old(
                self,
            ).th && final(self).next == old(self).next,
    {
        if self.phy.is_some() {
            return Err(NetError::ViewAlreadySet);
        }
        self.phy = Some(view);
        Ok(())
    }

    /// Sets the network-header view. Fails, changing nothing, if it is set
    /// already.
    pub fn set_nh(&mut self, view: RawBufRef) -> (r: Result<(), NetError>)
        ensures
            old(self).nh is Some ==> r == Err::<(), NetError>(NetError::ViewAlreadySet)
                && *final(self) == *old(self),
            old(self).nh is None ==> r is Ok && final(self).nh == Some(view) && final(self).data
                == old(self).data && final(self).phy == old(self).phy && final(self).th == old(
                self,
            ).th && final(self).next == old(self).next,
    {
        if self.nh.is_some() {
            return Err(NetError::ViewAlreadySet);
        }
        self.nh = Some(view);
        Ok(())
    }

    /// Sets the transport-header view. Fails, changing nothing, if it is set
    /// already.
    pub fn set_th(&mut self, view: RawBufRef) -> (r: Result<(), NetError>)
        ensures
            old(self).th is Some ==> r == Err::<(), NetError>(NetError::ViewAlreadySet)
                && *final(self) == *old(self),
            old(self).th is None ==> r is Ok && final(self).th == Some(view) && final(self).data
                == old(self).data && final(self).phy == old(self).phy && final(self).nh == old(
                self,
            ).nh && final(self).next == old(self).next,
    {
        if self.th.is_some() {
            return Err(NetError::ViewAlreadySet);
        }
        self.th = Some(view);
        Ok(())
    }

    /// Puts `head` in front of the chain `tail`: `head` is sent first.
    pub fn chained(head: SkBuff, tail: SkBuff) -> (skb: SkBuff)
        requires
            head.next is None,
        ensures
            skb.chain() == seq![head.segment()] + tail.chain(),
            skb.chain_sendable() == (head.sendable() && tail.chain_sendable()),
            skb.data == head.data,
            skb.phy == head.phy,
            skb.nh == head.nh,
            skb.th == head.th,
    {
        let mut skb = head;
        skb.next = Some(Box::new(tail));
        skb
    }

    /// Whether this segment can be sent.
    pub fn is_sendable(&self) -> (r: bool)
        ensures
            r == self.sendable(),
    {
        match (&self.data, &self.phy) {
            (Some(data), Some(phy)) => phy.is_within(data),
            _ => false,
        }
    }

    /// Whether every segment of the chain can be sent.
    pub fn is_chain_sendable(&self) -> (r: bool)
        ensures
            r == self.chain_sendable(),
    {
        let mut cur = self;
        loop
            invariant
                self.chain_sendable() == cur.chain_sendable(),
            decreases cur,
        {
            if !cur.is_sendable() {
                return false;
            }
            match &cur.next {
                Some(next) => {
                    cur = &**next;
                },
                None => {
                    return true;
                },
            }
        }
    }

    /// Number of segments of the chain.
    pub fn chain_len(&self) -> (n: usize)
        requires
            self.chain().len() <= usize::MAX,
        ensures
            n == self.chain().len(),
    {
        let mut n: usize = 1;
        let mut cur = self;
        proof {
            cur.lemma_chain_len();
        }
        loop
            invariant
                self.chain().len() <= usize::MAX,
                n + cur.chain().len() == self.chain().len() + 1,
                cur.chain().len() >= 1,
            decreases cur,
        {
            match &cur.next {
                Some(next) => {
                    proof {
                        next.lemma_chain_len();
                    }
                    cur = &**next;
                    n += 1;
                },
                None => {
                    return n;
                },
            }
        }
    }

    /// A chain has at least one segment.
    pub proof fn lemma_chain_len(&self)
        ensures
            self.chain().len() >= 1,
            self.next is None ==> self.chain().len() == 1,
            self.next is Some ==> self.chain().len() == 1 + self.next.unwrap().chain().len(),
        decreases self,
    {
        match self.next {
            Some(next) => {
                next.lemma_chain_len();
            },
            None => {},
        }
    }
}

} // verus!
