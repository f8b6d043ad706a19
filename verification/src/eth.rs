//! Link output: which bytes go to the socket, in which order, and what
//! follows each answer of the socket.

use vstd::prelude::*;
use crate::dev::NetDevice;
use crate::error::NetError;
use crate::skbuff::SkBuff;

verus! {

/// A place in the transmission of a chain: the segment being sent and how
/// many of its bytes the socket has taken.
#[derive(Clone, Copy, Debug, PartialEq, Eq, Structural)]
pub struct LinkCursor {
    pub segment: usize,
    pub offset: usize,
}

/// What the sender does next.
#[derive(Clone, Copy, Debug, PartialEq, Eq, Structural)]
pub enum LinkAction {
    /// Hand the socket the bytes of the segment from the offset on.
    Transmit(LinkCursor),
    /// Every segment was sent in full.
    Finished,
    /// The socket failed: the rest of the chain is not sent.
    Abort(NetError),
}

/// The action that follows when the socket took `n` bytes at `at`, for
/// segments of the lengths `lens`: the rest of a segment sent in part, else
/// the next segment from its start, else nothing more.
pub open spec fn link_next(lens: Seq<nat>, at: LinkCursor, n: nat) -> LinkAction {
    if at.offset + n < lens[at.segment as int] {
        LinkAction::Transmit(LinkCursor { segment: at.segment, offset: (at.offset + n) as usize })
    } else if at.segment + 1 < lens.len() {
        LinkAction::Transmit(LinkCursor { segment: (at.segment + 1) as usize, offset: 0 })
    } else {
        LinkAction::Finished
    }
}

/// The places at which the socket is called, from the start of segment `i`
/// on, when it takes every segment whole.
pub open spec fn whole_writes(lens: Seq<nat>, i: usize) -> Seq<LinkCursor>
    decreases lens.len() - i,
{
    if i >= lens.len() {
        Seq::empty()
    } else {
        let here = LinkCursor { segment: i, offset: 0 };
        match link_next(lens, here, lens[i as int]) {
            LinkAction::Transmit(next) if next.segment > i => seq![here] + whole_writes(
                lens,
                next.segment,
            ),
            _ => seq![here],
        }
    }
}

/// The lengths of the segments.
pub open spec fn lengths(segments: Seq<Vec<u8>>) -> Seq<nat> {
    Seq::new(segments.len(), |i: int| segments[i]@.len())
}

/// A socket that takes every segment whole is called once for each segment,
/// in the order of the chain, from the start of the segment.
pub proof fn lemma_whole_writes(lens: Seq<nat>, i: usize)
    requires
        i <= lens.len() <= usize::MAX,
    ensures
        whole_writes(lens, i).len() == lens.len() - i,
        forall|k: int|
            0 <= k < lens.len() - i ==> #[trigger] whole_writes(lens, i)[k] == (LinkCursor {
                segment: (i + k) as usize,
                offset: 0,
            }),
    decreases lens.len() - i,
{
    if i < lens.len() {
        if i + 1 < lens.len() {
            lemma_whole_writes(lens, (i + 1) as usize);
            let rest = whole_writes(lens, (i + 1) as usize);
            let here = LinkCursor { segment: i, offset: 0 };
            assert(whole_writes(lens, i) == seq![here] + rest);
            assert forall|k: int| 0 <= k < lens.len() - i implies #[trigger] whole_writes(
                lens,
                i,
            )[k] == (LinkCursor { segment: (i + k) as usize, offset: 0 }) by {
                if k > 0 {
                    assert(whole_writes(lens, i)[k] == rest[k - 1]);
                }
            }
        }
    }
}

impl NetDevice {
    /// The byte strings that the chain puts on the wire, head first: for each
    /// segment the bytes under its physical-layer view.
    pub fn linkoutput(&self, skb: &SkBuff) -> (segments: Vec<Vec<u8>>)
        requires
            skb.chain_sendable(),
        ensures
            segments@.len() == skb.chain().len(),
            forall|i: int| 0 <= i < segments@.len() ==> (#[trigger] segments@[i])@ == skb.chain()[i],
    {
        let mut segments: Vec<Vec<u8>> = Vec::new();
        let mut cur = skb;
        loop
            invariant
                cur.chain_sendable(),
                skb.chain().len() == segments@.len() + cur.chain().len(),
                forall|i: int|
                    0 <= i < segments@.len() ==> (#[trigger] segments@[i])@ == skb.chain()[i],
                forall|i: int|
                    0 <= i < cur.chain().len() ==> #[trigger] cur.chain()[i] == skb.chain()[
                        segments@.len() + i],
            decreases cur,
        {
            proof {
                cur.lemma_chain_len();
            }
            let bytes = match (&cur.phy, &cur.data) {
                (Some(phy), Some(data)) => phy.cur_slice(data),
                _ => Vec::new(),
            };
            assert(bytes@ == cur.chain()[0]);
            let ghost sent = segments@.len();
            segments.push(bytes);
            match &cur.next {
                Some(next) => {
                    proof {
                        next.lemma_chain_len();
                        assert forall|i: int| 0 <= i < next.chain().len() implies #[trigger] next.chain()[i]
                            == skb.chain()[segments@.len() + i] by {
                            assert(next.chain()[i] == cur.chain()[i + 1]);
                        }
                    }
                    cur = &**next;
                },
                None => {
                    return segments;
                },
            }
        }
    }

    /// The first action of a transmission: the first segment from its start.
    pub fn link_begin(&self, segments: &Vec<Vec<u8>>) -> (action: LinkAction)
        ensures
            segments@.len() == 0 ==> action == LinkAction::Finished,
            segments@.len() > 0 ==> action == LinkAction::Transmit(
                LinkCursor { segment: 0, offset: 0 },
            ),
    {
        if segments.len() == 0 {
            LinkAction::Finished
        } else {
            LinkAction::Transmit(LinkCursor { segment: 0, offset: 0 })
        }
    }

    /// The action that follows the answer of the socket to a transmission at
    /// `at`.
    ///
    /// A failure aborts the whole chain with the error number of the socket.
    /// A short write is followed by the rest of the same segment; a segment
    /// sent in full by the next one, until the chain ends.
    pub fn link_sent(
        &self,
        segments: &Vec<Vec<u8>>,
        at: LinkCursor,
        sent: Result<usize, i32>,
    ) -> (action: LinkAction)
        requires
            at.segment < segments@.len(),
            at.offset <= segments@[at.segment as int]@.len(),
        ensures
            sent is Err ==> action == LinkAction::Abort(NetError::SocketError(sent->Err_0)),
            sent is Ok ==> action == link_next(lengths(segments@), at, sent->Ok_0 as nat),
            action matches LinkAction::Transmit(next) ==> next.segment < segments@.len()
                && next.offset <= segments@[next.segment as int]@.len(),
    {
        let n = match sent {
            Ok(n) => n,
            Err(errno) => {
                return LinkAction::Abort(NetError::SocketError(errno));
            },
        };
        let count = segments.len();
        let len = segments[at.segment].len();
        if n < len - at.offset {
            LinkAction::Transmit(LinkCursor { segment: at.segment, offset: at.offset + n })
        } else if at.segment + 1 < count {
            LinkAction::Transmit(LinkCursor { segment: at.segment + 1, offset: 0 })
        } else {
            LinkAction::Finished
        }
    }
}

} // verus!
