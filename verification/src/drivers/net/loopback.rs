//! The loopback network device: every frame sent is received again, in the
//! order in which frames were sent.
//!
//! A receive token reserves the frame at the front of the queue: the device
//! only hands out a receive token while more frames wait than are reserved,
//! so that each token finds a frame when it is consumed.

use std::collections::VecDeque;

use vstd::prelude::*;

verus! {

/// The loopback device: the frames waiting to be received, and how many of
/// them receive tokens have reserved.
pub struct LoopbackDriver {
    queue: VecDeque<Vec<u8>>,
    reserved_receives: usize,
}

/// What the loopback device holds.
pub struct LoopbackView {
    /// The frames waiting, first sent first.
    pub queue: Seq<Seq<u8>>,
    /// How many of them receive tokens have reserved.
    pub reserved: nat,
}

/// The bytes of each frame.
pub open spec fn frame_views(q: Seq<Vec<u8>>) -> Seq<Seq<u8>> {
    q.map_values(|f: Vec<u8>| f@)
}

impl View for LoopbackDriver {
    type V = LoopbackView;

    closed spec fn view(&self) -> LoopbackView {
        LoopbackView { queue: frame_views(self.queue@), reserved: self.reserved_receives as nat }
    }
}

impl LoopbackDriver {
    /// Every reservation is backed by a waiting frame.
    pub open spec fn wf(&self) -> bool {
        self@.reserved <= self@.queue.len()
    }

    /// A device with no frame waiting.
    pub fn new() -> (r: LoopbackDriver)
        ensures
            r.wf(),
            r@.queue == Seq::<Seq<u8>>::empty(),
            r@.reserved == 0,
    {
        let d = LoopbackDriver { queue: VecDeque::new(), reserved_receives: 0 };
        assert(frame_views(d.queue@) =~= Seq::<Seq<u8>>::empty());
        d
    }

    /// Sends a frame: it waits behind the frames sent before.
    pub fn send(&mut self, frame: Vec<u8>)
        requires
            old(self).wf(),
        ensures
            final(self).wf(),
            final(self)@.queue == old(self)@.queue.push(frame@),
            final(self)@.reserved == old(self)@.reserved,
    {
        let ghost before = self.queue@;
        self.queue.push_back(frame);
        assert(frame_views(self.queue@) =~= frame_views(before).push(frame@));
    }

    /// Reserves a frame for a receive token, where more frames wait than are
    /// reserved; otherwise there is nothing to receive.
    pub fn reserve_receive(&mut self) -> (r: bool)
        requires
            old(self).wf(),
        ensures
            final(self).wf(),
            r == (old(self)@.queue.len() > old(self)@.reserved),
            final(self)@.queue == old(self)@.queue,
            final(self)@.reserved == old(self)@.reserved + (if r {
                1nat
            } else {
                0nat
            }),
    {
        if self.queue.len() <= self.reserved_receives {
            return false;
        }
        self.reserved_receives = self.reserved_receives + 1;
        true
    }

    /// Consumes a receive token: the frame at the front of the queue, the
    /// first one sent, is received and its reservation ends.
    pub fn receive_reserved(&mut self) -> (frame: Vec<u8>)
        requires
            old(self).wf(),
            old(self)@.reserved > 0,
        ensures
            final(self).wf(),
            frame@ == old(self)@.queue[0],
            final(self)@.queue == old(self)@.queue.drop_first(),
            final(self)@.reserved == old(self)@.reserved - 1,
    {
        let ghost before = self.queue@;
        let f = self.queue.pop_front();
        self.reserved_receives = self.reserved_receives - 1;
        match f {
            Some(frame) => {
                assert(frame_views(self.queue@) =~= frame_views(before).drop_first());
                frame
            },
            None => {
                proof {
                    assert(false);
                }
                Vec::new()
            },
        }
    }

    /// Drops a receive token without consuming it: its reservation ends.
    pub fn release_receive(&mut self)
        requires
            old(self).wf(),
            old(self)@.reserved > 0,
        ensures
            final(self).wf(),
            final(self)@.queue == old(self)@.queue,
            final(self)@.reserved == old(self)@.reserved - 1,
    {
        self.reserved_receives = self.reserved_receives - 1;
    }

    /// Whether a frame waits.
    pub fn has_packet(&self) -> (r: bool)
        ensures
            r == (self@.queue.len() > 0),
    {
        self.queue.len() > 0
    }

    /// The loopback device's MAC address is all zeros.
    pub fn get_mac_address(&self) -> (r: [u8; 6])
        ensures
            r@ == seq![0u8, 0u8, 0u8, 0u8, 0u8, 0u8],
    {
        let r = [0u8; 6];
        assert(r@ =~= seq![0u8, 0u8, 0u8, 0u8, 0u8, 0u8]);
        r
    }

    /// The largest frame the device takes.
    pub fn mtu(&self) -> (r: u16)
        ensures
            r == u16::MAX,
    {
        u16::MAX
    }
}

/// Sending a frame does not change which frame is received next: frames are
/// received in the order in which they were sent.
pub proof fn lemma_send_keeps_order(queue: Seq<Seq<u8>>, frame: Seq<u8>)
    requires
        queue.len() > 0,
    ensures
        queue.push(frame)[0] == queue[0],
        queue.push(frame).drop_first() == queue.drop_first().push(frame),
{
    assert(queue.push(frame).drop_first() =~= queue.drop_first().push(frame));
}

/// A frame sent to an idle device is the next one received.
pub proof fn lemma_send_then_receive(frame: Seq<u8>)
    ensures
        Seq::<Seq<u8>>::empty().push(frame)[0] == frame,
        Seq::<Seq<u8>>::empty().push(frame).drop_first() == Seq::<Seq<u8>>::empty(),
{
    assert(Seq::<Seq<u8>>::empty().push(frame).drop_first() =~= Seq::<Seq<u8>>::empty());
}

} // verus!
