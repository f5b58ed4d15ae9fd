use crate::packet::{packet_views, Ipv4Packet, PacketView};
use std::collections::VecDeque;
use vstd::prelude::*;

verus! {

/// The result of a non-blocking poll: a value now, or nothing yet.
#[derive(Debug)]
pub enum Async<T> {
    Ready(T),
    NotReady,
}

/// What the receive end of a link holds: the packets waiting to be read, in arrival order,
/// and whether the far end has closed the link for good.
pub struct ReceiverView {
    pub pending: Seq<PacketView>,
    pub closed: bool,
}

/// The receive end of a link: a queue of packets that the far end has sent.
#[derive(Debug)]
pub struct Ipv4Receiver {
    queue: VecDeque<Ipv4Packet>,
    closed: bool,
}

impl View for Ipv4Receiver {
    type V = ReceiverView;

    closed spec fn view(&self) -> ReceiverView {
        ReceiverView { pending: packet_views(self.queue@), closed: self.closed }
    }
}

impl Ipv4Receiver {
    /// An open receive end with nothing waiting.
    pub fn new() -> (r: Ipv4Receiver)
        ensures
            r@.pending == Seq::<PacketView>::empty(),
            !r@.closed,
    {
        let r = Ipv4Receiver { queue: VecDeque::new(), closed: false };
        assert(r@.pending =~= Seq::<PacketView>::empty());
        r
    }

    /// The far end sends a packet: it joins the back of the queue.
    pub fn push(&mut self, packet: Ipv4Packet)
        ensures
            final(self)@ == (ReceiverView {
                pending: old(self)@.pending.push(packet@),
                closed: old(self)@.closed,
            }),
    {
        self.queue.push_back(packet);
        assert(self@.pending =~= old(self)@.pending.push(packet@));
    }

    /// The far end closes the link for good; packets already waiting can still be read.
    pub fn close(&mut self)
        ensures
            final(self)@ == (ReceiverView { pending: old(self)@.pending, closed: true }),
    {
        self.closed = true;
    }

    /// Takes the next packet without blocking. `Ready(Some(_))` hands out the oldest waiting
    /// packet, `Ready(None)` says that nothing is waiting and the link is closed for good, and
    /// `NotReady` says that nothing is waiting yet.
    pub fn poll(&mut self) -> (r: Async<Option<Ipv4Packet>>)
        ensures
            final(self)@.closed == old(self)@.closed,
            match r {
                Async::Ready(Some(p)) => {
                    &&& old(self)@.pending.len() > 0
                    &&& p@ == old(self)@.pending[0]
                    &&& final(self)@.pending == old(self)@.pending.drop_first()
                },
                Async::Ready(None) => {
                    &&& old(self)@.pending.len() == 0
                    &&& old(self)@.closed
                    &&& final(self)@.pending == old(self)@.pending
                },
                Async::NotReady => {
                    &&& old(self)@.pending.len() == 0
                    &&& !old(self)@.closed
                    &&& final(self)@.pending == old(self)@.pending
                },
            },
    {
        match self.queue.pop_front() {
            Some(p) => {
                assert(self@.pending =~= old(self)@.pending.drop_first());
                Async::Ready(Some(p))
            },
            None => {
                if self.closed {
                    Async::Ready(None)
                } else {
                    Async::NotReady
                }
            },
        }
    }
}

/// What the send end of a link holds: the packets delivered to the far end and not yet taken
/// by it, in sending order, and whether the far end is still there to receive.
pub struct SenderView {
    pub delivered: Seq<PacketView>,
    pub connected: bool,
}

impl SenderView {
    /// The send end after `packets` were sent in order: delivered while the far end is
    /// connected, lost otherwise.
    pub open spec fn after_sending(self, packets: Seq<PacketView>) -> SenderView {
        if self.connected {
            SenderView { delivered: self.delivered + packets, connected: true }
        } else {
            self
        }
    }
}

/// The send end of a link: unbounded and best-effort.
#[derive(Debug)]
pub struct Ipv4Sender {
    delivered: Vec<Ipv4Packet>,
    connected: bool,
}

impl View for Ipv4Sender {
    type V = SenderView;

    closed spec fn view(&self) -> SenderView {
        SenderView { delivered: packet_views(self.delivered@), connected: self.connected }
    }
}

impl Ipv4Sender {
    /// A send end whose far end is connected and has received nothing.
    pub fn new() -> (r: Ipv4Sender)
        ensures
            r@.delivered == Seq::<PacketView>::empty(),
            r@.connected,
    {
        let r = Ipv4Sender { delivered: Vec::new(), connected: true };
        assert(r@.delivered =~= Seq::<PacketView>::empty());
        r
    }

    /// Sends a packet without blocking. While the far end is connected the packet is
    /// delivered; once it is gone the packet comes back as `Err`.
    pub fn unbounded_send(&mut self, packet: Ipv4Packet) -> (r: Result<(), Ipv4Packet>)
        ensures
            final(self)@ == old(self)@.after_sending(seq![packet@]),
            old(self)@.connected <==> r is Ok,
            r matches Err(p) ==> p == packet,
    {
        if self.connected {
            self.delivered.push(packet);
            assert(self@.delivered =~= old(self)@.delivered + seq![packet@]);
            Ok(())
        } else {
            Err(packet)
        }
    }

    /// Whether the far end is still there to receive.
    pub fn is_connected(&self) -> (r: bool)
        ensures
            r == self@.connected,
    {
        self.connected
    }

    /// The far end takes every packet delivered so far, oldest first.
    pub fn take_delivered(&mut self) -> (r: Vec<Ipv4Packet>)
        ensures
            packet_views(r@) == old(self)@.delivered,
            final(self)@ == (SenderView {
                delivered: Seq::<PacketView>::empty(),
                connected: old(self)@.connected,
            }),
    {
        let mut taken: Vec<Ipv4Packet> = Vec::new();
        std::mem::swap(&mut taken, &mut self.delivered);
        assert(self@.delivered =~= Seq::<PacketView>::empty());
        taken
    }

    /// The far end goes away: later sends fail, and what it had not taken is lost.
    pub fn disconnect(&mut self)
        ensures
            final(self)@ == (SenderView {
                delivered: Seq::<PacketView>::empty(),
                connected: false,
            }),
    {
        self.connected = false;
        self.delivered = Vec::new();
        assert(self@.delivered =~= Seq::<PacketView>::empty());
    }
}

/// One end of a virtual link, as seen by the device plugged into it: packets arrive on `rx`
/// and leave on `tx`.
#[derive(Debug)]
pub struct Ipv4Plug {
    pub rx: Ipv4Receiver,
    pub tx: Ipv4Sender,
}

impl Ipv4Plug {
    /// An open link end with no traffic yet.
    pub fn new() -> (r: Ipv4Plug)
        ensures
            r.rx@.pending == Seq::<PacketView>::empty(),
            !r.rx@.closed,
            r.tx@.delivered == Seq::<PacketView>::empty(),
            r.tx@.connected,
    {
        Ipv4Plug { rx: Ipv4Receiver::new(), tx: Ipv4Sender::new() }
    }
}

} // verus!
