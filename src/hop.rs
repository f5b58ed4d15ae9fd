use crate::packet::{Ipv4Fields, Ipv4Packet, PacketView};
use crate::plug::{Async, Ipv4Plug, Ipv4Receiver, Ipv4Sender, ReceiverView, SenderView};
use vstd::prelude::*;

verus! {

/// A side of a hop.
#[derive(Clone, Copy, Debug, PartialEq, Eq, Structural)]
pub enum Side {
    A,
    B,
}

/// A diagnostic record of a packet that a hop discarded because its time-to-live was
/// exhausted: the side it arrived on and its header fields.
#[derive(Clone, Copy, Debug, PartialEq, Eq, Structural)]
pub struct ExpiryEvent {
    pub side: Side,
    pub fields: Ipv4Fields,
}

/// The packets that survive one hop, in their original order, each with one less
/// time-to-live.
pub open spec fn forwarded(s: Seq<PacketView>) -> Seq<PacketView>
    decreases s.len(),
{
    if s.len() == 0 {
        Seq::empty()
    } else {
        let rest = forwarded(s.drop_last());
        if s.last().is_expired() {
            rest
        } else {
            rest.push(s.last().after_hop())
        }
    }
}

/// One diagnostic record for each packet of `s` that a hop discards, in order.
pub open spec fn expiries(s: Seq<PacketView>, side: Side) -> Seq<ExpiryEvent>
    decreases s.len(),
{
    if s.len() == 0 {
        Seq::empty()
    } else {
        let rest = expiries(s.drop_last(), side);
        if s.last().is_expired() {
            rest.push(ExpiryEvent { side, fields: s.last().fields })
        } else {
            rest
        }
    }
}

/// A packet that can still be decremented crosses a hop as a single packet that is identical
/// but for a time-to-live one less, and leaves no diagnostic record.
pub proof fn lemma_ttl_decrement(p: PacketView, side: Side)
    requires
        !p.is_expired(),
    ensures
        forwarded(seq![p]) == seq![p.after_hop()],
        expiries(seq![p], side) == Seq::<ExpiryEvent>::empty(),
        p.after_hop().fields.ttl == p.fields.ttl - 1,
        p.after_hop().fields.source_ip == p.fields.source_ip,
        p.after_hop().fields.dest_ip == p.fields.dest_ip,
        p.after_hop().payload == p.payload,
{
    assert(seq![p].drop_last() =~= Seq::<PacketView>::empty());
    assert(seq![p].last() == p);
    assert(forwarded(Seq::<PacketView>::empty()) == Seq::<PacketView>::empty());
    assert(expiries(Seq::<PacketView>::empty(), side) == Seq::<ExpiryEvent>::empty());
    assert(Seq::<PacketView>::empty().push(p.after_hop()) =~= seq![p.after_hop()]);
}

/// A packet whose time-to-live cannot be decremented produces nothing on the far side and
/// exactly one diagnostic record, which names its side and fields.
pub proof fn lemma_expiry_drop(p: PacketView, side: Side)
    requires
        p.is_expired(),
    ensures
        forwarded(seq![p]) == Seq::<PacketView>::empty(),
        expiries(seq![p], side) == seq![ExpiryEvent { side, fields: p.fields }],
{
    assert(seq![p].drop_last() =~= Seq::<PacketView>::empty());
    assert(seq![p].last() == p);
    assert(forwarded(Seq::<PacketView>::empty()) == Seq::<PacketView>::empty());
    assert(expiries(Seq::<PacketView>::empty(), side) == Seq::<ExpiryEvent>::empty());
    assert(Seq::<ExpiryEvent>::empty().push(ExpiryEvent { side, fields: p.fields }) =~= seq![
        ExpiryEvent { side, fields: p.fields },
    ]);
}

/// Of a batch of packets crossing a hop, each one is either forwarded or recorded as
/// discarded, never both and never neither.
pub proof fn lemma_every_packet_accounted(s: Seq<PacketView>, side: Side)
    ensures
        forwarded(s).len() + expiries(s, side).len() == s.len(),
    decreases s.len(),
{
    if s.len() > 0 {
        lemma_every_packet_accounted(s.drop_last(), side);
    }
}

/// Packets that all survive a hop come out in the order they went in, each with one less
/// time-to-live.
pub proof fn lemma_order_preserved(s: Seq<PacketView>)
    requires
        forall|i: int| 0 <= i < s.len() ==> !(#[trigger] s[i]).is_expired(),
    ensures
        forwarded(s).len() == s.len(),
        forall|i: int| 0 <= i < s.len() ==> #[trigger] forwarded(s)[i] == s[i].after_hop(),
    decreases s.len(),
{
    if s.len() > 0 {
        let init = s.drop_last();
        assert forall|i: int| 0 <= i < init.len() implies !(#[trigger] init[i]).is_expired() by {
            assert(init[i] == s[i]);
        }
        lemma_order_preserved(init);
        assert(!s[s.len() - 1].is_expired());
        assert forall|i: int| 0 <= i < s.len() implies #[trigger] forwarded(s)[i] == s[i].after_hop() by {
            if i < s.len() - 1 {
                assert(forwarded(s)[i] == forwarded(init)[i]);
                assert(init[i] == s[i]);
            }
        }
    }
}

/// Connects two plugs and adds a hop between them: every packet travelling along the
/// connection has its time-to-live decremented, and is dropped if it cannot be.
#[derive(Debug)]
pub struct HopV4 {
    plug_a: Ipv4Plug,
    plug_b: Ipv4Plug,
    expired: Vec<ExpiryEvent>,
}

/// Moves every packet waiting on `rx` to `tx`, oldest first, applying one hop to each;
/// packets that cannot be decremented are recorded in `log` and dropped. Returns whether
/// `rx` is closed for good.
fn drain(rx: &mut Ipv4Receiver, tx: &mut Ipv4Sender, side: Side, log: &mut Vec<ExpiryEvent>) -> (closed: bool)
    ensures
        closed == old(rx)@.closed,
        final(rx)@ == (ReceiverView { pending: Seq::<PacketView>::empty(), closed: old(rx)@.closed }),
        final(tx)@ == old(tx)@.after_sending(forwarded(old(rx)@.pending)),
        final(log)@ == old(log)@ + expiries(old(rx)@.pending, side),
{
    let ghost all = rx@.pending;
    let ghost tx0 = tx@;
    let ghost log0 = log@;
    loop
        invariant
            all == old(rx)@.pending,
            tx0 == old(tx)@,
            log0 == old(log)@,
            rx@.closed == old(rx)@.closed,
            rx@.pending.len() <= all.len(),
            rx@.pending == all.subrange(all.len() - rx@.pending.len(), all.len() as int),
            tx@ == tx0.after_sending(forwarded(all.subrange(0, all.len() - rx@.pending.len()))),
            log@ == log0 + expiries(all.subrange(0, all.len() - rx@.pending.len()), side),
        decreases rx@.pending.len(),
    {
        let ghost done = all.subrange(0, all.len() - rx@.pending.len());
        match rx.poll() {
            Async::NotReady => {
                assert(done =~= all);
                assert(rx@.pending =~= Seq::<PacketView>::empty());
                return false;
            },
            Async::Ready(None) => {
                assert(done =~= all);
                assert(rx@.pending =~= Seq::<PacketView>::empty());
                return true;
            },
            Async::Ready(Some(packet)) => {
                let ghost p = packet@;
                let ghost next = all.subrange(0, all.len() - rx@.pending.len());
                assert(next.drop_last() =~= done);
                assert(next.last() == p);
                match packet.decrement_ttl() {
                    Ok(survivor) => {
                        let _ = tx.unbounded_send(survivor);
                        assert(tx@ == tx0.after_sending(forwarded(next))) by {
                            assert(forwarded(next) == forwarded(done).push(p.after_hop()));
                            assert(forwarded(done) + seq![p.after_hop()] =~= forwarded(done).push(p.after_hop()));
                            assert(tx0.delivered + forwarded(done) + seq![p.after_hop()] =~= tx0.delivered + forwarded(next));
                        }
                    },
                    Err(dropped) => {
                        log.push(ExpiryEvent { side, fields: dropped.fields() });
                        assert(log@ =~= log0 + expiries(next, side));
                    },
                }
            },
        }
    }
}

impl HopV4 {
    /// Creates a hop connecting the two given plugs.
    pub fn new(plug_a: Ipv4Plug, plug_b: Ipv4Plug) -> (r: HopV4)
        ensures
            r.plug_a() == plug_a,
            r.plug_b() == plug_b,
            r.expired_events() == Seq::<ExpiryEvent>::empty(),
    {
        HopV4 { plug_a, plug_b, expired: Vec::new() }
    }

    /// The plug on side A.
    pub closed spec fn plug_a(self) -> Ipv4Plug {
        self.plug_a
    }

    /// The plug on side B.
    pub closed spec fn plug_b(self) -> Ipv4Plug {
        self.plug_b
    }

    /// The diagnostic records of discarded packets not yet taken, oldest first.
    pub closed spec fn expired_events(self) -> Seq<ExpiryEvent> {
        self.expired@
    }

    /// Side A's plug, for the link's far end to send, close, take or disconnect.
    pub fn plug_a_mut(&mut self) -> (r: &mut Ipv4Plug)
        ensures
            *r == old(self).plug_a(),
            final(self).plug_a() == *final(r),
            final(self).plug_b() == old(self).plug_b(),
            final(self).expired_events() == old(self).expired_events(),
    {
        &mut self.plug_a
    }

    /// Side B's plug, for the link's far end to send, close, take or disconnect.
    pub fn plug_b_mut(&mut self) -> (r: &mut Ipv4Plug)
        ensures
            *r == old(self).plug_b(),
            final(self).plug_b() == *final(r),
            final(self).plug_a() == old(self).plug_a(),
            final(self).expired_events() == old(self).expired_events(),
    {
        &mut self.plug_b
    }

    /// Takes the diagnostic records of the packets discarded so far, oldest first.
    pub fn take_expired(&mut self) -> (r: Vec<ExpiryEvent>)
        ensures
            r@ == old(self).expired_events(),
            final(self).expired_events() == Seq::<ExpiryEvent>::empty(),
            final(self).plug_a() == old(self).plug_a(),
            final(self).plug_b() == old(self).plug_b(),
    {
        let mut taken: Vec<ExpiryEvent> = Vec::new();
        std::mem::swap(&mut taken, &mut self.expired);
        assert(self.expired@ =~= Seq::<ExpiryEvent>::empty());
        taken
    }

    /// Gives back the two plugs, side A first.
    pub fn into_plugs(self) -> (r: (Ipv4Plug, Ipv4Plug))
        ensures
            r == (self.plug_a(), self.plug_b()),
    {
        (self.plug_a, self.plug_b)
    }

    /// Relays every packet now waiting on either side to the other side, A first, applying
    /// one hop to each and recording each packet that had to be discarded. The hop is
    /// complete, `Ready`, exactly when both sides are closed for good; otherwise it is
    /// `NotReady` and wants to be polled again when either side has news.
    pub fn poll(&mut self) -> (r: Async<()>)
        ensures
            r is Ready <==> old(self).plug_a().rx@.closed && old(self).plug_b().rx@.closed,
            final(self).plug_a().rx@ == (ReceiverView {
                pending: Seq::<PacketView>::empty(),
                closed: old(self).plug_a().rx@.closed,
            }),
            final(self).plug_b().rx@ == (ReceiverView {
                pending: Seq::<PacketView>::empty(),
                closed: old(self).plug_b().rx@.closed,
            }),
            final(self).plug_b().tx@ == old(self).plug_b().tx@.after_sending(
                forwarded(old(self).plug_a().rx@.pending),
            ),
            final(self).plug_a().tx@ == old(self).plug_a().tx@.after_sending(
                forwarded(old(self).plug_b().rx@.pending),
            ),
            final(self).expired_events() == old(self).expired_events() + expiries(
                old(self).plug_a().rx@.pending,
                Side::A,
            ) + expiries(old(self).plug_b().rx@.pending, Side::B),
    {
        let a_unplugged = drain(&mut self.plug_a.rx, &mut self.plug_b.tx, Side::A, &mut self.expired);
        let b_unplugged = drain(&mut self.plug_b.rx, &mut self.plug_a.tx, Side::B, &mut self.expired);
        if a_unplugged && b_unplugged {
            Async::Ready(())
        } else {
            Async::NotReady
        }
    }
}

} // verus!
