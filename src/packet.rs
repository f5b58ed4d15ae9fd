use vstd::prelude::*;

verus! {

/// The header fields of an IPv4 packet that the simulation reads and writes.
#[derive(Clone, Copy, Debug, PartialEq, Eq, Structural)]
pub struct Ipv4Fields {
    pub source_ip: u32,
    pub dest_ip: u32,
    pub ttl: u8,
}

/// The mathematical value of a packet: its header fields and its payload bytes.
pub struct PacketView {
    pub fields: Ipv4Fields,
    pub payload: Seq<u8>,
}

impl PacketView {
    /// The same packet with its time-to-live replaced by `ttl`.
    pub open spec fn with_ttl(self, ttl: u8) -> PacketView {
        PacketView { fields: Ipv4Fields { ttl, ..self.fields }, payload: self.payload }
    }

    /// A packet whose time-to-live cannot be decremented any further.
    pub open spec fn is_expired(self) -> bool {
        self.fields.ttl == 0
    }

    /// The packet as it leaves a hop: one less time-to-live, everything else kept.
    pub open spec fn after_hop(self) -> PacketView
        recommends
            !self.is_expired(),
    {
        self.with_ttl((self.fields.ttl - 1) as u8)
    }
}

/// An IPv4 packet owned by whichever party currently holds it.
#[derive(Debug)]
pub struct Ipv4Packet {
    fields: Ipv4Fields,
    payload: Vec<u8>,
}

impl View for Ipv4Packet {
    type V = PacketView;

    closed spec fn view(&self) -> PacketView {
        PacketView { fields: self.fields, payload: self.payload@ }
    }
}

/// The values of a sequence of packets.
pub open spec fn packet_views(s: Seq<Ipv4Packet>) -> Seq<PacketView> {
    s.map_values(|p: Ipv4Packet| p@)
}

impl Ipv4Packet {
    /// Builds a packet from its header fields and payload.
    pub fn new(fields: Ipv4Fields, payload: Vec<u8>) -> (r: Ipv4Packet)
        ensures
            r@ == (PacketView { fields, payload: payload@ }),
    {
        Ipv4Packet { fields, payload }
    }

    /// The packet's time-to-live.
    pub fn ttl(&self) -> (r: u8)
        ensures
            r == self@.fields.ttl,
    {
        self.fields.ttl
    }

    /// A snapshot of the packet's header fields.
    pub fn fields(&self) -> (r: Ipv4Fields)
        ensures
            r == self@.fields,
    {
        self.fields
    }

    /// Replaces the packet's header fields, keeping its payload.
    pub fn set_fields(&mut self, fields: Ipv4Fields)
        ensures
            final(self)@ == (PacketView { fields, payload: old(self)@.payload }),
    {
        self.fields = fields;
    }

    /// The packet's payload bytes.
    pub fn payload(&self) -> (r: &[u8])
        ensures
            r@ == self@.payload,
    {
        self.payload.as_slice()
    }

    /// Applies one hop to the packet. A packet whose time-to-live is already zero cannot be
    /// decremented: it comes back unchanged as `Err`. Any other packet comes back as `Ok` with
    /// its time-to-live one less and every other field kept.
    pub fn decrement_ttl(self) -> (r: Result<Ipv4Packet, Ipv4Packet>)
        ensures
            self@.is_expired() <==> r is Err,
            r matches Ok(p) ==> p@ == self@.after_hop(),
            r matches Err(p) ==> p@ == self@,
    {
        let mut packet = self;
        match packet.ttl().checked_sub(1) {
            Some(next_ttl) => {
                let fields = packet.fields();
                packet.set_fields(Ipv4Fields { ttl: next_ttl, ..fields });
                Ok(packet)
            },
            None => Err(packet),
        }
    }
}

} // verus!
