//! Socket addresses as plain values, and their fixed-width wire form.
//!
//! On the wire an address is always 18 bytes: the port, least significant
//! byte first, followed by 16 address bytes. An IPv4 address travels as the
//! IPv4-mapped IPv6 address `::ffff:a.b.c.d`; the receiver turns every
//! address of that shape back into its IPv4 form.

use vstd::prelude::*;
use vstd::std_specs::cmp::PartialEqSpecImpl;

verus! {

/// Number of bytes an address occupies on the wire: 2 for the port, 16 for the IP.
pub const ADDRESS_WIRE_LEN: usize = 18;

/// An IP address held as its octets in network byte order.
#[derive(Clone, Copy, Debug, Hash)]
pub enum IpAddress {
    V4([u8; 4]),
    V6([u8; 16]),
}

/// An IP address together with a port.
#[derive(Clone, Copy, Debug, Hash)]
pub struct SocketAddress {
    pub ip: IpAddress,
    pub port: u16,
}

/// Whether 16 address bytes have the IPv4-mapped shape: ten zero bytes, then `ff ff`.
pub open spec fn is_v4_mapped(bytes: Seq<u8>) -> bool {
    &&& bytes.len() == 16
    &&& forall|i: int| 0 <= i < 10 ==> bytes[i] == 0
    &&& bytes[10] == 0xff
    &&& bytes[11] == 0xff
}

/// The 16 wire bytes that carry the IPv4 address `octets`.
pub open spec fn v4_mapped_wire(octets: Seq<u8>) -> Seq<u8> {
    seq![0u8, 0u8, 0u8, 0u8, 0u8, 0u8, 0u8, 0u8, 0u8, 0u8, 0xffu8, 0xffu8] + octets
}

/// The array holding the first four bytes of `s`.
pub open spec fn octets4(s: Seq<u8>) -> [u8; 4] {
    [s[0], s[1], s[2], s[3]]
}

/// The array holding the first sixteen bytes of `s`.
pub open spec fn octets16(s: Seq<u8>) -> [u8; 16] {
    [
        s[0],
        s[1],
        s[2],
        s[3],
        s[4],
        s[5],
        s[6],
        s[7],
        s[8],
        s[9],
        s[10],
        s[11],
        s[12],
        s[13],
        s[14],
        s[15],
    ]
}

/// The two bytes of a port on the wire, least significant first.
pub open spec fn port_wire(port: u16) -> Seq<u8> {
    seq![(port % 256) as u8, (port / 256) as u8]
}

/// The port that the wire bytes `lo`, `hi` stand for.
pub open spec fn port_from_wire(lo: u8, hi: u8) -> u16 {
    (lo + 256 * hi) as u16
}

impl IpAddress {
    /// The 16 bytes that stand for this address on the wire.
    pub open spec fn wire(self) -> Seq<u8> {
        match self {
            IpAddress::V4(o) => v4_mapped_wire(o@),
            IpAddress::V6(o) => o@,
        }
    }

    /// The address that 16 wire bytes stand for.
    pub open spec fn from_wire(bytes: Seq<u8>) -> IpAddress {
        if is_v4_mapped(bytes) {
            IpAddress::V4(octets4(bytes.subrange(12, 16)))
        } else {
            IpAddress::V6(octets16(bytes))
        }
    }

    /// The form in which this address comes out of a trip over the wire:
    /// an IPv6 address of the IPv4-mapped shape becomes the IPv4 address it
    /// embeds, every other address is unchanged.
    pub open spec fn canonical(self) -> IpAddress {
        IpAddress::from_wire(self.wire())
    }

    /// Whether this is an IPv6 address of the IPv4-mapped shape.
    pub open spec fn is_mapped_v6(self) -> bool {
        self matches IpAddress::V6(o) && is_v4_mapped(o@)
    }

    /// The IPv4 wildcard address `0.0.0.0`.
    pub fn unspecified() -> (r: IpAddress)
        ensures
            r == IpAddress::V4([0u8, 0u8, 0u8, 0u8]),
    {
        IpAddress::V4([0, 0, 0, 0])
    }

    /// The IPv4 loopback address `127.0.0.1`.
    pub fn localhost() -> (r: IpAddress)
        ensures
            r == IpAddress::V4([127u8, 0u8, 0u8, 1u8]),
    {
        IpAddress::V4([127, 0, 0, 1])
    }

    /// Whether this is an IPv4 address.
    pub fn is_ipv4(&self) -> (r: bool)
        ensures
            r == (*self is V4),
    {
        match self {
            IpAddress::V4(_) => true,
            IpAddress::V6(_) => false,
        }
    }

    /// Encodes the address into its 16 wire bytes.
    pub fn to_wire(&self) -> (r: [u8; 16])
        ensures
            r@ == self.wire(),
    {
        match self {
            IpAddress::V4(o) => {
                let r = [0, 0, 0, 0, 0, 0, 0, 0, 0, 0, 0xff, 0xff, o[0], o[1], o[2], o[3]];
                assert(r@ =~= v4_mapped_wire(o@));
                r
            },
            IpAddress::V6(o) => *o,
        }
    }

    /// Decodes 16 wire bytes, turning the IPv4-mapped shape back into IPv4.
    pub fn decode(bytes: &[u8; 16]) -> (r: IpAddress)
        ensures
            r == IpAddress::from_wire(bytes@),
    {
        if has_mapped_prefix(bytes) {
            let r = IpAddress::V4([bytes[12], bytes[13], bytes[14], bytes[15]]);
            assert(r->V4_0 =~= octets4(bytes@.subrange(12, 16)));
            r
        } else {
            assert(*bytes =~= octets16(bytes@));
            IpAddress::V6(*bytes)
        }
    }
}

/// Tests the first twelve of 16 address bytes for the IPv4-mapped shape.
pub fn has_mapped_prefix(bytes: &[u8; 16]) -> (r: bool)
    ensures
        r == is_v4_mapped(bytes@),
{
    let mut i: usize = 0;
    while i < 10
        invariant
            i <= 10,
            forall|j: int| 0 <= j < i ==> bytes@[j] == 0,
        decreases 10 - i,
    {
        if bytes[i] != 0 {
            return false;
        }
        i += 1;
    }
    bytes[10] == 0xff && bytes[11] == 0xff
}

/// Splits a port into its two wire bytes.
pub fn port_to_bytes(port: u16) -> (r: [u8; 2])
    ensures
        r@ == port_wire(port),
{
    let r = [(port % 256) as u8, (port / 256) as u8];
    assert(r@ =~= port_wire(port));
    r
}

/// Joins two wire bytes into a port.
pub fn port_from_bytes(lo: u8, hi: u8) -> (r: u16)
    ensures
        r == port_from_wire(lo, hi),
{
    (hi as u16) * 256 + (lo as u16)
}

impl SocketAddress {
    /// The 18 bytes that stand for this address on the wire.
    pub open spec fn wire(self) -> Seq<u8> {
        port_wire(self.port) + self.ip.wire()
    }

    /// The address that the first 18 bytes of `bytes` stand for.
    pub open spec fn from_wire(bytes: Seq<u8>) -> SocketAddress {
        SocketAddress {
            ip: IpAddress::from_wire(bytes.subrange(2, 18)),
            port: port_from_wire(bytes[0], bytes[1]),
        }
    }

    /// The form in which this address comes out of a trip over the wire.
    pub open spec fn canonical(self) -> SocketAddress {
        SocketAddress { ip: self.ip.canonical(), port: self.port }
    }

    pub fn new(ip: IpAddress, port: u16) -> (r: SocketAddress)
        ensures
            r == (SocketAddress { ip, port }),
    {
        SocketAddress { ip, port }
    }

    pub fn ip(&self) -> (r: IpAddress)
        ensures
            r == self.ip,
    {
        self.ip
    }

    pub fn port(&self) -> (r: u16)
        ensures
            r == self.port,
    {
        self.port
    }

    /// Appends the 18 wire bytes of this address to `out`.
    pub fn write_wire(&self, out: &mut Vec<u8>)
        ensures
            final(out)@ == old(out)@ + self.wire(),
    {
        let p = port_to_bytes(self.port);
        let ip = self.ip.to_wire();
        out.push(p[0]);
        out.push(p[1]);
        let mut i: usize = 0;
        while i < 16
            invariant
                i <= 16,
                ip@ == self.ip.wire(),
                out@ == old(out)@ + port_wire(self.port) + ip@.subrange(0, i as int),
            decreases 16 - i,
        {
            out.push(ip[i]);
            i += 1;
        }
        assert(ip@.subrange(0, 16) =~= ip@);
        assert(out@ =~= old(out)@ + self.wire());
    }

    /// Reads an address from the first 18 bytes of `bytes`; `None` when there are fewer.
    pub fn read_wire(bytes: &[u8]) -> (r: Option<SocketAddress>)
        ensures
            bytes@.len() < 18 ==> r is None,
            bytes@.len() >= 18 ==> r == Some(SocketAddress::from_wire(bytes@)),
    {
        if bytes.len() < ADDRESS_WIRE_LEN {
            return None;
        }
        let port = port_from_bytes(bytes[0], bytes[1]);
        let raw = [
            bytes[2],
            bytes[3],
            bytes[4],
            bytes[5],
            bytes[6],
            bytes[7],
            bytes[8],
            bytes[9],
            bytes[10],
            bytes[11],
            bytes[12],
            bytes[13],
            bytes[14],
            bytes[15],
            bytes[16],
            bytes[17],
        ];
        assert(raw@ =~= bytes@.subrange(2, 18));
        let ip = IpAddress::decode(&raw);
        Some(SocketAddress { ip, port })
    }
}

fn same_octets4(a: &[u8; 4], b: &[u8; 4]) -> (r: bool)
    ensures
        r == (*a == *b),
{
    let r = a[0] == b[0] && a[1] == b[1] && a[2] == b[2] && a[3] == b[3];
    proof {
        if r {
            assert(*a =~= *b);
        }
    }
    r
}

fn same_octets16(a: &[u8; 16], b: &[u8; 16]) -> (r: bool)
    ensures
        r == (*a == *b),
{
    let mut i: usize = 0;
    while i < 16
        invariant
            i <= 16,
            forall|j: int| 0 <= j < i ==> a[j] == b[j],
        decreases 16 - i,
    {
        if a[i] != b[i] {
            return false;
        }
        i += 1;
    }
    assert(*a =~= *b);
    true
}

impl PartialEq for IpAddress {
    fn eq(&self, other: &Self) -> (r: bool) {
        match (self, other) {
            (IpAddress::V4(a), IpAddress::V4(b)) => same_octets4(a, b),
            (IpAddress::V6(a), IpAddress::V6(b)) => same_octets16(a, b),
            _ => false,
        }
    }
}

impl Eq for IpAddress {

}

impl PartialEqSpecImpl for IpAddress {
    open spec fn obeys_eq_spec() -> bool {
        true
    }

    open spec fn eq_spec(&self, other: &Self) -> bool {
        *self == *other
    }
}

impl PartialEq for SocketAddress {
    fn eq(&self, other: &Self) -> (r: bool) {
        self.port == other.port && self.ip == other.ip
    }
}

impl Eq for SocketAddress {

}

impl PartialEqSpecImpl for SocketAddress {
    open spec fn obeys_eq_spec() -> bool {
        true
    }

    open spec fn eq_spec(&self, other: &Self) -> bool {
        *self == *other
    }
}

/// The wire form of an IP address is always 16 bytes long.
pub proof fn lemma_ip_wire_len(ip: IpAddress)
    ensures
        ip.wire().len() == 16,
{
}

/// An address that is not an IPv4-mapped IPv6 address survives the wire unchanged.
pub proof fn lemma_canonical_identity(ip: IpAddress)
    requires
        !ip.is_mapped_v6(),
    ensures
        ip.canonical() == ip,
{
    match ip {
        IpAddress::V4(o) => {
            let w = v4_mapped_wire(o@);
            assert(is_v4_mapped(w));
            assert(octets4(w.subrange(12, 16)) =~= o);
        },
        IpAddress::V6(o) => {
            assert(octets16(o@) =~= o);
        },
    }
}

/// An IPv4-mapped IPv6 address comes out of the wire as the IPv4 address it embeds.
pub proof fn lemma_canonical_mapped(o: [u8; 16])
    requires
        is_v4_mapped(o@),
    ensures
        IpAddress::V6(o).canonical() == IpAddress::V4([o[12], o[13], o[14], o[15]]),
{
    assert(octets4(o@.subrange(12, 16)) =~= [o[12], o[13], o[14], o[15]]);
}

/// What comes out of the wire goes through it unchanged a second time.
pub proof fn lemma_canonical_idempotent(ip: IpAddress)
    ensures
        ip.canonical().canonical() == ip.canonical(),
        !ip.canonical().is_mapped_v6(),
{
    if ip.is_mapped_v6() {
        let o = ip->V6_0;
        lemma_canonical_mapped(o);
        lemma_canonical_identity(ip.canonical());
    } else {
        lemma_canonical_identity(ip);
    }
}

/// Two port bytes decode to the port they were made from.
pub proof fn lemma_port_roundtrip(port: u16)
    ensures
        port_wire(port).len() == 2,
        port_from_wire(port_wire(port)[0], port_wire(port)[1]) == port,
{
}

/// Decoding the wire form of a socket address gives its canonical form,
/// whatever bytes follow the 18 of the address.
pub proof fn lemma_socket_wire_roundtrip(addr: SocketAddress, tail: Seq<u8>)
    ensures
        addr.wire().len() == 18,
        SocketAddress::from_wire(addr.wire() + tail) == addr.canonical(),
{
    let w = addr.wire() + tail;
    lemma_ip_wire_len(addr.ip);
    lemma_port_roundtrip(addr.port);
    assert(w.subrange(2, 18) =~= addr.ip.wire());
    assert(w[0] == port_wire(addr.port)[0]);
    assert(w[1] == port_wire(addr.port)[1]);
}

} // verus!
