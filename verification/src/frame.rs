//! The wire frame that carries one datagram over the TCP carrier, and the
//! decoder that cuts a byte stream back into frames.
//!
//! A frame is `len:4 | port:2 | ip:16 | payload`, where `len` is a
//! little-endian `u32` that counts every byte after itself. A frame whose
//! `len` is below 18 cannot hold an address: the decoder consumes it and
//! reports it as malformed.

use crate::addr::{
    lemma_canonical_identity, lemma_ip_wire_len, lemma_socket_wire_roundtrip, port_wire, IpAddress,
    SocketAddress, ADDRESS_WIRE_LEN,
};
use vstd::prelude::*;
use vstd::slice::slice_subrange;

verus! {

/// Bytes taken by the length prefix of a frame.
pub const LEN_PREFIX: usize = 4;

/// The longest payload that one frame can carry: `u32::MAX - 18` bytes.
pub const MAX_PAYLOAD_LEN: u64 = 4_294_967_277;

/// A datagram with the address it was first sent from, as a mathematical value.
pub struct UdpFrame {
    pub source: SocketAddress,
    pub payload: Seq<u8>,
}

/// A datagram with the address it was first sent from.
#[derive(Clone, Debug)]
pub struct UdpPacketWithSource {
    pub source: SocketAddress,
    pub data: Vec<u8>,
}

impl View for UdpPacketWithSource {
    type V = UdpFrame;

    open spec fn view(&self) -> UdpFrame {
        UdpFrame { source: self.source, payload: self.data@ }
    }
}

/// The four bytes of a length prefix, least significant first.
pub open spec fn len_wire(n: u32) -> Seq<u8> {
    seq![
        (n % 256) as u8,
        (n / 256 % 256) as u8,
        (n / 65536 % 256) as u8,
        (n / 16777216) as u8,
    ]
}

/// The length that four prefix bytes stand for.
pub open spec fn len_from_wire(b0: u8, b1: u8, b2: u8, b3: u8) -> u32 {
    (b0 + 256 * b1 + 65536 * b2 + 16777216 * b3) as u32
}

impl UdpFrame {
    /// Whether the payload is short enough for the length prefix to count it.
    pub open spec fn fits(self) -> bool {
        self.payload.len() <= MAX_PAYLOAD_LEN
    }

    /// The frame without its length prefix: address, then payload.
    pub open spec fn body(self) -> Seq<u8> {
        self.source.wire() + self.payload
    }

    /// The whole frame as it travels on the carrier.
    pub open spec fn encoded(self) -> Seq<u8> {
        len_wire((18 + self.payload.len()) as u32) + self.body()
    }

    /// Number of bytes of the whole frame, length prefix included.
    pub open spec fn encoded_len(self) -> int {
        22 + self.payload.len() as int
    }

    /// The frame that a body stands for; `None` when it is too short to hold an address.
    pub open spec fn parse(body: Seq<u8>) -> Option<UdpFrame> {
        if body.len() < 18 {
            None
        } else {
            Some(UdpFrame { source: SocketAddress::from_wire(body), payload: body.skip(18) })
        }
    }

    /// The frame as the far side sees it: the payload byte for byte, the
    /// source with an IPv4-mapped IPv6 address turned into IPv4.
    pub open spec fn canonical(self) -> UdpFrame {
        UdpFrame { source: self.source.canonical(), payload: self.payload }
    }
}

/// Splits a length into its four prefix bytes.
pub fn len_to_bytes(n: u32) -> (r: [u8; 4])
    ensures
        r@ == len_wire(n),
{
    let r = [
        (n % 256) as u8,
        (n / 256 % 256) as u8,
        (n / 65536 % 256) as u8,
        (n / 16777216) as u8,
    ];
    assert(r@ =~= len_wire(n));
    r
}

/// Joins four prefix bytes into a length.
pub fn len_from_bytes(b0: u8, b1: u8, b2: u8, b3: u8) -> (r: u32)
    ensures
        r == len_from_wire(b0, b1, b2, b3),
{
    (b0 as u32) + 256 * (b1 as u32) + 65536 * (b2 as u32) + 16777216 * (b3 as u32)
}

impl UdpPacketWithSource {
    pub fn new(source: SocketAddress, data: Vec<u8>) -> (r: Self)
        ensures
            r@ == (UdpFrame { source, payload: data@ }),
    {
        UdpPacketWithSource { source, data }
    }

    /// The frame body: port, 16 address bytes, payload.
    pub fn serialize(&self) -> (r: Vec<u8>)
        ensures
            r@ == self@.body(),
    {
        let mut out: Vec<u8> = Vec::new();
        self.source.write_wire(&mut out);
        out.extend_from_slice(self.data.as_slice());
        assert(out@ =~= self@.body());
        out
    }

    /// Reads a frame body. `None` exactly when it has fewer than 18 bytes.
    pub fn deserialize(data: &[u8]) -> (r: Option<Self>)
        ensures
            packet_view(r) == UdpFrame::parse(data@),
    {
        match SocketAddress::read_wire(data) {
            None => None,
            Some(source) => {
                let payload = slice_subrange(data, ADDRESS_WIRE_LEN, data.len());
                let mut bytes: Vec<u8> = Vec::new();
                bytes.extend_from_slice(payload);
                assert(bytes@ =~= data@.skip(18));
                Some(UdpPacketWithSource { source, data: bytes })
            },
        }
    }

    /// The whole frame, length prefix included. `None` exactly when the
    /// payload is longer than `MAX_PAYLOAD_LEN`.
    pub fn encode(&self) -> (r: Option<Vec<u8>>)
        ensures
            self@.fits() ==> r is Some && r->0@ == self@.encoded(),
            !self@.fits() ==> r is None,
    {
        if self.data.len() as u64 > MAX_PAYLOAD_LEN {
            return None;
        }
        let n: u32 = (self.data.len() + ADDRESS_WIRE_LEN) as u32;
        let prefix = len_to_bytes(n);
        let mut out: Vec<u8> = Vec::new();
        out.push(prefix[0]);
        out.push(prefix[1]);
        out.push(prefix[2]);
        out.push(prefix[3]);
        assert(out@ =~= len_wire(n));
        self.source.write_wire(&mut out);
        out.extend_from_slice(self.data.as_slice());
        assert(out@ =~= self@.encoded());
        Some(out)
    }
}

/// What an optional packet stands for.
pub open spec fn packet_view(p: Option<UdpPacketWithSource>) -> Option<UdpFrame> {
    match p {
        Some(p) => Some(p@),
        None => None,
    }
}

/// What a sequence of decoded items stands for. `None` marks a malformed frame.
pub open spec fn packet_views(items: Seq<Option<UdpPacketWithSource>>) -> Seq<Option<UdpFrame>> {
    Seq::new(items.len(), |i: int| packet_view(items[i]))
}

/// Size of the complete frame at the front of `buf`, length prefix included;
/// `None` while the prefix or the bytes it announces have not all arrived.
pub open spec fn front_len(buf: Seq<u8>) -> Option<int> {
    if buf.len() < 4 {
        None
    } else {
        let n = len_from_wire(buf[0], buf[1], buf[2], buf[3]);
        if buf.len() - 4 < n {
            None
        } else {
            Some(4 + n)
        }
    }
}

/// The complete frames at the front of `buf`, in order. A frame too short to
/// hold an address appears as `None`.
pub open spec fn decode_stream(buf: Seq<u8>) -> Seq<Option<UdpFrame>>
    decreases buf.len(),
{
    match front_len(buf) {
        None => Seq::empty(),
        Some(n) => seq![UdpFrame::parse(buf.subrange(4, n))] + decode_stream(buf.skip(n)),
    }
}

/// The bytes of `buf` that follow its last complete frame.
pub open spec fn stream_rest(buf: Seq<u8>) -> Seq<u8>
    decreases buf.len(),
{
    match front_len(buf) {
        None => buf,
        Some(n) => stream_rest(buf.skip(n)),
    }
}

/// The concatenation of the encodings of `frames`.
pub open spec fn encode_stream(frames: Seq<UdpFrame>) -> Seq<u8>
    decreases frames.len(),
{
    if frames.len() == 0 {
        Seq::empty()
    } else {
        frames[0].encoded() + encode_stream(frames.skip(1))
    }
}

/// Accumulates the bytes read from the carrier and hands out whole frames.
pub struct FrameDecoder {
    buf: Vec<u8>,
}

impl FrameDecoder {
    /// The bytes received and not yet consumed.
    pub closed spec fn pending(&self) -> Seq<u8> {
        self.buf@
    }

    pub fn new() -> (r: Self)
        ensures
            r.pending() == Seq::<u8>::empty(),
    {
        FrameDecoder { buf: Vec::with_capacity(65536) }
    }

    /// Number of bytes received and not yet consumed.
    pub fn pending_len(&self) -> (n: usize)
        ensures
            n == self.pending().len(),
    {
        self.buf.len()
    }

    /// Forgets what was received: a new carrier starts a new stream.
    pub fn reset(&mut self)
        ensures
            final(self).pending() == Seq::<u8>::empty(),
    {
        self.buf.clear();
    }

    /// Appends bytes read from the carrier.
    pub fn feed(&mut self, bytes: &[u8])
        ensures
            final(self).pending() == old(self).pending() + bytes@,
    {
        self.buf.extend_from_slice(bytes);
        assert(self.buf@ =~= old(self).buf@ + bytes@);
    }

    /// Takes every complete frame out of the buffer, in order, and keeps
    /// the bytes of an unfinished frame for later. A malformed frame comes
    /// out as `None`; it does not stop the decoder.
    pub fn drain(&mut self) -> (out: Vec<Option<UdpPacketWithSource>>)
        ensures
            packet_views(out@) == decode_stream(old(self).pending()),
            final(self).pending() == stream_rest(old(self).pending()),
    {
        let mut out: Vec<Option<UdpPacketWithSource>> = Vec::new();
        let total = self.buf.len();
        let mut pos: usize = 0;
        let ghost all = self.buf@;
        assert(all.skip(0) =~= all);
        loop
            invariant
                self.buf@ == all,
                total == all.len(),
                pos <= total,
                decode_stream(all) == packet_views(out@) + decode_stream(all.skip(pos as int)),
                stream_rest(all) == stream_rest(all.skip(pos as int)),
            ensures
                front_len(all.skip(pos as int)) is None,
            decreases total - pos,
        {
            let ghost here = all.skip(pos as int);
            if total - pos < LEN_PREFIX {
                break ;
            }
            let len = len_from_bytes(
                self.buf[pos],
                self.buf[pos + 1],
                self.buf[pos + 2],
                self.buf[pos + 3],
            ) as usize;
            if total - pos - LEN_PREFIX < len {
                break ;
            }
            let start = pos + LEN_PREFIX;
            let body = slice_subrange(self.buf.as_slice(), start, start + len);
            let item = UdpPacketWithSource::deserialize(body);
            proof {
                let n = 4 + len as int;
                assert(front_len(here) == Some(n));
                assert(body@ =~= here.subrange(4, n));
                assert(here.skip(n) =~= all.skip(pos + n));
                assert(packet_views(out@.push(item)) =~= packet_views(out@) + seq![
                    packet_view(item),
                ]);
                assert(packet_views(out@) + (seq![UdpFrame::parse(here.subrange(4, n))]
                    + decode_stream(here.skip(n))) =~= (packet_views(out@) + seq![
                    packet_view(item),
                ]) + decode_stream(all.skip(pos + n)));
            }
            out.push(item);
            pos = start + len;
        }
        assert(packet_views(out@) + Seq::<Option<UdpFrame>>::empty() =~= packet_views(out@));
        let rest = self.buf.split_off(pos);
        self.buf = rest;
        assert(self.buf@ =~= all.skip(pos as int));
        out
    }
}

/// The encoding of a frame that fits is its body behind four bytes that
/// decode to the body's length.
pub proof fn lemma_encoded_shape(f: UdpFrame)
    requires
        f.fits(),
    ensures
        f.body().len() == 18 + f.payload.len(),
        f.encoded().len() == f.encoded_len(),
        len_from_wire(f.encoded()[0], f.encoded()[1], f.encoded()[2], f.encoded()[3]) == 18
            + f.payload.len(),
        f.encoded().subrange(4, f.encoded_len()) == f.body(),
{
    lemma_ip_wire_len(f.source.ip);
    let n = (18 + f.payload.len()) as u32;
    let e = f.encoded();
    assert(e[0] == len_wire(n)[0]);
    assert(e[1] == len_wire(n)[1]);
    assert(e[2] == len_wire(n)[2]);
    assert(e[3] == len_wire(n)[3]);
    assert(e.subrange(4, f.encoded_len()) =~= f.body());
}

/// Codec round trip: parsing the body of a frame gives back its payload
/// byte for byte and its source in canonical form.
pub proof fn lemma_body_roundtrip(f: UdpFrame)
    ensures
        UdpFrame::parse(f.body()) == Some(f.canonical()),
{
    lemma_socket_wire_roundtrip(f.source, f.payload);
    assert(f.body().skip(18) =~= f.payload);
}

/// Codec round trip for a source that is not an IPv4-mapped IPv6 address:
/// decoding gives back exactly what was encoded.
pub proof fn lemma_body_roundtrip_exact(f: UdpFrame)
    requires
        !f.source.ip.is_mapped_v6(),
    ensures
        UdpFrame::parse(f.body()) == Some(f),
{
    lemma_body_roundtrip(f);
    lemma_canonical_identity(f.source.ip);
}

/// The address bytes of a frame body: an IPv4 source starts with ten zero
/// bytes and `ff ff` and ends with its four octets; an IPv6 source is
/// written out as it is.
pub proof fn lemma_body_address_bytes(f: UdpFrame)
    ensures
        f.body().subrange(0, 2) == port_wire(f.source.port),
        f.source.ip matches IpAddress::V4(o) ==> f.body().subrange(2, 14) == seq![
            0u8,
            0u8,
            0u8,
            0u8,
            0u8,
            0u8,
            0u8,
            0u8,
            0u8,
            0u8,
            0xffu8,
            0xffu8,
        ] && f.body().subrange(14, 18) == o@,
        f.source.ip matches IpAddress::V6(o) ==> f.body().subrange(2, 18) == o@,
{
    lemma_ip_wire_len(f.source.ip);
    assert(f.body().subrange(0, 2) =~= port_wire(f.source.port));
    match f.source.ip {
        IpAddress::V4(o) => {
            assert(f.body().subrange(2, 14) =~= seq![
                0u8,
                0u8,
                0u8,
                0u8,
                0u8,
                0u8,
                0u8,
                0u8,
                0u8,
                0u8,
                0xffu8,
                0xffu8,
            ]);
            assert(f.body().subrange(14, 18) =~= o@);
        },
        IpAddress::V6(o) => {
            assert(f.body().subrange(2, 18) =~= o@);
        },
    }
}

/// An encoded frame at the front of a stream is recognised whole, whatever follows it.
pub proof fn lemma_front_of_encoded(f: UdpFrame, tail: Seq<u8>)
    requires
        f.fits(),
    ensures
        front_len(f.encoded() + tail) == Some(f.encoded_len()),
        (f.encoded() + tail).subrange(4, f.encoded_len()) == f.body(),
        (f.encoded() + tail).skip(f.encoded_len()) == tail,
{
    lemma_encoded_shape(f);
    let s = f.encoded() + tail;
    assert(s[0] == f.encoded()[0]);
    assert(s[1] == f.encoded()[1]);
    assert(s[2] == f.encoded()[2]);
    assert(s[3] == f.encoded()[3]);
    assert(s.subrange(4, f.encoded_len()) =~= f.encoded().subrange(4, f.encoded_len()));
    assert(s.skip(f.encoded_len()) =~= tail);
}

/// The frames as the far side sees them: each present, each in canonical form.
pub open spec fn delivered(frames: Seq<UdpFrame>) -> Seq<Option<UdpFrame>> {
    Seq::new(frames.len(), |i: int| Some(frames[i].canonical()))
}

/// Stream framing, with more bytes behind the frames: the decoder yields
/// the encoded frames in order, then whatever the following bytes hold.
pub proof fn lemma_stream_roundtrip_then(frames: Seq<UdpFrame>, tail: Seq<u8>)
    requires
        forall|i: int| 0 <= i < frames.len() ==> (#[trigger] frames[i]).fits(),
    ensures
        decode_stream(encode_stream(frames) + tail) == delivered(frames) + decode_stream(tail),
        stream_rest(encode_stream(frames) + tail) == stream_rest(tail),
    decreases frames.len(),
{
    if frames.len() == 0 {
        assert(encode_stream(frames) + tail =~= tail);
        assert(delivered(frames) + decode_stream(tail) =~= decode_stream(tail));
    } else {
        let f = frames[0];
        let later = frames.skip(1);
        let after = encode_stream(later) + tail;
        let s = encode_stream(frames) + tail;
        assert(s =~= f.encoded() + after);
        assert(later.len() < frames.len());
        assert forall|i: int| 0 <= i < later.len() implies (#[trigger] later[i]).fits() by {
            assert(later[i] == frames[i + 1]);
        }
        lemma_stream_roundtrip_then(later, tail);
        lemma_decode_one(f, after);
        assert(delivered(frames) =~= seq![Some(f.canonical())] + delivered(later));
        assert(seq![Some(f.canonical())] + (delivered(later) + decode_stream(tail)) =~= delivered(
            frames,
        ) + decode_stream(tail));
    }
}

/// One encoded frame in front of a stream comes out first, in canonical
/// form, and the stream behind it is decoded as if it stood alone.
pub proof fn lemma_decode_one(f: UdpFrame, after: Seq<u8>)
    requires
        f.fits(),
    ensures
        decode_stream(f.encoded() + after) == seq![Some(f.canonical())] + decode_stream(after),
        stream_rest(f.encoded() + after) == stream_rest(after),
{
    lemma_front_of_encoded(f, after);
    lemma_body_roundtrip(f);
}

/// Stream framing: the decoder applied to a concatenation of encoded frames
/// yields those frames in order and leaves no byte behind.
pub proof fn lemma_stream_roundtrip(frames: Seq<UdpFrame>)
    requires
        forall|i: int| 0 <= i < frames.len() ==> (#[trigger] frames[i]).fits(),
    ensures
        decode_stream(encode_stream(frames)) == delivered(frames),
        stream_rest(encode_stream(frames)) == Seq::<u8>::empty(),
{
    let none = Seq::<u8>::empty();
    lemma_stream_roundtrip_then(frames, none);
    assert(encode_stream(frames) + none =~= encode_stream(frames));
    assert(delivered(frames) + decode_stream(none) =~= delivered(frames));
}

/// Stream framing for sources that are no IPv4-mapped IPv6 addresses: the
/// decoder yields exactly the frames that were encoded, in order, and
/// leaves no byte behind.
pub proof fn lemma_stream_roundtrip_exact(frames: Seq<UdpFrame>)
    requires
        forall|i: int| 0 <= i < frames.len() ==> (#[trigger] frames[i]).fits(),
        forall|i: int| 0 <= i < frames.len() ==> !(#[trigger] frames[i]).source.ip.is_mapped_v6(),
    ensures
        decode_stream(encode_stream(frames)) == Seq::new(frames.len(), |i: int| Some(frames[i])),
        stream_rest(encode_stream(frames)) == Seq::<u8>::empty(),
{
    lemma_stream_roundtrip(frames);
    assert forall|i: int| 0 <= i < frames.len() implies delivered(frames)[i] == Some(
        frames[i],
    ) by {
        lemma_canonical_identity(frames[i].source.ip);
    }
    assert(delivered(frames) =~= Seq::new(frames.len(), |i: int| Some(frames[i])));
}

/// No partial frame is ever dispatched: what the decoder leaves behind
/// holds no complete frame, and decoding it again yields nothing.
pub proof fn lemma_rest_is_incomplete(buf: Seq<u8>)
    ensures
        front_len(stream_rest(buf)) is None,
        decode_stream(stream_rest(buf)) == Seq::<Option<UdpFrame>>::empty(),
        stream_rest(stream_rest(buf)) == stream_rest(buf),
    decreases buf.len(),
{
    match front_len(buf) {
        None => {},
        Some(n) => {
            lemma_rest_is_incomplete(buf.skip(n));
        },
    }
}

/// Bytes that arrive later never change the frames already decoded: the
/// stream can be cut anywhere between reads.
pub proof fn lemma_decode_resumes(buf: Seq<u8>, more: Seq<u8>)
    ensures
        decode_stream(buf + more) == decode_stream(buf) + decode_stream(stream_rest(buf) + more),
        stream_rest(buf + more) == stream_rest(stream_rest(buf) + more),
    decreases buf.len(),
{
    match front_len(buf) {
        None => {
            assert(decode_stream(buf) + decode_stream(buf + more) =~= decode_stream(buf + more));
        },
        Some(n) => {
            let s = buf + more;
            assert(s[0] == buf[0] && s[1] == buf[1] && s[2] == buf[2] && s[3] == buf[3]);
            assert(front_len(s) == Some(n));
            assert(s.subrange(4, n) =~= buf.subrange(4, n));
            assert(s.skip(n) =~= buf.skip(n) + more);
            lemma_decode_resumes(buf.skip(n), more);
            assert(decode_stream(s) =~= decode_stream(buf) + decode_stream(stream_rest(buf) + more));
        },
    }
}

/// Codec round trip over the carrier: one encoded frame, decoded as a
/// stream, comes out as itself and leaves no byte behind, provided its
/// source is not an IPv4-mapped IPv6 address.
pub proof fn lemma_frame_roundtrip(f: UdpFrame)
    requires
        f.fits(),
        !f.source.ip.is_mapped_v6(),
    ensures
        decode_stream(f.encoded()) == seq![Some(f)],
        stream_rest(f.encoded()) == Seq::<u8>::empty(),
{
    let none = Seq::<u8>::empty();
    lemma_decode_one(f, none);
    lemma_canonical_identity(f.source.ip);
    assert(f.encoded() + none =~= f.encoded());
    assert(seq![Some(f.canonical())] + decode_stream(none) =~= seq![Some(f)]);
}

/// All the bytes of `reads`, one read after the other.
pub open spec fn joined(reads: Seq<Seq<u8>>) -> Seq<u8>
    decreases reads.len(),
{
    if reads.len() == 0 {
        Seq::empty()
    } else {
        joined(reads.drop_last()) + reads.last()
    }
}

/// The frames that come out when `reads` are fed to a decoder one by one,
/// each followed by taking out every complete frame.
pub open spec fn frames_of_reads(reads: Seq<Seq<u8>>) -> Seq<Option<UdpFrame>>
    decreases reads.len(),
{
    if reads.len() == 0 {
        Seq::empty()
    } else {
        frames_of_reads(reads.drop_last()) + decode_stream(
            pending_after_reads(reads.drop_last()) + reads.last(),
        )
    }
}

/// The bytes that wait in the decoder after `reads` were fed to it one by one.
pub open spec fn pending_after_reads(reads: Seq<Seq<u8>>) -> Seq<u8>
    decreases reads.len(),
{
    if reads.len() == 0 {
        Seq::empty()
    } else {
        stream_rest(pending_after_reads(reads.drop_last()) + reads.last())
    }
}

/// Short reads are no errors: however the carrier cuts the stream into
/// reads, the decoder yields the frames of the whole stream, in order, and
/// keeps what the whole stream leaves over.
pub proof fn lemma_reads_do_not_matter(reads: Seq<Seq<u8>>)
    ensures
        frames_of_reads(reads) == decode_stream(joined(reads)),
        pending_after_reads(reads) == stream_rest(joined(reads)),
    decreases reads.len(),
{
    if reads.len() == 0 {
        let none = Seq::<u8>::empty();
        assert(front_len(none) is None);
    } else {
        let before = reads.drop_last();
        lemma_reads_do_not_matter(before);
        lemma_decode_resumes(joined(before), reads.last());
    }
}

} // verus!
