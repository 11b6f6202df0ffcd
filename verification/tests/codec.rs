use udp_over_tcp::addr::{IpAddress, SocketAddress};
use udp_over_tcp::frame::{FrameDecoder, UdpPacketWithSource};

fn v4(a: u8, b: u8, c: u8, d: u8, port: u16) -> SocketAddress {
    SocketAddress::new(IpAddress::V4([a, b, c, d]), port)
}

fn packet(source: SocketAddress, data: &[u8]) -> UdpPacketWithSource {
    UdpPacketWithSource::new(source, data.to_vec())
}

#[test]
fn serialize_ipv4_gives_the_exact_bytes() {
    let p = packet(v4(127, 0, 0, 1, 40001), b"hello");
    let expected: Vec<u8> = vec![
        0x41, 0x9c, // 40001, least significant byte first
        0, 0, 0, 0, 0, 0, 0, 0, 0, 0, 0xff, 0xff, 127, 0, 0, 1, // ::ffff:127.0.0.1
        b'h', b'e', b'l', b'l', b'o',
    ];
    assert_eq!(p.serialize(), expected);
}

#[test]
fn serialize_ipv6_writes_the_address_as_it_is() {
    let ip: [u8; 16] = [0x20, 0x01, 0x0d, 0xb8, 0, 0, 0, 0, 0, 0, 0, 0, 0, 0, 0, 1];
    let p = packet(SocketAddress::new(IpAddress::V6(ip), 53), &[9, 8, 7]);
    let mut expected: Vec<u8> = vec![53, 0];
    expected.extend_from_slice(&ip);
    expected.extend_from_slice(&[9, 8, 7]);
    assert_eq!(p.serialize(), expected);
    assert_eq!(&p.serialize()[2..14], &ip[0..12]);
}

#[test]
fn ipv4_address_bytes_start_with_the_mapped_prefix() {
    let body = packet(v4(10, 20, 30, 40, 1), &[]).serialize();
    assert_eq!(&body[2..14], &[0, 0, 0, 0, 0, 0, 0, 0, 0, 0, 0xff, 0xff]);
    assert_eq!(&body[14..18], &[10, 20, 30, 40]);
    assert_eq!(body.len(), 18);
}

#[test]
fn port_bytes_are_little_endian() {
    let body = packet(v4(1, 2, 3, 4, 0x1234), &[]).serialize();
    assert_eq!(&body[0..2], &[0x34, 0x12]);
    let body = packet(v4(1, 2, 3, 4, 65535), &[]).serialize();
    assert_eq!(&body[0..2], &[0xff, 0xff]);
    let body = packet(v4(1, 2, 3, 4, 0), &[]).serialize();
    assert_eq!(&body[0..2], &[0, 0]);
}

#[test]
fn deserialize_refuses_fewer_than_18_bytes() {
    assert!(UdpPacketWithSource::deserialize(&[]).is_none());
    assert!(UdpPacketWithSource::deserialize(&[0u8; 5]).is_none());
    assert!(UdpPacketWithSource::deserialize(&[0u8; 17]).is_none());
}

#[test]
fn deserialize_accepts_exactly_18_bytes() {
    let body = packet(v4(192, 168, 1, 100, 8888), &[]).serialize();
    let p = UdpPacketWithSource::deserialize(&body).expect("a header alone is a frame");
    assert_eq!(p.source, v4(192, 168, 1, 100, 8888));
    assert!(p.data.is_empty());
}

#[test]
fn codec_round_trip_ipv4() {
    let src = v4(203, 0, 113, 9, 51820);
    let payload: Vec<u8> = (0..=255u8).collect();
    let body = packet(src, &payload).serialize();
    let back = UdpPacketWithSource::deserialize(&body).unwrap();
    assert_eq!(back.source, src);
    assert_eq!(back.data, payload);
}

#[test]
fn codec_round_trip_ipv6() {
    let ip: [u8; 16] = [0xfe, 0x80, 0, 0, 0, 0, 0, 0, 1, 2, 3, 4, 5, 6, 7, 8];
    let src = SocketAddress::new(IpAddress::V6(ip), 1);
    let body = packet(src, b"x").serialize();
    let back = UdpPacketWithSource::deserialize(&body).unwrap();
    assert_eq!(back.source, src);
    assert_eq!(back.data, b"x".to_vec());
}

#[test]
fn ipv4_mapped_ipv6_round_trip() {
    // ::ffff:192.0.2.7, port 33333
    let mapped: [u8; 16] = [0, 0, 0, 0, 0, 0, 0, 0, 0, 0, 0xff, 0xff, 192, 0, 2, 7];
    let src = SocketAddress::new(IpAddress::V6(mapped), 33333);
    let body = packet(src, b"ping").serialize();
    let back = UdpPacketWithSource::deserialize(&body).unwrap();
    assert_eq!(back.source.ip(), IpAddress::V4([192, 0, 2, 7]));
    assert!(back.source.ip().is_ipv4());
    assert_eq!(back.source.port(), 33333);
    assert_eq!(back.data, b"ping".to_vec());
}

#[test]
fn almost_mapped_ipv6_stays_ipv6() {
    let mut ip: [u8; 16] = [0, 0, 0, 0, 0, 0, 0, 0, 0, 0, 0xff, 0xfe, 192, 0, 2, 7];
    let src = SocketAddress::new(IpAddress::V6(ip), 7);
    let back = UdpPacketWithSource::deserialize(&packet(src, &[]).serialize()).unwrap();
    assert_eq!(back.source, src);
    ip[11] = 0xff;
    ip[0] = 1;
    let src = SocketAddress::new(IpAddress::V6(ip), 7);
    let back = UdpPacketWithSource::deserialize(&packet(src, &[]).serialize()).unwrap();
    assert_eq!(back.source, src);
}

#[test]
fn ip_wire_form_and_back() {
    let ip = IpAddress::V4([8, 8, 4, 4]);
    let wire = ip.to_wire();
    assert_eq!(wire, [0, 0, 0, 0, 0, 0, 0, 0, 0, 0, 0xff, 0xff, 8, 8, 4, 4]);
    assert_eq!(IpAddress::decode(&wire), ip);
    let all_zero = [0u8; 16];
    assert_eq!(IpAddress::decode(&all_zero), IpAddress::V6(all_zero));
}

#[test]
fn encode_puts_the_length_of_the_body_in_front() {
    let p = packet(v4(127, 0, 0, 1, 9999), b"hello");
    let frame = p.encode().expect("five bytes fit");
    assert_eq!(&frame[0..4], &[23, 0, 0, 0]);
    assert_eq!(&frame[4..], &p.serialize()[..]);
    assert_eq!(frame.len(), 4 + 18 + 5);
}

#[test]
fn length_prefix_is_little_endian() {
    let p = packet(v4(1, 1, 1, 1, 1), &vec![0xabu8; 70_000]);
    let frame = p.encode().unwrap();
    // 70000 + 18 = 70018 = 0x0001_1182
    assert_eq!(&frame[0..4], &[0x82, 0x11, 0x01, 0x00]);
    assert_eq!(frame.len(), 70_022);
}

#[test]
fn stream_framing_yields_the_frames_in_order() {
    let frames = vec![
        packet(v4(127, 0, 0, 1, 40001), b"first"),
        packet(v4(127, 0, 0, 1, 40002), b""),
        packet(SocketAddress::new(IpAddress::V6([7u8; 16]), 3), &[0u8; 300]),
    ];
    let mut stream: Vec<u8> = Vec::new();
    for f in &frames {
        stream.extend_from_slice(&f.encode().unwrap());
    }
    let mut decoder = FrameDecoder::new();
    decoder.feed(&stream);
    let out = decoder.drain();
    assert_eq!(out.len(), 3);
    for (got, want) in out.iter().zip(frames.iter()) {
        let got = got.as_ref().expect("well formed");
        assert_eq!(got.source, want.source);
        assert_eq!(got.data, want.data);
    }
    assert_eq!(decoder.pending_len(), 0);
}

#[test]
fn decoder_waits_for_the_rest_of_a_frame() {
    let frame = packet(v4(10, 0, 0, 1, 5000), b"split me").encode().unwrap();
    let mut decoder = FrameDecoder::new();
    for cut in 0..frame.len() {
        decoder.reset();
        decoder.feed(&frame[..cut]);
        assert!(decoder.drain().is_empty(), "no partial frame at cut {cut}");
        assert_eq!(decoder.pending_len(), cut);
        decoder.feed(&frame[cut..]);
        let out = decoder.drain();
        assert_eq!(out.len(), 1);
        assert_eq!(out[0].as_ref().unwrap().data, b"split me".to_vec());
        assert_eq!(decoder.pending_len(), 0);
    }
}

#[test]
fn decoder_keeps_the_bytes_of_an_unfinished_frame() {
    let a = packet(v4(10, 0, 0, 1, 1), b"a").encode().unwrap();
    let b = packet(v4(10, 0, 0, 2, 2), b"bb").encode().unwrap();
    let mut stream = a.clone();
    stream.extend_from_slice(&b[..10]);
    let mut decoder = FrameDecoder::new();
    decoder.feed(&stream);
    let out = decoder.drain();
    assert_eq!(out.len(), 1);
    assert_eq!(decoder.pending_len(), 10);
    decoder.feed(&b[10..]);
    let out = decoder.drain();
    assert_eq!(out.len(), 1);
    assert_eq!(out[0].as_ref().unwrap().source, v4(10, 0, 0, 2, 2));
    assert_eq!(decoder.pending_len(), 0);
}

#[test]
fn malformed_frame_is_skipped_and_the_next_one_delivered() {
    let mut stream: Vec<u8> = vec![5, 0, 0, 0, 1, 2, 3, 4, 5];
    let good = packet(v4(127, 0, 0, 1, 40001), b"after");
    stream.extend_from_slice(&good.encode().unwrap());
    let mut decoder = FrameDecoder::new();
    decoder.feed(&stream);
    let out = decoder.drain();
    assert_eq!(out.len(), 2);
    assert!(out[0].is_none());
    let got = out[1].as_ref().unwrap();
    assert_eq!(got.source, good.source);
    assert_eq!(got.data, good.data);
    assert_eq!(decoder.pending_len(), 0);
}

#[test]
fn empty_frame_is_malformed() {
    let mut decoder = FrameDecoder::new();
    decoder.feed(&[0, 0, 0, 0]);
    let out = decoder.drain();
    assert_eq!(out.len(), 1);
    assert!(out[0].is_none());
    assert_eq!(decoder.pending_len(), 0);
}

#[test]
fn reset_forgets_a_partial_frame() {
    let mut decoder = FrameDecoder::new();
    decoder.feed(&[200, 0, 0, 0, 1, 2, 3]);
    assert!(decoder.drain().is_empty());
    assert_eq!(decoder.pending_len(), 7);
    decoder.reset();
    assert_eq!(decoder.pending_len(), 0);
    decoder.feed(&packet(v4(1, 2, 3, 4, 5), b"ok").encode().unwrap());
    assert_eq!(decoder.drain().len(), 1);
}
