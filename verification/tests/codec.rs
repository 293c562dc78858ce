use kaze::codec::{decode_packet, encode_frame, encode_packet, BufWrapper, FrameStep, NetPacketDecoder, PacketError};

#[test]
fn frame_needs_a_size_prefix() {
    let d = NetPacketDecoder::new();
    assert!(d.decode_frame(&[1, 0]) == FrameStep::NeedMore { reserve: 8 });
}

#[test]
fn frame_needs_all_of_its_bytes() {
    let d = NetPacketDecoder::new();
    // total size 6, only 5 bytes after the prefix
    assert!(d.decode_frame(&[6, 0, 0, 0, 1, 0, 0, 0, 9]) == FrameStep::NeedMore { reserve: 6 });
}

#[test]
fn frame_with_oversized_header_is_invalid() {
    let d = NetPacketDecoder::new();
    assert!(d.decode_frame(&[5, 0, 0, 0, 2, 0, 0, 0, 9]) == FrameStep::Invalid { size: 5, hdr_size: 2 });
    assert!(d.decode_frame(&[2, 0, 0, 0, 2, 0]) == FrameStep::Invalid { size: 2, hdr_size: 0 });
}

#[test]
fn frame_roundtrip() {
    let hdr = b"head";
    let body = b"test data";
    let mut frame = encode_frame(hdr, body);
    assert_eq!(frame.len(), 4 + 4 + 4 + 9);
    frame.extend_from_slice(&[0xaa, 0xbb]);
    let d = NetPacketDecoder::new();
    match d.decode_frame(&frame) {
        FrameStep::Frame { size, hdr_size } => {
            assert_eq!(size, 17);
            assert_eq!(hdr_size, 4);
            assert_eq!(&frame[8..8 + hdr_size], hdr);
            assert_eq!(&frame[8 + hdr_size..4 + size], body);
        }
        _ => panic!("expected a frame"),
    }
}

#[test]
fn packet_roundtrip_and_errors() {
    let packet = encode_packet(b"hh", b"body");
    assert_eq!(packet, vec![2, 0, 0, 0, b'h', b'h', b'b', b'o', b'd', b'y']);
    let (h, b) = decode_packet(&packet).ok().unwrap();
    assert_eq!(h, b"hh");
    assert_eq!(b, b"body");
    assert!(decode_packet(&[1, 0]) == Err(PacketError::NoPrefix { remaining: 2 }));
    assert!(decode_packet(&[3, 0, 0, 0, 1]) == Err(PacketError::InvalidHeaderSize { hdr_size: 3, remaining: 1 }));
}

#[test]
fn buf_wrapper_position() {
    let mut w = BufWrapper::new(vec![1u8, 2, 3, 4]);
    assert_eq!(w.remaining(), 4);
    w.advance(3);
    assert_eq!(w.remaining(), 1);
    assert_eq!(w.chunk(), &[4]);
    w.rewind();
    assert_eq!(w.chunk(), &[1, 2, 3, 4]);
    w.as_inner_mut().push(5);
    assert_eq!(w.as_inner().len(), 5);
    w.advance(2);
    w.clear();
    assert_eq!(w.remaining(), 0);
    assert_eq!(w.into_inner(), Vec::<u8>::new());
}

#[test]
fn every_prefix_of_a_frame_needs_more() {
    let frame = encode_frame(b"hd", b"body!");
    let d = NetPacketDecoder::new();
    for k in 0..frame.len() {
        assert!(matches!(d.decode_frame(&frame[..k]), FrameStep::NeedMore { .. }), "prefix {k}");
    }
    assert!(d.decode_frame(&frame) == FrameStep::Frame { size: 4 + 2 + 5, hdr_size: 2 });
}

#[test]
fn rewind_restores_a_slice_buffer() {
    let data: &[u8] = &[9, 8, 7, 6, 5];
    let mut w = BufWrapper::new(data);
    w.advance(3);
    assert_eq!(w.remaining(), 2);
    assert_eq!(w.chunk(), &[6, 5]);
    w.rewind();
    assert_eq!(w.remaining(), 5);
    assert_eq!(w.chunk(), data);
}

/// A packet with a default (empty) header and a body, decoded from its
/// packet bytes, framed and read back from the frame.
fn framed_and_read_back(hdr: &[u8], body: &[u8]) -> (Vec<u8>, Vec<u8>) {
    let frame = encode_frame(hdr, body);
    match NetPacketDecoder::new().decode_frame(&frame) {
        FrameStep::Frame { size, .. } => {
            let (h, b) = decode_packet(&frame[4..4 + size]).ok().unwrap();
            (h.to_vec(), b.to_vec())
        }
        _ => panic!("expected a frame"),
    }
}

#[test]
fn test_packet_as_buf_from_host() {
    let host_data = encode_packet(&[], b"test data");
    let (hdr, body) = decode_packet(&host_data).ok().unwrap();
    let (out_hdr, out_body) = framed_and_read_back(hdr, body);
    assert_eq!(out_hdr, hdr);
    assert_eq!(out_body, body);
}

#[test]
fn test_packet_as_buf_from_node() {
    let bytes = encode_packet(&[], b"test data");
    let (hdr, body) = decode_packet(&bytes).ok().unwrap();
    assert_eq!(body, b"test data");
    let (out_hdr, out_body) = framed_and_read_back(hdr, body);
    assert_eq!(out_hdr, hdr);
    assert_eq!(out_body, b"test data");
}
