//! Wire codec tests: framing, tagged bodies, validation.
use tansiv_client::binser::{u32_from_le, u32_to_le, u64_to_le, Endianness, Error, FromBytes, ToBytes};
use tansiv_client::time::Dur;
use tansiv_client::wire::{
    decode_frame, frame_bytes, msg_in_from_bytes, msg_in_to_bytes, msg_out_from_bytes,
    msg_out_to_bytes, new_deliver_packet, read_prefixed_size, GoToDeadline, MsgIn, MsgInType,
    MsgOut, MsgOutType, Packet, PacketMeta, SendPacket, Time,
};
use tansiv_client::MAX_PACKET_SIZE;

const PACKET_PAYLOAD: &[u8] = b"abcdefghijklmnopqrstuvwxyz0123456789ABCDEF";

// IPv4 addresses in network byte order: the first octet is the low byte.
fn local_vsg_address() -> u32 {
    u32::from_le_bytes([10, 0, 0, 1])
}

fn remote_vsg_address() -> u32 {
    u32::from_le_bytes([10, 0, 1, 1])
}

#[test]
fn recv_go_to_deadline() {
    // seconds = 2, useconds = 100 on the wire
    let deadline = Dur::new(2, 100 * 1000);
    let body = msg_in_to_bytes(&MsgIn::GoToDeadline(deadline));
    match msg_in_from_bytes(&body) {
        Ok(MsgIn::GoToDeadline(d)) => {
            assert_eq!(d.as_secs(), 2);
            assert_eq!(d.subsec_micros() as u64, 100);
            // microseconds are converted to nanoseconds exactly
            assert_eq!(d.subsec_nanos(), 100_000);
        }
        _ => panic!("expected a deadline message"),
    }
}

#[test]
fn recv_padded_bodies_are_invalid() {
    // trailing bytes after a complete body are malformed, not missing
    let deadline = Dur::new(2, 100 * 1000);
    let mut padded = msg_in_to_bytes(&MsgIn::GoToDeadline(deadline));
    padded.push(0);
    assert!(matches!(msg_in_from_bytes(&padded), Err(Error::InvalidData)));

    let mut end = msg_in_to_bytes(&MsgIn::EndSimulation);
    end.push(0);
    assert!(matches!(msg_in_from_bytes(&end), Err(Error::InvalidData)));

    let msg = new_deliver_packet(local_vsg_address(), remote_vsg_address(), vec![1, 2, 3])
        .expect("within bounds");
    let mut deliver = msg_in_to_bytes(&msg);
    deliver.push(0);
    assert!(matches!(msg_in_from_bytes(&deliver), Err(Error::InvalidData)));
}

#[test]
fn recv_go_to_deadline_oob_useconds() {
    // useconds = u64::MAX is out of bounds
    let mut body: Vec<u8> = Vec::new();
    u32_to_le(1, &mut body);
    u64_to_le(0, &mut body);
    u64_to_le(u64::MAX, &mut body);
    match msg_in_from_bytes(&body) {
        Err(Error::InvalidData) => (),
        _ => panic!("expected invalid data"),
    }
}

#[test]
fn recv_go_to_deadline_boundary_useconds() {
    // useconds = 1_000_000 is rejected as malformed; 999_999 is accepted
    let mut body: Vec<u8> = Vec::new();
    u32_to_le(1, &mut body);
    u64_to_le(0, &mut body);
    u64_to_le(1_000_000, &mut body);
    assert!(matches!(msg_in_from_bytes(&body), Err(Error::InvalidData)));

    let mut body2: Vec<u8> = Vec::new();
    u32_to_le(1, &mut body2);
    u64_to_le(0, &mut body2);
    u64_to_le(999_999, &mut body2);
    match msg_in_from_bytes(&body2) {
        Ok(MsgIn::GoToDeadline(d)) => assert_eq!(d.subsec_micros(), 999_999),
        _ => panic!("expected a deadline message"),
    }
}

#[test]
fn recv_invalid_msg_type() {
    let invalid_type: u32 = (1 + 1) * (0 + 1) + 1;
    let mut body: Vec<u8> = Vec::new();
    u32_to_le(invalid_type, &mut body);
    assert!(matches!(msg_in_from_bytes(&body), Err(Error::InvalidData)));
}

#[test]
fn recv_partial_msg_type() {
    let mut body: Vec<u8> = Vec::new();
    u32_to_le(1, &mut body);
    body.truncate(3);
    assert!(matches!(msg_in_from_bytes(&body), Err(Error::MissingData)));
}

#[test]
fn recv_partial_go_to_deadline() {
    let deadline = Dur::new(2, 100 * 1000);
    let mut body = msg_in_to_bytes(&MsgIn::GoToDeadline(deadline));
    body.truncate(body.len() - 1);
    assert!(matches!(msg_in_from_bytes(&body), Err(Error::MissingData)));
}

#[test]
fn recv_deliver_packet() {
    let msg = new_deliver_packet(
        local_vsg_address(),
        remote_vsg_address(),
        PACKET_PAYLOAD.to_vec(),
    )
    .expect("within bounds");
    let body = msg_in_to_bytes(&msg);
    match msg_in_from_bytes(&body) {
        Ok(MsgIn::DeliverPacket(d)) => {
            assert_eq!(d.src(), local_vsg_address());
            assert_eq!(d.dst(), remote_vsg_address());
            assert_eq!(d.payload().as_slice(), PACKET_PAYLOAD);
        }
        _ => panic!("expected a delivered packet"),
    }
}

#[test]
fn recv_partial_deliver_packet_header() {
    let msg = new_deliver_packet(local_vsg_address(), remote_vsg_address(), Vec::new())
        .expect("within bounds");
    let mut body = msg_in_to_bytes(&msg);
    body.truncate(15);
    assert!(matches!(msg_in_from_bytes(&body), Err(Error::MissingData)));
}

#[test]
fn recv_partial_deliver_packet_payload() {
    let msg = new_deliver_packet(
        local_vsg_address(),
        remote_vsg_address(),
        PACKET_PAYLOAD.to_vec(),
    )
    .expect("within bounds");
    let mut body = msg_in_to_bytes(&msg);
    body.truncate(body.len() - 1);
    assert!(matches!(msg_in_from_bytes(&body), Err(Error::MissingData)));
}

#[test]
fn recv_deliver_packet_payload_too_big() {
    // A header announcing MAX_PACKET_SIZE + 1 payload bytes is refused.
    let mut body: Vec<u8> = Vec::new();
    u32_to_le(0, &mut body);
    u32_to_le(local_vsg_address(), &mut body);
    u32_to_le(remote_vsg_address(), &mut body);
    u32_to_le((MAX_PACKET_SIZE + 1) as u32, &mut body);
    for _ in 0..(MAX_PACKET_SIZE + 1) {
        body.push(0);
    }
    assert!(matches!(msg_in_from_bytes(&body), Err(Error::InvalidData)));
}

#[test]
fn recv_gibberish() {
    // A full-size buffer with no valid tag surfaces an error.
    let body: Vec<u8> = vec![0xAB; MAX_PACKET_SIZE];
    assert!(matches!(msg_in_from_bytes(&body), Err(Error::InvalidData)));
}

#[test]
fn send_at_deadline() {
    let body = msg_out_to_bytes(&MsgOut::AtDeadline);
    assert_eq!(body, vec![0u8, 0, 0, 0]);
    match msg_out_from_bytes(&body) {
        Ok(MsgOut::AtDeadline) => (),
        _ => panic!("expected a deadline acknowledgement"),
    }
}

#[test]
fn send_at_deadline_twice() {
    let first = msg_out_to_bytes(&MsgOut::AtDeadline);
    let second = msg_out_to_bytes(&MsgOut::AtDeadline);
    assert_eq!(first, second);
}

#[test]
fn send_send_packet() {
    let send_time = Dur::new(3, 200);
    let msg = MsgOut::SendPacket(send_time, 0, 1, PACKET_PAYLOAD.to_vec());
    let body = msg_out_to_bytes(&msg);
    match msg_out_from_bytes(&body) {
        Ok(MsgOut::SendPacket(t, src, dst, payload)) => {
            assert_eq!(t.as_secs(), 3);
            // the wire carries microseconds: 200 ns truncate to 0
            assert_eq!(t.subsec_micros(), 0);
            assert_eq!(src, 0);
            assert_eq!(dst, 1);
            assert_eq!(payload.as_slice(), PACKET_PAYLOAD);
        }
        _ => panic!("expected an outgoing packet"),
    }
}

#[test]
fn frame_roundtrip() {
    let deadline = Dur::from_micros(100);
    let body = msg_in_to_bytes(&MsgIn::GoToDeadline(deadline));
    let frame = frame_bytes(&body);
    let (size, start) = read_prefixed_size(&frame, 0).expect("prefix present");
    assert_eq!(size, body.len());
    assert_eq!(start, 4);
    let (decoded_body, next) = decode_frame(&frame, 0, MAX_PACKET_SIZE).expect("whole frame");
    assert_eq!(decoded_body, body);
    assert_eq!(next, frame.len());
}

#[test]
fn decode_frame_too_big() {
    let body: Vec<u8> = vec![0; MAX_PACKET_SIZE + 1];
    let frame = frame_bytes(&body);
    assert!(matches!(
        decode_frame(&frame, 0, MAX_PACKET_SIZE),
        Err(Error::InvalidData)
    ));
}

#[test]
fn go_to_deadline_seconds_not_overflowable() {
    // The wire and the internal representation both use 64-bit seconds.
    let net_should_use_u64 = GoToDeadline {
        deadline: Time {
            seconds: 0u64,
            useconds: 0u64,
        },
    };
    let internal_should_use_u64 = MsgIn::GoToDeadline(Dur::new(0u64, 0u32));
    assert_eq!(net_should_use_u64.deadline.seconds, 0);
    assert!(matches!(internal_should_use_u64, MsgIn::GoToDeadline(_)));
}

#[test]
fn header_encodings_exact() {
    let mut out: Vec<u8> = Vec::new();
    Time {
        seconds: 2,
        useconds: 100,
    }
    .to_bytes(&mut out, Endianness::Little);
    assert_eq!(
        out,
        vec![2u8, 0, 0, 0, 0, 0, 0, 0, 100, 0, 0, 0, 0, 0, 0, 0]
    );

    let mut out2: Vec<u8> = Vec::new();
    Packet { size: 42 }.to_bytes(&mut out2, Endianness::Little);
    assert_eq!(out2, vec![42u8, 0, 0, 0]);

    let mut out3: Vec<u8> = Vec::new();
    PacketMeta { src: 1, dst: 2 }.to_bytes(&mut out3, Endianness::Little);
    assert_eq!(out3, vec![1u8, 0, 0, 0, 2, 0, 0, 0]);

    let mut out4: Vec<u8> = Vec::new();
    SendPacket {
        send_time: Time {
            seconds: 3,
            useconds: 0,
        },
        src: 0,
        dest: 1,
        packet: Packet { size: 7 },
    }
    .to_bytes(&mut out4, Endianness::Little);
    assert_eq!(out4.len(), 28);
    let (parsed, next) =
        SendPacket::from_bytes(&out4, 0, Endianness::Little).expect("complete header");
    assert_eq!(next, 28);
    assert_eq!(parsed.send_time.seconds, 3);
    assert_eq!(parsed.dest, 1);
    assert_eq!(parsed.packet.size, 7);
}

#[test]
fn tag_encodings_exact() {
    let mut out: Vec<u8> = Vec::new();
    MsgInType::DeliverPacket.to_bytes(&mut out, Endianness::Native);
    MsgInType::GoToDeadline.to_bytes(&mut out, Endianness::Native);
    MsgInType::EndSimulation.to_bytes(&mut out, Endianness::Native);
    MsgOutType::AtDeadline.to_bytes(&mut out, Endianness::Native);
    MsgOutType::SendPacket.to_bytes(&mut out, Endianness::Native);
    assert_eq!(
        out,
        vec![0u8, 0, 0, 0, 1, 0, 0, 0, 2, 0, 0, 0, 0, 0, 0, 0, 1, 0, 0, 0]
    );
    assert!(matches!(
        MsgInType::from_bytes(&out, 4, Endianness::Native),
        Ok((MsgInType::GoToDeadline, 8))
    ));
    let bad: Vec<u8> = vec![9, 9, 9, 9];
    assert!(matches!(
        MsgInType::from_bytes(&bad, 0, Endianness::Native),
        Err(Error::InvalidData)
    ));
    assert!(matches!(
        MsgOutType::from_bytes(&bad, 0, Endianness::Native),
        Err(Error::InvalidData)
    ));
    let end = msg_in_to_bytes(&MsgIn::EndSimulation);
    assert_eq!(end, vec![2u8, 0, 0, 0]);
    assert!(matches!(msg_in_from_bytes(&end), Ok(MsgIn::EndSimulation)));
}

#[test]
fn u32_from_le_reads_wire_order() {
    let bytes: Vec<u8> = vec![4, 3, 2, 1];
    assert_eq!(u32_from_le(&bytes, 0), 0x01020304);
}
