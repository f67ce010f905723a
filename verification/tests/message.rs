use dcutr::message::{
    decode, encode, read_frame, write_frame, Frame, HolePunch, Kind, MalformedMessage,
    MAX_ADDRS, MAX_MESSAGE_SIZE,
};
use libp2p_core::Multiaddr;

fn msg_addr(s: &str) -> Multiaddr {
    s.parse().unwrap()
}

fn connect_one() -> HolePunch {
    HolePunch::Connect { obs_addrs: vec![msg_addr("/ip4/1.2.3.4/tcp/1")] }
}

const CONNECT_ONE: [u8; 12] = [0x08, 100, 0x12, 8, 4, 1, 2, 3, 4, 6, 0, 1];

#[test]
fn encode_sync_is_three_bytes() {
    assert_eq!(encode(&HolePunch::Sync), Ok(vec![0x08, 0xac, 0x02]));
}

#[test]
fn encode_connect_writes_kind_then_one_field_per_address() {
    assert_eq!(encode(&connect_one()), Ok(CONNECT_ONE.to_vec()));
    let two = HolePunch::Connect {
        obs_addrs: vec![msg_addr("/ip4/1.2.3.4/tcp/1"), msg_addr("/ip4/9.9.9.9/udp/258")],
    };
    let mut expected = CONNECT_ONE.to_vec();
    expected.extend_from_slice(&[0x12, 9, 4, 9, 9, 9, 9, 0x91, 0x02, 1, 2]);
    assert_eq!(encode(&two), Ok(expected));
}

#[test]
fn encode_refuses_connect_without_addresses() {
    assert_eq!(encode(&HolePunch::Connect { obs_addrs: vec![] }), Err(MalformedMessage));
    assert_eq!(write_frame(&HolePunch::Connect { obs_addrs: vec![] }), Err(MalformedMessage));
}

#[test]
fn encode_takes_thirty_addresses_and_no_more() {
    let addr = msg_addr("/ip4/1.2.3.4/tcp/1");
    let thirty = HolePunch::Connect { obs_addrs: vec![addr.clone(); MAX_ADDRS] };
    let bytes = encode(&thirty).unwrap();
    assert_eq!(bytes.len(), 2 + 30 * 10);
    assert_eq!(decode(&bytes), Ok(thirty));
    let more = HolePunch::Connect { obs_addrs: vec![addr; MAX_ADDRS + 1] };
    assert_eq!(encode(&more), Err(MalformedMessage));
}

#[test]
fn encode_refuses_address_longer_than_limit() {
    let long = format!("/dns4/{}", "a".repeat(200)).repeat(6);
    let addr = msg_addr(&long);
    assert!(addr.to_vec().len() > 1024);
    assert_eq!(encode(&HolePunch::Connect { obs_addrs: vec![addr] }), Err(MalformedMessage));
}

#[test]
fn encode_refuses_message_larger_than_limit() {
    let long = format!("/dns4/{}", "a".repeat(200)).repeat(4);
    let addr = msg_addr(&long);
    assert!(addr.to_vec().len() <= 1024);
    let four = HolePunch::Connect { obs_addrs: vec![addr.clone(); 4] };
    assert!(encode(&four).unwrap().len() <= MAX_MESSAGE_SIZE);
    let six = HolePunch::Connect { obs_addrs: vec![addr; 6] };
    assert_eq!(encode(&six), Err(MalformedMessage));
}

#[test]
fn decode_reads_what_encode_wrote() {
    assert_eq!(decode(&CONNECT_ONE), Ok(connect_one()));
    assert_eq!(decode(&[0x08, 0xac, 0x02]), Ok(HolePunch::Sync));
    let many = HolePunch::Connect {
        obs_addrs: vec![
            msg_addr("/ip4/1.2.3.4/tcp/1"),
            msg_addr("/ip6/::1/udp/4001/quic"),
            msg_addr("/dns4/example.com/tcp/443/wss"),
        ],
    };
    assert_eq!(decode(&encode(&many).unwrap()), Ok(many));
}

#[test]
fn encode_gives_back_the_bytes_that_decode_read() {
    let bytes = CONNECT_ONE.to_vec();
    assert_eq!(encode(&decode(&bytes).unwrap()), Ok(bytes));
    let sync = vec![0x08, 0xac, 0x02];
    assert_eq!(encode(&decode(&sync).unwrap()), Ok(sync));
}

#[test]
fn decode_refuses_empty_and_wrong_first_tag() {
    assert_eq!(decode(&[]), Err(MalformedMessage));
    assert_eq!(decode(&[0x10, 100]), Err(MalformedMessage));
    assert_eq!(decode(&[0x08]), Err(MalformedMessage));
}

#[test]
fn decode_refuses_unknown_kind() {
    assert_eq!(decode(&[0x08, 0x01]), Err(MalformedMessage));
    assert_eq!(decode(&[0x08, 0xe4, 0x00]), Err(MalformedMessage));
}

#[test]
fn decode_refuses_connect_without_addresses() {
    assert_eq!(decode(&[0x08, 100]), Err(MalformedMessage));
}

#[test]
fn decode_refuses_sync_with_addresses() {
    let mut bytes = vec![0x08, 0xac, 0x02];
    bytes.extend_from_slice(&CONNECT_ONE[2..]);
    assert_eq!(decode(&bytes), Err(MalformedMessage));
}

#[test]
fn decode_refuses_bytes_that_are_no_address() {
    assert_eq!(decode(&[0x08, 100, 0x12, 2, 4, 1]), Err(MalformedMessage));
    assert_eq!(decode(&[0x08, 100, 0x12, 3, 0xff, 0xff, 0x7f]), Err(MalformedMessage));
}

#[test]
fn decode_refuses_field_that_runs_past_the_end() {
    assert_eq!(decode(&[0x08, 100, 0x12, 9, 4, 1, 2, 3, 4, 6, 0, 1]), Err(MalformedMessage));
    assert_eq!(decode(&[0x08, 100, 0x12]), Err(MalformedMessage));
}

#[test]
fn decode_refuses_other_fields_and_other_order() {
    assert_eq!(
        decode(&[0x08, 100, 0x12, 8, 4, 1, 2, 3, 4, 6, 0, 1, 0x18, 1]),
        Err(MalformedMessage)
    );
    assert_eq!(
        decode(&[0x12, 8, 4, 1, 2, 3, 4, 6, 0, 1, 0x08, 100]),
        Err(MalformedMessage)
    );
}

#[test]
fn decode_refuses_more_than_thirty_addresses() {
    let mut bytes = vec![0x08, 100];
    for _ in 0..31 {
        bytes.extend_from_slice(&CONNECT_ONE[2..]);
    }
    assert_eq!(decode(&bytes), Err(MalformedMessage));
}

#[test]
fn decode_refuses_message_larger_than_limit() {
    let mut bytes = vec![0x08, 100];
    while bytes.len() <= MAX_MESSAGE_SIZE {
        bytes.extend_from_slice(&[0x12, 0]);
    }
    assert_eq!(decode(&bytes), Err(MalformedMessage));
}

#[test]
fn write_frame_puts_length_in_front() {
    let mut expected = vec![12u8];
    expected.extend_from_slice(&CONNECT_ONE);
    assert_eq!(write_frame(&connect_one()), Ok(expected));
    assert_eq!(write_frame(&HolePunch::Sync), Ok(vec![3, 0x08, 0xac, 0x02]));
}

#[test]
fn write_frame_uses_two_bytes_for_long_message() {
    let addr = msg_addr("/ip4/1.2.3.4/tcp/1");
    let message = HolePunch::Connect { obs_addrs: vec![addr; 20] };
    let frame = write_frame(&message).unwrap();
    assert_eq!(&frame[..2], &[0xca, 0x01]);
    assert_eq!(frame.len(), 2 + 202);
    assert_eq!(read_frame(&frame, Kind::Connect), Frame::Complete { message, len: 204 });
}

#[test]
fn read_frame_reads_what_write_frame_wrote() {
    let frame = write_frame(&connect_one()).unwrap();
    assert_eq!(
        read_frame(&frame, Kind::Connect),
        Frame::Complete { message: connect_one(), len: 13 }
    );
    let sync = write_frame(&HolePunch::Sync).unwrap();
    assert_eq!(read_frame(&sync, Kind::Sync), Frame::Complete { message: HolePunch::Sync, len: 4 });
}

#[test]
fn read_frame_leaves_what_follows_the_frame() {
    let mut bytes = write_frame(&connect_one()).unwrap();
    bytes.extend_from_slice(&[3, 0x08, 0xac, 0x02]);
    assert_eq!(
        read_frame(&bytes, Kind::Connect),
        Frame::Complete { message: connect_one(), len: 13 }
    );
    assert_eq!(
        read_frame(&bytes[13..], Kind::Sync),
        Frame::Complete { message: HolePunch::Sync, len: 4 }
    );
}

#[test]
fn read_frame_waits_for_missing_bytes() {
    let frame = write_frame(&connect_one()).unwrap();
    for cut in 0..frame.len() {
        assert_eq!(read_frame(&frame[..cut], Kind::Connect), Frame::Incomplete);
    }
    assert_eq!(read_frame(&[0x80], Kind::Connect), Frame::Incomplete);
}

#[test]
fn read_frame_refuses_length_beyond_limit() {
    assert_eq!(read_frame(&[0x81, 0x20], Kind::Connect), Frame::Malformed);
    assert_eq!(read_frame(&[0x80, 0x80], Kind::Connect), Frame::Malformed);
    assert_eq!(read_frame(&[0xff, 0xff, 0x03], Kind::Connect), Frame::Malformed);
}

#[test]
fn read_frame_takes_length_at_limit() {
    assert_eq!(read_frame(&[0x80, 0x20], Kind::Connect), Frame::Incomplete);
}

#[test]
fn read_frame_refuses_length_not_in_shortest_form() {
    assert_eq!(read_frame(&[0x83, 0x00, 0x08, 0xac, 0x02], Kind::Sync), Frame::Malformed);
}

#[test]
fn read_frame_refuses_message_of_other_kind() {
    let connect = write_frame(&connect_one()).unwrap();
    assert_eq!(read_frame(&connect, Kind::Sync), Frame::Malformed);
    let sync = write_frame(&HolePunch::Sync).unwrap();
    assert_eq!(read_frame(&sync, Kind::Connect), Frame::Malformed);
}

#[test]
fn read_frame_refuses_malformed_message() {
    assert_eq!(read_frame(&[2, 0x08, 100], Kind::Connect), Frame::Malformed);
    assert_eq!(read_frame(&[0], Kind::Connect), Frame::Malformed);
}

#[test]
fn kind_of_message() {
    assert_eq!(connect_one().kind(), Kind::Connect);
    assert_eq!(HolePunch::Sync.kind(), Kind::Sync);
}
