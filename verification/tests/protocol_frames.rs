use zkteco_bridge::ports::DeviceError;
use zkteco_bridge::protocol::{
    calc_checksum, decode_attendance_data, decode_timestamp, make_commkey, make_raw_packet,
    make_tcp_packet, parse_raw_packet, parse_tcp_header, CMD_AUTH, CMD_CONNECT,
};

#[test]
fn connect_packet_has_the_expected_bytes() {
    let pkt = make_raw_packet(CMD_CONNECT, &[], 0, 65534);
    assert_eq!(pkt, vec![232, 3, 24, 252, 0, 0, 254, 255]);
}

#[test]
fn packet_checksum_covers_header_and_data() {
    let pkt = make_raw_packet(CMD_AUTH, &[1, 2, 3], 0x1234, 7);
    assert_eq!(pkt, vec![78, 4, 114, 231, 52, 18, 7, 0, 1, 2, 3]);
    // An odd trailing byte counts as a word of its own.
    assert_eq!(calc_checksum(&[1]), !1u16);
    assert_eq!(calc_checksum(&[]), 0xffff);
}

#[test]
fn raw_packets_parse_back_to_their_fields() {
    let pkt = make_raw_packet(2000, &[9, 8, 7, 6], 42, 11);
    let parsed = parse_raw_packet(&pkt).unwrap();
    assert_eq!(parsed.command, 2000);
    assert_eq!(parsed.session_id, 42);
    assert_eq!(parsed.reply_id, 11);
    assert_eq!(parsed.data, vec![9, 8, 7, 6]);
}

#[test]
fn short_packets_are_rejected() {
    match parse_raw_packet(&[1, 2, 3]) {
        Err(DeviceError::Message(m)) => assert_eq!(m, "ZKTeco packet too short: 3"),
        other => panic!("unexpected {:?}", other.is_ok()),
    }
}

#[test]
fn tcp_frames_carry_magic_and_length() {
    let pkt = make_tcp_packet(CMD_CONNECT, &[], 0, 65534);
    assert_eq!(pkt.len(), 16);
    assert_eq!(&pkt[0..4], &[0x50, 0x50, 0x82, 0x7d]);
    assert_eq!(parse_tcp_header(&pkt[0..8]).unwrap(), 8);
    assert!(parse_tcp_header(&[0, 0, 0, 0, 8, 0, 0, 0]).is_err());
    assert!(parse_tcp_header(&[0x50, 0x50, 0x82, 0x7d, 7, 0, 0, 0]).is_err());
}

#[test]
fn comm_keys_match_the_device_algorithm() {
    assert_eq!(make_commkey(0, 0), [97, 125, 50, 121]);
    assert_eq!(make_commkey(123456, 0x2a), [38, 127, 50, 249]);
}

#[test]
fn device_timestamps_render_as_utc() {
    assert_eq!(decode_timestamp(0), "2000-01-01T00:00:00+00:00");
    assert_eq!(decode_timestamp(797000000), "2024-10-18T12:53:20+00:00");
}

#[test]
fn attendance_records_of_each_width_decode() {
    // Two 8-byte records: uid(2), pad(1), time(4), punch(1).
    let mut p8 = vec![16, 0, 0, 0];
    p8.extend_from_slice(&[5, 0, 0, 0, 0, 0, 0, 1]);
    p8.extend_from_slice(&[6, 0, 0, 60, 0, 0, 0, 0]);
    let r = decode_attendance_data(&p8, 2).unwrap();
    assert_eq!(r.len(), 2);
    assert_eq!(r[0].user_id, "5");
    assert_eq!(r[0].punch, 1);
    assert_eq!(r[1].timestamp, "2000-01-01T00:01:00+00:00");

    // One 40-byte record with a text user id.
    let mut p40 = vec![40, 0, 0, 0];
    let mut rec = vec![0u8; 40];
    rec[2] = b'1';
    rec[3] = b'7';
    rec[27] = 1;
    rec[31] = 4;
    p40.extend_from_slice(&rec);
    let r = decode_attendance_data(&p40, 1).unwrap();
    assert_eq!(r.len(), 1);
    assert_eq!(r[0].user_id, "17");
    assert_eq!(r[0].timestamp, "2000-01-01T00:00:01+00:00");
    assert_eq!(r[0].punch, 4);

    // An empty buffer gives no records.
    assert!(decode_attendance_data(&[0, 0, 0, 0], 3).unwrap().is_empty());
    assert!(decode_attendance_data(&[1], 0).unwrap().is_empty());
}
