use zkteco_bridge::dashboard::{help_title, help_window};
use zkteco_bridge::domain::DeviceUser;
use zkteco_bridge::protocol::{calc_checksum, decode_users, make_zk_header, repack_user_73};

#[test]
fn a_built_packet_checksums_to_zero() {
    assert_eq!(calc_checksum(&make_zk_header(1000, b"abc", 5, 7)), 0);
    assert_eq!(calc_checksum(&make_zk_header(0, &[], 0, 0)), 0);
    assert_eq!(calc_checksum(&make_zk_header(13, &[0xff; 9], 65534, 65533)), 0);
}

#[test]
fn a_repacked_user_decodes_back() {
    let u = DeviceUser { uid: 42, user_id: "1007".to_string(), name: "Rahim".to_string() };
    let packed = repack_user_73(&u);
    let mut payload = 72u32.to_le_bytes().to_vec();
    payload.extend_from_slice(&packed[1..]);
    let users = decode_users(&payload, 1).unwrap();
    assert_eq!(users.len(), 1);
    assert_eq!(users[0].uid, 42);
    assert_eq!(users[0].user_id, "1007");
    assert_eq!(users[0].name, "Rahim");
}

#[test]
fn the_help_page_scroll_is_held_to_its_length() {
    assert_eq!(help_window(32, 10, 100), (22, 22));
    assert_eq!(help_window(32, 10, 5), (5, 22));
    assert_eq!(help_window(8, 10, 3), (0, 0));
    assert_eq!(help_title(5, 22), " help (5/22) \u{2014} \u{2191}/\u{2193} scroll \u{b7} Esc home ");
    assert_eq!(help_title(0, 0), " help \u{2014} Esc home ");
}
