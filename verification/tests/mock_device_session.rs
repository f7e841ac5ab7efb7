use std::cell::RefCell;
use std::rc::Rc;

use zkteco_bridge::domain::{DeviceUser, FingerTemplate};
use zkteco_bridge::mock::{
    encode_time, hrms_route, mock_device_step, mock_hrms_answer, mock_http_json, mock_record,
    next_reply_id, HrmsRoute, MockRecord, MockSession,
};
use zkteco_bridge::ports::DeviceClient;
use zkteco_bridge::protocol::{make_raw_packet, parse_raw_packet, CMD_ACK_OK, CMD_CONNECT, CMD_EXIT};
use zkteco_bridge::zk_client::{chunk_requests, ZkLink, ZktecoClient};

/// A stream link whose far end is the mock device.
struct MockLink {
    session: MockSession,
    records: Rc<RefCell<Vec<MockRecord>>>,
    pending: Vec<u8>,
    sent: Rc<RefCell<Vec<Vec<u8>>>>,
}

impl ZkLink for MockLink {
    fn send(&mut self, bytes: &[u8]) -> Result<(), String> {
        // The device sees the packet after its 8-byte frame header.
        let packet = &bytes[8..];
        self.sent.borrow_mut().push(packet.to_vec());
        let step = mock_device_step(&mut self.session, &mut self.records.borrow_mut(), packet);
        self.pending.extend_from_slice(&step.reply);
        Ok(())
    }

    fn read_exact(&mut self, n: usize) -> Result<Vec<u8>, String> {
        if self.pending.len() < n {
            return Err("connection closed".to_string());
        }
        Ok(self.pending.drain(..n).collect())
    }

    fn recv(&mut self, _max: usize) -> Result<Vec<u8>, String> {
        Err("not a datagram link".to_string())
    }
}

fn client_with(records: Vec<MockRecord>) -> (ZktecoClient, Rc<RefCell<Vec<MockRecord>>>, Rc<RefCell<Vec<Vec<u8>>>>) {
    let shared = Rc::new(RefCell::new(records));
    let sent = Rc::new(RefCell::new(Vec::new()));
    let link = MockLink {
        session: MockSession { session_id: 0 },
        records: shared.clone(),
        pending: Vec::new(),
        sent: sent.clone(),
    };
    (ZktecoClient::new(Box::new(link), false), shared, sent)
}

#[test]
fn mock_device_opens_a_session_and_echoes_reply_ids() {
    let mut session = MockSession { session_id: 0 };
    let mut records = Vec::new();
    let connect = make_raw_packet(CMD_CONNECT, &[], 0, 65534);
    let step = mock_device_step(&mut session, &mut records, &connect);
    assert_eq!(&step.reply[0..4], &[0x50, 0x50, 0x82, 0x7d]);
    let reply = parse_raw_packet(&step.reply[8..]).unwrap();
    assert_eq!(reply.command, CMD_ACK_OK);
    assert_eq!(reply.session_id, 12345);
    assert_eq!(reply.reply_id, 0);
    assert!(!step.close);

    let exit = make_raw_packet(CMD_EXIT, &[], 12345, 3);
    let step = mock_device_step(&mut session, &mut records, &exit);
    assert!(step.close);
    assert_eq!(next_reply_id(65534), 0);
    assert_eq!(next_reply_id(65533), 65534);
    assert_eq!(next_reply_id(7), 8);
}

#[test]
fn client_pulls_and_clears_mock_attendance() {
    let t = encode_time(24, 1, 2, 8, 0, 0);
    let (mut client, records, sent) = client_with(vec![mock_record(0, t), mock_record(1, t + 60)]);
    client.authenticate(0).unwrap();
    // The first packet is CONNECT with request id 65534 + 1 wrapped past 65535.
    let first = parse_raw_packet(&sent.borrow()[0]).unwrap();
    assert_eq!(first.command, CMD_CONNECT);
    assert_eq!(first.reply_id, 0);

    let pulled = client.pull_attendance().unwrap();
    assert_eq!(pulled.len(), 2);
    assert_eq!(pulled[0].user_id, "1001");
    assert_eq!(pulled[0].timestamp, "2024-01-02T08:00:00+00:00");
    assert_eq!(pulled[0].punch, 0);
    assert_eq!(pulled[1].user_id, "1002");
    assert_eq!(pulled[1].timestamp, "2024-01-02T08:01:00+00:00");
    assert_eq!(pulled[1].punch, 1);

    client.clear_attendance().unwrap();
    assert!(records.borrow().is_empty());
    assert!(client.pull_attendance().unwrap().is_empty());
    client.disconnect();
}

#[test]
fn client_reads_templates_and_pushes_users() {
    let (mut client, _records, sent) = client_with(Vec::new());
    client.authenticate(0).unwrap();
    let templates = client.get_templates().unwrap();
    assert_eq!(templates.len(), 1);
    assert_eq!(templates[0].uid, 1001);
    assert_eq!(templates[0].user_id, "1001");
    assert_eq!(templates[0].name, "MockUser");
    assert_eq!(templates[0].template, vec![0xAA, 0xBB, 0xCC, 0xDD]);

    let before = sent.borrow().len();
    let user = DeviceUser { uid: 7, user_id: "7".to_string(), name: "Ann".to_string() };
    let finger = FingerTemplate {
        uid: 7,
        fid: 1,
        user_id: "7".to_string(),
        name: "Ann".to_string(),
        template: vec![1, 2, 3],
    };
    client.push_user_template(&user, &finger).unwrap();
    assert!(sent.borrow().len() > before);
}

#[test]
fn buffers_are_read_in_full_chunks_then_the_rest() {
    assert_eq!(chunk_requests(10, 4), vec![(0, 4), (4, 4), (8, 2)]);
    assert_eq!(chunk_requests(8, 4), vec![(0, 4), (4, 4)]);
    assert!(chunk_requests(0, 4).is_empty());
}

#[test]
fn mock_hrms_routes_and_answers() {
    assert_eq!(hrms_route("POST", "/anything"), HrmsRoute::Webhook);
    assert_eq!(hrms_route("GET", "/events"), HrmsRoute::Events);
    assert_eq!(hrms_route("GET", "/reset"), HrmsRoute::Reset);
    assert_eq!(hrms_route("GET", "/health"), HrmsRoute::Health);
    assert_eq!(hrms_route("GET", "/api/v1/biometric-devices/pending-jobs?x=1"), HrmsRoute::PendingJobs);
    assert_eq!(hrms_route("GET", "/nope"), HrmsRoute::NotFound);
    assert_eq!(hrms_route("DELETE", "/events"), HrmsRoute::NotFound);
    assert_eq!(
        mock_http_json(200, "{}"),
        "HTTP/1.1 200 OK\r\nContent-Type: application/json\r\nConnection: close\r\nContent-Length: 2\r\n\r\n{}"
    );
    let not_found = mock_hrms_answer(HrmsRoute::NotFound).unwrap();
    assert!(not_found.starts_with("HTTP/1.1 404 Not Found\r\n"));
    assert!(not_found.ends_with("{\"ok\":false,\"message\":\"not found\"}"));
    assert!(mock_hrms_answer(HrmsRoute::Events).is_none());
}
