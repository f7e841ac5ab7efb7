//! ZKTeco wire protocol (TCP and UDP framing), pyzk-compatible.
//!
//! A raw packet is `command(2) checksum(2) session_id(2) reply_id(2) data…`,
//! all little-endian. Over TCP it is preceded by an 8-byte frame header:
//! `MACHINE_PREPARE_DATA_1(2) MACHINE_PREPARE_DATA_2(2) length(4)`.

use vstd::prelude::*;

use crate::domain::{
    attendance_views, template_views, user_views, AttendanceView, DeviceUser, FingerTemplate,
    RawAttendance, TemplateView, UserView,
};
use crate::ports::DeviceError;
use crate::text::{
    byte_char, dec, dec_padded, decode_utf8_lossy, fmt_u64, latin1, push_char, push_dec,
    push_dec_padded, trim, trim_str, utf8_lossy,
};
use vstd::string::StringSliceAdditionalSpecFns;
use vstd::utf8::encode_utf8;

verus! {

pub const MACHINE_PREPARE_DATA_1: u16 = 20560;
pub const MACHINE_PREPARE_DATA_2: u16 = 32130;
pub const USHRT_MAX: u16 = 65535;

pub const CMD_GET_FREE_SIZES: u16 = 50;
pub const CMD_OPTIONS_RRQ: u16 = 11;
pub const CMD_DB_RRQ: u8 = 7;
pub const CMD_USERTEMP_RRQ: u8 = 9;
pub const CMD_ATTLOG_RRQ: u8 = 13;
pub const CMD_CLEAR_ATTLOG: u16 = 15;
pub const CMD_SAVE_USERTEMPS: u16 = 110;
pub const CMD_CONNECT: u16 = 1000;
pub const CMD_EXIT: u16 = 1001;
pub const CMD_REFRESHDATA: u16 = 1013;
pub const CMD_GET_VERSION: u16 = 1100;
pub const CMD_AUTH: u16 = 1102;
pub const CMD_PREPARE_DATA: u16 = 1500;
pub const CMD_DATA: u16 = 1501;
pub const CMD_FREE_DATA: u16 = 1502;
pub const CMD_PREPARE_BUFFER: u16 = 1503;
pub const CMD_READ_BUFFER: u16 = 1504;
pub const CMD_ACK_OK: u16 = 2000;
pub const CMD_ACK_UNAUTH: u16 = 2005;

pub const FCT_FINGERTMP: i32 = 2;
pub const FCT_USER: i32 = 5;

pub const MAX_CHUNK_TCP: usize = 65472;
pub const MAX_CHUNK_UDP: usize = 16384;
pub const MAX_CHUNK_SEND: usize = 1024;
pub const UDP_BUF: usize = 65536;

// ── Little-endian integers ────────────────────────────────────────────────────

/// Little-endian encoding of the low 16 bits of `x`.
pub open spec fn le16(x: int) -> Seq<u8> {
    seq![(x % 256) as u8, ((x / 256) % 256) as u8]
}

/// Little-endian encoding of the low 32 bits of `x`.
pub open spec fn le32(x: int) -> Seq<u8> {
    seq![
        (x % 256) as u8,
        ((x / 256) % 256) as u8,
        ((x / 65536) % 256) as u8,
        ((x / 16777216) % 256) as u8,
    ]
}

/// The little-endian 16-bit value at `i`.
pub open spec fn get16(s: Seq<u8>, i: int) -> int {
    s[i] as int + 256 * (s[i + 1] as int)
}

/// The little-endian 32-bit value at `i`.
pub open spec fn get32(s: Seq<u8>, i: int) -> int {
    s[i] as int + 256 * (s[i + 1] as int) + 65536 * (s[i + 2] as int) + 16777216 * (
    s[i + 3] as int)
}

pub proof fn lemma_get16_le16(x: int, s: Seq<u8>, i: int)
    requires
        0 <= x < 65536,
        0 <= i,
        i + 2 <= s.len(),
        s.subrange(i, i + 2) == le16(x),
    ensures
        get16(s, i) == x,
{
    assert(s[i] == le16(x)[0]);
    assert(s[i + 1] == le16(x)[1]);
}

pub proof fn lemma_get32_le32(x: int, s: Seq<u8>, i: int)
    requires
        0 <= x < 4294967296,
        0 <= i,
        i + 4 <= s.len(),
        s.subrange(i, i + 4) == le32(x),
    ensures
        get32(s, i) == x,
{
    assert(s[i] == le32(x)[0]);
    assert(s[i + 1] == le32(x)[1]);
    assert(s[i + 2] == le32(x)[2]);
    assert(s[i + 3] == le32(x)[3]);
}

/// Truncating to 16 bits leaves the two little-endian bytes unchanged.
proof fn lemma_le16_mod(x: int)
    requires
        x >= 0,
    ensures
        le16(x % 65536) == le16(x),
{
    assert((x % 65536) % 256 == x % 256) by (nonlinear_arith)
        requires
            x >= 0,
    ;
    assert(((x % 65536) / 256) % 256 == (x / 256) % 256) by (nonlinear_arith)
        requires
            x >= 0,
    ;
    assert(le16(x % 65536) =~= le16(x));
}

pub fn push_le16(v: &mut Vec<u8>, x: u16)
    ensures
        final(v)@ == old(v)@ + le16(x as int),
{
    v.push((x % 256) as u8);
    v.push((x / 256) as u8);
    assert(final(v)@ =~= old(v)@ + le16(x as int));
}

pub fn push_le32(v: &mut Vec<u8>, x: u32)
    ensures
        final(v)@ == old(v)@ + le32(x as int),
{
    v.push((x % 256) as u8);
    v.push(((x / 256) % 256) as u8);
    v.push(((x / 65536) % 256) as u8);
    v.push((x / 16777216) as u8);
    assert(final(v)@ =~= old(v)@ + le32(x as int));
}

pub fn push_bytes(v: &mut Vec<u8>, b: &[u8])
    ensures
        final(v)@ == old(v)@ + b@,
{
    let mut i: usize = 0;
    while i < b.len()
        invariant
            i <= b.len(),
            v@ == old(v)@ + b@.take(i as int),
        decreases b.len() - i,
    {
        v.push(b[i]);
        i += 1;
        assert(v@ =~= old(v)@ + b@.take(i as int));
    }
    assert(b@.take(b.len() as int) =~= b@);
}

pub fn get_u16(s: &[u8], i: usize) -> (r: u16)
    requires
        i + 1 < s.len(),
    ensures
        r as int == get16(s@, i as int),
{
    s[i] as u16 + (s[i + 1] as u16) * 256
}

pub fn get_u32(s: &[u8], i: usize) -> (r: u32)
    requires
        i + 3 < s.len(),
    ensures
        r as int == get32(s@, i as int),
{
    s[i] as u32 + (s[i + 1] as u32) * 256 + (s[i + 2] as u32) * 65536 + (s[i + 3] as u32)
        * 16777216
}

/// Copy of `s[from..to]`.
pub fn slice_bytes(s: &[u8], from: usize, to: usize) -> (r: Vec<u8>)
    requires
        from <= to <= s.len(),
    ensures
        r@ == s@.subrange(from as int, to as int),
{
    let mut r: Vec<u8> = Vec::new();
    let mut i = from;
    while i < to
        invariant
            from <= i <= to <= s.len(),
            r@ == s@.subrange(from as int, i as int),
        decreases to - i,
    {
        r.push(s[i]);
        i += 1;
        assert(r@ =~= s@.subrange(from as int, i as int));
    }
    r
}

// ── Checksum ─────────────────────────────────────────────────────────────────

/// The `k`-th 16-bit word of `s`; a trailing odd byte stands alone.
pub open spec fn word_at(s: Seq<u8>, k: int) -> int {
    if 2 * k + 1 < s.len() {
        get16(s, 2 * k)
    } else {
        s[2 * k] as int
    }
}

/// Folds a running sum back into 16 bits by subtracting `USHRT_MAX`.
pub open spec fn fold_sum(x: int) -> int {
    if x > 65535 {
        x - 65535
    } else {
        x
    }
}

/// The running sum after the first `k` words.
pub open spec fn checksum_acc(s: Seq<u8>, k: nat) -> int
    decreases k,
{
    if k == 0 {
        0
    } else {
        fold_sum(checksum_acc(s, (k - 1) as nat) + word_at(s, k - 1))
    }
}

/// Number of 16-bit words in `s`, counting a trailing odd byte.
pub open spec fn word_count(s: Seq<u8>) -> nat {
    ((s.len() + 1) / 2) as nat
}

/// The ZKTeco packet checksum: the complement of the folded word sum.
pub open spec fn checksum(s: Seq<u8>) -> u16 {
    (65535 - checksum_acc(s, word_count(s))) as u16
}

pub proof fn lemma_checksum_acc_bounded(s: Seq<u8>, k: nat)
    requires
        k <= word_count(s),
    ensures
        0 <= checksum_acc(s, k) <= 65535,
    decreases k,
{
    if k > 0 {
        lemma_checksum_acc_bounded(s, (k - 1) as nat);
        let w = word_at(s, k - 1);
        assert(0 <= w <= 65535);
    }
}

/// `calc_checksum` over a byte slice.
pub fn calc_checksum(data: &[u8]) -> (c: u16)
    ensures
        c == checksum(data@),
{
    let mut sum: u32 = 0;
    let mut i: usize = 0;
    let ghost n = word_count(data@);
    while i < data.len()
        invariant
            i <= data.len(),
            i % 2 == 0,
            (i / 2) as nat <= n,
            n == word_count(data@),
            sum as int == checksum_acc(data@, (i / 2) as nat),
            sum <= 65535,
        decreases data.len() - i,
    {
        let ghost k = (i / 2) as nat;
        let value: u32 = if i + 1 < data.len() {
            get_u16(data, i) as u32
        } else {
            data[i] as u32
        };
        assert(value as int == word_at(data@, k as int));
        sum = sum + value;
        let ghost s0 = sum as int;
        while sum > 65535
            invariant
                s0 <= 131070,
                s0 <= 65535 ==> sum == s0,
                s0 > 65535 ==> (sum == s0 || sum == s0 - 65535),
            decreases sum,
        {
            sum = sum - 65535;
        }
        assert(sum as int == checksum_acc(data@, k + 1));
        if i + 1 < data.len() {
            i = i + 2;
        } else {
            i = i + 1;
            assert(i == data.len());
            assert(word_count(data@) == k + 1);
            return (65535 - sum) as u16;
        }
    }
    assert(i / 2 == word_count(data@));
    (65535 - sum) as u16
}

// ── Packets ──────────────────────────────────────────────────────────────────

/// The 8 header bytes with a zero checksum, followed by the payload; the
/// checksum is computed over this.
pub open spec fn header_template(command: u16, data: Seq<u8>, session_id: u16, reply_id: u16) -> Seq<u8> {
    le16(command as int) + le16(0) + le16(session_id as int) + le16(reply_id as int) + data
}

/// A raw (UDP) packet: `command checksum session_id reply_id data`.
pub open spec fn raw_packet(command: u16, data: Seq<u8>, session_id: u16, reply_id: u16) -> Seq<u8> {
    le16(command as int) + le16(checksum(header_template(command, data, session_id, reply_id)) as int)
        + le16(session_id as int) + le16(reply_id as int) + data
}

/// A TCP packet: the frame header, then the raw packet.
pub open spec fn tcp_packet(command: u16, data: Seq<u8>, session_id: u16, reply_id: u16) -> Seq<u8> {
    le16(MACHINE_PREPARE_DATA_1 as int) + le16(MACHINE_PREPARE_DATA_2 as int) + le32(
        data.len() + 8int,
    ) + raw_packet(command, data, session_id, reply_id)
}

/// The raw packet header plus payload.
pub fn make_zk_header(command: u16, data: &[u8], session_id: u16, reply_id: u16) -> (r: Vec<u8>)
    ensures
        r@ == raw_packet(command, data@, session_id, reply_id),
{
    let mut template: Vec<u8> = Vec::new();
    push_le16(&mut template, command);
    push_le16(&mut template, 0);
    push_le16(&mut template, session_id);
    push_le16(&mut template, reply_id);
    push_bytes(&mut template, data);
    assert(template@ =~= header_template(command, data@, session_id, reply_id));
    let checksum = calc_checksum(template.as_slice());
    let mut hdr: Vec<u8> = Vec::new();
    push_le16(&mut hdr, command);
    push_le16(&mut hdr, checksum);
    push_le16(&mut hdr, session_id);
    push_le16(&mut hdr, reply_id);
    push_bytes(&mut hdr, data);
    assert(hdr@ =~= raw_packet(command, data@, session_id, reply_id));
    hdr
}

/// The plain sum of the first `k` words.
pub open spec fn word_sum(s: Seq<u8>, k: nat) -> int
    decreases k,
{
    if k == 0 {
        0
    } else {
        word_sum(s, (k - 1) as nat) + word_at(s, k - 1)
    }
}

/// How many times the running sum was folded over the first `k` words.
pub open spec fn fold_count(s: Seq<u8>, k: nat) -> int
    decreases k,
{
    if k == 0 {
        0
    } else {
        fold_count(s, (k - 1) as nat) + if checksum_acc(s, (k - 1) as nat) + word_at(s, k - 1) > 65535 {
            1int
        } else {
            0int
        }
    }
}

/// The folded sum is the plain sum less a multiple of 65535; it is zero only
/// when every word so far is.
proof fn lemma_fold_sum(s: Seq<u8>, k: nat)
    requires
        k <= word_count(s),
    ensures
        checksum_acc(s, k) + 65535 * fold_count(s, k) == word_sum(s, k),
        0 <= checksum_acc(s, k) <= 65535,
        fold_count(s, k) >= 0,
        word_sum(s, k) >= 0,
        checksum_acc(s, k) == 0 ==> word_sum(s, k) == 0,
    decreases k,
{
    if k > 0 {
        lemma_fold_sum(s, (k - 1) as nat);
        let w = word_at(s, k - 1);
        assert(0 <= w <= 65535);
    }
}

/// The packet's words are the template's, but for the checksum word.
proof fn lemma_packet_words(command: u16, data: Seq<u8>, session_id: u16, reply_id: u16, k: nat)
    requires
        k <= word_count(header_template(command, data, session_id, reply_id)),
    ensures
        word_sum(raw_packet(command, data, session_id, reply_id), k) == word_sum(
            header_template(command, data, session_id, reply_id),
            k,
        ) + if k >= 2 {
            checksum(header_template(command, data, session_id, reply_id)) as int
        } else {
            0int
        },
    decreases k,
{
    let t = header_template(command, data, session_id, reply_id);
    let p = raw_packet(command, data, session_id, reply_id);
    let c = checksum(t);
    if k > 0 {
        lemma_packet_words(command, data, session_id, reply_id, (k - 1) as nat);
        let j = k - 1;
        assert(p.len() == t.len());
        assert forall|i: int| 0 <= i < p.len() && i != 2 && i != 3 implies p[i] == t[i] by {}
        if j == 1 {
            assert(p[2] == (c as int % 256) as u8 && p[3] == ((c as int / 256) % 256) as u8);
            assert(t[2] == 0 && t[3] == 0);
            assert((c as int % 256) + 256 * ((c as int / 256) % 256) == c as int) by (nonlinear_arith)
                requires
                    0 <= c < 65536,
            ;
            assert(word_at(p, 1) == c as int);
            assert(word_at(t, 1) == 0);
        } else {
            assert(word_at(p, j) == word_at(t, j));
        }
    }
}

/// A built packet checks: the checksum of a packet whose checksum field is
/// filled in is zero (the field completes the ones'-complement sum).
pub proof fn law_packet_checksum_zero(command: u16, data: Seq<u8>, session_id: u16, reply_id: u16)
    ensures
        checksum(raw_packet(command, data, session_id, reply_id)) == 0,
        raw_packet(command, data, session_id, reply_id).len() == 8 + data.len(),
{
    let t = header_template(command, data, session_id, reply_id);
    let p = raw_packet(command, data, session_id, reply_id);
    let n = word_count(t);
    assert(p.len() == t.len());
    assert(word_count(p) == n);
    assert(n >= 4);
    lemma_fold_sum(t, n);
    lemma_fold_sum(p, n);
    lemma_packet_words(command, data, session_id, reply_id, n);
    let c = checksum(t);
    assert(c as int == 65535 - checksum_acc(t, n));
    if checksum_acc(p, n) == 0 {
        // every word of the packet is zero, the checksum word among them
        lemma_zero_sum_words(p, n, 1);
        lemma_packet_word_one(command, data, session_id, reply_id);
        assert(c == 0);
        assert(word_sum(t, n) == 0);
        assert(checksum_acc(t, n) == 0);
        assert(false);
    }
    assert(checksum_acc(p, n) == 65535);
}

proof fn lemma_zero_sum_words(s: Seq<u8>, k: nat, j: int)
    requires
        word_sum(s, k) == 0,
        0 <= j < k,
        k <= word_count(s),
    ensures
        word_at(s, j) == 0,
    decreases k,
{
    lemma_fold_sum(s, (k - 1) as nat);
    let w = word_at(s, k - 1);
    assert(0 <= w <= 65535);
    if j < k - 1 {
        lemma_zero_sum_words(s, (k - 1) as nat, j);
    }
}

proof fn lemma_packet_word_one(command: u16, data: Seq<u8>, session_id: u16, reply_id: u16)
    ensures
        word_at(raw_packet(command, data, session_id, reply_id), 1) == checksum(
            header_template(command, data, session_id, reply_id),
        ) as int,
{
    let p = raw_packet(command, data, session_id, reply_id);
    let c = checksum(header_template(command, data, session_id, reply_id));
    assert(p[2] == (c as int % 256) as u8 && p[3] == ((c as int / 256) % 256) as u8);
    assert((c as int % 256) + 256 * ((c as int / 256) % 256) == c as int) by (nonlinear_arith)
        requires
            0 <= c < 65536,
    ;
}

/// Raw/UDP packet: `command checksum session_id reply_id data`.
pub fn make_raw_packet(command: u16, data: &[u8], session_id: u16, reply_id: u16) -> (r: Vec<u8>)
    ensures
        r@ == raw_packet(command, data@, session_id, reply_id),
{
    make_zk_header(command, data, session_id, reply_id)
}

/// TCP packet: the 8-byte frame header, then the raw packet.
pub fn make_tcp_packet(command: u16, data: &[u8], session_id: u16, reply_id: u16) -> (r: Vec<u8>)
    requires
        data.len() + 8 <= u32::MAX,
    ensures
        r@ == tcp_packet(command, data@, session_id, reply_id),
{
    let zk = make_zk_header(command, data, session_id, reply_id);
    let mut pkt: Vec<u8> = Vec::new();
    push_le16(&mut pkt, MACHINE_PREPARE_DATA_1);
    push_le16(&mut pkt, MACHINE_PREPARE_DATA_2);
    push_le32(&mut pkt, zk.len() as u32);
    push_bytes(&mut pkt, zk.as_slice());
    assert(pkt@ =~= tcp_packet(command, data@, session_id, reply_id));
    pkt
}

/// A response packet as read off the wire.
#[derive(Debug)]
pub struct ResponsePacket {
    pub command: u16,
    pub session_id: u16,
    pub reply_id: u16,
    pub data: Vec<u8>,
}

/// The fields a raw packet carries, or `None` if it is shorter than its header.
pub open spec fn parsed_raw(pkt: Seq<u8>) -> Option<(u16, u16, u16, Seq<u8>)> {
    if pkt.len() < 8 {
        None
    } else {
        Some((get16(pkt, 0) as u16, get16(pkt, 4) as u16, get16(pkt, 6) as u16, pkt.skip(8)))
    }
}

/// Message of a packet that is shorter than its header.
pub open spec fn too_short_text(len: nat) -> Seq<char> {
    "ZKTeco packet too short: "@ + dec(len)
}

/// Split a raw packet into its fields; the checksum is not checked.
pub fn parse_raw_packet(pkt: &[u8]) -> (r: Result<ResponsePacket, DeviceError>)
    ensures
        match r {
            Ok(p) => parsed_raw(pkt@) == Some((p.command, p.session_id, p.reply_id, p.data@)),
            Err(e) => parsed_raw(pkt@) is None && e == DeviceError::Message(
                e->Message_0,
            ) && e->Message_0@ == too_short_text(pkt.len() as nat),
        },
{
    if pkt.len() < 8 {
        let mut m = String::from_str("ZKTeco packet too short: ");
        push_dec(&mut m, pkt.len() as u64);
        return Err(DeviceError::Message(m));
    }
    let p = ResponsePacket {
        command: get_u16(pkt, 0),
        session_id: get_u16(pkt, 4),
        reply_id: get_u16(pkt, 6),
        data: slice_bytes(pkt, 8, pkt.len()),
    };
    assert(p.data@ =~= pkt@.skip(8));
    Ok(p)
}

/// What an 8-byte TCP frame header declares: the length of the raw packet
/// that follows, or `None` when the magic is wrong or the length is under 8.
pub open spec fn tcp_frame_length(hdr: Seq<u8>) -> Option<int> {
    if get16(hdr, 0) != MACHINE_PREPARE_DATA_1 as int || get16(hdr, 2)
        != MACHINE_PREPARE_DATA_2 as int {
        None
    } else if get32(hdr, 4) < 8 {
        None
    } else {
        Some(get32(hdr, 4))
    }
}

/// Check a TCP frame header and return the length of the packet that follows.
pub fn parse_tcp_header(hdr: &[u8]) -> (r: Result<usize, DeviceError>)
    requires
        hdr.len() == 8,
    ensures
        match r {
            Ok(n) => tcp_frame_length(hdr@) == Some(n as int),
            Err(_) => tcp_frame_length(hdr@) is None,
        },
{
    let p1 = get_u16(hdr, 0);
    let p2 = get_u16(hdr, 2);
    if p1 != MACHINE_PREPARE_DATA_1 || p2 != MACHINE_PREPARE_DATA_2 {
        return Err(DeviceError::Message(String::from_str("invalid ZKTeco TCP header")));
    }
    let pkt_len = get_u32(hdr, 4) as usize;
    if pkt_len < 8 {
        let mut m = String::from_str("ZKTeco packet too short: ");
        push_dec(&mut m, pkt_len as u64);
        return Err(DeviceError::Message(m));
    }
    Ok(pkt_len)
}

/// A parsed raw packet gives back exactly what it was built from.
pub proof fn law_raw_packet_roundtrip(command: u16, data: Seq<u8>, session_id: u16, reply_id: u16)
    ensures
        parsed_raw(raw_packet(command, data, session_id, reply_id)) == Some(
            (command, session_id, reply_id, data),
        ),
{
    let p = raw_packet(command, data, session_id, reply_id);
    let c = checksum(header_template(command, data, session_id, reply_id));
    assert(p.subrange(0, 2) =~= le16(command as int));
    assert(p.subrange(4, 6) =~= le16(session_id as int));
    assert(p.subrange(6, 8) =~= le16(reply_id as int));
    lemma_get16_le16(command as int, p, 0);
    lemma_get16_le16(session_id as int, p, 4);
    lemma_get16_le16(reply_id as int, p, 6);
    assert(p.skip(8) =~= data);
}

/// A TCP frame announces the length of the raw packet it carries, and that
/// raw packet follows the 8-byte frame header.
pub proof fn law_tcp_frame(command: u16, data: Seq<u8>, session_id: u16, reply_id: u16)
    requires
        data.len() + 8 <= u32::MAX,
    ensures
        tcp_frame_length(tcp_packet(command, data, session_id, reply_id).take(8)) == Some(
            data.len() + 8int,
        ),
        tcp_packet(command, data, session_id, reply_id).skip(8) == raw_packet(
            command,
            data,
            session_id,
            reply_id,
        ),
{
    let t = tcp_packet(command, data, session_id, reply_id);
    let h = t.take(8);
    assert(h.subrange(0, 2) =~= le16(MACHINE_PREPARE_DATA_1 as int));
    assert(h.subrange(2, 4) =~= le16(MACHINE_PREPARE_DATA_2 as int));
    assert(h.subrange(4, 8) =~= le32(data.len() + 8int));
    lemma_get16_le16(MACHINE_PREPARE_DATA_1 as int, h, 0);
    lemma_get16_le16(MACHINE_PREPARE_DATA_2 as int, h, 2);
    lemma_get32_le32(data.len() + 8int, h, 4);
    assert(t.skip(8) =~= raw_packet(command, data, session_id, reply_id));
}

} // verus!

verus! {

// ── Password commkey ─────────────────────────────────────────────────────────

/// The first `n` bits of `key`, least significant first, shifted in from the
/// right (pyzk `MakeKey`); after 32 steps this is `key` bit-reversed.
pub open spec fn bit_reverse_acc(key: u32, n: nat) -> u32
    decreases n,
{
    if n == 0 {
        0
    } else {
        let k = bit_reverse_acc(key, (n - 1) as nat);
        if key & (1u32 << ((n - 1) as u32)) != 0 {
            (k << 1u32) | 1u32
        } else {
            k << 1u32
        }
    }
}

/// The 4-byte key sent with `CMD_AUTH` for `key` and `session_id`.
pub open spec fn commkey(key: u32, session_id: u16) -> Seq<u8> {
    let k = (bit_reverse_acc(key, 32) as int + session_id as int) % 4294967296;
    let b = le32(k);
    seq![(b[2] ^ 83u8) ^ 50u8, (b[3] ^ 79u8) ^ 50u8, 50u8, (b[1] ^ 75u8) ^ 50u8]
}

/// Derive the 4-byte commkey used in `CMD_AUTH` (pyzk `MakeKey`).
pub fn make_commkey(key: u32, session_id: u16) -> (r: [u8; 4])
    ensures
        r@ == commkey(key, session_id),
{
    let mut k: u32 = 0;
    let mut i: u32 = 0;
    while i < 32
        invariant
            i <= 32,
            k == bit_reverse_acc(key, i as nat),
        decreases 32 - i,
    {
        k = if key & (1u32 << i) != 0 {
            (k << 1u32) | 1u32
        } else {
            k << 1u32
        };
        i += 1;
    }
    let k2: u32 = ((k as u64 + session_id as u64) % 4294967296) as u32;
    let b1: u8 = ((k2 / 256) % 256) as u8;
    let b2: u8 = ((k2 / 65536) % 256) as u8;
    let b3: u8 = (k2 / 16777216) as u8;
    let x1 = b1 ^ 75u8;
    let x2 = b2 ^ 83u8;
    let x3 = b3 ^ 79u8;
    let r = [x2 ^ 50u8, x3 ^ 50u8, 50u8, x1 ^ 50u8];
    assert(r@ =~= commkey(key, session_id));
    r
}

// ── Attendance decoding ──────────────────────────────────────────────────────

/// `YYYY-MM-DDTHH:MM:SS+00:00` for a ZKTeco-encoded timestamp (31-day months,
/// 12-month years, counted from 2000).
pub open spec fn timestamp_text(v: nat) -> Seq<char> {
    let second = v % 60;
    let t1 = v / 60;
    let minute = t1 % 60;
    let t2 = t1 / 60;
    let hour = t2 % 24;
    let t3 = t2 / 24;
    let day = t3 % 31 + 1;
    let t4 = t3 / 31;
    let month = t4 % 12 + 1;
    let year = t4 / 12 + 2000;
    dec_padded(year, 4) + seq!['-'] + dec_padded(month, 2) + seq!['-'] + dec_padded(day, 2)
        + seq!['T'] + dec_padded(hour, 2) + seq![':'] + dec_padded(minute, 2) + seq![':']
        + dec_padded(second, 2) + seq!['+', '0', '0', ':', '0', '0']
}

/// Render a ZKTeco-encoded timestamp.
pub fn decode_timestamp(value: u32) -> (s: String)
    ensures
        s@ == timestamp_text(value as nat),
{
    let second = value % 60;
    let t1 = value / 60;
    let minute = t1 % 60;
    let t2 = t1 / 60;
    let hour = t2 % 24;
    let t3 = t2 / 24;
    let day = t3 % 31 + 1;
    let t4 = t3 / 31;
    let month = t4 % 12 + 1;
    let year = t4 / 12 + 2000;
    let mut s = String::new();
    push_dec_padded(&mut s, year as u64, 4);
    push_char(&mut s, '-');
    push_dec_padded(&mut s, month as u64, 2);
    push_char(&mut s, '-');
    push_dec_padded(&mut s, day as u64, 2);
    push_char(&mut s, 'T');
    push_dec_padded(&mut s, hour as u64, 2);
    push_char(&mut s, ':');
    push_dec_padded(&mut s, minute as u64, 2);
    push_char(&mut s, ':');
    push_dec_padded(&mut s, second as u64, 2);
    push_char(&mut s, '+');
    push_char(&mut s, '0');
    push_char(&mut s, '0');
    push_char(&mut s, ':');
    push_char(&mut s, '0');
    push_char(&mut s, '0');
    assert(s@ =~= timestamp_text(value as nat));
    s
}

/// One 8-byte record: `uid(2) status(1) timestamp(4) punch(1)`.
pub open spec fn record8(r: Seq<u8>) -> AttendanceView {
    AttendanceView {
        user_id: dec(get16(r, 0) as nat),
        timestamp: timestamp_text(get32(r, 3) as nat),
        punch: r[7] as i64,
    }
}

/// One 16-byte record: `user_id(4) timestamp(4) status(1) punch(1) …`.
pub open spec fn record16(r: Seq<u8>) -> AttendanceView {
    AttendanceView {
        user_id: dec(get32(r, 0) as nat),
        timestamp: timestamp_text(get32(r, 4) as nat),
        punch: r[9] as i64,
    }
}

/// Length of the NUL-terminated prefix of `s`.
pub open spec fn nul_len(s: Seq<u8>) -> nat
    decreases s.len(),
{
    if s.len() == 0 || s[0] == 0 {
        0
    } else {
        1 + nul_len(s.drop_first())
    }
}

/// The bytes before the first NUL.
pub open spec fn nul_prefix(s: Seq<u8>) -> Seq<u8> {
    s.take(nul_len(s) as int)
}

/// One 40-byte record; `None` for deleted slots (`0xff`) and empty user ids.
pub open spec fn record40(r: Seq<u8>) -> Option<AttendanceView> {
    if r[0] == 0xff {
        None
    } else {
        let id = latin1(nul_prefix(r.subrange(2, 26)));
        if id.len() == 0 {
            None
        } else {
            Some(
                AttendanceView {
                    user_id: id,
                    timestamp: timestamp_text(get32(r, 27) as nat),
                    punch: r[31] as i64,
                },
            )
        }
    }
}

/// Every whole 8-byte record of `d`.
pub open spec fn decode8(d: Seq<u8>) -> Seq<AttendanceView> {
    Seq::new(d.len() / 8, |k: int| record8(d.subrange(8 * k, 8 * k + 8)))
}

/// Every whole 16-byte record of `d`.
pub open spec fn decode16(d: Seq<u8>) -> Seq<AttendanceView> {
    Seq::new(d.len() / 16, |k: int| record16(d.subrange(16 * k, 16 * k + 16)))
}

/// The usable records among the first `n` 40-byte records of `d`.
pub open spec fn decode40_upto(d: Seq<u8>, n: nat) -> Seq<AttendanceView>
    decreases n,
{
    if n == 0 {
        seq![]
    } else {
        let prev = decode40_upto(d, (n - 1) as nat);
        match record40(d.subrange(40 * (n - 1), 40 * (n as int))) {
            Some(r) => prev.push(r),
            None => prev,
        }
    }
}

/// The usable records among the whole 40-byte records of `d`.
pub open spec fn decode40(d: Seq<u8>) -> Seq<AttendanceView> {
    decode40_upto(d, (d.len() / 40) as nat)
}

/// The record size guessed from the payload when the count does not decide it.
pub open spec fn detect_size(total: int, data_len: int) -> int {
    if total % 8 == 0 && data_len >= 8 {
        8
    } else if total % 16 == 0 && data_len >= 16 {
        16
    } else if total % 40 == 0 && data_len >= 40 {
        40
    } else {
        40
    }
}

/// The record size: `total / count` when that is a known size, else guessed.
pub open spec fn attendance_record_size(total: int, data_len: int, count: int) -> int {
    if count > 0 && (total / count == 8 || total / count == 16 || total / count == 40) {
        total / count
    } else {
        detect_size(total, data_len)
    }
}

/// The records of an attendance buffer: `total_size(4)` then the records.
pub open spec fn decode_attendance(payload: Seq<u8>, record_count: nat) -> Seq<AttendanceView> {
    if payload.len() < 4 {
        seq![]
    } else {
        let total = get32(payload, 0);
        let end = if 4 + total < payload.len() {
            4 + total
        } else {
            payload.len() as int
        };
        let data = payload.subrange(4, end);
        if total == 0 || data.len() == 0 {
            seq![]
        } else {
            let size = attendance_record_size(total, data.len() as int, record_count as int);
            if size == 8 {
                decode8(data)
            } else if size == 16 {
                decode16(data)
            } else {
                decode40(data)
            }
        }
    }
}

/// A buffer of `n` 16-byte records (declared size `16 * n`) decodes to `n`
/// records, record `k` read from its bytes at `4 + 16k`: the user id is the
/// 32-bit number at 0, the time the 32-bit number at 4, and the punch byte 9
/// (after the status byte 8).
pub proof fn law_attendance_16byte_layout(payload: Seq<u8>, n: nat)
    requires
        n > 0,
        get32(payload, 0) == 16 * n,
        payload.len() >= 4 + 16 * n,
    ensures
        decode_attendance(payload, n).len() == n,
        forall|k: int|
            0 <= k < n ==> {
                &&& (#[trigger] decode_attendance(payload, n)[k]).user_id == dec(get32(payload, 4 + 16 * k) as nat)
                &&& decode_attendance(payload, n)[k].timestamp == timestamp_text(get32(payload, 8 + 16 * k) as nat)
                &&& decode_attendance(payload, n)[k].punch == payload[13 + 16 * k] as i64
            },
{
    let total = get32(payload, 0);
    let data = payload.subrange(4, 4 + 16 * n as int);
    assert(total / (n as int) == 16) by (nonlinear_arith)
        requires
            total == 16 * n,
            n > 0,
    ;
    assert(data.len() / 16 == n);
    assert(attendance_record_size(total, data.len() as int, n as int) == 16);
    assert(decode_attendance(payload, n) == decode16(data));
    assert forall|k: int| 0 <= k < n implies {
        &&& (#[trigger] decode_attendance(payload, n)[k]).user_id == dec(get32(payload, 4 + 16 * k) as nat)
        &&& decode_attendance(payload, n)[k].timestamp == timestamp_text(get32(payload, 8 + 16 * k) as nat)
        &&& decode_attendance(payload, n)[k].punch == payload[13 + 16 * k] as i64
    } by {
        assert(0 <= 16 * k && 16 * k + 16 <= 16 * n) by (nonlinear_arith)
            requires
                0 <= k < n,
        ;
        let r = data.subrange(16 * k, 16 * k + 16);
        assert forall|j: int| 0 <= j < 16 implies r[j] == payload[4 + 16 * k + j] by {}
        assert(decode16(data)[k] == record16(r));
    }
}

/// A buffer of `n` 8-byte records (declared size `8 * n`) decodes to `n`
/// records, record `k` read from its bytes at `4 + 8k`: the user id is the
/// 16-bit number at 0, the time the 32-bit number at 3 (after the status
/// byte 2), and the punch byte 7.
/// The record a 40-byte slot holds, when it holds one: not deleted (first
/// byte not `0xff`) and with a user id.
pub open spec fn slot40_used(r: Seq<u8>) -> bool {
    r[0] != 0xff && latin1(nul_prefix(r.subrange(2, 26))).len() > 0
}

proof fn lemma_decode40_all_used(d: Seq<u8>, m: nat)
    requires
        40 * m <= d.len(),
        forall|k: int| 0 <= k < m ==> #[trigger] slot40_used(d.subrange(40 * k, 40 * k + 40)),
    ensures
        decode40_upto(d, m).len() == m,
        forall|k: int|
            0 <= k < m ==> #[trigger] decode40_upto(d, m)[k] == record40(d.subrange(40 * k, 40 * k + 40))->Some_0,
    decreases m,
{
    if m > 0 {
        let m1 = (m - 1) as nat;
        assert(slot40_used(d.subrange(40 * (m1 as int), 40 * (m1 as int) + 40)));
        lemma_decode40_all_used(d, m1);
    }
}

/// A buffer of `n` used 40-byte records (declared size `40 * n`) decodes to
/// `n` records, record `k` read from its bytes at `4 + 40k`: the user id is
/// the NUL-terminated text at 2..26, the time the 32-bit number at 27, and
/// the punch byte 31.
pub proof fn law_attendance_40byte_layout(payload: Seq<u8>, n: nat)
    requires
        n > 0,
        get32(payload, 0) == 40 * n,
        payload.len() >= 4 + 40 * n,
        forall|k: int| 0 <= k < n ==> #[trigger] slot40_used(payload.subrange(4 + 40 * k, 44 + 40 * k)),
    ensures
        decode_attendance(payload, n).len() == n,
        forall|k: int|
            0 <= k < n ==> {
                &&& (#[trigger] decode_attendance(payload, n)[k]).user_id == latin1(
                    nul_prefix(payload.subrange(6 + 40 * k, 30 + 40 * k)),
                )
                &&& decode_attendance(payload, n)[k].timestamp == timestamp_text(get32(payload, 31 + 40 * k) as nat)
                &&& decode_attendance(payload, n)[k].punch == payload[35 + 40 * k] as i64
            },
{
    let total = get32(payload, 0);
    let data = payload.subrange(4, 4 + 40 * n as int);
    assert(total / (n as int) == 40) by (nonlinear_arith)
        requires
            total == 40 * n,
            n > 0,
    ;
    assert(data.len() / 40 == n);
    assert(attendance_record_size(total, data.len() as int, n as int) == 40);
    assert(decode_attendance(payload, n) == decode40(data));
    assert forall|k: int| 0 <= k < n implies #[trigger] slot40_used(data.subrange(40 * k, 40 * k + 40)) by {
        assert(0 <= 40 * k && 40 * k + 40 <= 40 * n) by (nonlinear_arith)
            requires
                0 <= k < n,
        ;
        assert(data.subrange(40 * k, 40 * k + 40) =~= payload.subrange(4 + 40 * k, 44 + 40 * k));
        assert(slot40_used(payload.subrange(4 + 40 * k, 44 + 40 * k)));
    }
    lemma_decode40_all_used(data, n);
    assert forall|k: int| 0 <= k < n implies {
        &&& (#[trigger] decode_attendance(payload, n)[k]).user_id == latin1(
            nul_prefix(payload.subrange(6 + 40 * k, 30 + 40 * k)),
        )
        &&& decode_attendance(payload, n)[k].timestamp == timestamp_text(get32(payload, 31 + 40 * k) as nat)
        &&& decode_attendance(payload, n)[k].punch == payload[35 + 40 * k] as i64
    } by {
        assert(0 <= 40 * k && 40 * k + 40 <= 40 * n) by (nonlinear_arith)
            requires
                0 <= k < n,
        ;
        let r = data.subrange(40 * k, 40 * k + 40);
        assert(slot40_used(r));
        assert forall|j: int| 0 <= j < 40 implies r[j] == payload[4 + 40 * k + j] by {}
        assert(r.subrange(2, 26) =~= payload.subrange(6 + 40 * k, 30 + 40 * k));
        assert(decode40(data)[k] == record40(r)->Some_0);
    }
}

pub proof fn law_attendance_8byte_layout(payload: Seq<u8>, n: nat)
    requires
        n > 0,
        get32(payload, 0) == 8 * n,
        payload.len() >= 4 + 8 * n,
    ensures
        decode_attendance(payload, n).len() == n,
        forall|k: int|
            0 <= k < n ==> {
                &&& (#[trigger] decode_attendance(payload, n)[k]).user_id == dec(get16(payload, 4 + 8 * k) as nat)
                &&& decode_attendance(payload, n)[k].timestamp == timestamp_text(get32(payload, 7 + 8 * k) as nat)
                &&& decode_attendance(payload, n)[k].punch == payload[11 + 8 * k] as i64
            },
{
    let total = get32(payload, 0);
    let data = payload.subrange(4, 4 + 8 * n as int);
    assert(total / (n as int) == 8) by (nonlinear_arith)
        requires
            total == 8 * n,
            n > 0,
    ;
    assert(data.len() / 8 == n);
    assert(attendance_record_size(total, data.len() as int, n as int) == 8);
    assert(decode_attendance(payload, n) == decode8(data));
    assert forall|k: int| 0 <= k < n implies {
        &&& (#[trigger] decode_attendance(payload, n)[k]).user_id == dec(get16(payload, 4 + 8 * k) as nat)
        &&& decode_attendance(payload, n)[k].timestamp == timestamp_text(get32(payload, 7 + 8 * k) as nat)
        &&& decode_attendance(payload, n)[k].punch == payload[11 + 8 * k] as i64
    } by {
        assert(0 <= 8 * k && 8 * k + 8 <= 8 * n) by (nonlinear_arith)
            requires
                0 <= k < n,
        ;
        let r = data.subrange(8 * k, 8 * k + 8);
        assert forall|j: int| 0 <= j < 8 implies r[j] == payload[4 + 8 * k + j] by {}
        assert(decode8(data)[k] == record8(r));
    }
}

fn decode_8byte_records(data: &[u8]) -> (out: Vec<RawAttendance>)
    ensures
        attendance_views(out@) == decode8(data@),
{
    let mut out: Vec<RawAttendance> = Vec::new();
    let mut i: usize = 0;
    while data.len() - i >= 8
        invariant
            i == 8 * out.len(),
            i <= data.len(),
            attendance_views(out@) == decode8(data@).take(out.len() as int),
        decreases data.len() - i,
    {
        let ghost k = out.len() as int;
        let uid = get_u16(data, i);
        let ts = get_u32(data, i + 3);
        let rec = RawAttendance {
            user_id: fmt_u64(uid as u64),
            timestamp: decode_timestamp(ts),
            punch: data[i + 7] as i64,
        };
        proof {
            let r = data@.subrange(8 * k, 8 * k + 8);
            assert(get16(r, 0) == get16(data@, i as int));
            assert(get32(r, 3) == get32(data@, i + 3));
            assert(r[7] == data@[i + 7]);
            assert(rec@ == record8(r));
        }
        out.push(rec);
        i = i + 8;
        assert(attendance_views(out@) =~= decode8(data@).take(out.len() as int));
    }
    assert(decode8(data@).take(out.len() as int) =~= decode8(data@));
    out
}

fn decode_16byte_records(data: &[u8]) -> (out: Vec<RawAttendance>)
    ensures
        attendance_views(out@) == decode16(data@),
{
    let mut out: Vec<RawAttendance> = Vec::new();
    let mut i: usize = 0;
    while data.len() - i >= 16
        invariant
            i == 16 * out.len(),
            i <= data.len(),
            attendance_views(out@) == decode16(data@).take(out.len() as int),
        decreases data.len() - i,
    {
        let ghost k = out.len() as int;
        let user_id = get_u32(data, i);
        let ts = get_u32(data, i + 4);
        let rec = RawAttendance {
            user_id: fmt_u64(user_id as u64),
            timestamp: decode_timestamp(ts),
            punch: data[i + 9] as i64,
        };
        proof {
            let r = data@.subrange(16 * k, 16 * k + 16);
            assert(get32(r, 0) == get32(data@, i as int));
            assert(get32(r, 4) == get32(data@, i + 4));
            assert(r[9] == data@[i + 9]);
            assert(rec@ == record16(r));
        }
        out.push(rec);
        i = i + 16;
        assert(attendance_views(out@) =~= decode16(data@).take(out.len() as int));
    }
    assert(decode16(data@).take(out.len() as int) =~= decode16(data@));
    out
}

proof fn lemma_nul_len(s: Seq<u8>, n: int)
    requires
        0 <= n <= s.len(),
        forall|j: int| 0 <= j < n ==> s[j] != 0,
        n == s.len() || s[n] == 0,
    ensures
        nul_len(s) == n,
    decreases n,
{
    if n > 0 {
        assert forall|j: int| 0 <= j < n - 1 implies s.drop_first()[j] != 0 by {
            assert(s.drop_first()[j] == s[j + 1]);
        }
        lemma_nul_len(s.drop_first(), n - 1);
    }
}

/// Length of the NUL-terminated prefix of `s[from..to]`.
fn nul_end(s: &[u8], from: usize, to: usize) -> (n: usize)
    requires
        from <= to <= s.len(),
    ensures
        n as nat == nul_len(s@.subrange(from as int, to as int)),
        n <= to - from,
{
    let mut i = from;
    while i < to && s[i] != 0
        invariant
            from <= i <= to <= s.len(),
            forall|j: int| from <= j < i ==> s@[j] != 0,
        decreases to - i,
    {
        i += 1;
    }
    proof {
        let t = s@.subrange(from as int, to as int);
        assert forall|j: int| 0 <= j < i - from implies t[j] != 0 by {
            assert(t[j] == s@[from + j]);
        }
        lemma_nul_len(t, i - from);
    }
    i - from
}

fn decode_40byte_records(data: &[u8]) -> (out: Vec<RawAttendance>)
    ensures
        attendance_views(out@) == decode40(data@),
{
    let mut out: Vec<RawAttendance> = Vec::new();
    let mut i: usize = 0;
    let ghost mut k: nat = 0;
    while data.len() - i >= 40
        invariant
            i == 40 * k,
            i <= data.len(),
            attendance_views(out@) == decode40_upto(data@, k),
        decreases data.len() - i,
    {
        let ghost r = data@.subrange(i as int, i + 40);
        if data[i] != 0xff {
            let n = nul_end(data, i + 2, i + 26);
            if n > 0 {
                let mut id = String::new();
                let mut j: usize = 0;
                while j < n
                    invariant
                        j <= n,
                        n <= 24,
                        i + 26 <= data.len(),
                        id@ == latin1(data@.subrange(i + 2, i + 2 + j)),
                    decreases n - j,
                {
                    push_char(&mut id, byte_char(data[i + 2 + j]));
                    j += 1;
                    assert(id@ =~= latin1(data@.subrange(i + 2, i + 2 + j)));
                }
                let ts = get_u32(data, i + 27);
                let rec = RawAttendance {
                    user_id: id,
                    timestamp: decode_timestamp(ts),
                    punch: data[i + 31] as i64,
                };
                proof {
                    assert(r.subrange(2, 26) =~= data@.subrange(i + 2, i + 26));
                    assert(nul_prefix(r.subrange(2, 26)) =~= data@.subrange(i + 2, i + 2 + n));
                    assert(get32(r, 27) == get32(data@, i + 27));
                    assert(record40(r) == Some(rec@));
                }
                let ghost prev = out@;
                out.push(rec);
                assert(attendance_views(out@) =~= attendance_views(prev).push(rec@));
            } else {
                assert(r.subrange(2, 26) =~= data@.subrange(i + 2, i + 26));
                assert(record40(r) is None);
            }
        } else {
            assert(record40(r) is None);
        }
        i = i + 40;
        proof {
            k = k + 1;
        }
    }
    assert(k == data@.len() / 40);
    out
}

/// Decode an attendance buffer (`total_size(4)` then 8-, 16- or 40-byte
/// records depending on firmware). Never fails.
pub fn decode_attendance_data(payload: &[u8], record_count: usize) -> (r: Result<
    Vec<RawAttendance>,
    DeviceError,
>)
    ensures
        r is Ok,
        r matches Ok(v) ==> attendance_views(v@) == decode_attendance(payload@, record_count as nat),
{
    if payload.len() < 4 {
        return Ok(Vec::new());
    }
    let total_size = get_u32(payload, 0) as usize;
    if total_size == 0 {
        return Ok(Vec::new());
    }
    let records_end: usize = if (total_size as u64) + 4 < payload.len() as u64 {
        4 + total_size
    } else {
        payload.len()
    };
    let records_data = slice_bytes(payload, 4, records_end);
    if records_data.len() == 0 {
        return Ok(Vec::new());
    }
    let dlen = records_data.len();
    let detected: usize = if total_size % 8 == 0 && dlen >= 8 {
        8
    } else if total_size % 16 == 0 && dlen >= 16 {
        16
    } else if total_size % 40 == 0 && dlen >= 40 {
        40
    } else {
        40
    };
    let record_size: usize = if record_count > 0 {
        let s = total_size / record_count;
        if s == 8 || s == 16 || s == 40 {
            s
        } else {
            detected
        }
    } else {
        detected
    };
    let out = if record_size == 8 {
        decode_8byte_records(records_data.as_slice())
    } else if record_size == 16 {
        decode_16byte_records(records_data.as_slice())
    } else {
        decode_40byte_records(records_data.as_slice())
    };
    Ok(out)
}

} // verus!

verus! {

// ── Users and templates ──────────────────────────────────────────────────────

/// Text of a NUL-terminated, possibly padded field: decoded and trimmed.
pub open spec fn cstr_text(b: Seq<u8>) -> Seq<char> {
    trim(utf8_lossy(nul_prefix(b)))
}

/// Decode a NUL-terminated byte field `s[from..to]` into a trimmed string.
pub fn cstr(s: &[u8], from: usize, to: usize) -> (r: String)
    requires
        from <= to <= s.len(),
    ensures
        r@ == cstr_text(s@.subrange(from as int, to as int)),
{
    let n = nul_end(s, from, to);
    let prefix = slice_bytes(s, from, from + n);
    assert(prefix@ =~= nul_prefix(s@.subrange(from as int, to as int)));
    let decoded = decode_utf8_lossy(prefix.as_slice());
    trim_str(decoded.as_str())
}

/// The user record size: 28 bytes (zk6) when `total / count` says so, else 72 (zk8).
pub open spec fn user_record_size(total: int, count: int) -> int {
    let packet_size = if count > 0 {
        total / count
    } else {
        72
    };
    if packet_size == 28 {
        28
    } else {
        72
    }
}

/// One user record of the given size.
pub open spec fn user_record(r: Seq<u8>, size: int) -> UserView {
    let uid = get16(r, 0);
    let name = if size == 28 {
        cstr_text(r.subrange(8, 16))
    } else {
        cstr_text(r.subrange(11, 35))
    };
    let raw_id = if size == 28 {
        dec(get32(r, 24) as nat)
    } else {
        cstr_text(r.subrange(48, 72))
    };
    UserView {
        uid: uid as u32,
        user_id: if raw_id.len() == 0 {
            dec(uid as nat)
        } else {
            raw_id
        },
        name,
    }
}

/// The users of a user-table buffer: `total_size(4)` then fixed-size records.
pub open spec fn decode_users_spec(payload: Seq<u8>, users_count: nat) -> Seq<UserView> {
    if payload.len() < 4 {
        seq![]
    } else {
        let total = get32(payload, 0);
        let body = payload.skip(4);
        if total == 0 || body.len() == 0 {
            seq![]
        } else {
            let size = user_record_size(total, users_count as int);
            Seq::new(
                ((body.len() as int) / size) as nat,
                |k: int| user_record(body.subrange(size * k, size * k + size), size),
            )
        }
    }
}

/// Decode the user table. Never fails.
pub fn decode_users(payload: &[u8], users_count: usize) -> (r: Result<Vec<DeviceUser>, DeviceError>)
    ensures
        r is Ok,
        r matches Ok(v) ==> user_views(v@) == decode_users_spec(payload@, users_count as nat),
{
    if payload.len() < 4 {
        return Ok(Vec::new());
    }
    let total = get_u32(payload, 0) as usize;
    let body = slice_bytes(payload, 4, payload.len());
    assert(body@ =~= payload@.skip(4));
    if total == 0 || body.len() == 0 {
        return Ok(Vec::new());
    }
    let packet_size: usize = if users_count > 0 {
        total / users_count
    } else {
        72
    };
    let size: usize = if packet_size == 28 {
        28
    } else {
        72
    };
    let ghost spec = decode_users_spec(payload@, users_count as nat);
    assert(spec =~= Seq::new(
        ((body@.len() as int) / (size as int)) as nat,
        |k: int| user_record(body@.subrange(size * k, size * k + size), size as int),
    ));
    let mut out: Vec<DeviceUser> = Vec::new();
    let mut i: usize = 0;
    while body.len() - i >= size
        invariant
            size == 28 || size == 72,
            size as int == user_record_size(get32(payload@, 0), users_count as int),
            body@ == payload@.skip(4),
            total as int == get32(payload@, 0),
            total != 0,
            body.len() != 0,
            i == size * out.len(),
            i <= body.len(),
            spec == decode_users_spec(payload@, users_count as nat),
            spec == Seq::new(
                ((body@.len() as int) / (size as int)) as nat,
                |k: int| user_record(body@.subrange(size * k, size * k + size), size as int),
            ),
            user_views(out@) == spec.take(out.len() as int),
        decreases body.len() - i,
    {
        let ghost k = out.len() as int;
        let ghost r = body@.subrange(i as int, i + size);
        proof {
            let bl = body@.len() as int;
            let sz = size as int;
            assert(k < bl / sz) by (nonlinear_arith)
                requires
                    i == sz * k,
                    bl - i >= sz,
                    sz > 0,
            ;
        }
        let uid = get_u16(body.as_slice(), i) as u32;
        let (name, raw_id) = if size == 28 {
            let name = cstr(body.as_slice(), i + 8, i + 16);
            let id = fmt_u64(get_u32(body.as_slice(), i + 24) as u64);
            proof {
                assert(r.subrange(8, 16) =~= body@.subrange(i + 8, i + 16));
                assert(get32(r, 24) == get32(body@, i + 24));
            }
            (name, id)
        } else {
            let name = cstr(body.as_slice(), i + 11, i + 35);
            let id = cstr(body.as_slice(), i + 48, i + 72);
            proof {
                assert(r.subrange(11, 35) =~= body@.subrange(i + 11, i + 35));
                assert(r.subrange(48, 72) =~= body@.subrange(i + 48, i + 72));
            }
            (name, id)
        };
        let user_id = if raw_id.as_str().is_empty() {
            fmt_u64(uid as u64)
        } else {
            raw_id
        };
        let user = DeviceUser { uid, user_id, name };
        proof {
            assert(get16(r, 0) == get16(body@, i as int));
            assert(r =~= body@.subrange(size * k, size * k + size));
            assert(user@ == user_record(r, size as int));
            assert(spec[k] == user_record(r, size as int));
        }
        let ghost prev = out@;
        out.push(user);
        i = i + size;
        assert(i == size * out.len()) by (nonlinear_arith)
            requires
                i == size * k + size,
                out.len() == k + 1,
        ;
        assert(user_views(out@) =~= spec.take(out.len() as int));
    }
    proof {
        let bl = body@.len() as int;
        let sz = size as int;
        let k = out.len() as int;
        assert(k == bl / sz) by (nonlinear_arith)
            requires
                i == sz * k,
                bl - i < sz,
                i <= bl,
                sz > 0,
        ;
    }
    assert(spec.take(out.len() as int) =~= spec);
    Ok(out)
}

/// The last user with this uid, if any.
pub open spec fn lookup_user(users: Seq<UserView>, uid: u32) -> Option<UserView>
    decreases users.len(),
{
    if users.len() == 0 {
        None
    } else if users.last().uid == uid {
        Some(users.last())
    } else {
        lookup_user(users.drop_last(), uid)
    }
}

/// One template record of `size` bytes joined with its user.
pub open spec fn template_record(d: Seq<u8>, size: int, users: Seq<UserView>) -> TemplateView {
    let uid = get16(d, 2) as u32;
    let (user_id, name) = match lookup_user(users, uid) {
        Some(u) => (u.user_id, u.name),
        None => (dec(uid as nat), seq![]),
    };
    TemplateView { uid, fid: d[4], user_id, name, template: d.subrange(6, size) }
}

/// The templates of `data` while `total` bytes remain declared:
/// records `size(2) uid(2) fid(1) valid(1) template[size-6]`.
pub open spec fn templates_from(data: Seq<u8>, total: int, users: Seq<UserView>) -> Seq<TemplateView>
    decreases data.len(),
{
    if total >= 6 && data.len() >= 6 {
        let size = get16(data, 0);
        if size < 6 || size > data.len() {
            seq![]
        } else {
            seq![template_record(data, size, users)] + templates_from(
                data.skip(size),
                if total > size {
                    total - size
                } else {
                    0
                },
                users,
            )
        }
    } else {
        seq![]
    }
}

/// The templates of a template-table buffer: `total_size(4)` then records.
pub open spec fn decode_templates_spec(payload: Seq<u8>, users: Seq<UserView>) -> Seq<TemplateView> {
    if payload.len() < 4 {
        seq![]
    } else {
        templates_from(payload.skip(4), get32(payload, 0), users)
    }
}

/// The first record of a template buffer reads as laid out: after the
/// declared size (4 bytes), a record of `size(2) uid(2) fid(1) valid(1)
/// template[size-6]` gives a template with that uid, finger id and bytes.
pub proof fn law_first_template_layout(payload: Seq<u8>, users: Seq<UserView>)
    requires
        payload.len() >= 10,
        get32(payload, 0) >= 6,
        6 <= get16(payload, 4) <= payload.len() - 4,
    ensures
        ({
            let t = decode_templates_spec(payload, users);
            let size = get16(payload, 4);
            &&& t.len() >= 1
            &&& t[0].uid == get16(payload, 6)
            &&& t[0].fid == payload[8]
            &&& t[0].template == payload.subrange(10, 4 + size)
        }),
{
    let d = payload.skip(4);
    let size = get16(payload, 4);
    assert(get16(d, 0) == size);
    assert(get16(d, 2) == get16(payload, 6));
    assert(d[4] == payload[8]);
    assert(d.subrange(6, size) =~= payload.subrange(10, 4 + size));
}

/// Templates are read record after record: dropping the first record of a
/// buffer (and its size from the declared total) leaves the buffer of the
/// remaining templates.
pub proof fn law_template_records_in_order(payload: Seq<u8>, users: Seq<UserView>)
    requires
        payload.len() >= 10,
        get32(payload, 0) >= 6,
        get32(payload, 0) < 4294967296,
        6 <= get16(payload, 4) <= payload.len() - 4,
    ensures
        ({
            let size = get16(payload, 4);
            let total = get32(payload, 0);
            let rest = le32(if total > size {
                total - size
            } else {
                0
            }) + payload.skip(4 + size);
            decode_templates_spec(payload, users).skip(1) == decode_templates_spec(rest, users)
        }),
{
    let size = get16(payload, 4);
    let total = get32(payload, 0);
    let left = if total > size {
        total - size
    } else {
        0
    };
    let d = payload.skip(4);
    let rest = le32(left) + payload.skip(4 + size);
    assert(get16(d, 0) == size);
    assert(d.skip(size) =~= payload.skip(4 + size));
    assert(rest.skip(4) =~= payload.skip(4 + size));
    assert(rest.subrange(0, 4) =~= le32(left));
    lemma_get32_le32(left, rest, 0);
    let t = decode_templates_spec(payload, users);
    assert(t == seq![template_record(d, size, users)] + templates_from(d.skip(size), left, users));
    assert(t.skip(1) =~= templates_from(d.skip(size), left, users));
}

fn find_user(users: &[DeviceUser], uid: u32) -> (r: Option<usize>)
    ensures
        match r {
            Some(i) => i < users.len() && lookup_user(user_views(users@), uid) == Some(
                users@[i as int]@,
            ),
            None => lookup_user(user_views(users@), uid) is None,
        },
{
    let mut i = users.len();
    assert(users@.take(i as int) =~= users@);
    while i > 0
        invariant
            i <= users.len(),
            lookup_user(user_views(users@), uid) == lookup_user(
                user_views(users@.take(i as int)),
                uid,
            ),
        decreases i,
    {
        let ghost t = user_views(users@.take(i as int));
        assert(t.drop_last() =~= user_views(users@.take(i - 1)));
        if users[i - 1].uid == uid {
            return Some(i - 1);
        }
        i -= 1;
    }
    None
}

/// Decode the template table, joining each template with its user (the last
/// user listed with that uid). Never fails.
pub fn decode_templates(payload: &[u8], users: &[DeviceUser]) -> (r: Result<
    Vec<FingerTemplate>,
    DeviceError,
>)
    ensures
        r is Ok,
        r matches Ok(v) ==> template_views(v@) == decode_templates_spec(payload@, user_views(users@)),
{
    if payload.len() < 4 {
        return Ok(Vec::new());
    }
    let ghost uv = user_views(users@);
    let mut total = get_u32(payload, 0) as usize;
    let mut pos: usize = 4;
    let mut out: Vec<FingerTemplate> = Vec::new();
    let ghost target = decode_templates_spec(payload@, uv);
    while total >= 6 && payload.len() - pos >= 6
        invariant
            4 <= pos <= payload.len(),
            uv == user_views(users@),
            target == decode_templates_spec(payload@, uv),
            template_views(out@) + templates_from(payload@.skip(pos as int), total as int, uv)
                == target,
        decreases payload.len() - pos,
    {
        let ghost data = payload@.skip(pos as int);
        let size = get_u16(payload, pos) as usize;
        assert(size as int == get16(data, 0));
        if size < 6 || size > payload.len() - pos {
            assert(templates_from(data, total as int, uv) == Seq::<TemplateView>::empty());
            assert(template_views(out@) + Seq::<TemplateView>::empty() =~= template_views(out@));
            return Ok(out);
        }
        let uid = get_u16(payload, pos + 2) as u32;
        let fid = payload[pos + 4];
        let template = slice_bytes(payload, pos + 6, pos + size);
        let (user_id, name) = match find_user(users, uid) {
            Some(i) => (users[i].user_id.clone(), users[i].name.clone()),
            None => (fmt_u64(uid as u64), String::new()),
        };
        let t = FingerTemplate { uid, fid, user_id, name, template };
        proof {
            assert(get16(data, 2) == get16(payload@, pos + 2));
            assert(data[4] == payload@[pos + 4]);
            assert(data.subrange(6, size as int) =~= payload@.subrange(pos + 6, pos + size));
            assert(t@ == template_record(data, size as int, uv));
            assert(data.skip(size as int) =~= payload@.skip(pos + size));
        }
        let ghost prev = out@;
        out.push(t);
        assert(template_views(out@) =~= template_views(prev).push(t@));
        pos = pos + size;
        total = if total > size {
            total - size
        } else {
            0
        };
    }
    proof {
        let data = payload@.skip(pos as int);
        assert(templates_from(data, total as int, uv) == Seq::<TemplateView>::empty());
        assert(template_views(out@) + Seq::<TemplateView>::empty() =~= template_views(out@));
    }
    Ok(out)
}

// ── User and template encoding ───────────────────────────────────────────────

/// `b` cut or NUL-padded to exactly `width` bytes.
pub open spec fn fixed_field(b: Seq<u8>, width: nat) -> Seq<u8> {
    if b.len() >= width {
        b.take(width as int)
    } else {
        b + Seq::new((width - b.len()) as nat, |i: int| 0u8)
    }
}

/// Append `b` cut or NUL-padded to exactly `width` bytes.
pub fn push_fixed(v: &mut Vec<u8>, b: &[u8], width: usize)
    ensures
        final(v)@ == old(v)@ + fixed_field(b@, width as nat),
{
    let n = if b.len() < width {
        b.len()
    } else {
        width
    };
    let mut i: usize = 0;
    while i < n
        invariant
            n <= b.len(),
            n <= width,
            i <= n,
            v@ == old(v)@ + b@.take(i as int),
        decreases n - i,
    {
        v.push(b[i]);
        i += 1;
        assert(v@ =~= old(v)@ + b@.take(i as int));
    }
    let mut j = n;
    while j < width
        invariant
            n <= j <= width,
            v@ == old(v)@ + b@.take(n as int) + Seq::new((j - n) as nat, |k: int| 0u8),
        decreases width - j,
    {
        v.push(0u8);
        j += 1;
        assert(v@ =~= old(v)@ + b@.take(n as int) + Seq::new((j - n) as nat, |k: int| 0u8));
    }
    if b.len() >= width {
        assert(v@ =~= old(v)@ + fixed_field(b@, width as nat));
    } else {
        assert(b@.take(n as int) =~= b@);
        assert(v@ =~= old(v)@ + fixed_field(b@, width as nat));
    }
}

/// Encode a string into a fixed-width, NUL-padded byte field.
pub fn fixed_bytes(s: &str, width: usize) -> (r: Vec<u8>)
    ensures
        r@ == fixed_field(s.spec_bytes(), width as nat),
{
    let mut v: Vec<u8> = Vec::new();
    push_fixed(&mut v, s.as_bytes(), width);
    assert(v@ =~= fixed_field(s.spec_bytes(), width as nat));
    v
}

/// The 73-byte zk8 user packet (pyzk `User.repack73`).
pub open spec fn user73(uid: u32, name: Seq<char>, user_id: Seq<char>) -> Seq<u8> {
    seq![2u8] + le16(uid as int) + seq![0u8] + fixed_field(seq![], 8) + fixed_field(
        encode_utf8(name),
        24,
    ) + le32(0) + seq![1u8] + fixed_field(seq![48u8], 7) + seq![0u8] + fixed_field(
        encode_utf8(user_id),
        24,
    )
}

/// No byte of `b` is NUL.
pub open spec fn no_nul(b: Seq<u8>) -> bool {
    forall|i: int| 0 <= i < b.len() ==> #[trigger] b[i] != 0
}

proof fn lemma_nul_len_prefix(b: Seq<u8>, rest: Seq<u8>)
    requires
        no_nul(b),
        rest.len() == 0 || rest[0] == 0,
    ensures
        nul_len(b + rest) == b.len(),
    decreases b.len(),
{
    if b.len() > 0 {
        assert((b + rest).drop_first() =~= b.drop_first() + rest);
        lemma_nul_len_prefix(b.drop_first(), rest);
    } else {
        assert(b + rest =~= rest);
    }
}

/// A text of at most `width` bytes without a NUL, padded to `width`, reads
/// back as its own bytes.
proof fn lemma_fixed_field_reads_back(b: Seq<u8>, width: nat)
    requires
        no_nul(b),
        b.len() <= width,
    ensures
        nul_prefix(fixed_field(b, width)) == b,
{
    let pad = Seq::new((width - b.len()) as nat, |i: int| 0u8);
    lemma_nul_len_prefix(b, pad);
    assert(fixed_field(b, width) == b + pad);
    assert((b + pad).take(b.len() as int) =~= b);
}

/// A repacked user reads back: the 72 bytes after the 73-byte push
/// record's leading `2`, read as a one-user zk8 table, give one user with
/// that uid, and name and user id fields that read back through
/// [`cstr_text`] as the very bytes written (the user id falling back to the
/// uid when its text reads as empty), when the uid fits in 16 bits and each
/// text is at most 24 bytes without a NUL.
pub proof fn law_repacked_user_reads_back(uid: u32, name: Seq<char>, user_id: Seq<char>)
    requires
        uid < 65536,
        encode_utf8(name).len() <= 24,
        encode_utf8(user_id).len() <= 24,
        no_nul(encode_utf8(name)),
        no_nul(encode_utf8(user_id)),
    ensures
        ({
            let got = decode_users_spec(le32(72) + user73(uid, name, user_id).skip(1), 1);
            let raw_id = trim(utf8_lossy(encode_utf8(user_id)));
            &&& got.len() == 1
            &&& got[0].uid == uid
            &&& got[0].name == cstr_text(fixed_field(encode_utf8(name), 24))
            &&& got[0].name == trim(utf8_lossy(encode_utf8(name)))
            &&& got[0].user_id == if raw_id.len() == 0 {
                dec(uid as nat)
            } else {
                raw_id
            }
        }),
{
    let u = user73(uid, name, user_id);
    let r = u.skip(1);
    let payload = le32(72) + r;
    let nf = fixed_field(encode_utf8(name), 24);
    let idf = fixed_field(encode_utf8(user_id), 24);
    assert(fixed_field(seq![], 8).len() == 8);
    assert(fixed_field(seq![48u8], 7).len() == 7);
    assert(nf.len() == 24);
    assert(idf.len() == 24);
    assert(u.len() == 73);
    assert(payload.len() == 76);
    assert(get32(payload, 0) == 72);
    assert(payload.skip(4) =~= r);
    assert(r.subrange(0, 72) =~= r);
    assert(r.subrange(11, 35) =~= nf);
    assert(r.subrange(48, 72) =~= idf);
    assert(get16(r, 0) == uid as int) by {
        assert(r[0] == (uid as int % 256) as u8 && r[1] == ((uid as int / 256) % 256) as u8);
        assert((uid as int % 256) + 256 * ((uid as int / 256) % 256) == uid as int) by (nonlinear_arith)
            requires
                0 <= uid < 65536,
        ;
    }
    lemma_fixed_field_reads_back(encode_utf8(name), 24);
    lemma_fixed_field_reads_back(encode_utf8(user_id), 24);
    let got = decode_users_spec(payload, 1);
    assert(user_record_size(72, 1) == 72);
    assert(got.len() == 1);
    assert(got[0] == user_record(r, 72));
}

/// pyzk `User.repack73`: `2, uid, privilege 0, password "", name, card 0, 1,
/// group "0", pad, user_id`.
pub fn repack_user_73(user: &DeviceUser) -> (r: Vec<u8>)
    ensures
        r@ == user73(user.uid, user.name@, user.user_id@),
        r@.len() == 73,
{
    let mut b: Vec<u8> = Vec::new();
    b.push(2u8);
    push_le16(&mut b, (user.uid % 65536) as u16);
    b.push(0u8);
    let empty: [u8; 0] = [];
    push_fixed(&mut b, &empty, 8);
    assert(empty@ =~= Seq::<u8>::empty());
    push_fixed(&mut b, user.name.as_str().as_bytes(), 24);
    push_le32(&mut b, 0);
    b.push(1u8);
    let zero_text: [u8; 1] = [48u8];
    push_fixed(&mut b, &zero_text, 7);
    assert(zero_text@ =~= seq![48u8]);
    b.push(0u8);
    push_fixed(&mut b, user.user_id.as_str().as_bytes(), 24);
    proof {
        lemma_le16_mod(user.uid as int);
    }
    assert(b@ =~= user73(user.uid, user.name@, user.user_id@));
    b
}

/// pyzk `Finger.repack_only`: `size(2) template`.
pub open spec fn finger_only(template: Seq<u8>) -> Seq<u8> {
    le16(template.len() as int) + template
}

pub fn repack_finger_only(template: &[u8]) -> (r: Vec<u8>)
    ensures
        r@ == finger_only(template@),
{
    let mut b: Vec<u8> = Vec::new();
    push_le16(&mut b, (template.len() % 65536) as u16);
    push_bytes(&mut b, template);
    proof {
        lemma_le16_mod(template.len() as int);
    }
    assert(b@ =~= finger_only(template@));
    b
}

/// pyzk template-table entry: `2, uid, 0x10 + fid, tstart`.
pub open spec fn table_entry(uid: u32, fid: u8, tstart: u32) -> Seq<u8> {
    seq![2u8] + le16(uid as int) + seq![((16 + fid as int) % 256) as u8] + le32(tstart as int)
}

pub fn repack_table_entry(uid: u32, fid: u8, tstart: u32) -> (r: Vec<u8>)
    ensures
        r@ == table_entry(uid, fid, tstart),
{
    let mut b: Vec<u8> = Vec::new();
    b.push(2u8);
    push_le16(&mut b, (uid % 65536) as u16);
    b.push(((16u16 + fid as u16) % 256) as u8);
    push_le32(&mut b, tstart);
    proof {
        lemma_le16_mod(uid as int);
    }
    assert(b@ =~= table_entry(uid, fid, tstart));
    b
}

/// The buffer sent before `CMD_SAVE_USERTEMPS`: three lengths, then the user
/// packet, the table entry and the template.
pub open spec fn user_template_buffer(user: UserView, fid: u8, template: Seq<u8>) -> Seq<u8> {
    let upack = user73(user.uid, user.name, user.user_id);
    let table = table_entry(user.uid, fid, 0);
    let fpack = finger_only(template);
    le32(upack.len() as int) + le32(table.len() as int) + le32(fpack.len() as int) + upack + table
        + fpack
}

/// Build the save-user-and-template buffer for one user and one template.
pub fn build_user_template_buffer(user: &DeviceUser, finger: &FingerTemplate) -> (r: Vec<u8>)
    requires
        finger.template.len() + 2 <= u32::MAX,
    ensures
        r@ == user_template_buffer(user@, finger.fid, finger.template@),
{
    let upack = repack_user_73(user);
    let fpack = repack_finger_only(finger.template.as_slice());
    let table = repack_table_entry(user.uid, finger.fid, 0);
    let mut buffer: Vec<u8> = Vec::new();
    push_le32(&mut buffer, upack.len() as u32);
    push_le32(&mut buffer, table.len() as u32);
    push_le32(&mut buffer, fpack.len() as u32);
    push_bytes(&mut buffer, upack.as_slice());
    push_bytes(&mut buffer, table.as_slice());
    push_bytes(&mut buffer, fpack.as_slice());
    assert(buffer@ =~= user_template_buffer(user@, finger.fid, finger.template@));
    buffer
}

/// The command string of `CMD_SAVE_USERTEMPS`: `pack('<IHH', 12, 0, 8)`.
pub fn save_usertemps_command() -> (r: Vec<u8>)
    ensures
        r@ == le32(12) + le16(0) + le16(8),
{
    let mut b: Vec<u8> = Vec::new();
    push_le32(&mut b, 12);
    push_le16(&mut b, 0);
    push_le16(&mut b, 8);
    assert(b@ =~= le32(12) + le16(0) + le16(8));
    b
}

} // verus!
