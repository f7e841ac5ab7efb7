//! A ZKTeco session over a byte link (pyzk-compatible): connecting and
//! authenticating, numbering commands, reading large buffers in chunks and
//! sending them in blocks. The link (a TCP stream or a UDP socket) is the
//! caller's; everything proved here holds whatever the link returns.

use vstd::prelude::*;

use crate::domain::{attendance_views, template_views, user_views, DeviceUser, FingerTemplate, RawAttendance};
use crate::ports::{DeviceClient, DeviceError};
use crate::protocol::{
    build_user_template_buffer, decode_attendance, decode_attendance_data, decode_templates, decode_templates_spec, decode_users, decode_users_spec, get16, get32, user_template_buffer,
    get_u16, get_u32, le16, le32, make_commkey, commkey, make_raw_packet, make_tcp_packet, parse_raw_packet,
    parse_tcp_header, parsed_raw, push_bytes, push_le16, push_le32, raw_packet, tcp_frame_length, save_usertemps_command, slice_bytes,
    tcp_packet, ResponsePacket, CMD_ACK_OK, CMD_ACK_UNAUTH, CMD_ATTLOG_RRQ, CMD_AUTH, CMD_CLEAR_ATTLOG,
    CMD_CONNECT, CMD_DATA, CMD_DB_RRQ, CMD_EXIT, CMD_FREE_DATA, CMD_GET_FREE_SIZES, CMD_PREPARE_BUFFER,
    CMD_PREPARE_DATA, CMD_READ_BUFFER, CMD_REFRESHDATA, CMD_SAVE_USERTEMPS, CMD_USERTEMP_RRQ,
    FCT_FINGERTMP, FCT_USER, MAX_CHUNK_SEND, MAX_CHUNK_TCP, MAX_CHUNK_UDP, UDP_BUF,
};
use crate::text::{push_dec, push_str};

verus! {

/// The byte link to a device. Errors are the transport's own messages.
pub trait ZkLink {
    /// Sends the bytes.
    fn send(&mut self, bytes: &[u8]) -> Result<(), String>;

    /// Reads exactly `n` bytes from a stream.
    fn read_exact(&mut self, n: usize) -> Result<Vec<u8>, String>;

    /// Receives one datagram of at most `max` bytes.
    fn recv(&mut self, max: usize) -> Result<Vec<u8>, String>;
}

/// The id of the next command: one more than the last, wrapping, never
/// 65535.
pub open spec fn next_request(reply_id: u16) -> u16 {
    let r = ((reply_id as int + 1) % 65536) as u16;
    if r == 65535 {
        0
    } else {
        r
    }
}

/// The chunks `(start, size)` a buffer of `size` bytes is read in: full
/// chunks of `max`, then the remainder.
pub open spec fn chunk_plan(size: nat, max: nat) -> Seq<(nat, nat)>
    recommends
        max > 0,
    decreases size,
{
    if max == 0 || size == 0 {
        seq![]
    } else if size <= max {
        if size == max {
            seq![(0nat, max)]
        } else {
            seq![(0nat, size)]
        }
    } else {
        seq![(0nat, max)] + chunk_plan((size - max) as nat, max).map_values(
            |c: (nat, nat)| ((c.0 + max) as nat, c.1),
        )
    }
}

/// The chunks of a read buffer, in order.
pub fn chunk_requests(size: usize, max: usize) -> (r: Vec<(usize, usize)>)
    requires
        max > 0,
        size + max <= usize::MAX,
    ensures
        r@.len() == chunk_plan(size as nat, max as nat).len(),
        forall|k: int|
            0 <= k < r@.len() ==> (r@[k].0 as nat, r@[k].1 as nat) == #[trigger] chunk_plan(
                size as nat,
                max as nat,
            )[k],
    decreases size,
{
    if size == 0 {
        return Vec::new();
    }
    if size <= max {
        let mut r: Vec<(usize, usize)> = Vec::new();
        r.push((0, size));
        return r;
    }
    let rest = chunk_requests(size - max, max);
    let ghost rp = chunk_plan((size - max) as nat, max as nat);
    proof {
        lemma_chunk_plan_bounds((size - max) as nat, max as nat);
        assert forall|k: int| 0 <= k < rest@.len() implies rest@[k].0 + rest@[k].1 <= size - max by {
            assert((rest@[k].0 as nat, rest@[k].1 as nat) == rp[k]);
        }
    }
    let mut r: Vec<(usize, usize)> = Vec::new();
    r.push((0, max));
    let mut i: usize = 0;
    while i < rest.len()
        invariant
            i <= rest.len(),
            rest@.len() == rp.len(),
            size > max,
            size + max <= usize::MAX,
            forall|k: int| 0 <= k < rest@.len() ==> (rest@[k].0 as nat, rest@[k].1 as nat) == #[trigger] rp[k],
            forall|k: int| 0 <= k < rest@.len() ==> rest@[k].0 + rest@[k].1 <= size - max,
            r@.len() == i + 1,
            r@[0] == (0usize, max),
            forall|k: int|
                1 <= k <= i ==> (r@[k].0 as nat, r@[k].1 as nat) == ((rp[k - 1].0 + max) as nat, rp[k - 1].1),
        decreases rest.len() - i,
    {
        let (s, n) = rest[i];
        r.push((s + max, n));
        i += 1;
    }
    proof {
        let p = chunk_plan(size as nat, max as nat);
        assert(p.len() == rp.len() + 1);
        assert forall|k: int| 0 <= k < r@.len() implies (r@[k].0 as nat, r@[k].1 as nat) == #[trigger] p[k] by {
            if k > 0 {
                assert(p[k] == ((rp[k - 1].0 + max) as nat, rp[k - 1].1));
            }
        }
    }
    r
}

/// Every chunk lies inside the buffer.
pub proof fn lemma_chunk_plan_bounds(size: nat, max: nat)
    requires
        max > 0,
    ensures
        forall|k: int|
            0 <= k < chunk_plan(size, max).len() ==> #[trigger] chunk_plan(size, max)[k].0 + chunk_plan(
                size,
                max,
            )[k].1 <= size,
    decreases size,
{
    if size > max {
        let rp = chunk_plan((size - max) as nat, max);
        lemma_chunk_plan_bounds((size - max) as nat, max);
        let p = chunk_plan(size, max);
        assert forall|k: int| 0 <= k < p.len() implies #[trigger] p[k].0 + p[k].1 <= size by {
            if k > 0 {
                assert(p[k] == ((rp[k - 1].0 + max) as nat, rp[k - 1].1));
                assert(rp[k - 1].0 + rp[k - 1].1 <= size - max);
            }
        }
    }
}

/// The chunks of a read cover the buffer exactly: they follow one another
/// from 0, each holds at most `max` bytes and none is empty, and together
/// they hold `size` bytes.
pub proof fn law_chunks_cover_buffer(size: nat, max: nat)
    requires
        max > 0,
    ensures
        ({
            let p = chunk_plan(size, max);
            &&& p.len() > 0 ==> p[0].0 == 0
            &&& forall|k: int| 0 <= k < p.len() ==> 0 < (#[trigger] p[k]).1 <= max
            &&& forall|k: int| 0 <= k < p.len() - 1 ==> (#[trigger] p[k]).0 + p[k].1 == p[k + 1].0
            &&& p.len() > 0 ==> p.last().0 + p.last().1 == size
            &&& p.len() == 0 <==> size == 0
        }),
    decreases size,
{
    if size > max {
        law_chunks_cover_buffer((size - max) as nat, max);
        let rp = chunk_plan((size - max) as nat, max);
        let p = chunk_plan(size, max);
        assert(p.len() == rp.len() + 1);
        assert forall|k: int| 1 <= k < p.len() implies #[trigger] p[k] == ((rp[k - 1].0 + max) as nat, rp[k
            - 1].1) by {}
    }
}

/// The little-endian `i32` field `i` of a block, negative counting as 0.
pub open spec fn size_field(data: Seq<u8>, i: int) -> nat {
    let v = get32(data, 4 * i);
    let signed = if v >= 0x8000_0000 {
        v - 0x1_0000_0000
    } else {
        v
    };
    if signed < 0 {
        0
    } else {
        signed as nat
    }
}

/// The counts a free-sizes answer gives: users, templates, records; zeros
/// when the answer is not an acknowledgement of at least 80 bytes.
pub open spec fn sizes_of(command: u16, data: Seq<u8>) -> (nat, nat, nat) {
    if command != CMD_ACK_OK || data.len() < 80 {
        (0, 0, 0)
    } else {
        (size_field(data, 4), size_field(data, 6), size_field(data, 8))
    }
}

fn field_at(data: &[u8], i: usize) -> (r: usize)
    requires
        4 * i + 4 <= data.len(),
    ensures
        r as nat == size_field(data@, i as int),
{
    let v = get_u32(data, 4 * i);
    if v >= 0x8000_0000 {
        0
    } else {
        v as usize
    }
}

/// A text with a number appended.
pub open spec fn with_number(prefix: Seq<char>, n: nat) -> Seq<char> {
    prefix + crate::text::dec(n)
}

fn message_with(prefix: &str, n: u64) -> (e: DeviceError)
    ensures
        e == DeviceError::Message(e->Message_0),
        e->Message_0@ == with_number(prefix@, n as nat),
{
    let mut m = String::from_str(prefix);
    push_dec(&mut m, n);
    DeviceError::Message(m)
}

fn link_error(prefix: &str, e: String) -> (r: DeviceError)
    ensures
        r == DeviceError::Message(r->Message_0),
        r->Message_0@ == prefix@ + e@,
{
    let mut m = String::from_str(prefix);
    push_str(&mut m, e.as_str());
    DeviceError::Message(m)
}

/// A session with a ZKTeco device.
pub struct ZktecoClient {
    link: Box<dyn ZkLink>,
    udp: bool,
    session_id: u16,
    reply_id: u16,
    /// Every packet sent so far, in order.
    sent: Ghost<Seq<Seq<u8>>>,
    /// Every reply read so far (command, session id, reply id, data), in
    /// order.
    replies: Ghost<Seq<(u16, u16, u16, Seq<u8>)>>,
    /// Every command sent, with its data and the reply read for it, if any.
    exchanges: Ghost<Seq<(u16, Seq<u8>, Option<(u16, u16, u16, Seq<u8>)>)>>,
    /// Every block of bytes the link handed back, in order.
    inbound: Ghost<Seq<Seq<u8>>>,
}

/// A datagram of a data stream: a header with `CMD_DATA` first.
pub open spec fn is_data_block(b: Seq<u8>) -> bool {
    b.len() >= 8 && get16(b, 0) == CMD_DATA as int
}

/// The data a run of datagrams carries: what follows the 8-byte header of
/// each data datagram, in order.
pub open spec fn stream_payload(blocks: Seq<Seq<u8>>) -> Seq<u8>
    decreases blocks.len(),
{
    if blocks.len() == 0 {
        seq![]
    } else {
        stream_payload(blocks.drop_last()) + if is_data_block(blocks.last()) {
            blocks.last().skip(8)
        } else {
            seq![]
        }
    }
}

/// The requests that read a prepared buffer, one per chunk.
pub open spec fn chunk_commands(plan: Seq<(nat, nat)>) -> Seq<(u16, Seq<u8>)> {
    plan.map_values(|c: (nat, nat)| (CMD_READ_BUFFER, le32(c.0 as int) + le32(c.1 as int)))
}

/// The command and data of each exchange.
pub open spec fn commands_of(ex: Seq<(u16, Seq<u8>, Option<(u16, u16, u16, Seq<u8>)>)>) -> Seq<(u16, Seq<u8>)> {
    ex.map_values(|x: (u16, Seq<u8>, Option<(u16, u16, u16, Seq<u8>)>)| (x.0, x.1))
}

/// The largest chunk a transport reads at once.
pub open spec fn chunk_limit(udp: bool) -> nat {
    if udp {
        MAX_CHUNK_UDP as nat
    } else {
        MAX_CHUNK_TCP as nat
    }
}

proof fn lemma_chunk_step(
    before: Seq<(u16, Seq<u8>, Option<(u16, u16, u16, Seq<u8>)>)>,
    after: Seq<(u16, Seq<u8>, Option<(u16, u16, u16, Seq<u8>)>)>,
    n: int,
    cp: Seq<(nat, nat)>,
    k: int,
)
    requires
        0 <= n,
        0 <= k < cp.len(),
        before.len() == n + 1 + k,
        extends(before, after),
        after.len() == before.len() + 1,
        after.last().0 == CMD_READ_BUFFER,
        after.last().1 == le32(cp[k].0 as int) + le32(cp[k].1 as int),
        commands_of(before.skip(n + 1)) == chunk_commands(cp.take(k)),
    ensures
        commands_of(after.skip(n + 1)) == chunk_commands(cp.take(k + 1)),
{
    assert(after.skip(n + 1) =~= before.skip(n + 1).push(after.last()));
    assert(cp.take(k + 1) =~= cp.take(k).push(cp[k]));
    assert(commands_of(after.skip(n + 1)) =~= commands_of(before.skip(n + 1)).push(
        (after.last().0, after.last().1),
    ));
    assert(chunk_commands(cp.take(k + 1)) =~= chunk_commands(cp.take(k)).push(
        (CMD_READ_BUFFER, le32(cp[k].0 as int) + le32(cp[k].1 as int)),
    ));
}

/// The `CMD_DATA` requests that carry a buffer, in blocks of 1 KB.
pub open spec fn data_blocks(buf: Seq<u8>) -> Seq<(u16, Seq<u8>)>
    decreases buf.len(),
{
    if buf.len() == 0 {
        seq![]
    } else if buf.len() <= MAX_CHUNK_SEND {
        seq![(CMD_DATA, buf)]
    } else {
        seq![(CMD_DATA, buf.take(MAX_CHUNK_SEND as int))] + data_blocks(buf.skip(MAX_CHUNK_SEND as int))
    }
}

proof fn lemma_blocks_step(buf: Seq<u8>, start: int, end: int)
    requires
        0 <= start < buf.len(),
        end == if buf.len() - start > MAX_CHUNK_SEND {
            start + MAX_CHUNK_SEND
        } else {
            buf.len() as int
        },
    ensures
        data_blocks(buf.skip(start)) == seq![(CMD_DATA, buf.subrange(start, end))] + data_blocks(buf.skip(end)),
{
    let t = buf.skip(start);
    if t.len() <= MAX_CHUNK_SEND {
        assert(t =~= buf.subrange(start, end));
        assert(buf.skip(end) =~= Seq::<u8>::empty());
        assert(data_blocks(buf.skip(end)) =~= Seq::<(u16, Seq<u8>)>::empty());
        assert(seq![(CMD_DATA, buf.subrange(start, end))] + data_blocks(buf.skip(end)) =~= seq![
            (CMD_DATA, buf.subrange(start, end)),
        ]);
    } else {
        assert(t.take(MAX_CHUNK_SEND as int) =~= buf.subrange(start, end));
        assert(t.skip(MAX_CHUNK_SEND as int) =~= buf.skip(end));
    }
}

/// The counts a free-sizes exchange gave: users, templates, records; zeros
/// when no reply came.
pub open spec fn sizes_in(reply: Option<(u16, u16, u16, Seq<u8>)>) -> (nat, nat, nat) {
    match reply {
        Some(a) => sizes_of(a.0, a.3),
        None => (0, 0, 0),
    }
}

/// The buffer the exchange at `n` carried inline, when the device answered
/// it with `CMD_DATA`.
pub open spec fn inline_buffer(e: Seq<(u16, Seq<u8>, Option<(u16, u16, u16, Seq<u8>)>)>, n: int) -> Option<Seq<u8>> {
    if 0 <= n < e.len() {
        match e[n].2 {
            Some(a) => if a.0 == CMD_DATA {
                Some(a.3)
            } else {
                None
            },
            None => None,
        }
    } else {
        None
    }
}

/// Whether the exchange at `n` got no reply, or one that is neither data nor
/// a prepared buffer.
pub open spec fn buffer_refused(e: Seq<(u16, Seq<u8>, Option<(u16, u16, u16, Seq<u8>)>)>, n: int) -> bool {
    0 <= n < e.len() && match e[n].2 {
        None => true,
        Some(a) => a.0 != CMD_DATA && a.0 != CMD_PREPARE_DATA,
    }
}

proof fn lemma_commands_push(a: Seq<(u16, Seq<u8>, Option<(u16, u16, u16, Seq<u8>)>)>, b: Seq<(u16, Seq<u8>, Option<(u16, u16, u16, Seq<u8>)>)>, n: int)
    requires
        extends(a, b),
        b.len() == a.len() + 1,
        0 <= n <= a.len(),
    ensures
        commands_of(b.skip(n)) == commands_of(a.skip(n)).push((b.last().0, b.last().1)),
{
    assert(b.skip(n) =~= a.skip(n).push(b.last()));
    assert(commands_of(b.skip(n)) =~= commands_of(a.skip(n)).push((b.last().0, b.last().1)));
}

proof fn lemma_commands_split(e: Seq<(u16, Seq<u8>, Option<(u16, u16, u16, Seq<u8>)>)>, n: int)
    requires
        0 <= n,
        n + 2 <= e.len(),
    ensures
        commands_of(e.skip(n)) == seq![(e[n].0, e[n].1), (e[n + 1].0, e[n + 1].1)] + commands_of(e.skip(n + 2)),
{
    assert(commands_of(e.skip(n)) =~= seq![(e[n].0, e[n].1), (e[n + 1].0, e[n + 1].1)] + commands_of(
        e.skip(n + 2),
    ));
}

/// The reply a TCP frame carries: an 8-byte header that announces a frame,
/// then a packet that parses.
pub open spec fn tcp_reply(hdr: Seq<u8>, pkt: Seq<u8>) -> Option<(u16, u16, u16, Seq<u8>)> {
    if hdr.len() == 8 && tcp_frame_length(hdr) is Some {
        parsed_raw(pkt)
    } else {
        None
    }
}

/// The reply read while the inbound log grew from `before` to `after`: one
/// datagram over UDP, a header and a packet over TCP.
pub open spec fn reply_read(udp: bool, before: Seq<Seq<u8>>, after: Seq<Seq<u8>>) -> Option<
    (u16, u16, u16, Seq<u8>),
> {
    let n = before.len() as int;
    if udp {
        if after.len() == n + 1 {
            parsed_raw(after[n])
        } else {
            None
        }
    } else if after.len() == n + 2 {
        tcp_reply(after[n], after[n + 1])
    } else {
        None
    }
}

/// The packet a command goes out as, over UDP or in a TCP frame.
pub open spec fn request_packet(udp: bool, command: u16, data: Seq<u8>, session_id: u16, reply_id: u16) -> Seq<u8> {
    if udp {
        raw_packet(command, data, session_id, reply_id)
    } else {
        tcp_packet(command, data, session_id, reply_id)
    }
}

/// Whether the replies from position `n` on accept a session: `ACK_OK` to
/// `CONNECT`, or `ACK_UNAUTH` followed by `ACK_OK` to `AUTH`.
pub open spec fn session_accepted(replies: Seq<(u16, u16, u16, Seq<u8>)>, n: int) -> bool {
    replies.len() > n && (replies[n].0 == CMD_ACK_OK || (replies[n].0 == CMD_ACK_UNAUTH && replies.len() > n + 1
        && replies[n + 1].0 == CMD_ACK_OK))
}

/// `after` begins with `before`.
pub open spec fn extends<T>(before: Seq<T>, after: Seq<T>) -> bool {
    before.len() <= after.len() && forall|i: int| 0 <= i < before.len() ==> #[trigger] after[i] == before[i]
}

/// The request that prepares a device buffer: `pack('<bhii', 1, sub_cmd,
/// fct, ext)`.
pub open spec fn buffer_request(sub_cmd: u8, fct: i32, ext: i32) -> Seq<u8> {
    seq![1u8] + le16(sub_cmd as int) + le32(fct as u32 as int) + le32(ext as u32 as int)
}

impl ZktecoClient {
    pub closed spec fn session(self) -> u16 {
        self.session_id
    }

    pub closed spec fn last_reply(self) -> u16 {
        self.reply_id
    }

    pub closed spec fn is_udp(self) -> bool {
        self.udp
    }

    /// Every packet sent so far, in order.
    pub closed spec fn sent_packets(self) -> Seq<Seq<u8>> {
        self.sent@
    }

    /// Every reply read so far, in order.
    pub closed spec fn replies(self) -> Seq<(u16, u16, u16, Seq<u8>)> {
        self.replies@
    }

    /// Every command sent so far, with its data and the reply read for it.
    pub closed spec fn exchanges(self) -> Seq<(u16, Seq<u8>, Option<(u16, u16, u16, Seq<u8>)>)> {
        self.exchanges@
    }

    /// Every block of bytes the link has handed back so far.
    pub closed spec fn inbound(self) -> Seq<Seq<u8>> {
        self.inbound@
    }

    /// The same transport, with the packets and replies of `before` first.
    pub open spec fn grown_from(self, before: Self) -> bool {
        &&& self.is_udp() == before.is_udp()
        &&& extends(before.sent_packets(), self.sent_packets())
        &&& extends(before.replies(), self.replies())
        &&& extends(before.exchanges(), self.exchanges())
        &&& extends(before.inbound(), self.inbound())
    }

    /// A session on a fresh link, before `CONNECT`.
    pub fn new(link: Box<dyn ZkLink>, udp: bool) -> (r: Self)
        ensures
            r.session() == 0,
            r.last_reply() == 65534,
            r.is_udp() == udp,
            r.sent_packets() == Seq::<Seq<u8>>::empty(),
            r.replies() == Seq::<(u16, u16, u16, Seq<u8>)>::empty(),
            r.exchanges().len() == 0,
            r.inbound().len() == 0,
    {
        ZktecoClient {
            link,
            udp,
            session_id: 0,
            reply_id: 65534,
            sent: Ghost(Seq::empty()),
            replies: Ghost(Seq::empty()),
            exchanges: Ghost(Seq::empty()),
            inbound: Ghost(Seq::empty()),
        }
    }

    /// The largest chunk the link reads at once.
    pub fn max_chunk(&self) -> (r: usize)
        ensures
            r == if self.is_udp() {
                MAX_CHUNK_UDP
            } else {
                MAX_CHUNK_TCP
            },
    {
        if self.udp {
            MAX_CHUNK_UDP
        } else {
            MAX_CHUNK_TCP
        }
    }

    fn read_tcp_packet(&mut self) -> (r: Result<ResponsePacket, DeviceError>)
        ensures
            final(self).is_udp() == old(self).is_udp(),
            final(self).session() == old(self).session(),
            final(self).last_reply() == old(self).last_reply(),
            final(self).sent_packets() == old(self).sent_packets(),
            final(self).replies() == old(self).replies(),
            final(self).exchanges() == old(self).exchanges(),
            extends(old(self).inbound(), final(self).inbound()),
            final(self).inbound().len() <= old(self).inbound().len() + 2,
            ({
                let n = old(self).inbound().len() as int;
                let got = final(self).inbound();
                r is Ok <==> got.len() == n + 2 && tcp_reply(got[n], got[n + 1]) is Some
            }),
            r matches Ok(p) ==> tcp_reply(
                final(self).inbound()[old(self).inbound().len() as int],
                final(self).inbound()[old(self).inbound().len() + 1int],
            ) == Some((p.command, p.session_id, p.reply_id, p.data@)),
    {
        let hdr = match self.link.read_exact(8) {
            Ok(h) => h,
            Err(e) => {
                return Err(link_error("tcp read header: ", e));
            },
        };
        proof {
            self.inbound@ = self.inbound@.push(hdr@);
        }
        if hdr.len() != 8 {
            return Err(DeviceError::Message(String::from_str("tcp read header: short read")));
        }
        let n = parse_tcp_header(hdr.as_slice())?;
        let pkt = match self.link.read_exact(n) {
            Ok(p) => p,
            Err(e) => {
                return Err(link_error("tcp read packet: ", e));
            },
        };
        proof {
            self.inbound@ = self.inbound@.push(pkt@);
        }
        parse_raw_packet(pkt.as_slice())
    }

    /// One round trip, without its entry in the exchange log.
    fn transmit(&mut self, command: u16, data: &[u8]) -> (r: Result<ResponsePacket, DeviceError>)
        requires
            data.len() + 8 <= u32::MAX,
        ensures
            final(self).is_udp() == old(self).is_udp(),
            final(self).sent_packets() == old(self).sent_packets().push(
                request_packet(
                    old(self).is_udp(),
                    command,
                    data@,
                    old(self).session(),
                    next_request(old(self).last_reply()),
                ),
            ),
            extends(old(self).inbound(), final(self).inbound()),
            extends(old(self).replies(), final(self).replies()),
            r is Ok <==> reply_read(old(self).is_udp(), old(self).inbound(), final(self).inbound()) is Some,
            r matches Ok(p) ==> reply_read(old(self).is_udp(), old(self).inbound(), final(self).inbound())
                == Some((p.command, p.session_id, p.reply_id, p.data@)),
            final(self).exchanges() == old(self).exchanges(),
            match r {
                Ok(p) => {
                    &&& final(self).session() == p.session_id
                    &&& final(self).last_reply() == p.reply_id
                    &&& final(self).replies() == old(self).replies().push(
                        (p.command, p.session_id, p.reply_id, p.data@),
                    )
                },
                Err(_) => {
                    &&& final(self).session() == old(self).session()
                    &&& final(self).last_reply() == next_request(old(self).last_reply())
                    &&& final(self).replies() == old(self).replies()
                },
            },
    {
        let next = self.reply_id.wrapping_add(1);
        self.reply_id = if next == 65535 {
            0
        } else {
            next
        };
        if self.udp {
            let packet = make_raw_packet(command, data, self.session_id, self.reply_id);
            proof {
                self.sent@ = self.sent@.push(packet@);
            }
            if let Err(e) = self.link.send(packet.as_slice()) {
                return Err(link_error("udp send: ", e));
            }
            let buf = match self.link.recv(UDP_BUF) {
                Ok(b) => b,
                Err(e) => {
                    return Err(link_error("udp recv: ", e));
                },
            };
            proof {
                self.inbound@ = self.inbound@.push(buf@);
            }
            let resp = parse_raw_packet(buf.as_slice())?;
            self.session_id = resp.session_id;
            self.reply_id = resp.reply_id;
            proof {
                self.replies@ = self.replies@.push((resp.command, resp.session_id, resp.reply_id, resp.data@));
            }
            Ok(resp)
        } else {
            let packet = make_tcp_packet(command, data, self.session_id, self.reply_id);
            proof {
                self.sent@ = self.sent@.push(packet@);
            }
            if let Err(e) = self.link.send(packet.as_slice()) {
                return Err(link_error("tcp write: ", e));
            }
            let resp = self.read_tcp_packet()?;
            self.session_id = resp.session_id;
            self.reply_id = resp.reply_id;
            proof {
                self.replies@ = self.replies@.push((resp.command, resp.session_id, resp.reply_id, resp.data@));
            }
            Ok(resp)
        }
    }

    /// Sends one command and reads the answer. The command goes out under
    /// the next request id and the current session; the answer's session
    /// and reply ids become the client's.
    pub fn send_command(&mut self, command: u16, data: &[u8]) -> (r: Result<ResponsePacket, DeviceError>)
        requires
            data.len() + 8 <= u32::MAX,
        ensures
            final(self).is_udp() == old(self).is_udp(),
            final(self).sent_packets() == old(self).sent_packets().push(
                request_packet(
                    old(self).is_udp(),
                    command,
                    data@,
                    old(self).session(),
                    next_request(old(self).last_reply()),
                ),
            ),
            final(self).grown_from(*old(self)),
            r is Ok <==> reply_read(old(self).is_udp(), old(self).inbound(), final(self).inbound()) is Some,
            r matches Ok(p) ==> reply_read(old(self).is_udp(), old(self).inbound(), final(self).inbound())
                == Some((p.command, p.session_id, p.reply_id, p.data@)),
            final(self).exchanges() == old(self).exchanges().push(
                (command, data@, reply_read(old(self).is_udp(), old(self).inbound(), final(self).inbound())),
            ),
            match r {
                Ok(p) => {
                    &&& final(self).session() == p.session_id
                    &&& final(self).last_reply() == p.reply_id
                    &&& final(self).replies() == old(self).replies().push(
                        (p.command, p.session_id, p.reply_id, p.data@),
                    )
                },
                Err(_) => {
                    &&& final(self).session() == old(self).session()
                    &&& final(self).last_reply() == next_request(old(self).last_reply())
                    &&& final(self).replies() == old(self).replies()
                },
            },
    {
        let ghost before = self.inbound@;
        let r = self.transmit(command, data);
        proof {
            self.exchanges@ = self.exchanges@.push((command, data@, reply_read(self.udp, before, self.inbound@)));
        }
        r
    }

    /// Opens the session: `CONNECT`, then `AUTH` with the password's comm
    /// key when the device asks for it.
    pub fn authenticate(&mut self, password: i32) -> (r: Result<(), DeviceError>)
        ensures
            final(self).grown_from(*old(self)),
            final(self).sent_packets().len() > old(self).sent_packets().len(),
            final(self).sent_packets()[old(self).sent_packets().len() as int] == request_packet(
                old(self).is_udp(),
                CMD_CONNECT,
                Seq::empty(),
                old(self).session(),
                next_request(old(self).last_reply()),
            ),
            r is Ok <==> session_accepted(final(self).replies(), old(self).replies().len() as int),
            ({
                let n = old(self).replies().len() as int;
                let m = old(self).sent_packets().len() as int;
                let first = final(self).replies()[n];
                final(self).replies().len() > n && first.0 == CMD_ACK_UNAUTH ==> {
                    &&& final(self).sent_packets().len() == m + 2
                    &&& final(self).sent_packets()[m + 1] == request_packet(
                        old(self).is_udp(),
                        CMD_AUTH,
                        commkey(password as u32, first.1),
                        first.1,
                        next_request(first.2),
                    )
                }
            }),
    {
        let resp = self.send_command(CMD_CONNECT, &[])?;
        if resp.command == CMD_ACK_UNAUTH {
            let key = make_commkey(password as u32, resp.session_id);
            let auth = self.send_command(CMD_AUTH, &key)?;
            if auth.command != CMD_ACK_OK {
                let mut m = String::from_str("authentication failed (cmd ");
                push_dec(&mut m, auth.command as u64);
                push_str(&mut m, ")");
                return Err(DeviceError::Message(m));
            }
        } else if resp.command != CMD_ACK_OK {
            return Err(message_with("connect returned command ", resp.command as u64));
        }
        Ok(())
    }

    /// Users, templates and records on the device (zeros when it does not
    /// say).
    pub fn read_sizes(&mut self) -> (r: (usize, usize, usize))
        ensures
            final(self).grown_from(*old(self)),
            final(self).sent_packets() == old(self).sent_packets().push(
                request_packet(
                    old(self).is_udp(),
                    CMD_GET_FREE_SIZES,
                    Seq::empty(),
                    old(self).session(),
                    next_request(old(self).last_reply()),
                ),
            ),
            final(self).exchanges().len() == old(self).exchanges().len() + 1,
            final(self).exchanges().last().0 == CMD_GET_FREE_SIZES,
            final(self).exchanges().last().1 == Seq::<u8>::empty(),
            (r.0 as nat, r.1 as nat, r.2 as nat) == sizes_in(final(self).exchanges().last().2),
            ({
                let got = final(self).replies();
                ||| got == old(self).replies() && r == (0usize, 0usize, 0usize)
                ||| got.len() == old(self).replies().len() + 1 && (r.0 as nat, r.1 as nat, r.2 as nat)
                    == sizes_of(got.last().0, got.last().3)
            }),
    {
        let resp = match self.send_command(CMD_GET_FREE_SIZES, &[]) {
            Ok(r) => r,
            Err(_) => {
                return (0, 0, 0);
            },
        };
        let r = if resp.command != CMD_ACK_OK || resp.data.len() < 80 {
            (0, 0, 0)
        } else {
            (field_at(resp.data.as_slice(), 4), field_at(resp.data.as_slice(), 6), field_at(resp.data.as_slice(), 8))
        };
        assert((r.0 as nat, r.1 as nat, r.2 as nat) == sizes_of(resp.command, resp.data@));
        r
    }

    /// Reads one chunk of a prepared buffer.
    fn read_chunk(&mut self, start: usize, size: usize) -> (r: Result<Vec<u8>, DeviceError>)
        requires
            start <= i32::MAX,
            size <= i32::MAX,
        ensures
            final(self).grown_from(*old(self)),
            ({
                let n = old(self).exchanges().len() as int;
                let e = final(self).exchanges();
                &&& e.len() == n + 1
                &&& e[n].0 == CMD_READ_BUFFER
                &&& e[n].1 == le32(start as int) + le32(size as int)
                &&& e[n].2 is None ==> r is Err
                &&& e[n].2 matches Some(a) ==> {
                    &&& a.0 == CMD_DATA ==> (r matches Ok(d) && d@ == a.3)
                    &&& a.0 != CMD_DATA && a.0 != CMD_PREPARE_DATA ==> r is Err
                    &&& a.0 == CMD_PREPARE_DATA && !old(self).is_udp() ==> r is Err
                    &&& a.0 == CMD_PREPARE_DATA ==> (r matches Ok(d) ==> d@ == stream_payload(
                        final(self).inbound().skip(old(self).inbound().len() + 1int),
                    ))
                }
            }),
    {
        let mut cmd: Vec<u8> = Vec::new();
        push_le32(&mut cmd, start as u32);
        push_le32(&mut cmd, size as u32);
        let resp = self.send_command(CMD_READ_BUFFER, cmd.as_slice())?;
        if resp.command == CMD_DATA {
            Ok(resp.data)
        } else if resp.command == CMD_PREPARE_DATA {
            let ghost mid = self.inbound@;
            assert(self.udp ==> mid.len() == old(self).inbound@.len() + 1);
            self.recv_udp_stream(size)
        } else {
            Err(message_with("read_chunk: expected CMD_DATA, got ", resp.command as u64))
        }
    }

    /// Collects the datagrams of a chunk until one that is not data (at most
    /// one per expected byte, plus the closing one).
    fn recv_udp_stream(&mut self, expected: usize) -> (r: Result<Vec<u8>, DeviceError>)
        requires
            expected <= i32::MAX,
        ensures
            final(self).is_udp() == old(self).is_udp(),
            final(self).session() == old(self).session(),
            final(self).last_reply() == old(self).last_reply(),
            final(self).sent_packets() == old(self).sent_packets(),
            final(self).replies() == old(self).replies(),
            final(self).exchanges() == old(self).exchanges(),
            extends(old(self).inbound(), final(self).inbound()),
            final(self).inbound().len() <= old(self).inbound().len() + expected + 1,
            !old(self).is_udp() ==> r is Err && final(self).inbound() == old(self).inbound(),
            forall|i: int|
                old(self).inbound().len() <= i < final(self).inbound().len() - 1 ==> is_data_block(
                    #[trigger] final(self).inbound()[i],
                ),
            r matches Ok(d) ==> d@ == stream_payload(final(self).inbound().skip(old(self).inbound().len() as int)),
    {
        if !self.udp {
            return Err(DeviceError::Message(String::from_str("recv_udp_stream called on TCP transport")));
        }
        let ghost n0 = self.inbound@.len() as int;
        let mut data: Vec<u8> = Vec::new();
        let mut budget: usize = expected + 1;
        assert(self.inbound@.skip(n0) =~= Seq::<Seq<u8>>::empty());
        while budget > 0
            invariant
                self.udp,
                old(self).udp,
                self.session_id == old(self).session_id,
                self.reply_id == old(self).reply_id,
                self.sent@ == old(self).sent@,
                self.replies@ == old(self).replies@,
                self.exchanges@ == old(self).exchanges@,
                n0 == old(self).inbound@.len(),
                extends(old(self).inbound@, self.inbound@),
                self.inbound@.len() - n0 + budget == expected + 1,
                forall|i: int| n0 <= i < self.inbound@.len() ==> is_data_block(#[trigger] self.inbound@[i]),
                data@ == stream_payload(self.inbound@.skip(n0)),
            decreases budget,
        {
            budget -= 1;
            let buf = match self.link.recv(1032) {
                Ok(b) => b,
                Err(e) => {
                    return Err(link_error("udp recv stream: ", e));
                },
            };
            let ghost before = self.inbound@;
            proof {
                self.inbound@ = self.inbound@.push(buf@);
                assert(self.inbound@.skip(n0).drop_last() =~= before.skip(n0));
                assert(self.inbound@.skip(n0).last() == buf@);
            }
            if buf.len() < 8 {
                assert(!is_data_block(buf@));
                assert(data@ =~= stream_payload(self.inbound@.skip(n0)));
                return Ok(data);
            }
            if get_u16(buf.as_slice(), 0) == CMD_DATA {
                push_bytes(&mut data, slice_bytes(buf.as_slice(), 8, buf.len()).as_slice());
                assert(buf@.subrange(8, buf@.len() as int) =~= buf@.skip(8));
            } else {
                assert(data@ =~= stream_payload(self.inbound@.skip(n0)));
                return Ok(data);
            }
        }
        Ok(data)
    }

    /// Reads a device buffer (`pack('<bhii', 1, sub_cmd, fct, ext)`): inline
    /// when the device answers with data, else chunk by chunk as
    /// [`chunk_requests`] lays out, then frees it.
    pub fn read_with_buffer(&mut self, sub_cmd: u8, fct: i32, ext: i32) -> (r: Result<Vec<u8>, DeviceError>)
        ensures
            final(self).grown_from(*old(self)),
            ({
                let n = old(self).exchanges().len() as int;
                let e = final(self).exchanges();
                &&& e.len() > n
                &&& e[n].0 == CMD_PREPARE_BUFFER
                &&& e[n].1 == buffer_request(sub_cmd, fct, ext)
                &&& e[n].2 is None ==> r is Err && e.len() == n + 1
                &&& e[n].2 matches Some(a) ==> {
                    &&& a.0 == CMD_DATA ==> e.len() == n + 1 && (r matches Ok(d) && d@ == a.3)
                    &&& a.0 != CMD_DATA && a.0 != CMD_PREPARE_DATA ==> r is Err && e.len() == n + 1
                    &&& a.0 == CMD_PREPARE_DATA && a.3.len() < 5 ==> r is Err && e.len() == n + 1
                    &&& a.0 == CMD_PREPARE_DATA && r is Ok ==> a.3.len() >= 5 && commands_of(e.skip(n + 1))
                        == chunk_commands(chunk_plan(get32(a.3, 1) as nat, chunk_limit(old(self).is_udp())))
                        + seq![(CMD_FREE_DATA, Seq::<u8>::empty())]
                }
            }),
    {
        let ghost n = self.exchanges@.len() as int;
        let mut cmd: Vec<u8> = Vec::new();
        cmd.push(1);
        push_le16(&mut cmd, sub_cmd as u16);
        push_le32(&mut cmd, fct as u32);
        push_le32(&mut cmd, ext as u32);
        assert(cmd@ =~= buffer_request(sub_cmd, fct, ext));
        let resp = self.send_command(CMD_PREPARE_BUFFER, cmd.as_slice())?;
        if resp.command == CMD_DATA {
            return Ok(resp.data);
        }
        if resp.command != CMD_PREPARE_DATA {
            return Err(message_with("read_with_buffer: unexpected response ", resp.command as u64));
        }
        if resp.data.len() < 5 {
            return Err(DeviceError::Message(String::from_str("CMD_PREPARE_DATA: response too short")));
        }
        let head = slice_bytes(resp.data.as_slice(), 1, 5);
        let size = get_u32(head.as_slice(), 0) as usize;
        assert(size as int == get32(resp.data@, 1)) by {
            assert(head@[0] == resp.data@[1] && head@[1] == resp.data@[2] && head@[2] == resp.data@[3]
                && head@[3] == resp.data@[4]);
        }
        let ghost first = self.exchanges@[n];
        let ghost mid = *self;
        let max = self.max_chunk();
        if size > usize::MAX - max {
            return Err(DeviceError::Message(String::from_str("CMD_PREPARE_DATA: buffer too large")));
        }
        let plan = chunk_requests(size, max);
        proof {
            lemma_chunk_plan_bounds(size as nat, max as nat);
        }
        let mut all: Vec<u8> = Vec::new();
        let mut k: usize = 0;
        while k < plan.len()
            invariant
                k <= plan.len(),
                max == MAX_CHUNK_UDP || max == MAX_CHUNK_TCP,
                size <= u32::MAX,
                plan@.len() == chunk_plan(size as nat, max as nat).len(),
                forall|j: int|
                    0 <= j < plan@.len() ==> (plan@[j].0 as nat, plan@[j].1 as nat) == #[trigger] chunk_plan(
                        size as nat,
                        max as nat,
                    )[j],
                forall|j: int|
                    0 <= j < chunk_plan(size as nat, max as nat).len() ==> #[trigger] chunk_plan(
                        size as nat,
                        max as nat,
                    )[j].0 + chunk_plan(size as nat, max as nat)[j].1 <= size,
                self.is_udp() == old(self).is_udp(),
                max == if self.is_udp() {
                    MAX_CHUNK_UDP
                } else {
                    MAX_CHUNK_TCP
                },
                self.grown_from(mid),
                mid.grown_from(*old(self)),
                n == old(self).exchanges().len(),
                mid.exchanges().len() == n + 1,
                self.exchanges()[n] == first,
                first.0 == CMD_PREPARE_BUFFER,
                first.1 == buffer_request(sub_cmd, fct, ext),
                first.2 matches Some(a) && a.0 == CMD_PREPARE_DATA && a.3.len() >= 5 && get32(a.3, 1)
                    == size as int,
                self.exchanges().len() == n + 1 + k,
                commands_of(self.exchanges().skip(n + 1)) == chunk_commands(
                    chunk_plan(size as nat, max as nat).take(k as int),
                ),
            decreases plan.len() - k,
        {
            let (start, len) = plan[k];
            assert((plan@[k as int].0 as nat, plan@[k as int].1 as nat) == chunk_plan(size as nat, max as nat)[k as int]);
            assert(start + len <= size);
            if start > 2147483647 || len > 2147483647 {
                return Err(DeviceError::Message(String::from_str("CMD_PREPARE_DATA: buffer too large")));
            }
            let ghost before = self.exchanges();
            let chunk = self.read_chunk(start, len)?;
            proof {
                lemma_chunk_step(
                    before,
                    self.exchanges(),
                    n,
                    chunk_plan(size as nat, max as nat),
                    k as int,
                );
            }
            push_bytes(&mut all, chunk.as_slice());
            k += 1;
        }
        let ghost before = self.exchanges();
        let _ = self.send_command(CMD_FREE_DATA, &[]);
        proof {
            let cp = chunk_plan(size as nat, max as nat);
            assert(cp.take(k as int) =~= cp);
            assert(self.exchanges().skip(n + 1) =~= before.skip(n + 1).push(self.exchanges().last()));
            assert(self.exchanges().last().1 =~= Seq::<u8>::empty());
            assert(commands_of(self.exchanges().skip(n + 1)) =~= commands_of(before.skip(n + 1)).push(
                (CMD_FREE_DATA, Seq::<u8>::empty()),
            ));
            assert(self.exchanges()[n] == first);
        }
        Ok(all)
    }

    /// Sends a large buffer: frees the device buffer, declares the size,
    /// then streams it in blocks of 1 KB.
    pub fn send_with_buffer(&mut self, buffer: &[u8]) -> (r: Result<(), DeviceError>)
        requires
            buffer.len() <= u32::MAX,
        ensures
            final(self).grown_from(*old(self)),
            ({
                let n = old(self).exchanges().len() as int;
                let e = final(self).exchanges();
                &&& e.len() >= n + 2
                &&& e[n].0 == CMD_FREE_DATA && e[n].1 == Seq::<u8>::empty()
                &&& e[n + 1].0 == CMD_PREPARE_DATA && e[n + 1].1 == le32(buffer.len() as int)
                &&& e[n + 1].2 is None ==> r is Err && e.len() == n + 2
                &&& (e[n + 1].2 matches Some(a) && a.0 != CMD_ACK_OK && a.0 != CMD_PREPARE_DATA) ==> r is Err
                    && e.len() == n + 2
                &&& r is Ok ==> commands_of(e.skip(n + 2)) == data_blocks(buffer@)
                &&& r is Ok ==> forall|i: int|
                    n + 2 <= i < e.len() ==> (#[trigger] e[i].2 matches Some(a) && a.0 == CMD_ACK_OK)
            }),
    {
        let ghost n = self.exchanges@.len() as int;
        let _ = self.send_command(CMD_FREE_DATA, &[]);
        let ghost e0 = self.exchanges@[n];
        assert(e0.1 =~= Seq::<u8>::empty());
        let size = buffer.len();
        let mut sz: Vec<u8> = Vec::new();
        push_le32(&mut sz, size as u32);
        let resp = self.send_command(CMD_PREPARE_DATA, sz.as_slice())?;
        let ghost e1 = self.exchanges@[n + 1];
        if resp.command != CMD_ACK_OK && resp.command != CMD_PREPARE_DATA {
            return Err(message_with("prepare data returned command ", resp.command as u64));
        }
        let mut start: usize = 0;
        assert(buffer@.skip(0) =~= buffer@);
        assert(self.exchanges().skip(n + 2) =~= Seq::<(u16, Seq<u8>, Option<(u16, u16, u16, Seq<u8>)>)>::empty());
        assert(commands_of(self.exchanges().skip(n + 2)) + data_blocks(buffer@.skip(0)) =~= data_blocks(buffer@));
        while start < size
            invariant
                start <= size,
                size == buffer.len(),
                size <= u32::MAX,
                self.grown_from(*old(self)),
                n == old(self).exchanges().len(),
                self.exchanges().len() >= n + 2,
                self.exchanges()[n] == e0,
                self.exchanges()[n + 1] == e1,
                e0.0 == CMD_FREE_DATA && e0.1 == Seq::<u8>::empty(),
                e1.0 == CMD_PREPARE_DATA && e1.1 == le32(buffer.len() as int),
                e1.2 matches Some(a) && (a.0 == CMD_ACK_OK || a.0 == CMD_PREPARE_DATA),
                commands_of(self.exchanges().skip(n + 2)) + data_blocks(buffer@.skip(start as int))
                    == data_blocks(buffer@),
                forall|i: int|
                    n + 2 <= i < self.exchanges().len() ==> (#[trigger] self.exchanges()[i].2 matches Some(a)
                        && a.0 == CMD_ACK_OK),
            decreases size - start,
        {
            let ghost before = self.exchanges();
            let end = if size - start > MAX_CHUNK_SEND {
                start + MAX_CHUNK_SEND
            } else {
                size
            };
            let block = slice_bytes(buffer, start, end);
            let chunk = self.send_command(CMD_DATA, block.as_slice())?;
            if chunk.command != CMD_ACK_OK {
                return Err(message_with("data chunk returned command ", chunk.command as u64));
            }
            proof {
                lemma_blocks_step(buffer@, start as int, end as int);
                let x = (CMD_DATA, buffer@.subrange(start as int, end as int));
                assert(self.exchanges().skip(n + 2) =~= before.skip(n + 2).push(self.exchanges().last()));
                assert(commands_of(self.exchanges().skip(n + 2)) =~= commands_of(before.skip(n + 2)).push(x));
                assert(commands_of(before.skip(n + 2)).push(x) + data_blocks(buffer@.skip(end as int)) =~= commands_of(
                    before.skip(n + 2),
                ) + (seq![x] + data_blocks(buffer@.skip(end as int))));
            }
            start = end;
        }
        proof {
            assert(buffer@.skip(start as int) =~= Seq::<u8>::empty());
            assert(commands_of(self.exchanges().skip(n + 2)) + data_blocks(buffer@.skip(start as int)) =~= commands_of(
                self.exchanges().skip(n + 2),
            ));
        }
        Ok(())
    }

    /// Reads the user table.
    pub fn read_users(&mut self, users_count: usize) -> (r: Result<Vec<DeviceUser>, DeviceError>)
        ensures
            final(self).grown_from(*old(self)),
            users_count == 0 ==> (r matches Ok(v) && v@.len() == 0),
            users_count == 0 ==> final(self).exchanges() == old(self).exchanges(),
            ({
                let n = old(self).exchanges().len() as int;
                let e = final(self).exchanges();
                users_count > 0 ==> {
                    &&& e.len() > n
                    &&& e[n].0 == CMD_PREPARE_BUFFER
                    &&& e[n].1 == buffer_request(CMD_USERTEMP_RRQ, FCT_USER, 0)
                    &&& buffer_refused(e, n) ==> r is Err
                    &&& inline_buffer(e, n) is Some ==> e.len() == n + 1
                    &&& inline_buffer(e, n) matches Some(d) ==> (r matches Ok(v) && user_views(v@)
                        == decode_users_spec(d, users_count as nat))
                }
            }),
    {
        if users_count == 0 {
            return Ok(Vec::new());
        }
        let data = self.read_with_buffer(CMD_USERTEMP_RRQ, FCT_USER, 0)?;
        decode_users(data.as_slice(), users_count)
    }
}

impl DeviceClient for ZktecoClient {
    /// Asks how many records there are, then reads the attendance buffer and
    /// decodes that many.
    fn pull_attendance(&mut self) -> (r: Result<Vec<RawAttendance>, DeviceError>)
        ensures
            final(self).grown_from(*old(self)),
            ({
                let n = old(self).exchanges().len() as int;
                let e = final(self).exchanges();
                &&& e.len() > n + 1
                &&& e[n].0 == CMD_GET_FREE_SIZES && e[n].1 == Seq::<u8>::empty()
                &&& e[n + 1].0 == CMD_PREPARE_BUFFER
                &&& e[n + 1].1 == buffer_request(CMD_ATTLOG_RRQ, 0, 0)
                &&& buffer_refused(e, n + 1) ==> r is Err
                &&& inline_buffer(e, n + 1) matches Some(d) ==> (r matches Ok(v) && attendance_views(v@)
                    == decode_attendance(d, sizes_in(e[n].2).2))
            }),
    {
        let (_, _, records) = self.read_sizes();
        let raw = self.read_with_buffer(CMD_ATTLOG_RRQ, 0, 0)?;
        decode_attendance_data(raw.as_slice(), records)
    }

    /// Sends `CLEAR_ATTLOG`; succeeds when the device acknowledges it.
    fn clear_attendance(&mut self) -> (r: Result<(), DeviceError>)
        ensures
            final(self).grown_from(*old(self)),
            final(self).exchanges().len() == old(self).exchanges().len() + 1,
            final(self).exchanges().last().0 == CMD_CLEAR_ATTLOG,
            final(self).exchanges().last().1 == Seq::<u8>::empty(),
            r is Ok <==> (final(self).exchanges().last().2 matches Some(a) && a.0 == CMD_ACK_OK),
    {
        let resp = self.send_command(CMD_CLEAR_ATTLOG, &[])?;
        if resp.command == CMD_ACK_OK {
            Ok(())
        } else {
            Err(message_with("clear attendance returned command ", resp.command as u64))
        }
    }

    /// Asks how many users and templates there are; with templates, reads the
    /// user table (when there are users) and then the template buffer.
    fn get_templates(&mut self) -> (r: Result<Vec<FingerTemplate>, DeviceError>)
        ensures
            final(self).grown_from(*old(self)),
            ({
                let n = old(self).exchanges().len() as int;
                let e = final(self).exchanges();
                let users = sizes_in(e[n].2).0;
                let fingers = sizes_in(e[n].2).1;
                &&& e.len() > n
                &&& e[n].0 == CMD_GET_FREE_SIZES && e[n].1 == Seq::<u8>::empty()
                &&& fingers == 0 ==> (r matches Ok(v) && v@.len() == 0) && e.len() == n + 1
                &&& fingers > 0 && users == 0 ==> {
                    &&& e.len() > n + 1
                    &&& e[n + 1].0 == CMD_PREPARE_BUFFER
                    &&& e[n + 1].1 == buffer_request(CMD_DB_RRQ, FCT_FINGERTMP, 0)
                    &&& buffer_refused(e, n + 1) ==> r is Err
                    &&& inline_buffer(e, n + 1) matches Some(d) ==> (r matches Ok(v) && template_views(v@)
                        == decode_templates_spec(d, Seq::empty()))
                }
                &&& fingers > 0 && users > 0 ==> {
                    &&& e.len() > n + 1
                    &&& e[n + 1].0 == CMD_PREPARE_BUFFER
                    &&& e[n + 1].1 == buffer_request(CMD_USERTEMP_RRQ, FCT_USER, 0)
                    &&& buffer_refused(e, n + 1) ==> r is Err
                    &&& inline_buffer(e, n + 1) matches Some(u) ==> {
                        &&& e.len() > n + 2
                        &&& e[n + 2].0 == CMD_PREPARE_BUFFER
                        &&& e[n + 2].1 == buffer_request(CMD_DB_RRQ, FCT_FINGERTMP, 0)
                        &&& buffer_refused(e, n + 2) ==> r is Err
                        &&& inline_buffer(e, n + 2) matches Some(d) ==> (r matches Ok(v) && template_views(v@)
                            == decode_templates_spec(d, decode_users_spec(u, users)))
                    }
                }
            }),
    {
        let ghost n = self.exchanges().len() as int;
        let (users_count, fingers_count, _) = self.read_sizes();
        let ghost s0 = self.exchanges()[n];
        assert(self.exchanges().len() == n + 1);
        if fingers_count == 0 {
            return Ok(Vec::new());
        }
        let ghost e0 = self.exchanges();
        let users = self.read_users(users_count)?;
        let ghost e1 = self.exchanges();
        assert(e1[n] == s0);
        proof {
            if users_count == 0 {
                assert(user_views(users@) =~= Seq::<crate::domain::UserView>::empty());
            }
        }
        let raw = self.read_with_buffer(CMD_DB_RRQ, FCT_FINGERTMP, 0)?;
        let ghost e2 = self.exchanges();
        assert(e2[n] == s0);
        assert(users_count > 0 ==> e2[n + 1] == e1[n + 1]);
        decode_templates(raw.as_slice(), users.as_slice())
    }

    /// Streams the user and template buffer, saves it, then refreshes the
    /// device's data.
    fn push_user_template(&mut self, user: &DeviceUser, finger: &FingerTemplate) -> (r: Result<(), DeviceError>)
        ensures
            final(self).grown_from(*old(self)),
            finger.template@.len() > 4000000000 ==> r is Err && final(self).exchanges() == old(self).exchanges(),
            r is Ok ==> commands_of(final(self).exchanges().skip(old(self).exchanges().len() as int)) == seq![
                (CMD_FREE_DATA, Seq::<u8>::empty()),
                (
                    CMD_PREPARE_DATA,
                    le32(user_template_buffer(user@, finger.fid, finger.template@).len() as int),
                ),
            ] + data_blocks(user_template_buffer(user@, finger.fid, finger.template@)) + seq![
                (CMD_SAVE_USERTEMPS, le32(12) + le16(0) + le16(8)),
                (CMD_REFRESHDATA, Seq::<u8>::empty()),
            ],
    {
        if finger.template.len() > 4000000000 {
            return Err(DeviceError::Message(String::from_str("template too large")));
        }
        let buffer = build_user_template_buffer(user, finger);
        if buffer.len() > 4294967295 {
            return Err(DeviceError::Message(String::from_str("template too large")));
        }
        let ghost n = self.exchanges().len() as int;
        self.send_with_buffer(buffer.as_slice())?;
        let ghost e1 = self.exchanges();
        proof {
            lemma_commands_split(e1, n);
        }
        let cmd = save_usertemps_command();
        let resp = self.send_command(CMD_SAVE_USERTEMPS, cmd.as_slice())?;
        let ghost e2 = self.exchanges();
        proof {
            lemma_commands_push(e1, e2, n);
        }
        if resp.command != CMD_ACK_OK {
            return Err(message_with("save user/template returned command ", resp.command as u64));
        }
        let _ = self.send_command(CMD_REFRESHDATA, &[]);
        proof {
            lemma_commands_push(e2, self.exchanges(), n);
            assert(self.exchanges().last().1 =~= Seq::<u8>::empty());
            let head = seq![
                (CMD_FREE_DATA, Seq::<u8>::empty()),
                (CMD_PREPARE_DATA, le32(buffer@.len() as int)),
            ];
            assert(commands_of(e1.skip(n)) == head + data_blocks(buffer@));
            assert(commands_of(self.exchanges().skip(n)) =~= head + data_blocks(buffer@) + seq![
                (CMD_SAVE_USERTEMPS, le32(12) + le16(0) + le16(8)),
                (CMD_REFRESHDATA, Seq::<u8>::empty()),
            ]);
        }
        Ok(())
    }

    fn disconnect(&mut self) {
        let _ = self.send_command(CMD_EXIT, &[]);
    }
}

} // verus!
