//! Fixed-layout framing of USB/IP packets. Integers on the wire are
//! big-endian; the fields of a USB SETUP packet are little-endian.

use vstd::prelude::*;

verus! {

/// Big-endian bytes of a 16-bit value.
pub open spec fn be16(x: u16) -> Seq<u8> {
    seq![(x >> 8u16) as u8, x as u8]
}

/// Big-endian bytes of a 32-bit value.
pub open spec fn be32(x: u32) -> Seq<u8> {
    seq![(x >> 24u32) as u8, (x >> 16u32) as u8, (x >> 8u32) as u8, x as u8]
}

/// Little-endian bytes of a 16-bit value.
pub open spec fn le16(x: u16) -> Seq<u8> {
    seq![x as u8, (x >> 8u16) as u8]
}

/// `n` zero bytes.
pub open spec fn zeros(n: nat) -> Seq<u8> {
    Seq::new(n, |i: int| 0u8)
}

/// The big-endian 16-bit value at offset `o`.
pub open spec fn be16_at(s: Seq<u8>, o: int) -> u16 {
    ((s[o] as u16) << 8u16) | (s[o + 1] as u16)
}

/// The big-endian 32-bit value at offset `o`.
pub open spec fn be32_at(s: Seq<u8>, o: int) -> u32 {
    ((s[o] as u32) << 24u32) | ((s[o + 1] as u32) << 16u32) | ((s[o + 2] as u32) << 8u32) | (
    s[o + 3] as u32)
}

/// The little-endian 16-bit value at offset `o`.
pub open spec fn le16_at(s: Seq<u8>, o: int) -> u16 {
    (s[o] as u16) | ((s[o + 1] as u16) << 8u16)
}

pub proof fn lemma_be16(x: u16, s: Seq<u8>, o: int)
    requires
        0 <= o,
        o + 2 <= s.len(),
        s[o] == be16(x)[0],
        s[o + 1] == be16(x)[1],
    ensures
        be16_at(s, o) == x,
{
    assert((((((x >> 8u16) as u8) as u16) << 8u16) | ((x as u8) as u16)) == x) by (bit_vector);
}

pub proof fn lemma_be32(x: u32, s: Seq<u8>, o: int)
    requires
        0 <= o,
        o + 4 <= s.len(),
        s[o] == be32(x)[0],
        s[o + 1] == be32(x)[1],
        s[o + 2] == be32(x)[2],
        s[o + 3] == be32(x)[3],
    ensures
        be32_at(s, o) == x,
{
    assert((((((x >> 24u32) as u8) as u32) << 24u32) | ((((x >> 16u32) as u8) as u32) << 16u32)
        | ((((x >> 8u32) as u8) as u32) << 8u32) | ((x as u8) as u32)) == x) by (bit_vector);
}

pub proof fn lemma_le16(x: u16, s: Seq<u8>, o: int)
    requires
        0 <= o,
        o + 2 <= s.len(),
        s[o] == le16(x)[0],
        s[o + 1] == le16(x)[1],
    ensures
        le16_at(s, o) == x,
{
    assert((((x as u8) as u16) | ((((x >> 8u16) as u8) as u16) << 8u16)) == x) by (bit_vector);
}

/// Appends the big-endian bytes of `x`.
pub fn push_be16(out: &mut Vec<u8>, x: u16)
    ensures
        final(out)@ == old(out)@ + be16(x),
{
    out.push((x >> 8u16) as u8);
    out.push(x as u8);
    assert(final(out)@ =~= old(out)@ + be16(x));
}

/// Appends the big-endian bytes of `x`.
pub fn push_be32(out: &mut Vec<u8>, x: u32)
    ensures
        final(out)@ == old(out)@ + be32(x),
{
    out.push((x >> 24u32) as u8);
    out.push((x >> 16u32) as u8);
    out.push((x >> 8u32) as u8);
    out.push(x as u8);
    assert(final(out)@ =~= old(out)@ + be32(x));
}

/// Appends the little-endian bytes of `x`.
pub fn push_le16(out: &mut Vec<u8>, x: u16)
    ensures
        final(out)@ == old(out)@ + le16(x),
{
    out.push(x as u8);
    out.push((x >> 8u16) as u8);
    assert(final(out)@ =~= old(out)@ + le16(x));
}

/// Appends `n` zero bytes.
pub fn push_zeros(out: &mut Vec<u8>, n: usize)
    ensures
        final(out)@ == old(out)@ + zeros(n as nat),
{
    let ghost start = out@;
    let mut i: usize = 0;
    while i < n
        invariant
            i <= n,
            out@ == start + zeros(i as nat),
        decreases n - i,
    {
        out.push(0u8);
        i = i + 1;
        assert(out@ =~= start + zeros(i as nat));
    }
}

/// Appends all of `src`.
pub fn push_all(out: &mut Vec<u8>, src: &[u8])
    ensures
        final(out)@ == old(out)@ + src@,
{
    let ghost start = out@;
    let mut i: usize = 0;
    while i < src.len()
        invariant
            i <= src@.len(),
            out@ == start + src@.subrange(0, i as int),
        decreases src@.len() - i,
    {
        out.push(src[i]);
        i = i + 1;
        assert(out@ =~= start + src@.subrange(0, i as int));
    }
    assert(src@.subrange(0, src@.len() as int) =~= src@);
}

pub fn read_be16(b: &[u8], o: usize) -> (r: u16)
    requires
        o + 2 <= b@.len(),
    ensures
        r == be16_at(b@, o as int),
{
    ((b[o] as u16) << 8u16) | (b[o + 1] as u16)
}

pub fn read_be32(b: &[u8], o: usize) -> (r: u32)
    requires
        o + 4 <= b@.len(),
    ensures
        r == be32_at(b@, o as int),
{
    ((b[o] as u32) << 24u32) | ((b[o + 1] as u32) << 16u32) | ((b[o + 2] as u32) << 8u32) | (b[o
        + 3] as u32)
}

pub fn read_le16(b: &[u8], o: usize) -> (r: u16)
    requires
        o + 2 <= b@.len(),
    ensures
        r == le16_at(b@, o as int),
{
    (b[o] as u16) | ((b[o + 1] as u16) << 8u16)
}

/// The header of an op-phase packet: version, code, status.
#[derive(Clone, Copy, Debug, PartialEq, Eq, Structural)]
pub struct OpHeader {
    pub version: u16,
    pub code: u16,
    pub status: u32,
}

pub const USBIP_VERSION: u16 = 0x0111;
pub const OP_REQ_DEVLIST: u16 = 0x8005;
pub const OP_REP_DEVLIST: u16 = 0x0005;
pub const OP_REQ_IMPORT: u16 = 0x8003;
pub const OP_REP_IMPORT: u16 = 0x0003;

pub open spec fn op_header_bytes(h: OpHeader) -> Seq<u8> {
    be16(h.version) + be16(h.code) + be32(h.status)
}

pub open spec fn parse_op_header(s: Seq<u8>) -> OpHeader {
    OpHeader { version: be16_at(s, 0), code: be16_at(s, 2), status: be32_at(s, 4) }
}

impl OpHeader {
    pub fn encode(&self) -> (r: Vec<u8>)
        ensures
            r@ == op_header_bytes(*self),
    {
        let mut out: Vec<u8> = Vec::new();
        push_be16(&mut out, self.version);
        push_be16(&mut out, self.code);
        push_be32(&mut out, self.status);
        assert(out@ =~= op_header_bytes(*self));
        out
    }

    pub fn decode(b: &[u8]) -> (r: Option<OpHeader>)
        ensures
            r == (if b@.len() >= 8 {
                Some(parse_op_header(b@))
            } else {
                None::<OpHeader>
            }),
    {
        if b.len() < 8 {
            return None;
        }
        Some(OpHeader { version: read_be16(b, 0), code: read_be16(b, 2), status: read_be32(b, 4) })
    }
}

/// Decoding an encoded op header gives it back; the encoding is 8 bytes.
pub proof fn lemma_op_header_round_trip(h: OpHeader)
    ensures
        op_header_bytes(h).len() == 8,
        parse_op_header(op_header_bytes(h)) == h,
{
    let s = op_header_bytes(h);
    lemma_be16(h.version, s, 0);
    lemma_be16(h.code, s, 2);
    lemma_be32(h.status, s, 4);
}


/// The 8-byte SETUP packet of a control transfer.
#[derive(Clone, Copy, Debug, PartialEq, Eq, Structural)]
pub struct SetupPacket {
    pub request_type: u8,
    pub request: u8,
    pub value: u16,
    pub index: u16,
    pub length: u16,
}

pub open spec fn setup_bytes(p: SetupPacket) -> Seq<u8> {
    seq![p.request_type, p.request] + le16(p.value) + le16(p.index) + le16(p.length)
}

pub open spec fn parse_setup_at(s: Seq<u8>, o: int) -> SetupPacket {
    SetupPacket {
        request_type: s[o],
        request: s[o + 1],
        value: le16_at(s, o + 2),
        index: le16_at(s, o + 4),
        length: le16_at(s, o + 6),
    }
}

impl SetupPacket {
    /// Reads a SETUP packet from its 8 bytes.
    pub fn parse(b: &[u8; 8]) -> (r: SetupPacket)
        ensures
            r == parse_setup_at(b@, 0),
    {
        Self::read_at(b, 0)
    }

    pub fn read_at(b: &[u8], o: usize) -> (r: SetupPacket)
        requires
            o + 8 <= b@.len(),
        ensures
            r == parse_setup_at(b@, o as int),
    {
        SetupPacket {
            request_type: b[o],
            request: b[o + 1],
            value: read_le16(b, o + 2),
            index: read_le16(b, o + 4),
            length: read_le16(b, o + 6),
        }
    }

    pub fn write(&self, out: &mut Vec<u8>)
        ensures
            final(out)@ == old(out)@ + setup_bytes(*self),
    {
        let ghost start = out@;
        out.push(self.request_type);
        out.push(self.request);
        push_le16(out, self.value);
        push_le16(out, self.index);
        push_le16(out, self.length);
        assert(out@ =~= start + setup_bytes(*self));
    }
}

pub const USBIP_CMD_SUBMIT: u32 = 1;
pub const USBIP_CMD_UNLINK: u32 = 2;
pub const USBIP_RET_SUBMIT: u32 = 3;
pub const USBIP_RET_UNLINK: u32 = 4;

/// The header shared by all command-phase packets.
pub open spec fn basic_bytes(command: u32, seq_num: u32, dev_id: u32, direction: u32, ep: u32) -> Seq<
    u8,
> {
    be32(command) + be32(seq_num) + be32(dev_id) + be32(direction) + be32(ep)
}

pub fn push_basic(out: &mut Vec<u8>, command: u32, seq_num: u32, dev_id: u32, direction: u32, ep: u32)
    ensures
        final(out)@ == old(out)@ + basic_bytes(command, seq_num, dev_id, direction, ep),
{
    let ghost start = out@;
    push_be32(out, command);
    push_be32(out, seq_num);
    push_be32(out, dev_id);
    push_be32(out, direction);
    push_be32(out, ep);
    assert(out@ =~= start + basic_bytes(command, seq_num, dev_id, direction, ep));
}

/// A CMD_SUBMIT packet without its OUT payload.
#[derive(Clone, Copy, Debug, PartialEq, Eq, Structural)]
pub struct CmdSubmit {
    pub seq_num: u32,
    pub dev_id: u32,
    pub direction: u32,
    pub ep: u32,
    pub transfer_flags: u32,
    pub transfer_buffer_length: u32,
    pub start_frame: u32,
    pub number_of_packets: u32,
    pub interval: u32,
    pub setup: SetupPacket,
}

pub open spec fn cmd_submit_bytes(c: CmdSubmit) -> Seq<u8> {
    basic_bytes(USBIP_CMD_SUBMIT, c.seq_num, c.dev_id, c.direction, c.ep) + be32(c.transfer_flags)
        + be32(c.transfer_buffer_length) + be32(c.start_frame) + be32(c.number_of_packets) + be32(
        c.interval,
    ) + setup_bytes(c.setup)
}

pub open spec fn parse_cmd_submit(s: Seq<u8>) -> Option<CmdSubmit> {
    if s.len() >= 48 && be32_at(s, 0) == USBIP_CMD_SUBMIT {
        Some(
            CmdSubmit {
                seq_num: be32_at(s, 4),
                dev_id: be32_at(s, 8),
                direction: be32_at(s, 12),
                ep: be32_at(s, 16),
                transfer_flags: be32_at(s, 20),
                transfer_buffer_length: be32_at(s, 24),
                start_frame: be32_at(s, 28),
                number_of_packets: be32_at(s, 32),
                interval: be32_at(s, 36),
                setup: parse_setup_at(s, 40),
            },
        )
    } else {
        None
    }
}

impl CmdSubmit {
    pub fn encode(&self) -> (r: Vec<u8>)
        ensures
            r@ == cmd_submit_bytes(*self),
    {
        let mut out: Vec<u8> = Vec::new();
        push_basic(&mut out, USBIP_CMD_SUBMIT, self.seq_num, self.dev_id, self.direction, self.ep);
        push_be32(&mut out, self.transfer_flags);
        push_be32(&mut out, self.transfer_buffer_length);
        push_be32(&mut out, self.start_frame);
        push_be32(&mut out, self.number_of_packets);
        push_be32(&mut out, self.interval);
        self.setup.write(&mut out);
        assert(out@ =~= cmd_submit_bytes(*self));
        out
    }

    pub fn decode(b: &[u8]) -> (r: Option<CmdSubmit>)
        ensures
            r == parse_cmd_submit(b@),
    {
        if b.len() < 48 || read_be32(b, 0) != USBIP_CMD_SUBMIT {
            return None;
        }
        Some(
            CmdSubmit {
                seq_num: read_be32(b, 4),
                dev_id: read_be32(b, 8),
                direction: read_be32(b, 12),
                ep: read_be32(b, 16),
                transfer_flags: read_be32(b, 20),
                transfer_buffer_length: read_be32(b, 24),
                start_frame: read_be32(b, 28),
                number_of_packets: read_be32(b, 32),
                interval: read_be32(b, 36),
                setup: SetupPacket::read_at(b, 40),
            },
        )
    }
}

proof fn lemma_setup_at(p: SetupPacket, s: Seq<u8>, o: int)
    requires
        0 <= o,
        o + 8 <= s.len(),
        s.subrange(o, o + 8) == setup_bytes(p),
    ensures
        parse_setup_at(s, o) == p,
{
    let t = setup_bytes(p);
    assert(s[o] == t[0] && s[o + 1] == t[1]);
    assert(s[o + 2] == t[2] && s[o + 3] == t[3]);
    assert(s[o + 4] == t[4] && s[o + 5] == t[5]);
    assert(s[o + 6] == t[6] && s[o + 7] == t[7]);
    lemma_le16(p.value, s, o + 2);
    lemma_le16(p.index, s, o + 4);
    lemma_le16(p.length, s, o + 6);
}

proof fn lemma_basic_at(
    s: Seq<u8>,
    command: u32,
    seq_num: u32,
    dev_id: u32,
    direction: u32,
    ep: u32,
)
    requires
        s.len() >= 20,
        s.subrange(0, 20) == basic_bytes(command, seq_num, dev_id, direction, ep),
    ensures
        be32_at(s, 0) == command,
        be32_at(s, 4) == seq_num,
        be32_at(s, 8) == dev_id,
        be32_at(s, 12) == direction,
        be32_at(s, 16) == ep,
{
    let t = basic_bytes(command, seq_num, dev_id, direction, ep);
    assert forall|i: int| 0 <= i < 20 implies s[i] == t[i] by {
        assert(s[i] == s.subrange(0, 20)[i]);
    }
    lemma_be32(command, s, 0);
    lemma_be32(seq_num, s, 4);
    lemma_be32(dev_id, s, 8);
    lemma_be32(direction, s, 12);
    lemma_be32(ep, s, 16);
}

pub proof fn lemma_be32_in(x: u32, s: Seq<u8>, o: int)
    requires
        0 <= o,
        o + 4 <= s.len(),
        s.subrange(o, o + 4) == be32(x),
    ensures
        be32_at(s, o) == x,
{
    assert(s[o] == s.subrange(o, o + 4)[0]);
    assert(s[o + 1] == s.subrange(o, o + 4)[1]);
    assert(s[o + 2] == s.subrange(o, o + 4)[2]);
    assert(s[o + 3] == s.subrange(o, o + 4)[3]);
    lemma_be32(x, s, o);
}

pub proof fn lemma_be16_in(x: u16, s: Seq<u8>, o: int)
    requires
        0 <= o,
        o + 2 <= s.len(),
        s.subrange(o, o + 2) == be16(x),
    ensures
        be16_at(s, o) == x,
{
    assert(s[o] == s.subrange(o, o + 2)[0]);
    assert(s[o + 1] == s.subrange(o, o + 2)[1]);
    lemma_be16(x, s, o);
}

/// Copies `b[start..end]`.
pub fn copy_range(b: &[u8], start: usize, end: usize) -> (r: Vec<u8>)
    requires
        start <= end <= b@.len(),
    ensures
        r@ == b@.subrange(start as int, end as int),
{
    let mut out: Vec<u8> = Vec::new();
    let mut i: usize = start;
    while i < end
        invariant
            start <= i <= end <= b@.len(),
            out@ == b@.subrange(start as int, i as int),
        decreases end - i,
    {
        out.push(b[i]);
        i = i + 1;
        assert(out@ =~= b@.subrange(start as int, i as int));
    }
    out
}

/// Decoding an encoded CMD_SUBMIT header gives it back; the encoding is 48 bytes.
pub proof fn lemma_cmd_submit_round_trip(c: CmdSubmit)
    ensures
        cmd_submit_bytes(c).len() == 48,
        parse_cmd_submit(cmd_submit_bytes(c)) == Some(c),
{
    let s = cmd_submit_bytes(c);
    assert(s.subrange(0, 20) =~= basic_bytes(
        USBIP_CMD_SUBMIT,
        c.seq_num,
        c.dev_id,
        c.direction,
        c.ep,
    ));
    lemma_basic_at(s, USBIP_CMD_SUBMIT, c.seq_num, c.dev_id, c.direction, c.ep);
    assert(s.subrange(20, 24) =~= be32(c.transfer_flags));
    assert(s.subrange(24, 28) =~= be32(c.transfer_buffer_length));
    assert(s.subrange(28, 32) =~= be32(c.start_frame));
    assert(s.subrange(32, 36) =~= be32(c.number_of_packets));
    assert(s.subrange(36, 40) =~= be32(c.interval));
    assert(s.subrange(40, 48) =~= setup_bytes(c.setup));
    lemma_be32_in(c.transfer_flags, s, 20);
    lemma_be32_in(c.transfer_buffer_length, s, 24);
    lemma_be32_in(c.start_frame, s, 28);
    lemma_be32_in(c.number_of_packets, s, 32);
    lemma_be32_in(c.interval, s, 36);
    lemma_setup_at(c.setup, s, 40);
}


/// A RET_SUBMIT header; the IN payload follows it on the wire.
#[derive(Clone, Copy, Debug, PartialEq, Eq, Structural)]
pub struct RetSubmit {
    pub seq_num: u32,
    pub dev_id: u32,
    pub direction: u32,
    pub ep: u32,
    pub status: u32,
    pub actual_length: u32,
    pub start_frame: u32,
    pub number_of_packets: u32,
    pub error_count: u32,
}

pub open spec fn ret_submit_bytes(r: RetSubmit) -> Seq<u8> {
    basic_bytes(USBIP_RET_SUBMIT, r.seq_num, r.dev_id, r.direction, r.ep) + be32(r.status) + be32(
        r.actual_length,
    ) + be32(r.start_frame) + be32(r.number_of_packets) + be32(r.error_count) + zeros(8)
}

pub open spec fn parse_ret_submit(s: Seq<u8>) -> Option<RetSubmit> {
    if s.len() >= 48 && be32_at(s, 0) == USBIP_RET_SUBMIT {
        Some(
            RetSubmit {
                seq_num: be32_at(s, 4),
                dev_id: be32_at(s, 8),
                direction: be32_at(s, 12),
                ep: be32_at(s, 16),
                status: be32_at(s, 20),
                actual_length: be32_at(s, 24),
                start_frame: be32_at(s, 28),
                number_of_packets: be32_at(s, 32),
                error_count: be32_at(s, 36),
            },
        )
    } else {
        None
    }
}

impl RetSubmit {
    pub fn write(&self, out: &mut Vec<u8>)
        ensures
            final(out)@ == old(out)@ + ret_submit_bytes(*self),
    {
        let ghost start = out@;
        push_basic(out, USBIP_RET_SUBMIT, self.seq_num, self.dev_id, self.direction, self.ep);
        push_be32(out, self.status);
        push_be32(out, self.actual_length);
        push_be32(out, self.start_frame);
        push_be32(out, self.number_of_packets);
        push_be32(out, self.error_count);
        push_zeros(out, 8);
        assert(out@ =~= start + ret_submit_bytes(*self));
    }

    pub fn encode(&self) -> (r: Vec<u8>)
        ensures
            r@ == ret_submit_bytes(*self),
    {
        let mut out: Vec<u8> = Vec::new();
        self.write(&mut out);
        assert(out@ =~= ret_submit_bytes(*self));
        out
    }

    pub fn decode(b: &[u8]) -> (r: Option<RetSubmit>)
        ensures
            r == parse_ret_submit(b@),
    {
        if b.len() < 48 || read_be32(b, 0) != USBIP_RET_SUBMIT {
            return None;
        }
        Some(
            RetSubmit {
                seq_num: read_be32(b, 4),
                dev_id: read_be32(b, 8),
                direction: read_be32(b, 12),
                ep: read_be32(b, 16),
                status: read_be32(b, 20),
                actual_length: read_be32(b, 24),
                start_frame: read_be32(b, 28),
                number_of_packets: read_be32(b, 32),
                error_count: read_be32(b, 36),
            },
        )
    }
}

/// Decoding an encoded RET_SUBMIT header gives it back; the encoding is 48 bytes.
pub proof fn lemma_ret_submit_round_trip(r: RetSubmit)
    ensures
        ret_submit_bytes(r).len() == 48,
        parse_ret_submit(ret_submit_bytes(r)) == Some(r),
{
    let s = ret_submit_bytes(r);
    assert(s.subrange(0, 20) =~= basic_bytes(
        USBIP_RET_SUBMIT,
        r.seq_num,
        r.dev_id,
        r.direction,
        r.ep,
    ));
    lemma_basic_at(s, USBIP_RET_SUBMIT, r.seq_num, r.dev_id, r.direction, r.ep);
    assert(s.subrange(20, 24) =~= be32(r.status));
    assert(s.subrange(24, 28) =~= be32(r.actual_length));
    assert(s.subrange(28, 32) =~= be32(r.start_frame));
    assert(s.subrange(32, 36) =~= be32(r.number_of_packets));
    assert(s.subrange(36, 40) =~= be32(r.error_count));
    lemma_be32_in(r.status, s, 20);
    lemma_be32_in(r.actual_length, s, 24);
    lemma_be32_in(r.start_frame, s, 28);
    lemma_be32_in(r.number_of_packets, s, 32);
    lemma_be32_in(r.error_count, s, 36);
}

/// A CMD_UNLINK packet.
#[derive(Clone, Copy, Debug, PartialEq, Eq, Structural)]
pub struct CmdUnlink {
    pub seq_num: u32,
    pub dev_id: u32,
    pub direction: u32,
    pub ep: u32,
    pub seq_num_submit: u32,
}

pub open spec fn cmd_unlink_bytes(c: CmdUnlink) -> Seq<u8> {
    basic_bytes(USBIP_CMD_UNLINK, c.seq_num, c.dev_id, c.direction, c.ep) + be32(c.seq_num_submit)
        + zeros(24)
}

pub open spec fn parse_cmd_unlink(s: Seq<u8>) -> Option<CmdUnlink> {
    if s.len() >= 48 && be32_at(s, 0) == USBIP_CMD_UNLINK {
        Some(
            CmdUnlink {
                seq_num: be32_at(s, 4),
                dev_id: be32_at(s, 8),
                direction: be32_at(s, 12),
                ep: be32_at(s, 16),
                seq_num_submit: be32_at(s, 20),
            },
        )
    } else {
        None
    }
}

impl CmdUnlink {
    pub fn encode(&self) -> (r: Vec<u8>)
        ensures
            r@ == cmd_unlink_bytes(*self),
    {
        let mut out: Vec<u8> = Vec::new();
        push_basic(&mut out, USBIP_CMD_UNLINK, self.seq_num, self.dev_id, self.direction, self.ep);
        push_be32(&mut out, self.seq_num_submit);
        push_zeros(&mut out, 24);
        assert(out@ =~= cmd_unlink_bytes(*self));
        out
    }

    pub fn decode(b: &[u8]) -> (r: Option<CmdUnlink>)
        ensures
            r == parse_cmd_unlink(b@),
    {
        if b.len() < 48 || read_be32(b, 0) != USBIP_CMD_UNLINK {
            return None;
        }
        Some(
            CmdUnlink {
                seq_num: read_be32(b, 4),
                dev_id: read_be32(b, 8),
                direction: read_be32(b, 12),
                ep: read_be32(b, 16),
                seq_num_submit: read_be32(b, 20),
            },
        )
    }
}

/// Decoding an encoded CMD_UNLINK gives it back; the encoding is 48 bytes.
pub proof fn lemma_cmd_unlink_round_trip(c: CmdUnlink)
    ensures
        cmd_unlink_bytes(c).len() == 48,
        parse_cmd_unlink(cmd_unlink_bytes(c)) == Some(c),
{
    let s = cmd_unlink_bytes(c);
    assert(s.subrange(0, 20) =~= basic_bytes(
        USBIP_CMD_UNLINK,
        c.seq_num,
        c.dev_id,
        c.direction,
        c.ep,
    ));
    lemma_basic_at(s, USBIP_CMD_UNLINK, c.seq_num, c.dev_id, c.direction, c.ep);
    assert(s.subrange(20, 24) =~= be32(c.seq_num_submit));
    lemma_be32_in(c.seq_num_submit, s, 20);
}

/// A RET_UNLINK packet.
#[derive(Clone, Copy, Debug, PartialEq, Eq, Structural)]
pub struct RetUnlink {
    pub seq_num: u32,
    pub dev_id: u32,
    pub direction: u32,
    pub ep: u32,
    pub status: u32,
}

pub open spec fn ret_unlink_bytes(r: RetUnlink) -> Seq<u8> {
    basic_bytes(USBIP_RET_UNLINK, r.seq_num, r.dev_id, r.direction, r.ep) + be32(r.status) + zeros(
        24,
    )
}

pub open spec fn parse_ret_unlink(s: Seq<u8>) -> Option<RetUnlink> {
    if s.len() >= 48 && be32_at(s, 0) == USBIP_RET_UNLINK {
        Some(
            RetUnlink {
                seq_num: be32_at(s, 4),
                dev_id: be32_at(s, 8),
                direction: be32_at(s, 12),
                ep: be32_at(s, 16),
                status: be32_at(s, 20),
            },
        )
    } else {
        None
    }
}

impl RetUnlink {
    pub fn encode(&self) -> (r: Vec<u8>)
        ensures
            r@ == ret_unlink_bytes(*self),
    {
        let mut out: Vec<u8> = Vec::new();
        push_basic(&mut out, USBIP_RET_UNLINK, self.seq_num, self.dev_id, self.direction, self.ep);
        push_be32(&mut out, self.status);
        push_zeros(&mut out, 24);
        assert(out@ =~= ret_unlink_bytes(*self));
        out
    }

    pub fn decode(b: &[u8]) -> (r: Option<RetUnlink>)
        ensures
            r == parse_ret_unlink(b@),
    {
        if b.len() < 48 || read_be32(b, 0) != USBIP_RET_UNLINK {
            return None;
        }
        Some(
            RetUnlink {
                seq_num: read_be32(b, 4),
                dev_id: read_be32(b, 8),
                direction: read_be32(b, 12),
                ep: read_be32(b, 16),
                status: read_be32(b, 20),
            },
        )
    }
}

/// Decoding an encoded RET_UNLINK gives it back; the encoding is 48 bytes.
pub proof fn lemma_ret_unlink_round_trip(r: RetUnlink)
    ensures
        ret_unlink_bytes(r).len() == 48,
        parse_ret_unlink(ret_unlink_bytes(r)) == Some(r),
{
    let s = ret_unlink_bytes(r);
    assert(s.subrange(0, 20) =~= basic_bytes(
        USBIP_RET_UNLINK,
        r.seq_num,
        r.dev_id,
        r.direction,
        r.ep,
    ));
    lemma_basic_at(s, USBIP_RET_UNLINK, r.seq_num, r.dev_id, r.direction, r.ep);
    assert(s.subrange(20, 24) =~= be32(r.status));
    lemma_be32_in(r.status, s, 20);
}

/// The per-interface record of a DEVLIST reply.
#[derive(Clone, Copy, Debug, PartialEq, Eq, Structural)]
pub struct InterfaceSummary {
    pub class: u8,
    pub subclass: u8,
    pub protocol: u8,
}

pub open spec fn interface_summary_bytes(i: InterfaceSummary) -> Seq<u8> {
    seq![i.class, i.subclass, i.protocol, 0u8]
}

pub open spec fn parse_interface_summary(s: Seq<u8>) -> Option<InterfaceSummary> {
    if s.len() >= 4 {
        Some(InterfaceSummary { class: s[0], subclass: s[1], protocol: s[2] })
    } else {
        None
    }
}

impl InterfaceSummary {
    pub fn write(&self, out: &mut Vec<u8>)
        ensures
            final(out)@ == old(out)@ + interface_summary_bytes(*self),
    {
        let ghost start = out@;
        out.push(self.class);
        out.push(self.subclass);
        out.push(self.protocol);
        out.push(0u8);
        assert(out@ =~= start + interface_summary_bytes(*self));
    }

    pub fn decode(b: &[u8]) -> (r: Option<InterfaceSummary>)
        ensures
            r == parse_interface_summary(b@),
    {
        if b.len() < 4 {
            return None;
        }
        Some(InterfaceSummary { class: b[0], subclass: b[1], protocol: b[2] })
    }
}

/// Decoding an encoded interface record gives it back; the encoding is 4 bytes.
pub proof fn lemma_interface_summary_round_trip(i: InterfaceSummary)
    ensures
        interface_summary_bytes(i).len() == 4,
        parse_interface_summary(interface_summary_bytes(i)) == Some(i),
{
}

} // verus!
