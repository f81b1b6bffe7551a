//! The per-connection state machine. Given the bytes received so far, it
//! decides what the next packet is, how it is answered and what state
//! follows; the caller moves the bytes and runs interface handlers.

use vstd::prelude::*;
use crate::codec::{
    be32, be32_at, copy_range, lemma_op_header_round_trip, lemma_ret_unlink_round_trip,
    op_header_bytes, parse_op_header, parse_ret_unlink, parse_cmd_submit, push_be32, read_be32,
    ret_unlink_bytes, CmdSubmit, OpHeader, RetUnlink, OP_REP_DEVLIST, OP_REP_IMPORT, USBIP_VERSION,
};
use crate::device::{lemma_summary_round_trip, padded, parse_summary, summary_bytes, UsbDevice};
use crate::urb::{lemma_in_out_asymmetry, submit_reply};
use crate::server::{device_with_key, UsbIpServer};
use crate::urb::{route_spec, route_submit, stall_reply, stall_submit, UrbRoute, UrbSpec};

verus! {

/// The first word of each request, read big-endian.
pub const REQ_DEVLIST_WORD: u32 = 0x0111_8005;
pub const REQ_IMPORT_WORD: u32 = 0x0111_8003;
pub const CMD_SUBMIT_WORD: u32 = 1;
pub const CMD_UNLINK_WORD: u32 = 2;

/// The state of one connection: in the op phase no device is imported; in
/// the command phase the wire bus id of the imported device and its
/// current configuration.
#[derive(Clone, Debug)]
pub struct Connection {
    imported: Option<Vec<u8>>,
    config: u8,
}

pub ghost struct ConnectionSpec {
    pub imported: Option<Seq<u8>>,
    pub config: u8,
}

impl View for Connection {
    type V = ConnectionSpec;

    closed spec fn view(&self) -> ConnectionSpec {
        ConnectionSpec {
            imported: match self.imported {
                Some(k) => Some(k@),
                None => None,
            },
            config: self.config,
        }
    }
}

/// What a connection does next.
pub ghost enum StepSpec {
    /// The next packet is not complete: at least this many bytes are needed.
    NeedMore(nat),
    /// Consume this many bytes and send these.
    Reply(nat, Seq<u8>),
    /// Consume this many bytes; the CMD_SUBMIT goes to device `2` by this
    /// route, with this OUT payload.
    Submit(nat, CmdSubmit, nat, UrbSpec, Seq<u8>),
    /// An unknown request, or a payload longer than memory can hold: the
    /// connection ends.
    Close,
}

/// What a connection does next.
#[derive(Debug)]
pub enum Step {
    NeedMore(usize),
    Reply { consumed: usize, output: Vec<u8> },
    Submit { consumed: usize, cmd: CmdSubmit, device: usize, route: UrbRoute, out_data: Vec<u8> },
    Close,
}

impl View for Step {
    type V = StepSpec;

    open spec fn view(&self) -> StepSpec {
        match self {
            Step::NeedMore(n) => StepSpec::NeedMore(*n as nat),
            Step::Reply { consumed, output } => StepSpec::Reply(*consumed as nat, output@),
            Step::Submit { consumed, cmd, device, route, out_data } => StepSpec::Submit(
                *consumed as nat,
                *cmd,
                *device as nat,
                route@,
                out_data@,
            ),
            Step::Close => StepSpec::Close,
        }
    }
}

/// The DEVLIST entries of `devs`, in order.
pub open spec fn devlist_entries(devs: Seq<UsbDevice>) -> Seq<u8>
    decreases devs.len(),
{
    if devs.len() == 0 {
        Seq::empty()
    } else {
        devlist_entries(devs.drop_last()) + devs.last().devlist_entry()
    }
}

/// OP_REP_DEVLIST: header, device count, then each device's entry.
pub open spec fn devlist_reply(devs: Seq<UsbDevice>) -> Seq<u8> {
    op_header_bytes(OpHeader { version: USBIP_VERSION, code: OP_REP_DEVLIST, status: 0 }) + be32(
        devs.len() as u32,
    ) + devlist_entries(devs)
}

/// OP_REP_IMPORT: status 0 and the device's summary, or status 1 alone.
pub open spec fn import_reply(d: Option<UsbDevice>) -> Seq<u8> {
    match d {
        Some(d) => op_header_bytes(OpHeader { version: USBIP_VERSION, code: OP_REP_IMPORT, status: 0 })
            + d.summary(),
        None => op_header_bytes(OpHeader { version: USBIP_VERSION, code: OP_REP_IMPORT, status: 1 }),
    }
}

/// RET_UNLINK for the CMD_UNLINK with sequence number `seq_num`.
pub open spec fn unlink_reply(seq_num: u32) -> Seq<u8> {
    ret_unlink_bytes(RetUnlink { seq_num, dev_id: 0, direction: 0, ep: 0, status: 0 })
}

/// The length of a CMD_SUBMIT packet: its header and, for OUT, its payload.
pub open spec fn submit_len(c: CmdSubmit) -> nat {
    48 + if c.direction == 0 {
        c.transfer_buffer_length as nat
    } else {
        0
    }
}

/// The next step of connection `c` on server `s` with received bytes `inp`,
/// and the connection state after it.
pub open spec fn step_spec(s: Seq<UsbDevice>, c: ConnectionSpec, inp: Seq<u8>) -> (
    StepSpec,
    ConnectionSpec,
) {
    if inp.len() < 4 {
        (StepSpec::NeedMore(4), c)
    } else {
        let w = be32_at(inp, 0);
        match c.imported {
            None => if w == REQ_DEVLIST_WORD {
                if inp.len() < 8 {
                    (StepSpec::NeedMore(8), c)
                } else {
                    (StepSpec::Reply(8, devlist_reply(s)), c)
                }
            } else if w == REQ_IMPORT_WORD {
                if inp.len() < 40 {
                    (StepSpec::NeedMore(40), c)
                } else {
                    let key = inp.subrange(8, 40);
                    match device_with_key(s, key) {
                        Some(i) => (
                            StepSpec::Reply(40, import_reply(Some(s[i as int]))),
                            ConnectionSpec { imported: Some(key), config: s[i as int].configuration_value },
                        ),
                        None => (StepSpec::Reply(40, import_reply(None)), c),
                    }
                }
            } else {
                (StepSpec::Close, c)
            },
            Some(key) => if w == CMD_SUBMIT_WORD {
                if inp.len() < 48 {
                    (StepSpec::NeedMore(48), c)
                } else {
                    let cmd = parse_cmd_submit(inp)->Some_0;
                    let n = submit_len(cmd);
                    if n > usize::MAX {
                        (StepSpec::Close, c)
                    } else if inp.len() < n {
                        (StepSpec::NeedMore(n), c)
                    } else {
                        match device_with_key(s, key) {
                            Some(i) => {
                                let (route, cfg) = route_spec(s[i as int], c.config, cmd);
                                (
                                    StepSpec::Submit(n, cmd, i, route, inp.subrange(48, n as int)),
                                    ConnectionSpec { imported: c.imported, config: cfg },
                                )
                            },
                            None => (StepSpec::Reply(n, stall_reply(cmd)), c),
                        }
                    }
                }
            } else if w == CMD_UNLINK_WORD {
                if inp.len() < 48 {
                    (StepSpec::NeedMore(48), c)
                } else {
                    (StepSpec::Reply(48, unlink_reply(be32_at(inp, 4))), c)
                }
            } else {
                (StepSpec::Close, c)
            },
        }
    }
}

/// A successful OP_REP_IMPORT is 320 bytes: an op header with status 0,
/// then the device's 312-byte summary, which decodes back to the padded path,
/// the padded bus id and the integer fields of the device.
pub proof fn lemma_import_reply_decodes(d: UsbDevice)
    ensures
        import_reply(Some(d)).len() == 320,
        parse_op_header(import_reply(Some(d)).subrange(0, 8)) == (OpHeader {
            version: USBIP_VERSION,
            code: OP_REP_IMPORT,
            status: 0,
        }),
        parse_summary(import_reply(Some(d)).subrange(8, 320)) == (
            padded(d.path@, 256),
            padded(d.bus_id@, 32),
            d.summary_fields(),
        ),
{
    let h = OpHeader { version: USBIP_VERSION, code: OP_REP_IMPORT, status: 0 };
    let p = padded(d.path@, 256);
    let b = padded(d.bus_id@, 32);
    lemma_op_header_round_trip(h);
    lemma_summary_round_trip(p, b, d.summary_fields());
    assert(padded(p, 256) =~= p);
    assert(padded(b, 32) =~= b);
    assert(summary_bytes(p, b, d.summary_fields()) == d.summary());
    let r = import_reply(Some(d));
    assert(r.subrange(0, 8) =~= op_header_bytes(h));
    assert(r.subrange(8, 320) =~= d.summary());
}

/// A RET_UNLINK reply is 48 bytes and decodes to command 4, the unlinked
/// sequence number and status 0.
pub proof fn lemma_unlink_reply_decodes(seq_num: u32)
    ensures
        unlink_reply(seq_num).len() == 48,
        parse_ret_unlink(unlink_reply(seq_num)) == Some(
            RetUnlink { seq_num, dev_id: 0, direction: 0, ep: 0, status: 0 },
        ),
{
    lemma_ret_unlink_round_trip(RetUnlink { seq_num, dev_id: 0, direction: 0, ep: 0, status: 0 });
}

/// A CMD_SUBMIT step consumes its 48-byte header and, for OUT, exactly
/// `transfer_buffer_length` payload bytes, which it hands on. The reply
/// built from a handler response `resp` then reports the requested length
/// with no payload for OUT, and carries `actual_length` payload bytes that
/// are `resp` for IN.
pub proof fn lemma_submit_step(s: Seq<UsbDevice>, c: ConnectionSpec, inp: Seq<u8>, resp: Seq<u8>)
    requires
        step_spec(s, c, inp).0 is Submit,
        resp.len() <= u32::MAX,
    ensures
        ({
            let (n, cmd, data) = match step_spec(s, c, inp).0 {
                StepSpec::Submit(n, cmd, _, _, data) => (n, cmd, data),
                _ => (0, parse_cmd_submit(inp)->Some_0, Seq::empty()),
            };
            let r = submit_reply(cmd, resp);
            let hdr = crate::codec::parse_ret_submit(r)->Some_0;
            &&& Some(cmd) == parse_cmd_submit(inp)
            &&& n == 48 + (if cmd.direction == 0 {
                cmd.transfer_buffer_length as int
            } else {
                0
            })
            &&& data == inp.subrange(48, n as int)
            &&& hdr.seq_num == cmd.seq_num
            &&& hdr.status == 0
            &&& cmd.direction == 0 ==> hdr.actual_length == cmd.transfer_buffer_length && r.len()
                == 48
            &&& cmd.direction != 0 ==> r.len() == 48 + hdr.actual_length && r.subrange(
                48,
                r.len() as int,
            ) == resp
        }),
{
    let cmd = parse_cmd_submit(inp)->Some_0;
    lemma_in_out_asymmetry(cmd, resp);
}

/// Writes OP_REP_DEVLIST for `devs`.
pub fn devlist_bytes(devs: &Vec<UsbDevice>) -> (r: Vec<u8>)
    ensures
        r@ == devlist_reply(devs@),
{
    let mut out = OpHeader { version: USBIP_VERSION, code: OP_REP_DEVLIST, status: 0 }.encode();
    push_be32(&mut out, devs.len() as u32);
    let ghost head = out@;
    let mut i: usize = 0;
    while i < devs.len()
        invariant
            i <= devs@.len(),
            out@ == head + devlist_entries(devs@.subrange(0, i as int)),
        decreases devs@.len() - i,
    {
        devs[i].write_dev_with_interfaces(&mut out);
        i = i + 1;
        proof {
            let sub = devs@.subrange(0, i as int);
            assert(sub.drop_last() =~= devs@.subrange(0, i - 1));
            assert(out@ =~= head + devlist_entries(sub));
        }
    }
    assert(devs@.subrange(0, devs@.len() as int) =~= devs@);
    out
}

/// Writes OP_REP_IMPORT for the device found, or for a miss.
pub fn import_bytes(d: Option<&UsbDevice>) -> (r: Vec<u8>)
    ensures
        r@ == import_reply(
            match d {
                Some(d) => Some(*d),
                None => None,
            },
        ),
{
    match d {
        Some(d) => {
            let mut out = OpHeader { version: USBIP_VERSION, code: OP_REP_IMPORT, status: 0 }.encode();
            d.write_dev(&mut out);
            out
        },
        None => OpHeader { version: USBIP_VERSION, code: OP_REP_IMPORT, status: 1 }.encode(),
    }
}

/// Writes RET_UNLINK for sequence number `seq_num`.
pub fn unlink_bytes(seq_num: u32) -> (r: Vec<u8>)
    ensures
        r@ == unlink_reply(seq_num),
{
    RetUnlink { seq_num, dev_id: 0, direction: 0, ep: 0, status: 0 }.encode()
}

impl Connection {
    /// A new connection, in the op phase.
    pub fn new() -> (r: Connection)
        ensures
            r@ == (ConnectionSpec { imported: None, config: 0 }),
    {
        Connection { imported: None, config: 0 }
    }

    /// Whether a device is imported (the command phase).
    pub fn is_imported(&self) -> (r: bool)
        ensures
            r == self@.imported is Some,
    {
        self.imported.is_some()
    }

    /// Decides the next step of this connection on `server`, whose received
    /// bytes not yet consumed are `input`, and moves to the state after it.
    pub fn step(&mut self, server: &UsbIpServer, input: &[u8]) -> (r: Step)
        requires
            server.wf(),
        ensures
            (r@, final(self)@) == step_spec(server.spec_devices(), old(self)@, input@),
    {
        if input.len() < 4 {
            return Step::NeedMore(4);
        }
        let w = read_be32(input, 0);
        let devs = server.devices();
        match &self.imported {
            None => {
                if w == REQ_DEVLIST_WORD {
                    if input.len() < 8 {
                        Step::NeedMore(8)
                    } else {
                        Step::Reply { consumed: 8, output: devlist_bytes(devs) }
                    }
                } else if w == REQ_IMPORT_WORD {
                    if input.len() < 40 {
                        Step::NeedMore(40)
                    } else {
                        let key = copy_range(input, 8, 40);
                        match server.find_device(key.as_slice()) {
                            Some(i) => {
                                let output = import_bytes(Some(&devs[i]));
                                self.config = devs[i].configuration_value;
                                self.imported = Some(key);
                                Step::Reply { consumed: 40, output }
                            },
                            None => Step::Reply { consumed: 40, output: import_bytes(None) },
                        }
                    }
                } else {
                    Step::Close
                }
            },
            Some(key) => {
                if w == CMD_SUBMIT_WORD {
                    if input.len() < 48 {
                        return Step::NeedMore(48);
                    }
                    let cmd = match CmdSubmit::decode(input) {
                        Some(c) => c,
                        None => {
                            return Step::Close;
                        },
                    };
                    let n: u64 = if cmd.direction == 0 {
                        48 + cmd.transfer_buffer_length as u64
                    } else {
                        48
                    };
                    if n > usize::MAX as u64 {
                        return Step::Close;
                    }
                    if (input.len() as u64) < n {
                        return Step::NeedMore(n as usize);
                    }
                    let n = n as usize;
                    match server.find_device(key.as_slice()) {
                        Some(i) => {
                            let (route, cfg) = route_submit(&devs[i], self.config, &cmd);
                            let out_data = copy_range(input, 48, n);
                            self.config = cfg;
                            Step::Submit { consumed: n, cmd, device: i, route, out_data }
                        },
                        None => Step::Reply { consumed: n, output: stall_submit(&cmd) },
                    }
                } else if w == CMD_UNLINK_WORD {
                    if input.len() < 48 {
                        Step::NeedMore(48)
                    } else {
                        Step::Reply { consumed: 48, output: unlink_bytes(read_be32(input, 4)) }
                    }
                } else {
                    Step::Close
                }
            },
        }
    }
}

} // verus!
