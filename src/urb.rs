//! The URB dispatcher: routes a CMD_SUBMIT to the control engine or to the
//! handler of the interface that owns the endpoint, and builds RET_SUBMIT.

use vstd::prelude::*;
use crate::codec::{
    lemma_ret_submit_round_trip, parse_ret_submit, push_all, ret_submit_bytes, CmdSubmit, RetSubmit,
    SetupPacket,
};
use crate::device::{owns_ep, UsbDevice, UsbEndpoint};
use crate::setup::{control_spec, handle_control, ControlResult, ControlSpec};

verus! {

/// RET_SUBMIT status of a refused URB (a stall: -EPIPE).
pub const STATUS_STALL: u32 = 0xffff_ffe0;

/// The header of the reply to `c` with status `status`, for a handler
/// response `resp`: OUT transfers report the requested length, IN transfers
/// the length of the response; all other integer fields are zero.
pub open spec fn ret_header(c: CmdSubmit, status: u32, resp: Seq<u8>) -> RetSubmit {
    RetSubmit {
        seq_num: c.seq_num,
        dev_id: 0,
        direction: 0,
        ep: 0,
        status,
        actual_length: if c.direction == 0 {
            c.transfer_buffer_length
        } else {
            resp.len() as u32
        },
        start_frame: 0,
        number_of_packets: 0,
        error_count: 0,
    }
}

/// The whole reply to `c`: RET_SUBMIT, then the payload for IN transfers.
pub open spec fn submit_reply(c: CmdSubmit, resp: Seq<u8>) -> Seq<u8> {
    ret_submit_bytes(ret_header(c, 0, resp)) + if c.direction == 0 {
        Seq::empty()
    } else {
        resp
    }
}

/// The reply to a refused URB: RET_SUBMIT with a stall status, no payload.
pub open spec fn stall_reply(c: CmdSubmit) -> Seq<u8> {
    ret_submit_bytes(
        RetSubmit {
            seq_num: c.seq_num,
            dev_id: 0,
            direction: 0,
            ep: 0,
            status: STATUS_STALL,
            actual_length: 0,
            start_frame: 0,
            number_of_packets: 0,
            error_count: 0,
        },
    )
}

/// Builds the reply to `c` from the handler's response `resp` (ignored for
/// OUT transfers).
pub fn complete_submit(c: &CmdSubmit, resp: &[u8]) -> (r: Vec<u8>)
    requires
        resp@.len() <= u32::MAX,
    ensures
        r@ == submit_reply(*c, resp@),
{
    let out_dir = c.direction == 0;
    let header = RetSubmit {
        seq_num: c.seq_num,
        dev_id: 0,
        direction: 0,
        ep: 0,
        status: 0,
        actual_length: if out_dir {
            c.transfer_buffer_length
        } else {
            resp.len() as u32
        },
        start_frame: 0,
        number_of_packets: 0,
        error_count: 0,
    };
    let mut out = header.encode();
    if !out_dir {
        push_all(&mut out, resp);
    }
    assert(out@ =~= submit_reply(*c, resp@));
    out
}

/// Builds the reply to a refused `c`.
pub fn stall_submit(c: &CmdSubmit) -> (r: Vec<u8>)
    ensures
        r@ == stall_reply(*c),
{
    let header = RetSubmit {
        seq_num: c.seq_num,
        dev_id: 0,
        direction: 0,
        ep: 0,
        status: STATUS_STALL,
        actual_length: 0,
        start_frame: 0,
        number_of_packets: 0,
        error_count: 0,
    };
    header.encode()
}

/// For an OUT URB the reply reports the requested length and carries no
/// payload; for an IN URB the payload that follows the 48-byte header is
/// exactly `actual_length` bytes long.
pub proof fn lemma_in_out_asymmetry(c: CmdSubmit, resp: Seq<u8>)
    requires
        resp.len() <= u32::MAX,
    ensures
        ({
            let r = submit_reply(c, resp);
            let h = parse_ret_submit(r);
            &&& h is Some
            &&& h->Some_0.status == 0
            &&& h->Some_0.seq_num == c.seq_num
            &&& c.direction == 0 ==> h->Some_0.actual_length == c.transfer_buffer_length
                && r.len() == 48
            &&& c.direction != 0 ==> r.len() == 48 + h->Some_0.actual_length
                && r.subrange(48, r.len() as int) == resp
        }),
{
    let hdr = ret_header(c, 0, resp);
    lemma_ret_submit_round_trip(hdr);
    let r = submit_reply(c, resp);
    let b = ret_submit_bytes(hdr);
    assert(r.subrange(0, 48) =~= b);
    assert forall|i: int| 0 <= i < 48 implies r[i] == b[i] by {}
    assert(parse_ret_submit(r) == parse_ret_submit(b));
    if c.direction != 0 {
        assert(r.subrange(48, r.len() as int) =~= resp);
    }
}

/// The wire address of the endpoint a CMD_SUBMIT names: the direction bit is
/// set for IN transfers.
pub open spec fn endpoint_address(c: CmdSubmit) -> u8 {
    if c.direction == 0 {
        c.ep as u8
    } else {
        (c.ep | 0x80) as u8
    }
}

/// Where a CMD_SUBMIT goes.
pub ghost enum UrbSpec {
    /// Answered without a handler: the whole reply.
    Reply(Seq<u8>),
    /// SET_CONFIGURATION: the device-level handler is told, then the reply is sent.
    Configure(SetupPacket, Seq<u8>),
    /// To the handler of interface `0`, for the endpoint with address `1`.
    Interface(nat, u8, SetupPacket),
    /// To the device-level handler.
    Device(SetupPacket),
}

/// Where a CMD_SUBMIT goes.
#[derive(Debug)]
pub enum UrbRoute {
    /// Answered without a handler: the whole reply.
    Reply(Vec<u8>),
    /// SET_CONFIGURATION, applied: tell the device-level handler, if any,
    /// then send `reply`.
    Configure { setup: SetupPacket, reply: Vec<u8> },
    /// To the handler of an interface; its response goes to `complete_submit`.
    Interface { interface: usize, endpoint: UsbEndpoint, setup: SetupPacket },
    /// To the device-level handler; its response goes to `complete_submit`.
    Device { setup: SetupPacket },
}

impl View for UrbRoute {
    type V = UrbSpec;

    open spec fn view(&self) -> UrbSpec {
        match self {
            UrbRoute::Reply(v) => UrbSpec::Reply(v@),
            UrbRoute::Configure { setup, reply } => UrbSpec::Configure(*setup, reply@),
            UrbRoute::Interface { interface, endpoint, setup } => UrbSpec::Interface(
                *interface as nat,
                endpoint.address,
                *setup,
            ),
            UrbRoute::Device { setup } => UrbSpec::Device(*setup),
        }
    }
}

/// The route of `c` on `d` with current configuration `config`, and the
/// configuration after it.
pub open spec fn route_spec(d: UsbDevice, config: u8, c: CmdSubmit) -> (UrbSpec, u8) {
    let e = endpoint_address(c);
    if e == 0x00 || e == 0x80 {
        let ep0 = if e == 0x00 {
            d.ep0_out.address
        } else {
            d.ep0_in.address
        };
        let (ctl, cfg) = control_spec(d, config, c.setup);
        match ctl {
            ControlSpec::Data(v) => (UrbSpec::Reply(submit_reply(c, v)), cfg),
            ControlSpec::Configure => (UrbSpec::Configure(c.setup, submit_reply(c, Seq::empty())), cfg),
            ControlSpec::Interface(i) => (UrbSpec::Interface(i, ep0, c.setup), cfg),
            ControlSpec::Device => (UrbSpec::Device(c.setup), cfg),
            ControlSpec::Stall => (UrbSpec::Reply(stall_reply(c)), cfg),
        }
    } else if exists|i: int| owns_ep(d.interfaces@, i, e) {
        let i = choose|i: int| owns_ep(d.interfaces@, i, e);
        (UrbSpec::Interface(i as nat, e, c.setup), config)
    } else {
        (UrbSpec::Reply(stall_reply(c)), config)
    }
}

/// Routes the CMD_SUBMIT `c` on the imported device `d`: endpoint 0 goes to
/// the control engine, any other endpoint to the interface that owns it; an
/// endpoint that no interface owns is refused with a stall.
pub fn route_submit(d: &UsbDevice, config: u8, c: &CmdSubmit) -> (r: (UrbRoute, u8))
    requires
        d.wf(),
    ensures
        (r.0@, r.1) == route_spec(*d, config, *c),
        r.0 matches UrbRoute::Interface { interface, endpoint, setup } ==> endpoint == d.ep0_in
            || endpoint == d.ep0_out || d.interfaces@[interface as int].endpoints@.contains(endpoint),
{
    let e: u8 = if c.direction == 0 {
        c.ep as u8
    } else {
        (c.ep | 0x80) as u8
    };
    match d.find_ep(e) {
        None => (UrbRoute::Reply(stall_submit(c)), config),
        Some((ep, None)) => {
            let (ctl, cfg) = handle_control(d, config, c.setup);
            match ctl {
                ControlResult::Data(v) => (UrbRoute::Reply(complete_submit(c, v.as_slice())), cfg),
                ControlResult::Configure => {
                    let none: Vec<u8> = Vec::new();
                    (UrbRoute::Configure { setup: c.setup, reply: complete_submit(c, none.as_slice()) }, cfg)
                },
                ControlResult::Interface(i) => (
                    UrbRoute::Interface { interface: i, endpoint: ep, setup: c.setup },
                    cfg,
                ),
                ControlResult::Device => (UrbRoute::Device { setup: c.setup }, cfg),
                ControlResult::Stall => (UrbRoute::Reply(stall_submit(c)), cfg),
            }
        },
        Some((ep, Some(i))) => {
            proof {
                let j = choose|j: int| owns_ep(d.interfaces@, j, e);
                assert(j == i);
            }
            (UrbRoute::Interface { interface: i, endpoint: ep, setup: c.setup }, config)
        },
    }
}

} // verus!
