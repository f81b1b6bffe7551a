//! The control engine: standard requests on endpoint 0 are answered here
//! from the device model; class and vendor requests go to a handler.

use vstd::prelude::*;
use vstd::string::StrSliceExecFns;
use crate::codec::{le16, push_all, push_le16, SetupPacket};
use crate::device::{owns_ep, UsbDevice, UsbEndpoint, UsbInterface};

verus! {

pub const GET_STATUS: u8 = 0x00;
pub const CLEAR_FEATURE: u8 = 0x01;
pub const SET_FEATURE: u8 = 0x03;
pub const SET_ADDRESS: u8 = 0x05;
pub const GET_DESCRIPTOR: u8 = 0x06;
pub const GET_CONFIGURATION: u8 = 0x08;
pub const SET_CONFIGURATION: u8 = 0x09;
pub const GET_INTERFACE: u8 = 0x0a;
pub const SET_INTERFACE: u8 = 0x0b;

pub const DESC_DEVICE: u8 = 0x01;
pub const DESC_CONFIGURATION: u8 = 0x02;
pub const DESC_STRING: u8 = 0x03;
pub const DESC_INTERFACE: u8 = 0x04;
pub const DESC_ENDPOINT: u8 = 0x05;

/// The recipient field of bmRequestType.
pub open spec fn recipient(p: SetupPacket) -> u8 {
    p.request_type & 0x1f
}

/// The type field of bmRequestType: 0 standard, 1 class, 2 vendor.
pub open spec fn request_kind(p: SetupPacket) -> u8 {
    (p.request_type >> 5u8) & 3
}

/// The UTF-16 code units of one character: itself below 0x10000, else a
/// surrogate pair.
pub open spec fn utf16_char(c: char) -> Seq<u16> {
    let v = c as u32;
    if v < 0x10000 {
        seq![v as u16]
    } else {
        let w = (v - 0x10000) as u32;
        seq![(0xd800u32 + (w >> 10u32)) as u16, (0xdc00u32 + (w & 0x3ffu32)) as u16]
    }
}

/// The UTF-16 code units of a string, as `str::encode_utf16` yields them.
pub open spec fn utf16_of(s: Seq<char>) -> Seq<u16>
    decreases s.len(),
{
    if s.len() == 0 {
        Seq::empty()
    } else {
        utf16_of(s.drop_last()) + utf16_char(s.last())
    }
}

/// The UTF-16 code units of `s`.
pub fn utf16_units(s: &str) -> (r: Vec<u16>)
    ensures
        r@ == utf16_of(s@),
{
    let n = s.unicode_len();
    let mut out: Vec<u16> = Vec::new();
    let mut i: usize = 0;
    while i < n
        invariant
            n == s@.len(),
            i <= n,
            out@ == utf16_of(s@.subrange(0, i as int)),
        decreases n - i,
    {
        let c = s.get_char(i);
        let v = c as u32;
        let ghost before = out@;
        if v < 0x10000 {
            out.push(v as u16);
        } else {
            let w = v - 0x10000;
            assert((w >> 10u32) <= 0x3f_ffff) by (bit_vector);
            assert((w & 0x3ffu32) <= 0x3ff) by (bit_vector);
            out.push(#[verifier::truncate] ((0xd800u32 + (w >> 10u32)) as u16));
            out.push(#[verifier::truncate] ((0xdc00u32 + (w & 0x3ffu32)) as u16));
        }
        assert(out@ =~= before + utf16_char(c));
        i = i + 1;
        proof {
            let sub = s@.subrange(0, i as int);
            assert(sub.drop_last() =~= s@.subrange(0, i - 1));
        }
    }
    assert(s@.subrange(0, n as int) =~= s@);
    out
}

/// What the engine decides for a control request.
pub ghost enum ControlSpec {
    Data(Seq<u8>),
    Configure,
    Interface(nat),
    Device,
    Stall,
}

/// What the engine decides for a control request.
#[derive(Debug)]
pub enum ControlResult {
    /// Answered here; the bytes are the IN data stage (empty for OUT).
    Data(Vec<u8>),
    /// SET_CONFIGURATION was applied; the device-level handler is told, and
    /// the request succeeds with no data.
    Configure,
    /// Handed to the handler of this interface.
    Interface(usize),
    /// Handed to the device-level handler.
    Device,
    /// Refused.
    Stall,
}

impl View for ControlResult {
    type V = ControlSpec;

    open spec fn view(&self) -> ControlSpec {
        match self {
            ControlResult::Data(v) => ControlSpec::Data(v@),
            ControlResult::Configure => ControlSpec::Configure,
            ControlResult::Interface(i) => ControlSpec::Interface(*i as nat),
            ControlResult::Device => ControlSpec::Device,
            ControlResult::Stall => ControlSpec::Stall,
        }
    }
}

/// The first `n` bytes of `s`, or all of it when shorter.
pub open spec fn cap(s: Seq<u8>, n: nat) -> Seq<u8> {
    if s.len() <= n {
        s
    } else {
        s.subrange(0, n as int)
    }
}

/// The 18-byte device descriptor.
pub open spec fn device_descriptor(d: UsbDevice) -> Seq<u8> {
    seq![18u8, DESC_DEVICE] + le16(d.usb_version) + seq![
        d.device_class,
        d.device_subclass,
        d.device_protocol,
        d.ep0_in.max_packet_size as u8,
    ] + le16(d.vendor_id) + le16(d.product_id) + le16(d.device_bcd) + seq![
        d.string_manufacturer,
        d.string_product,
        d.string_serial,
        d.num_configurations,
    ]
}

pub open spec fn endpoint_descriptor(e: UsbEndpoint) -> Seq<u8> {
    seq![7u8, DESC_ENDPOINT, e.address, e.attributes] + le16(e.max_packet_size) + seq![e.interval]
}

pub open spec fn endpoint_descriptors(eps: Seq<UsbEndpoint>) -> Seq<u8>
    decreases eps.len(),
{
    if eps.len() == 0 {
        Seq::empty()
    } else {
        endpoint_descriptors(eps.drop_last()) + endpoint_descriptor(eps.last())
    }
}

/// The interface descriptor of interface `number`, its class-specific
/// descriptors, then its endpoint descriptors.
pub open spec fn interface_block(intf: UsbInterface, number: int) -> Seq<u8> {
    seq![
        9u8,
        DESC_INTERFACE,
        number as u8,
        0u8,
        intf.endpoints@.len() as u8,
        intf.interface_class,
        intf.interface_subclass,
        intf.interface_protocol,
        intf.string_interface,
    ] + intf.class_specific_descriptor@ + endpoint_descriptors(intf.endpoints@)
}

pub open spec fn interface_blocks(intfs: Seq<UsbInterface>) -> Seq<u8>
    decreases intfs.len(),
{
    if intfs.len() == 0 {
        Seq::empty()
    } else {
        interface_blocks(intfs.drop_last()) + interface_block(intfs.last(), intfs.len() - 1)
    }
}

/// The configuration descriptor followed by all interface blocks; its
/// wTotalLength field is the length of the whole.
pub open spec fn configuration_descriptor(d: UsbDevice) -> Seq<u8> {
    let body = interface_blocks(d.interfaces@);
    seq![9u8, DESC_CONFIGURATION] + le16((9 + body.len()) as u16) + seq![
        d.interfaces@.len() as u8,
        d.configuration_value,
        d.string_configuration,
        0x80u8,
        0xfau8,
    ] + body
}

/// The little-endian bytes of UTF-16 code units.
pub open spec fn utf16_le(units: Seq<u16>) -> Seq<u8>
    decreases units.len(),
{
    if units.len() == 0 {
        Seq::empty()
    } else {
        utf16_le(units.drop_last()) + le16(units.last())
    }
}

/// The string descriptor holding `units`, when its length fits its one-byte
/// length field.
pub open spec fn string_descriptor(units: Seq<u16>) -> Option<Seq<u8>> {
    if 2 + 2 * units.len() <= 255 {
        Some(seq![(2 + 2 * units.len()) as u8, DESC_STRING] + utf16_le(units))
    } else {
        None
    }
}

/// The language-id list of string index 0: en-US.
pub open spec fn language_descriptor() -> Seq<u8> {
    seq![4u8, DESC_STRING, 0x09u8, 0x04u8]
}

/// The answer to GET_DESCRIPTOR before it is cut to wLength.
pub open spec fn descriptor_spec(d: UsbDevice, value: u16) -> Option<Seq<u8>> {
    let kind = (value >> 8u16) as u8;
    let index = value as u8;
    if kind == DESC_DEVICE {
        Some(device_descriptor(d))
    } else if kind == DESC_CONFIGURATION {
        if 9 + interface_blocks(d.interfaces@).len() <= 0xffff {
            Some(configuration_descriptor(d))
        } else {
            None
        }
    } else if kind == DESC_STRING {
        if index == 0 {
            Some(language_descriptor())
        } else {
            match d.string_at(index as int) {
                Some(s) => string_descriptor(utf16_of(s)),
                None => None,
            }
        }
    } else {
        None
    }
}

/// The interface that owns endpoint address `e`, if any.
pub open spec fn ep_owner(d: UsbDevice, e: u8) -> Option<nat> {
    if exists|i: int| owns_ep(d.interfaces@, i, e) {
        Some((choose|i: int| owns_ep(d.interfaces@, i, e)) as nat)
    } else {
        None
    }
}

/// Sends a request to interface `i` when the device has it, else stalls.
pub open spec fn to_interface(d: UsbDevice, i: int) -> ControlSpec {
    if 0 <= i < d.interfaces@.len() {
        ControlSpec::Interface(i as nat)
    } else {
        ControlSpec::Stall
    }
}

/// The decision for `p` on device `d` whose current configuration is `config`,
/// and the configuration after it.
pub open spec fn control_spec(d: UsbDevice, config: u8, p: SetupPacket) -> (ControlSpec, u8) {
    let rcpt = recipient(p);
    if request_kind(p) == 0 {
        if rcpt == 0 {
            if p.request == GET_STATUS {
                (ControlSpec::Data(cap(seq![0u8, 0u8], p.length as nat)), config)
            } else if p.request == CLEAR_FEATURE || p.request == SET_FEATURE || p.request
                == SET_ADDRESS {
                (ControlSpec::Data(Seq::empty()), config)
            } else if p.request == GET_DESCRIPTOR {
                match descriptor_spec(d, p.value) {
                    Some(s) => (ControlSpec::Data(cap(s, p.length as nat)), config),
                    None => (ControlSpec::Stall, config),
                }
            } else if p.request == GET_CONFIGURATION {
                (ControlSpec::Data(cap(seq![config], p.length as nat)), config)
            } else if p.request == SET_CONFIGURATION {
                (ControlSpec::Configure, p.value as u8)
            } else {
                (ControlSpec::Stall, config)
            }
        } else if rcpt == 1 {
            if p.request == GET_INTERFACE {
                (ControlSpec::Data(cap(seq![0u8], p.length as nat)), config)
            } else {
                (to_interface(d, (p.index as u8) as int), config)
            }
        } else if rcpt == 2 {
            if (p.index as u8) & 0x7f == 0 {
                if p.request == GET_STATUS {
                    (ControlSpec::Data(cap(seq![0u8, 0u8], p.length as nat)), config)
                } else {
                    (ControlSpec::Data(Seq::empty()), config)
                }
            } else {
                match ep_owner(d, p.index as u8) {
                    Some(i) => (ControlSpec::Interface(i), config),
                    None => (ControlSpec::Stall, config),
                }
            }
        } else {
            (ControlSpec::Stall, config)
        }
    } else if rcpt == 0 {
        (ControlSpec::Device, config)
    } else if rcpt == 1 {
        (to_interface(d, (p.index as u8) as int), config)
    } else if rcpt == 2 {
        match ep_owner(d, p.index as u8) {
            Some(i) => (ControlSpec::Interface(i), config),
            None => (ControlSpec::Stall, config),
        }
    } else {
        (ControlSpec::Stall, config)
    }
}

/// Cuts `v` to at most `n` bytes.
fn capped(v: Vec<u8>, n: u16) -> (r: Vec<u8>)
    ensures
        r@ == cap(v@, n as nat),
{
    let mut v = v;
    v.truncate(n as usize);
    v
}

pub fn device_descriptor_bytes(d: &UsbDevice) -> (r: Vec<u8>)
    ensures
        r@ == device_descriptor(*d),
{
    let mut out: Vec<u8> = Vec::new();
    out.push(18u8);
    out.push(DESC_DEVICE);
    push_le16(&mut out, d.usb_version);
    out.push(d.device_class);
    out.push(d.device_subclass);
    out.push(d.device_protocol);
    out.push(d.ep0_in.max_packet_size as u8);
    push_le16(&mut out, d.vendor_id);
    push_le16(&mut out, d.product_id);
    push_le16(&mut out, d.device_bcd);
    out.push(d.string_manufacturer);
    out.push(d.string_product);
    out.push(d.string_serial);
    out.push(d.num_configurations);
    assert(out@ =~= device_descriptor(*d));
    out
}

fn push_interface_block(out: &mut Vec<u8>, intf: &UsbInterface, number: usize)
    ensures
        final(out)@ == old(out)@ + interface_block(*intf, number as int),
{
    let ghost start = out@;
    out.push(9u8);
    out.push(DESC_INTERFACE);
    out.push(number as u8);
    out.push(0u8);
    out.push(intf.endpoints.len() as u8);
    out.push(intf.interface_class);
    out.push(intf.interface_subclass);
    out.push(intf.interface_protocol);
    out.push(intf.string_interface);
    push_all(out, intf.class_specific_descriptor.as_slice());
    let ghost head = out@;
    let mut k: usize = 0;
    while k < intf.endpoints.len()
        invariant
            k <= intf.endpoints@.len(),
            out@ == head + endpoint_descriptors(intf.endpoints@.subrange(0, k as int)),
        decreases intf.endpoints@.len() - k,
    {
        let e = intf.endpoints[k];
        out.push(7u8);
        out.push(DESC_ENDPOINT);
        out.push(e.address);
        out.push(e.attributes);
        push_le16(out, e.max_packet_size);
        out.push(e.interval);
        k = k + 1;
        proof {
            let sub = intf.endpoints@.subrange(0, k as int);
            assert(sub.drop_last() =~= intf.endpoints@.subrange(0, k - 1));
            assert(out@ =~= head + endpoint_descriptors(sub));
        }
    }
    assert(intf.endpoints@.subrange(0, intf.endpoints@.len() as int) =~= intf.endpoints@);
    assert(out@ =~= start + interface_block(*intf, number as int));
}

/// The configuration descriptor, or `None` when it is too long for its
/// 16-bit length field.
pub fn configuration_descriptor_bytes(d: &UsbDevice) -> (r: Option<Vec<u8>>)
    ensures
        match r {
            Some(v) => 9 + interface_blocks(d.interfaces@).len() <= 0xffff && v@
                == configuration_descriptor(*d),
            None => 9 + interface_blocks(d.interfaces@).len() > 0xffff,
        },
{
    let mut body: Vec<u8> = Vec::new();
    let mut i: usize = 0;
    while i < d.interfaces.len()
        invariant
            i <= d.interfaces@.len(),
            body@ == interface_blocks(d.interfaces@.subrange(0, i as int)),
        decreases d.interfaces@.len() - i,
    {
        push_interface_block(&mut body, &d.interfaces[i], i);
        i = i + 1;
        proof {
            let sub = d.interfaces@.subrange(0, i as int);
            assert(sub.drop_last() =~= d.interfaces@.subrange(0, i - 1));
        }
    }
    assert(d.interfaces@.subrange(0, d.interfaces@.len() as int) =~= d.interfaces@);
    if body.len() > 0xffff - 9 {
        return None;
    }
    let mut out: Vec<u8> = Vec::new();
    out.push(9u8);
    out.push(DESC_CONFIGURATION);
    push_le16(&mut out, (9 + body.len()) as u16);
    out.push(d.interfaces.len() as u8);
    out.push(d.configuration_value);
    out.push(d.string_configuration);
    out.push(0x80u8);
    out.push(0xfau8);
    push_all(&mut out, body.as_slice());
    assert(out@ =~= configuration_descriptor(*d));
    Some(out)
}

/// The string descriptor of the code units `units`: a length byte, the
/// descriptor type, then each unit little-endian. `None` when it would
/// exceed 255 bytes.
pub fn string_descriptor_bytes(units: &[u16]) -> (r: Option<Vec<u8>>)
    ensures
        r matches Some(v) ==> string_descriptor(units@) == Some(v@),
        r is None ==> string_descriptor(units@) is None,
{
    if units.len() > 126 {
        return None;
    }
    let mut out: Vec<u8> = Vec::new();
    out.push((2 + 2 * units.len()) as u8);
    out.push(DESC_STRING);
    let ghost head = out@;
    let mut k: usize = 0;
    while k < units.len()
        invariant
            k <= units@.len(),
            out@ == head + utf16_le(units@.subrange(0, k as int)),
        decreases units@.len() - k,
    {
        push_le16(&mut out, units[k]);
        k = k + 1;
        proof {
            let sub = units@.subrange(0, k as int);
            assert(sub.drop_last() =~= units@.subrange(0, k - 1));
        }
    }
    assert(units@.subrange(0, units@.len() as int) =~= units@);
    assert(out@ =~= seq![(2 + 2 * units@.len()) as u8, DESC_STRING] + utf16_le(units@));
    Some(out)
}

/// The answer to GET_DESCRIPTOR(`value`), before it is cut to wLength.
pub fn descriptor(d: &UsbDevice, value: u16) -> (r: Option<Vec<u8>>)
    requires
        d.wf(),
    ensures
        match r {
            Some(v) => descriptor_spec(*d, value) == Some(v@),
            None => descriptor_spec(*d, value) is None,
        },
{
    let kind = (value >> 8u16) as u8;
    let index = value as u8;
    if kind == DESC_DEVICE {
        Some(device_descriptor_bytes(d))
    } else if kind == DESC_CONFIGURATION {
        configuration_descriptor_bytes(d)
    } else if kind == DESC_STRING {
        if index == 0 {
            let mut v: Vec<u8> = Vec::new();
            v.push(4u8);
            v.push(DESC_STRING);
            v.push(0x09u8);
            v.push(0x04u8);
            assert(v@ =~= language_descriptor());
            Some(v)
        } else if (index as usize) <= d.string_pool.len() {
            let units = utf16_units(d.string_pool[index as usize - 1].as_str());
            string_descriptor_bytes(units.as_slice())
        } else {
            None
        }
    } else {
        None
    }
}

/// Finds the interface that owns endpoint address `e`.
pub fn endpoint_owner(d: &UsbDevice, e: u8) -> (r: Option<usize>)
    requires
        d.wf(),
        e & 0x7f != 0,
    ensures
        match r {
            Some(i) => ep_owner(*d, e) == Some(i as nat),
            None => ep_owner(*d, e) is None,
        },
{
    proof {
        assert(e != 0x00 && e != 0x80) by (bit_vector)
            requires
                e & 0x7f != 0,
        ;
    }
    match d.find_ep(e) {
        Some((_, Some(i))) => {
            proof {
                let j = choose|j: int| owns_ep(d.interfaces@, j, e);
                assert(j == i);
            }
            Some(i)
        },
        _ => None,
    }
}

fn status_bytes(n: u16) -> (r: Vec<u8>)
    ensures
        r@ == cap(seq![0u8, 0u8], n as nat),
{
    let mut v: Vec<u8> = Vec::new();
    v.push(0u8);
    v.push(0u8);
    assert(v@ =~= seq![0u8, 0u8]);
    capped(v, n)
}

fn one_byte(b: u8, n: u16) -> (r: Vec<u8>)
    ensures
        r@ == cap(seq![b], n as nat),
{
    let mut v: Vec<u8> = Vec::new();
    v.push(b);
    assert(v@ =~= seq![b]);
    capped(v, n)
}

fn interface_target(d: &UsbDevice, index: u16) -> (r: ControlResult)
    ensures
        r@ == to_interface(*d, (index as u8) as int),
{
    let i = (index as u8) as usize;
    if i < d.interfaces.len() {
        ControlResult::Interface(i)
    } else {
        ControlResult::Stall
    }
}

fn endpoint_target(d: &UsbDevice, index: u16) -> (r: ControlResult)
    requires
        d.wf(),
        (index as u8) & 0x7f != 0,
    ensures
        r@ == (match ep_owner(*d, index as u8) {
            Some(i) => ControlSpec::Interface(i),
            None => ControlSpec::Stall,
        }),
{
    match endpoint_owner(d, index as u8) {
        Some(i) => ControlResult::Interface(i),
        None => ControlResult::Stall,
    }
}

/// Interprets the SETUP packet `p` of a control transfer on endpoint 0 of
/// `d`, whose current configuration is `config`. Standard requests are
/// answered here; the rest go to the interface or device handler that the
/// recipient names. Returns the decision and the configuration after it.
pub fn handle_control(d: &UsbDevice, config: u8, p: SetupPacket) -> (r: (ControlResult, u8))
    requires
        d.wf(),
    ensures
        (r.0@, r.1) == control_spec(*d, config, p),
{
    let rcpt = p.request_type & 0x1f;
    let kind = (p.request_type >> 5u8) & 3;
    if kind == 0 {
        if rcpt == 0 {
            if p.request == GET_STATUS {
                (ControlResult::Data(status_bytes(p.length)), config)
            } else if p.request == CLEAR_FEATURE || p.request == SET_FEATURE || p.request
                == SET_ADDRESS {
                (ControlResult::Data(Vec::new()), config)
            } else if p.request == GET_DESCRIPTOR {
                match descriptor(d, p.value) {
                    Some(v) => (ControlResult::Data(capped(v, p.length)), config),
                    None => (ControlResult::Stall, config),
                }
            } else if p.request == GET_CONFIGURATION {
                (ControlResult::Data(one_byte(config, p.length)), config)
            } else if p.request == SET_CONFIGURATION {
                (ControlResult::Configure, p.value as u8)
            } else {
                (ControlResult::Stall, config)
            }
        } else if rcpt == 1 {
            if p.request == GET_INTERFACE {
                (ControlResult::Data(one_byte(0u8, p.length)), config)
            } else {
                (interface_target(d, p.index), config)
            }
        } else if rcpt == 2 {
            if (p.index as u8) & 0x7f == 0 {
                if p.request == GET_STATUS {
                    (ControlResult::Data(status_bytes(p.length)), config)
                } else {
                    (ControlResult::Data(Vec::new()), config)
                }
            } else {
                (endpoint_target(d, p.index), config)
            }
        } else {
            (ControlResult::Stall, config)
        }
    } else if rcpt == 0 {
        (ControlResult::Device, config)
    } else if rcpt == 1 {
        (interface_target(d, p.index), config)
    } else if rcpt == 2 {
        if (p.index as u8) & 0x7f == 0 {
            (ControlResult::Stall, config)
        } else {
            (endpoint_target(d, p.index), config)
        }
    } else {
        (ControlResult::Stall, config)
    }
}

} // verus!
