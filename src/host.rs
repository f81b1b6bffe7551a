//! Exporting a device found on the host: the enumerated descriptors, as
//! plain values, become a device of the model.

use vstd::prelude::*;
use crate::codec::{copy_range, push_all};
use crate::device::{
    check_endpoints, decimal, decimal_bytes, endpoints_distinct, UsbDevice, UsbEndpoint,
    UsbInterface, EP_CONTROL,
};

verus! {

/// What host enumeration reports of one interface (its first alternate
/// setting).
#[derive(Clone, Debug)]
pub struct HostInterface {
    pub class_code: u8,
    pub sub_class_code: u8,
    pub protocol_code: u8,
    pub endpoints: Vec<UsbEndpoint>,
    pub description_string_index: Option<u8>,
    /// Class-specific descriptors that follow the interface descriptor.
    pub extra: Vec<u8>,
}

/// What host enumeration reports of one device and its active configuration.
#[derive(Clone, Debug)]
pub struct HostDevice {
    pub bus_number: u8,
    pub address: u8,
    pub port_number: u8,
    pub speed: u32,
    pub vendor_id: u16,
    pub product_id: u16,
    pub class_code: u8,
    pub sub_class_code: u8,
    pub protocol_code: u8,
    pub device_version: u16,
    pub usb_version: u16,
    pub max_packet_size: u8,
    pub num_configurations: u8,
    pub configuration_number: u8,
    pub interfaces: Vec<HostInterface>,
    pub manufacturer: Option<String>,
    pub product: Option<String>,
    pub serial: Option<String>,
}

/// `/sys/bus/<bus>/<address>/<port>`.
pub open spec fn host_path(bus: u8, address: u8, port: u8) -> Seq<u8> {
    seq![47u8, 115u8, 121u8, 115u8, 47u8, 98u8, 117u8, 115u8, 47u8] + decimal(bus as nat) + seq![
        47u8,
    ] + decimal(address as nat) + seq![47u8] + decimal(port as nat)
}

/// `<bus>-<address>-<port>`.
pub open spec fn host_bus_id(bus: u8, address: u8, port: u8) -> Seq<u8> {
    decimal(bus as nat) + seq![45u8] + decimal(address as nat) + seq![45u8] + decimal(port as nat)
}

/// Whether interface `m` of the model is host interface `h`.
pub open spec fn interface_of(m: UsbInterface, h: HostInterface) -> bool {
    &&& m.interface_class == h.class_code
    &&& m.interface_subclass == h.sub_class_code
    &&& m.interface_protocol == h.protocol_code
    &&& m.endpoints@ == h.endpoints@
    &&& m.string_interface == match h.description_string_index {
        Some(i) => i,
        None => 0u8,
    }
    &&& m.class_specific_descriptor@ == h.extra@
}

/// The host reports a layout the model can hold: at most 255 interfaces,
/// and each endpoint address other than 0 in one interface only.
pub open spec fn host_layout_ok(h: HostDevice) -> bool {
    let intfs = h.interfaces@;
    &&& intfs.len() < 256
    &&& forall|i: int, j: int, a: int, b: int|
        0 <= i < intfs.len() && 0 <= j < intfs.len() && i != j && 0 <= a
            < intfs[i].endpoints@.len() && 0 <= b < intfs[j].endpoints@.len()
            ==> #[trigger] intfs[i].endpoints@[a].address != #[trigger] intfs[j].endpoints@[b].address
    &&& forall|i: int, a: int|
        0 <= i < intfs.len() && 0 <= a < intfs[i].endpoints@.len() ==> #[trigger] intfs[i].endpoints@[a].address
            & 0x7f != 0
}

/// How many of the manufacturer, product and serial strings the host reports.
pub open spec fn string_count(h: HostDevice) -> int {
    (if h.manufacturer is Some {
        1int
    } else {
        0int
    }) + (if h.product is Some {
        1int
    } else {
        0int
    }) + (if h.serial is Some {
        1int
    } else {
        0int
    })
}

/// The 16-bit BCD field `0xJJMN` of version `major.minor.sub_minor`, where
/// `JJ` holds the two decimal digits of `major`.
pub open spec fn bcd_spec(major: u8, minor: u8, sub_minor: u8) -> u16 {
    (((major / 10) % 16) * 4096 + (major % 10) * 256 + (minor % 16) * 16 + sub_minor % 16) as u16
}

/// Encodes a version as the BCD field of a USB descriptor.
pub fn bcd(major: u8, minor: u8, sub_minor: u8) -> (r: u16)
    ensures
        r == bcd_spec(major, minor, sub_minor),
{
    ((major / 10 % 16) as u16) * 4096 + ((major % 10) as u16) * 256 + ((minor % 16) as u16) * 16 + (
    sub_minor % 16) as u16
}

fn copy_endpoints(eps: &Vec<UsbEndpoint>) -> (r: Vec<UsbEndpoint>)
    ensures
        r@ == eps@,
{
    let mut out: Vec<UsbEndpoint> = Vec::new();
    let mut i: usize = 0;
    while i < eps.len()
        invariant
            i <= eps@.len(),
            out@ == eps@.subrange(0, i as int),
        decreases eps@.len() - i,
    {
        out.push(eps[i]);
        i = i + 1;
        assert(out@ =~= eps@.subrange(0, i as int));
    }
    assert(eps@.subrange(0, eps@.len() as int) =~= eps@);
    out
}

fn new_optional_string(d: &mut UsbDevice, s: &Option<String>) -> (r: u8)
    requires
        old(d).wf(),
        old(d).string_pool@.len() < 255,
    ensures
        final(d).wf(),
        crate::device::same_identity(*final(d), *old(d)),
        forall|k: int| 1 <= k <= old(d).string_pool@.len() ==> final(d).string_at(k) == old(d).string_at(k),
        match s {
            Some(s) => r as int == old(d).string_pool@.len() + 1 && final(d).string_at(r as int)
                == Some(s@) && final(d).string_pool@.len() == old(d).string_pool@.len() + 1,
            None => r == 0 && final(d).string_pool@ == old(d).string_pool@,
        },
{
    match s {
        Some(s) => d.new_string(s.as_str()),
        None => 0,
    }
}

impl UsbDevice {
    /// The device that exports host device `h`: bus id and path from its
    /// bus, address and port, fields from its descriptors, and its strings
    /// in the table. `None` when the reported layout is one the model cannot
    /// hold; such a device is skipped.
    pub fn from_host(h: &HostDevice) -> (r: Option<UsbDevice>)
        ensures
            r is Some <==> host_layout_ok(*h),
            r matches Some(d) ==> {
                &&& d.wf()
                &&& d.path@ == host_path(h.bus_number, h.address, h.port_number)
                &&& d.bus_id@ == host_bus_id(h.bus_number, h.address, h.port_number)
                &&& d.bus_num == h.bus_number as u32
                &&& d.dev_num == h.port_number as u32
                &&& d.speed == h.speed
                &&& d.vendor_id == h.vendor_id
                &&& d.product_id == h.product_id
                &&& d.device_class == h.class_code
                &&& d.device_subclass == h.sub_class_code
                &&& d.device_protocol == h.protocol_code
                &&& d.device_bcd == h.device_version
                &&& d.usb_version == h.usb_version
                &&& d.configuration_value == h.configuration_number
                &&& d.num_configurations == h.num_configurations
                &&& d.ep0_in == (UsbEndpoint {
                    address: 0x80,
                    attributes: EP_CONTROL,
                    max_packet_size: h.max_packet_size as u16,
                    interval: 0,
                })
                &&& d.ep0_out == (UsbEndpoint {
                    address: 0x00,
                    attributes: EP_CONTROL,
                    max_packet_size: h.max_packet_size as u16,
                    interval: 0,
                })
                &&& d.interfaces@.len() == h.interfaces@.len()
                &&& forall|i: int|
                    0 <= i < h.interfaces@.len() ==> interface_of(
                        #[trigger] d.interfaces@[i],
                        h.interfaces@[i],
                    )
                &&& h.manufacturer matches Some(s) ==> d.string_at(d.string_manufacturer as int)
                    == Some(s@)
                &&& h.product matches Some(s) ==> d.string_at(d.string_product as int) == Some(s@)
                &&& h.serial matches Some(s) ==> d.string_at(d.string_serial as int) == Some(s@)
                &&& d.string_pool@.len() == string_count(*h)
                &&& h.manufacturer is Some ==> d.string_manufacturer == 1
                &&& h.product is Some ==> d.string_product as int == 1 + (if h.manufacturer is Some {
                    1int
                } else {
                    0int
                })
                &&& h.serial is Some ==> d.string_serial as int == 1 + (if h.manufacturer is Some {
                    1int
                } else {
                    0int
                }) + (if h.product is Some {
                    1int
                } else {
                    0int
                })
                &&& h.manufacturer is None ==> d.string_manufacturer == 0
                &&& h.product is None ==> d.string_product == 0
                &&& h.serial is None ==> d.string_serial == 0
            },
    {
        let mut interfaces: Vec<UsbInterface> = Vec::new();
        let mut i: usize = 0;
        while i < h.interfaces.len()
            invariant
                i <= h.interfaces@.len(),
                interfaces@.len() == i,
                forall|k: int| 0 <= k < i ==> interface_of(#[trigger] interfaces@[k], h.interfaces@[k]),
            decreases h.interfaces@.len() - i,
        {
            let hi = &h.interfaces[i];
            interfaces.push(
                UsbInterface {
                    interface_class: hi.class_code,
                    interface_subclass: hi.sub_class_code,
                    interface_protocol: hi.protocol_code,
                    endpoints: copy_endpoints(&hi.endpoints),
                    string_interface: match hi.description_string_index {
                        Some(k) => k,
                        None => 0,
                    },
                    class_specific_descriptor: copy_range(hi.extra.as_slice(), 0, hi.extra.len()),
                },
            );
            proof {
                assert(hi.extra@.subrange(0, hi.extra@.len() as int) =~= hi.extra@);
            }
            i = i + 1;
        }
        proof {
            let hs = h.interfaces@;
            let ms = interfaces@;
            assert forall|k: int| 0 <= k < ms.len() implies (#[trigger] ms[k]).endpoints@
                == hs[k].endpoints@ by {
                assert(interface_of(ms[k], hs[k]));
            }
            if endpoints_distinct(ms) {
                assert forall|i: int, j: int, a: int, b: int|
                    0 <= i < hs.len() && 0 <= j < hs.len() && i != j && 0 <= a
                        < hs[i].endpoints@.len() && 0 <= b < hs[j].endpoints@.len()
                        implies #[trigger] hs[i].endpoints@[a].address
                        != #[trigger] hs[j].endpoints@[b].address by {
                    assert(ms[i].endpoints@ == hs[i].endpoints@);
                    assert(ms[j].endpoints@ == hs[j].endpoints@);
                    assert(ms[i].endpoints@[a].address != ms[j].endpoints@[b].address);
                }
                assert forall|i: int, a: int|
                    0 <= i < hs.len() && 0 <= a < hs[i].endpoints@.len()
                        implies #[trigger] hs[i].endpoints@[a].address & 0x7f != 0 by {
                    assert(ms[i].endpoints@ == hs[i].endpoints@);
                    assert(ms[i].endpoints@[a].address & 0x7f != 0);
                }
            }
            if host_layout_ok(*h) {
                assert forall|i: int, j: int, a: int, b: int|
                    0 <= i < ms.len() && 0 <= j < ms.len() && i != j && 0 <= a
                        < ms[i].endpoints@.len() && 0 <= b < ms[j].endpoints@.len()
                        implies #[trigger] ms[i].endpoints@[a].address
                        != #[trigger] ms[j].endpoints@[b].address by {
                    assert(ms[i].endpoints@ == hs[i].endpoints@);
                    assert(ms[j].endpoints@ == hs[j].endpoints@);
                    assert(hs[i].endpoints@[a].address != hs[j].endpoints@[b].address);
                }
                assert forall|i: int, a: int|
                    0 <= i < ms.len() && 0 <= a < ms[i].endpoints@.len()
                        implies #[trigger] ms[i].endpoints@[a].address & 0x7f != 0 by {
                    assert(ms[i].endpoints@ == hs[i].endpoints@);
                    assert(hs[i].endpoints@[a].address & 0x7f != 0);
                }
            }
        }
        if interfaces.len() >= 256 || !check_endpoints(&interfaces) {
            return None;
        }
        let b = decimal_bytes(h.bus_number as u32);
        let a = decimal_bytes(h.address as u32);
        let p = decimal_bytes(h.port_number as u32);
        let mut path: Vec<u8> = vec![47u8, 115u8, 121u8, 115u8, 47u8, 98u8, 117u8, 115u8, 47u8];
        push_all(&mut path, b.as_slice());
        path.push(47u8);
        push_all(&mut path, a.as_slice());
        path.push(47u8);
        push_all(&mut path, p.as_slice());
        let mut bus_id: Vec<u8> = Vec::new();
        push_all(&mut bus_id, b.as_slice());
        bus_id.push(45u8);
        push_all(&mut bus_id, a.as_slice());
        bus_id.push(45u8);
        push_all(&mut bus_id, p.as_slice());
        assert(path@ =~= host_path(h.bus_number, h.address, h.port_number));
        assert(bus_id@ =~= host_bus_id(h.bus_number, h.address, h.port_number));
        let ep0_size = h.max_packet_size as u16;
        let mut d = UsbDevice {
            path,
            bus_id,
            bus_num: h.bus_number as u32,
            dev_num: h.port_number as u32,
            speed: h.speed,
            vendor_id: h.vendor_id,
            product_id: h.product_id,
            device_class: h.class_code,
            device_subclass: h.sub_class_code,
            device_protocol: h.protocol_code,
            device_bcd: h.device_version,
            usb_version: h.usb_version,
            configuration_value: h.configuration_number,
            num_configurations: h.num_configurations,
            ep0_in: UsbEndpoint {
                address: 0x80,
                attributes: EP_CONTROL,
                max_packet_size: ep0_size,
                interval: 0,
            },
            ep0_out: UsbEndpoint {
                address: 0x00,
                attributes: EP_CONTROL,
                max_packet_size: ep0_size,
                interval: 0,
            },
            interfaces,
            string_pool: Vec::new(),
            string_configuration: 0,
            string_manufacturer: 0,
            string_product: 0,
            string_serial: 0,
        };
        let m = new_optional_string(&mut d, &h.manufacturer);
        d.string_manufacturer = m;
        let ghost d1 = d;
        let pr = new_optional_string(&mut d, &h.product);
        d.string_product = pr;
        let ghost d2 = d;
        let se = new_optional_string(&mut d, &h.serial);
        d.string_serial = se;
        proof {
            if h.manufacturer is Some {
                assert(d1.string_at(m as int) == d.string_at(m as int));
            }
            if h.product is Some {
                assert(d2.string_at(pr as int) == d.string_at(pr as int));
            }
        }
        Some(d)
    }
}

} // verus!
