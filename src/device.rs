//! The exported devices: identity fields, interfaces, endpoints and the
//! string table, with endpoint lookup and the summary records of the op phase.

use vstd::prelude::*;
use crate::codec::{
    be16, be16_at, be32, be32_at, copy_range, interface_summary_bytes, lemma_be16_in, lemma_be32_in,
    push_all, push_be16, push_be32, read_be16, read_be32, InterfaceSummary,
};

verus! {

/// Transfer types, as held in the low two bits of an endpoint's attributes.
pub const EP_CONTROL: u8 = 0;
pub const EP_ISOCHRONOUS: u8 = 1;
pub const EP_BULK: u8 = 2;
pub const EP_INTERRUPT: u8 = 3;

/// Device speeds as reported in the device summary.
pub const SPEED_LOW: u32 = 1;
pub const SPEED_FULL: u32 = 2;
pub const SPEED_HIGH: u32 = 3;

/// Largest packet on endpoint 0 of a simulated device.
pub const EP0_MAX_PACKET_SIZE: u16 = 64;

/// Interface class code of communications devices.
pub const CLASS_CDC: u8 = 0x02;

/// An endpoint descriptor.
#[derive(Clone, Copy, Debug, PartialEq, Eq, Structural)]
pub struct UsbEndpoint {
    pub address: u8,
    pub attributes: u8,
    pub max_packet_size: u16,
    pub interval: u8,
}

impl UsbEndpoint {
    /// IN endpoints have the high bit of their address set.
    pub fn is_in(&self) -> (r: bool)
        ensures
            r == (self.address >= 0x80),
    {
        self.address >= 0x80
    }

    /// The transfer type, from the low two bits of the attributes.
    pub fn transfer_type(&self) -> (r: u8)
        ensures
            r == self.attributes % 4,
    {
        self.attributes % 4
    }
}

/// An interface: its class codes, its endpoints, its name and its
/// class-specific descriptors. Only the first alternate setting exists.
#[derive(Clone, Debug)]
pub struct UsbInterface {
    pub interface_class: u8,
    pub interface_subclass: u8,
    pub interface_protocol: u8,
    pub endpoints: Vec<UsbEndpoint>,
    pub string_interface: u8,
    pub class_specific_descriptor: Vec<u8>,
}

/// Whether interface `i` of `intfs` has an endpoint with address `e`.
pub open spec fn owns_ep(intfs: Seq<UsbInterface>, i: int, e: u8) -> bool {
    0 <= i < intfs.len() && exists|k: int|
        0 <= k < intfs[i].endpoints@.len() && #[trigger] intfs[i].endpoints@[k].address == e
}

/// No two interfaces share an endpoint address, and none claims endpoint 0.
pub open spec fn endpoints_distinct(intfs: Seq<UsbInterface>) -> bool {
    &&& forall|i: int, j: int, a: int, b: int|
        0 <= i < intfs.len() && 0 <= j < intfs.len() && i != j && 0 <= a
            < intfs[i].endpoints@.len() && 0 <= b < intfs[j].endpoints@.len()
            ==> #[trigger] intfs[i].endpoints@[a].address != #[trigger] intfs[j].endpoints@[b].address
    &&& forall|i: int, a: int|
        0 <= i < intfs.len() && 0 <= a < intfs[i].endpoints@.len() ==> #[trigger] intfs[i].endpoints@[a].address
            & 0x7f != 0
}

/// Endpoints that may join `intfs` as a new interface: none is endpoint 0
/// and none is owned already.
pub open spec fn endpoints_fresh(intfs: Seq<UsbInterface>, eps: Seq<UsbEndpoint>) -> bool {
    &&& forall|a: int| 0 <= a < eps.len() ==> #[trigger] eps[a].address & 0x7f != 0
    &&& forall|i: int, a: int, b: int|
        0 <= i < intfs.len() && 0 <= a < intfs[i].endpoints@.len() && 0 <= b < eps.len()
            ==> #[trigger] intfs[i].endpoints@[a].address != #[trigger] eps[b].address
}

/// An exported USB device.
#[derive(Clone, Debug)]
pub struct UsbDevice {
    pub path: Vec<u8>,
    pub bus_id: Vec<u8>,
    pub bus_num: u32,
    pub dev_num: u32,
    pub speed: u32,
    pub vendor_id: u16,
    pub product_id: u16,
    pub device_class: u8,
    pub device_subclass: u8,
    pub device_protocol: u8,
    pub device_bcd: u16,
    pub usb_version: u16,
    pub configuration_value: u8,
    pub num_configurations: u8,
    pub ep0_in: UsbEndpoint,
    pub ep0_out: UsbEndpoint,
    pub interfaces: Vec<UsbInterface>,
    /// String `k` of the table is `string_pool[k - 1]`; index 0 is the language list.
    pub string_pool: Vec<String>,
    pub string_configuration: u8,
    pub string_manufacturer: u8,
    pub string_product: u8,
    pub string_serial: u8,
}

/// ASCII decimal digits of `n`.
pub open spec fn decimal(n: nat) -> Seq<u8>
    decreases n,
{
    if n < 10 {
        seq![(48 + n) as u8]
    } else {
        decimal(n / 10).push((48 + n % 10) as u8)
    }
}

/// The ASCII decimal digits of `n`, as `u32`'s `Display` writes them.
pub fn decimal_bytes(n: u32) -> (r: Vec<u8>)
    ensures
        r@ == decimal(n as nat),
    decreases n,
{
    if n < 10 {
        let mut v: Vec<u8> = Vec::new();
        v.push((48 + n) as u8);
        assert(v@ =~= decimal(n as nat));
        v
    } else {
        let mut v = decimal_bytes(n / 10);
        v.push((48 + n % 10) as u8);
        v
    }
}

/// `s` cut or zero-padded to exactly `n` bytes.
pub open spec fn padded(s: Seq<u8>, n: nat) -> Seq<u8> {
    Seq::new(n, |i: int| if i < s.len() { s[i] } else { 0u8 })
}

/// Appends `s` cut or zero-padded to exactly `n` bytes.
pub fn push_padded(out: &mut Vec<u8>, s: &[u8], n: usize)
    ensures
        final(out)@ == old(out)@ + padded(s@, n as nat),
{
    let ghost start = out@;
    let mut i: usize = 0;
    while i < n
        invariant
            i <= n,
            out@ == start + padded(s@, n as nat).subrange(0, i as int),
        decreases n - i,
    {
        if i < s.len() {
            out.push(s[i]);
        } else {
            out.push(0u8);
        }
        i = i + 1;
        assert(out@ =~= start + padded(s@, n as nat).subrange(0, i as int));
    }
    assert(padded(s@, n as nat).subrange(0, n as int) =~= padded(s@, n as nat));
}

/// The path prefix of simulated devices.
pub open spec fn simulated_path_prefix() -> Seq<u8> {
    seq![
        47u8,
        115u8,
        121u8,
        115u8,
        47u8,
        100u8,
        101u8,
        118u8,
        105u8,
        99u8,
        101u8,
        47u8,
        117u8,
        115u8,
        98u8,
        105u8,
        112u8,
        47u8,
    ]
}

/// `a` and `b` agree on everything but the string table.
pub open spec fn same_identity(a: UsbDevice, b: UsbDevice) -> bool {
    &&& same_fields(a, b)
    &&& a.interfaces == b.interfaces
}

/// `a` and `b` agree on everything but the interface list and the string table.
pub open spec fn same_fields(a: UsbDevice, b: UsbDevice) -> bool {
    &&& a.path == b.path
    &&& a.bus_id == b.bus_id
    &&& a.bus_num == b.bus_num
    &&& a.dev_num == b.dev_num
    &&& a.speed == b.speed
    &&& a.vendor_id == b.vendor_id
    &&& a.product_id == b.product_id
    &&& a.device_class == b.device_class
    &&& a.device_subclass == b.device_subclass
    &&& a.device_protocol == b.device_protocol
    &&& a.device_bcd == b.device_bcd
    &&& a.usb_version == b.usb_version
    &&& a.configuration_value == b.configuration_value
    &&& a.num_configurations == b.num_configurations
    &&& a.ep0_in == b.ep0_in
    &&& a.ep0_out == b.ep0_out
    &&& a.string_configuration == b.string_configuration
    &&& a.string_manufacturer == b.string_manufacturer
    &&& a.string_product == b.string_product
    &&& a.string_serial == b.string_serial
}

impl UsbDevice {
    /// The table's invariant: interface numbers and string indices fit in a
    /// byte, and each endpoint address other than 0 belongs to one interface.
    pub open spec fn wf(&self) -> bool {
        &&& self.interfaces@.len() < 256
        &&& self.string_pool@.len() < 256
        &&& endpoints_distinct(self.interfaces@)
    }

    /// The string with index `k` (`k >= 1`), if the table has one.
    pub open spec fn string_at(&self, k: int) -> Option<Seq<char>> {
        if 1 <= k <= self.string_pool@.len() {
            Some(self.string_pool@[k - 1]@)
        } else {
            None
        }
    }

    /// A simulated device with sensible defaults: bus id and device number
    /// `index`, high speed, one configuration that is selected, and the four
    /// standard strings.
    pub fn new(index: u32) -> (r: UsbDevice)
        ensures
            r.wf(),
            r.bus_id@ == decimal(index as nat),
            r.path@ == simulated_path_prefix() + decimal(index as nat),
            r.dev_num == index,
            r.bus_num == 0,
            r.speed == SPEED_HIGH,
            r.configuration_value == 1,
            r.num_configurations == 1,
            r.interfaces@.len() == 0,
            r.ep0_in == (UsbEndpoint {
                address: 0x80,
                attributes: EP_CONTROL,
                max_packet_size: EP0_MAX_PACKET_SIZE,
                interval: 0,
            }),
            r.ep0_out == (UsbEndpoint {
                address: 0x00,
                attributes: EP_CONTROL,
                max_packet_size: EP0_MAX_PACKET_SIZE,
                interval: 0,
            }),
            r.string_pool@.len() == 4,
            r.string_configuration == 1,
            r.string_manufacturer == 2,
            r.string_product == 3,
            r.string_serial == 4,
            r.string_at(1) == Some("Default Configuration"@),
            r.string_at(2) == Some("Manufacturer"@),
            r.string_at(3) == Some("Product"@),
            r.string_at(4) == Some("Serial"@),
    {
        let digits = decimal_bytes(index);
        let mut path: Vec<u8> = vec![
            47u8,
            115u8,
            121u8,
            115u8,
            47u8,
            100u8,
            101u8,
            118u8,
            105u8,
            99u8,
            101u8,
            47u8,
            117u8,
            115u8,
            98u8,
            105u8,
            112u8,
            47u8,
        ];
        assert(path@ =~= simulated_path_prefix());
        push_all(&mut path, digits.as_slice());
        let mut res = UsbDevice {
            path,
            bus_id: digits,
            bus_num: 0,
            dev_num: index,
            speed: SPEED_HIGH,
            vendor_id: 0,
            product_id: 0,
            device_class: 0,
            device_subclass: 0,
            device_protocol: 0,
            device_bcd: 0,
            usb_version: 0x0200,
            configuration_value: 1,
            num_configurations: 1,
            ep0_in: UsbEndpoint {
                address: 0x80,
                attributes: EP_CONTROL,
                max_packet_size: EP0_MAX_PACKET_SIZE,
                interval: 0,
            },
            ep0_out: UsbEndpoint {
                address: 0x00,
                attributes: EP_CONTROL,
                max_packet_size: EP0_MAX_PACKET_SIZE,
                interval: 0,
            },
            interfaces: Vec::new(),
            string_pool: Vec::new(),
            string_configuration: 0,
            string_manufacturer: 0,
            string_product: 0,
            string_serial: 0,
        };
        res.string_configuration = res.new_string("Default Configuration");
        let ghost s1 = res;
        res.string_manufacturer = res.new_string("Manufacturer");
        let ghost s2 = res;
        res.string_product = res.new_string("Product");
        let ghost s3 = res;
        res.string_serial = res.new_string("Serial");
        assert(res.string_at(1) == s3.string_at(1) && s3.string_at(1) == s2.string_at(1)
            && s2.string_at(1) == s1.string_at(1));
        assert(res.string_at(2) == s3.string_at(2) && s3.string_at(2) == s2.string_at(2));
        assert(res.string_at(3) == s3.string_at(3));
        res
    }

    /// Adds `s` to the string table and returns its index, the next free one.
    pub fn new_string(&mut self, s: &str) -> (r: u8)
        requires
            old(self).wf(),
            old(self).string_pool@.len() < 255,
        ensures
            final(self).wf(),
            r as int == old(self).string_pool@.len() + 1,
            final(self).string_pool@.len() == old(self).string_pool@.len() + 1,
            final(self).string_at(r as int) == Some(s@),
            forall|k: int| 1 <= k <= old(self).string_pool@.len() ==> final(self).string_at(k)
                == old(self).string_at(k),
            same_identity(*final(self), *old(self)),
    {
        self.string_pool.push(s.to_owned());
        self.string_pool.len() as u8
    }

    /// Appends an interface, whose number is its position; its name goes to
    /// the string table.
    pub fn with_interface(
        self,
        interface_class: u8,
        interface_subclass: u8,
        interface_protocol: u8,
        name: &str,
        endpoints: Vec<UsbEndpoint>,
    ) -> (r: UsbDevice)
        requires
            self.wf(),
            self.string_pool@.len() < 255,
            self.interfaces@.len() < 255,
            endpoints_fresh(self.interfaces@, endpoints@),
        ensures
            r.wf(),
            r.interfaces@.len() == self.interfaces@.len() + 1,
            forall|i: int| 0 <= i < self.interfaces@.len() ==> r.interfaces@[i] == self.interfaces@[i],
            r.interfaces@.last().interface_class == interface_class,
            r.interfaces@.last().interface_subclass == interface_subclass,
            r.interfaces@.last().interface_protocol == interface_protocol,
            r.interfaces@.last().endpoints@ == endpoints@,
            r.interfaces@.last().class_specific_descriptor@.len() == 0,
            r.string_at(r.interfaces@.last().string_interface as int) == Some(name@),
            r.interfaces@.last().string_interface as int == self.string_pool@.len() + 1,
            r.string_pool@.len() == self.string_pool@.len() + 1,
            forall|k: int| 1 <= k <= self.string_pool@.len() ==> r.string_at(k) == self.string_at(k),
            same_fields(r, self),
    {
        let mut dev = self;
        let string_interface = dev.new_string(name);
        dev.interfaces.push(
            UsbInterface {
                interface_class,
                interface_subclass,
                interface_protocol,
                endpoints,
                string_interface,
                class_specific_descriptor: Vec::new(),
            },
        );
        proof {
            let intfs = dev.interfaces@;
            let n = self.interfaces@.len();
            assert(intfs.subrange(0, n as int) =~= self.interfaces@);
            assert forall|i: int, j: int, a: int, b: int|
                0 <= i < intfs.len() && 0 <= j < intfs.len() && i != j && 0 <= a
                    < intfs[i].endpoints@.len() && 0 <= b < intfs[j].endpoints@.len()
                    implies #[trigger] intfs[i].endpoints@[a].address
                    != #[trigger] intfs[j].endpoints@[b].address by {
                if i < n && j < n {
                    assert(intfs[i] == self.interfaces@[i]);
                    assert(intfs[j] == self.interfaces@[j]);
                    assert(self.interfaces@[i].endpoints@[a].address
                        != self.interfaces@[j].endpoints@[b].address);
                } else if i < n {
                    assert(intfs[i] == self.interfaces@[i]);
                    assert(self.interfaces@[i].endpoints@[a].address != endpoints@[b].address);
                } else {
                    assert(intfs[j] == self.interfaces@[j]);
                    assert(self.interfaces@[j].endpoints@[b].address != endpoints@[a].address);
                }
            }
            assert forall|i: int, a: int|
                0 <= i < intfs.len() && 0 <= a < intfs[i].endpoints@.len() implies #[trigger] intfs[i].endpoints@[a].address
                    & 0x7f != 0 by {
                if i < n {
                    assert(intfs[i] == self.interfaces@[i]);
                } else {
                    assert(endpoints@[a].address & 0x7f != 0);
                }
            }
        }
        dev
    }

    /// Finds the endpoint with wire address `ep` (direction bit included) and
    /// the interface that owns it; endpoint 0 has no interface.
    pub fn find_ep(&self, ep: u8) -> (r: Option<(UsbEndpoint, Option<usize>)>)
        requires
            self.wf(),
        ensures
            ep == 0x00 ==> r == Some((self.ep0_out, None::<usize>)),
            ep == 0x80 ==> r == Some((self.ep0_in, None::<usize>)),
            ep != 0x00 && ep != 0x80 ==> match r {
                Some((e, Some(i))) => {
                    &&& owns_ep(self.interfaces@, i as int, ep)
                    &&& e.address == ep
                    &&& self.interfaces@[i as int].endpoints@.contains(e)
                    &&& forall|j: int| owns_ep(self.interfaces@, j, ep) ==> j == i
                },
                Some((_, None)) => false,
                None => forall|j: int| !owns_ep(self.interfaces@, j, ep),
            },
    {
        if ep == 0x00 {
            return Some((self.ep0_out, None));
        }
        if ep == 0x80 {
            return Some((self.ep0_in, None));
        }
        let mut i: usize = 0;
        while i < self.interfaces.len()
            invariant
                self.wf(),
                ep != 0x00 && ep != 0x80,
                i <= self.interfaces@.len(),
                forall|j: int| 0 <= j < i ==> !owns_ep(self.interfaces@, j, ep),
            decreases self.interfaces@.len() - i,
        {
            let intf = &self.interfaces[i];
            let mut k: usize = 0;
            while k < intf.endpoints.len()
                invariant
                    self.wf(),
                    ep != 0x00 && ep != 0x80,
                    i < self.interfaces@.len(),
                    intf == self.interfaces@[i as int],
                    k <= intf.endpoints@.len(),
                    forall|a: int| 0 <= a < k ==> intf.endpoints@[a].address != ep,
                decreases intf.endpoints@.len() - k,
            {
                if intf.endpoints[k].address == ep {
                    let e = intf.endpoints[k];
                    proof {
                        assert(self.interfaces@[i as int].endpoints@[k as int].address == ep);
                        assert(owns_ep(self.interfaces@, i as int, ep));
                        assert(self.interfaces@[i as int].endpoints@.contains(e));
                        assert forall|j: int| owns_ep(self.interfaces@, j, ep) implies j == i by {
                            let b = choose|b: int|
                                0 <= b < self.interfaces@[j].endpoints@.len()
                                    && #[trigger] self.interfaces@[j].endpoints@[b].address == ep;
                            if j != i {
                                assert(self.interfaces@[i as int].endpoints@[k as int].address
                                    != self.interfaces@[j].endpoints@[b].address);
                            }
                        }
                    }
                    return Some((e, Some(i)));
                }
                k = k + 1;
            }
            i = i + 1;
        }
        None
    }
}

/// Whether some endpoint of an interface before `i` has address `e`.
fn claimed_before(intfs: &Vec<UsbInterface>, i: usize, e: u8) -> (r: bool)
    requires
        i <= intfs@.len(),
    ensures
        r == exists|j: int, b: int|
            0 <= j < i && 0 <= b < intfs@[j].endpoints@.len() && #[trigger] intfs@[j].endpoints@[b].address
                == e,
{
    let mut j: usize = 0;
    while j < i
        invariant
            i <= intfs@.len(),
            j <= i,
            forall|j2: int, b: int|
                0 <= j2 < j && 0 <= b < intfs@[j2].endpoints@.len() ==> #[trigger] intfs@[j2].endpoints@[b].address
                    != e,
        decreases i - j,
    {
        let eps = &intfs[j].endpoints;
        let mut b: usize = 0;
        while b < eps.len()
            invariant
                j < i <= intfs@.len(),
                eps == intfs@[j as int].endpoints,
                b <= eps@.len(),
                forall|j2: int, b2: int|
                    0 <= j2 < j && 0 <= b2 < intfs@[j2].endpoints@.len() ==> #[trigger] intfs@[j2].endpoints@[b2].address
                        != e,
                forall|b2: int| 0 <= b2 < b ==> eps@[b2].address != e,
            decreases eps@.len() - b,
        {
            if eps[b].address == e {
                assert(intfs@[j as int].endpoints@[b as int].address == e);
                return true;
            }
            b = b + 1;
        }
        j = j + 1;
    }
    false
}

/// Whether `intfs` satisfies `endpoints_distinct`.
pub fn check_endpoints(intfs: &Vec<UsbInterface>) -> (r: bool)
    ensures
        r == endpoints_distinct(intfs@),
{
    let mut i: usize = 0;
    while i < intfs.len()
        invariant
            i <= intfs@.len(),
            endpoints_distinct(intfs@.subrange(0, i as int)),
        decreases intfs@.len() - i,
    {
        let eps = &intfs[i].endpoints;
        let mut a: usize = 0;
        while a < eps.len()
            invariant
                i < intfs@.len(),
                eps == intfs@[i as int].endpoints,
                a <= eps@.len(),
                endpoints_distinct(intfs@.subrange(0, i as int)),
                forall|a2: int| 0 <= a2 < a ==> #[trigger] eps@[a2].address & 0x7f != 0,
                forall|a2: int, j: int, b: int|
                    0 <= a2 < a && 0 <= j < i && 0 <= b < intfs@[j].endpoints@.len()
                        ==> #[trigger] eps@[a2].address != #[trigger] intfs@[j].endpoints@[b].address,
            decreases eps@.len() - a,
        {
            let e = eps[a].address;
            if e & 0x7f == 0 {
                proof {
                    assert(intfs@[i as int].endpoints@[a as int].address & 0x7f == 0);
                }
                return false;
            }
            if claimed_before(intfs, i, e) {
                proof {
                    let (j, b) = choose|j: int, b: int|
                        0 <= j < i && 0 <= b < intfs@[j].endpoints@.len()
                            && #[trigger] intfs@[j].endpoints@[b].address == e;
                    assert(intfs@[i as int].endpoints@[a as int].address
                        == intfs@[j].endpoints@[b].address);
                }
                return false;
            }
            a = a + 1;
        }
        proof {
            let prev = intfs@.subrange(0, i as int);
            let next = intfs@.subrange(0, i + 1);
            assert forall|x: int, y: int, p: int, q: int|
                0 <= x < next.len() && 0 <= y < next.len() && x != y && 0 <= p
                    < next[x].endpoints@.len() && 0 <= q < next[y].endpoints@.len()
                    implies #[trigger] next[x].endpoints@[p].address
                    != #[trigger] next[y].endpoints@[q].address by {
                if x < i && y < i {
                    assert(next[x] == prev[x] && next[y] == prev[y]);
                    assert(prev[x].endpoints@[p].address != prev[y].endpoints@[q].address);
                } else if x == i {
                    assert(eps@[p].address != intfs@[y].endpoints@[q].address);
                } else {
                    assert(eps@[q].address != intfs@[x].endpoints@[p].address);
                }
            }
            assert forall|x: int, p: int|
                0 <= x < next.len() && 0 <= p < next[x].endpoints@.len()
                    implies #[trigger] next[x].endpoints@[p].address & 0x7f != 0 by {
                if x < i {
                    assert(next[x] == prev[x]);
                } else {
                    assert(eps@[p].address & 0x7f != 0);
                }
            }
        }
        i = i + 1;
    }
    assert(intfs@.subrange(0, intfs@.len() as int) =~= intfs@);
    true
}

impl UsbDevice {
    /// Whether this device satisfies `wf`.
    pub fn check_wf(&self) -> (r: bool)
        ensures
            r == self.wf(),
    {
        self.interfaces.len() < 256 && self.string_pool.len() < 256 && check_endpoints(
            &self.interfaces,
        )
    }
}

/// Endpoint lookup resolves to one interface: two interfaces that both own
/// address `e` of a well-formed device are the same interface.
pub proof fn lemma_endpoint_owner_unique(d: UsbDevice, e: u8, i: int, j: int)
    requires
        d.wf(),
        owns_ep(d.interfaces@, i, e),
        owns_ep(d.interfaces@, j, e),
    ensures
        i == j,
{
    let a = choose|a: int|
        0 <= a < d.interfaces@[i].endpoints@.len() && #[trigger] d.interfaces@[i].endpoints@[a].address
            == e;
    let b = choose|b: int|
        0 <= b < d.interfaces@[j].endpoints@.len() && #[trigger] d.interfaces@[j].endpoints@[b].address
            == e;
    if i != j {
        assert(d.interfaces@[i].endpoints@[a].address != d.interfaces@[j].endpoints@[b].address);
    }
}


/// The integer fields of a device summary record.
#[derive(Clone, Copy, Debug, PartialEq, Eq, Structural)]
pub struct SummaryFields {
    pub bus_num: u32,
    pub dev_num: u32,
    pub speed: u32,
    pub vendor_id: u16,
    pub product_id: u16,
    pub device_bcd: u16,
    pub device_class: u8,
    pub device_subclass: u8,
    pub device_protocol: u8,
    pub configuration_value: u8,
    pub num_configurations: u8,
    pub num_interfaces: u8,
}

/// A device summary record: a 256-byte path, a 32-byte bus id, then the
/// integer fields, 312 bytes in all.
pub open spec fn summary_bytes(path: Seq<u8>, bus_id: Seq<u8>, f: SummaryFields) -> Seq<u8> {
    padded(path, 256) + padded(bus_id, 32) + be32(f.bus_num) + be32(f.dev_num) + be32(f.speed)
        + be16(f.vendor_id) + be16(f.product_id) + be16(f.device_bcd) + seq![
        f.device_class,
        f.device_subclass,
        f.device_protocol,
        f.configuration_value,
        f.num_configurations,
        f.num_interfaces,
    ]
}

pub open spec fn parse_summary(s: Seq<u8>) -> (Seq<u8>, Seq<u8>, SummaryFields) {
    (
        s.subrange(0, 256),
        s.subrange(256, 288),
        SummaryFields {
            bus_num: be32_at(s, 288),
            dev_num: be32_at(s, 292),
            speed: be32_at(s, 296),
            vendor_id: be16_at(s, 300),
            product_id: be16_at(s, 302),
            device_bcd: be16_at(s, 304),
            device_class: s[306],
            device_subclass: s[307],
            device_protocol: s[308],
            configuration_value: s[309],
            num_configurations: s[310],
            num_interfaces: s[311],
        },
    )
}

/// A decoded device summary record.
#[derive(Clone, Debug)]
pub struct DeviceSummary {
    pub path: Vec<u8>,
    pub bus_id: Vec<u8>,
    pub fields: SummaryFields,
}

impl DeviceSummary {
    pub fn decode(b: &[u8]) -> (r: Option<DeviceSummary>)
        ensures
            r is Some <==> b@.len() >= 312,
            r matches Some(d) ==> (d.path@, d.bus_id@, d.fields) == parse_summary(b@),
    {
        if b.len() < 312 {
            return None;
        }
        let fields = SummaryFields {
            bus_num: read_be32(b, 288),
            dev_num: read_be32(b, 292),
            speed: read_be32(b, 296),
            vendor_id: read_be16(b, 300),
            product_id: read_be16(b, 302),
            device_bcd: read_be16(b, 304),
            device_class: b[306],
            device_subclass: b[307],
            device_protocol: b[308],
            configuration_value: b[309],
            num_configurations: b[310],
            num_interfaces: b[311],
        };
        Some(DeviceSummary { path: copy_range(b, 0, 256), bus_id: copy_range(b, 256, 288), fields })
    }
}

/// Decoding an encoded summary record gives back its fields; the record is
/// 312 bytes long.
pub proof fn lemma_summary_round_trip(path: Seq<u8>, bus_id: Seq<u8>, f: SummaryFields)
    requires
        path.len() == 256,
        bus_id.len() == 32,
    ensures
        summary_bytes(path, bus_id, f).len() == 312,
        parse_summary(summary_bytes(path, bus_id, f)) == (path, bus_id, f),
{
    let s = summary_bytes(path, bus_id, f);
    assert(s.subrange(0, 256) =~= path);
    assert(s.subrange(256, 288) =~= bus_id);
    assert(s.subrange(288, 292) =~= be32(f.bus_num));
    assert(s.subrange(292, 296) =~= be32(f.dev_num));
    assert(s.subrange(296, 300) =~= be32(f.speed));
    assert(s.subrange(300, 302) =~= be16(f.vendor_id));
    assert(s.subrange(302, 304) =~= be16(f.product_id));
    assert(s.subrange(304, 306) =~= be16(f.device_bcd));
    lemma_be32_in(f.bus_num, s, 288);
    lemma_be32_in(f.dev_num, s, 292);
    lemma_be32_in(f.speed, s, 296);
    lemma_be16_in(f.vendor_id, s, 300);
    lemma_be16_in(f.product_id, s, 302);
    lemma_be16_in(f.device_bcd, s, 304);
}

/// The DEVLIST record of one interface.
pub open spec fn interface_summary(i: UsbInterface) -> InterfaceSummary {
    InterfaceSummary {
        class: i.interface_class,
        subclass: i.interface_subclass,
        protocol: i.interface_protocol,
    }
}

/// The DEVLIST records of `intfs`, in order.
pub open spec fn interface_records(intfs: Seq<UsbInterface>) -> Seq<u8>
    decreases intfs.len(),
{
    if intfs.len() == 0 {
        Seq::empty()
    } else {
        interface_records(intfs.drop_last()) + interface_summary_bytes(
            interface_summary(intfs.last()),
        )
    }
}

impl UsbDevice {
    pub open spec fn summary_fields(&self) -> SummaryFields {
        SummaryFields {
            bus_num: self.bus_num,
            dev_num: self.dev_num,
            speed: self.speed,
            vendor_id: self.vendor_id,
            product_id: self.product_id,
            device_bcd: self.device_bcd,
            device_class: self.device_class,
            device_subclass: self.device_subclass,
            device_protocol: self.device_protocol,
            configuration_value: self.configuration_value,
            num_configurations: self.num_configurations,
            num_interfaces: self.interfaces@.len() as u8,
        }
    }

    /// The summary record of this device.
    pub open spec fn summary(&self) -> Seq<u8> {
        summary_bytes(self.path@, self.bus_id@, self.summary_fields())
    }

    /// The DEVLIST entry of this device: its summary, then one record per interface.
    pub open spec fn devlist_entry(&self) -> Seq<u8> {
        self.summary() + interface_records(self.interfaces@)
    }

    /// Writes the summary record of this device.
    pub fn write_dev(&self, out: &mut Vec<u8>)
        ensures
            final(out)@ == old(out)@ + self.summary(),
    {
        let ghost start = out@;
        push_padded(out, self.path.as_slice(), 256);
        push_padded(out, self.bus_id.as_slice(), 32);
        push_be32(out, self.bus_num);
        push_be32(out, self.dev_num);
        push_be32(out, self.speed);
        push_be16(out, self.vendor_id);
        push_be16(out, self.product_id);
        push_be16(out, self.device_bcd);
        out.push(self.device_class);
        out.push(self.device_subclass);
        out.push(self.device_protocol);
        out.push(self.configuration_value);
        out.push(self.num_configurations);
        out.push(self.interfaces.len() as u8);
        assert(out@ =~= start + self.summary());
    }

    /// Writes the summary record of this device and one record per interface.
    pub fn write_dev_with_interfaces(&self, out: &mut Vec<u8>)
        ensures
            final(out)@ == old(out)@ + self.devlist_entry(),
    {
        let ghost start = out@;
        self.write_dev(out);
        let mut i: usize = 0;
        while i < self.interfaces.len()
            invariant
                i <= self.interfaces@.len(),
                out@ == start + self.summary() + interface_records(
                    self.interfaces@.subrange(0, i as int),
                ),
            decreases self.interfaces@.len() - i,
        {
            let intf = &self.interfaces[i];
            let rec = InterfaceSummary {
                class: intf.interface_class,
                subclass: intf.interface_subclass,
                protocol: intf.interface_protocol,
            };
            rec.write(out);
            i = i + 1;
            proof {
                let sub = self.interfaces@.subrange(0, i as int);
                assert(sub.drop_last() =~= self.interfaces@.subrange(0, i - 1));
                assert(out@ =~= start + self.summary() + interface_records(sub));
            }
        }
        assert(self.interfaces@.subrange(0, self.interfaces@.len() as int) =~= self.interfaces@);
    }
}

} // verus!
