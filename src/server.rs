//! The registry of exported devices and the pause protocol that lets the
//! device list change while connections are live.

use vstd::prelude::*;
use crate::device::{padded, push_padded, UsbDevice};

verus! {

/// The 32-byte wire field that identifies `d`: its bus id cut or zero-padded.
pub open spec fn wire_key(d: UsbDevice) -> Seq<u8> {
    padded(d.bus_id@, 32)
}

/// Every device is well formed and no two share a bus id.
pub open spec fn devices_wf(devs: Seq<UsbDevice>) -> bool {
    &&& forall|i: int| 0 <= i < devs.len() ==> (#[trigger] devs[i]).wf()
    &&& forall|i: int, j: int|
        0 <= i < devs.len() && 0 <= j < devs.len() && i != j ==> (#[trigger] devs[i]).bus_id@
            != (#[trigger] devs[j]).bus_id@
}

/// Device `i` is the first whose wire bus id is `key`.
pub open spec fn first_with_key(devs: Seq<UsbDevice>, key: Seq<u8>, i: int) -> bool {
    &&& 0 <= i < devs.len()
    &&& wire_key(devs[i]) == key
    &&& forall|j: int| 0 <= j < i ==> wire_key(#[trigger] devs[j]) != key
}

/// The index of the first device whose wire bus id is `key`, if there is one.
pub open spec fn device_with_key(devs: Seq<UsbDevice>, key: Seq<u8>) -> Option<nat> {
    if exists|i: int| first_with_key(devs, key, i) {
        Some((choose|i: int| first_with_key(devs, key, i)) as nat)
    } else {
        None
    }
}

/// Whether some device of `devs` has bus id `id`.
pub open spec fn has_bus_id(devs: Seq<UsbDevice>, id: Seq<u8>) -> bool {
    exists|i: int| 0 <= i < devs.len() && (#[trigger] devs[i]).bus_id@ == id
}

/// Why a device could not be added.
#[derive(Clone, Copy, Debug, PartialEq, Eq, Structural)]
pub enum RegistryError {
    /// A device with the same bus id is exported already.
    DuplicateBusId,
}

/// The state of a USB/IP server: the exported devices and whether a
/// mutation of them is in progress.
#[derive(Debug)]
pub struct UsbIpServer {
    devices: Vec<UsbDevice>,
    paused: bool,
}

/// Whether `a` and `b` hold the same bytes.
pub fn bytes_eq(a: &[u8], b: &[u8]) -> (r: bool)
    ensures
        r == (a@ == b@),
{
    if a.len() != b.len() {
        return false;
    }
    let mut i: usize = 0;
    while i < a.len()
        invariant
            a@.len() == b@.len(),
            i <= a@.len(),
            forall|k: int| 0 <= k < i ==> a@[k] == b@[k],
        decreases a@.len() - i,
    {
        if a[i] != b[i] {
            return false;
        }
        i = i + 1;
    }
    assert(a@ =~= b@);
    true
}

/// The wire bus id of `d`.
pub fn wire_key_of(d: &UsbDevice) -> (r: Vec<u8>)
    ensures
        r@ == wire_key(*d),
{
    let mut k: Vec<u8> = Vec::new();
    push_padded(&mut k, d.bus_id.as_slice(), 32);
    assert(k@ =~= wire_key(*d));
    k
}

impl UsbIpServer {
    pub open spec fn wf(&self) -> bool {
        &&& devices_wf(self.spec_devices())
        &&& self.spec_devices().len() < usize::MAX
    }

    pub closed spec fn spec_devices(&self) -> Seq<UsbDevice> {
        self.devices@
    }

    /// Whether a mutation of the device list is in progress.
    pub closed spec fn spec_paused(&self) -> bool {
        self.paused
    }

    /// A server that exports no device.
    pub fn new() -> (r: UsbIpServer)
        ensures
            r.wf(),
            r.spec_devices().len() == 0,
            !r.spec_paused(),
    {
        UsbIpServer { devices: Vec::new(), paused: false }
    }

    /// A server that exports `devices`, which must be well formed and carry
    /// distinct bus ids.
    pub fn new_simulated(devices: Vec<UsbDevice>) -> (r: UsbIpServer)
        requires
            devices_wf(devices@),
            devices@.len() < usize::MAX,
        ensures
            r.wf(),
            r.spec_devices() == devices@,
            !r.spec_paused(),
    {
        UsbIpServer { devices, paused: false }
    }

    /// The exported devices, in order.
    pub fn devices(&self) -> (r: &Vec<UsbDevice>)
        ensures
            r@ == self.spec_devices(),
    {
        &self.devices
    }

    /// The number of parties of the pause rendezvous: one per exported
    /// device and one for the mutator.
    pub fn barrier_size(&self) -> (r: usize)
        requires
            self.wf(),
        ensures
            r == self.spec_devices().len() + 1,
    {
        self.devices.len() + 1
    }

    /// Whether a connection must stop at the rendezvous before it reads its
    /// next command: exactly while a mutation is in progress.
    pub fn should_stop_for_control(&self) -> (r: bool)
        ensures
            r == self.spec_paused(),
    {
        self.paused
    }

    /// Starts a mutation: from now on no connection reads a new command.
    pub fn pause_sockets(&mut self)
        ensures
            final(self).spec_paused(),
            final(self).spec_devices() == old(self).spec_devices(),
            final(self).wf() == old(self).wf(),
    {
        self.paused = true;
    }

    /// Ends a mutation: connections may read commands again.
    pub fn resume_sockets(&mut self)
        ensures
            !final(self).spec_paused(),
            final(self).spec_devices() == old(self).spec_devices(),
            final(self).wf() == old(self).wf(),
    {
        self.paused = false;
    }

    /// The index of the first device whose wire bus id is `key`.
    pub fn find_device(&self, key: &[u8]) -> (r: Option<usize>)
        requires
            self.wf(),
        ensures
            r matches Some(i) ==> device_with_key(self.spec_devices(), key@) == Some(i as nat),
            r is None ==> device_with_key(self.spec_devices(), key@) is None,
    {
        let mut i: usize = 0;
        while i < self.devices.len()
            invariant
                self.wf(),
                i <= self.devices@.len(),
                forall|j: int| 0 <= j < i ==> wire_key(#[trigger] self.devices@[j]) != key@,
            decreases self.devices@.len() - i,
        {
            let k = wire_key_of(&self.devices[i]);
            if bytes_eq(k.as_slice(), key) {
                proof {
                    let devs = self.devices@;
                    assert(first_with_key(devs, key@, i as int));
                    let j = choose|j: int| first_with_key(devs, key@, j);
                    if j < i {
                        assert(wire_key(devs[j]) != key@);
                    } else if j > i {
                        assert(wire_key(devs[i as int]) != key@);
                    }
                }
                return Some(i);
            }
            i = i + 1;
        }
        None
    }

    /// The index of the device whose bus id is `id`.
    pub fn position_of(&self, id: &[u8]) -> (r: Option<usize>)
        requires
            self.wf(),
        ensures
            r matches Some(i) ==> i < self.spec_devices().len() && self.spec_devices()[i as int].bus_id@
                == id@,
            r is None ==> !has_bus_id(self.spec_devices(), id@),
    {
        let mut i: usize = 0;
        while i < self.devices.len()
            invariant
                self.wf(),
                i <= self.devices@.len(),
                forall|j: int| 0 <= j < i ==> (#[trigger] self.devices@[j]).bus_id@ != id@,
            decreases self.devices@.len() - i,
        {
            if bytes_eq(self.devices[i].bus_id.as_slice(), id) {
                return Some(i);
            }
            i = i + 1;
        }
        None
    }

    /// Adds `device` while a mutation is in progress. Fails, changing
    /// nothing, when a device with the same bus id is exported already.
    pub fn add_device(&mut self, device: UsbDevice) -> (r: Result<(), RegistryError>)
        requires
            old(self).wf(),
            old(self).spec_paused(),
            device.wf(),
            old(self).spec_devices().len() + 1 < usize::MAX,
        ensures
            final(self).wf(),
            final(self).spec_paused(),
            r is Err <==> has_bus_id(old(self).spec_devices(), device.bus_id@),
            r is Err ==> final(self).spec_devices() == old(self).spec_devices(),
            r is Ok ==> final(self).spec_devices() == old(self).spec_devices().push(device),
    {
        if self.position_of(device.bus_id.as_slice()).is_some() {
            return Err(RegistryError::DuplicateBusId);
        }
        let ghost before = self.devices@;
        self.devices.push(device);
        proof {
            let devs = self.devices@;
            assert forall|i: int, j: int|
                0 <= i < devs.len() && 0 <= j < devs.len() && i != j implies (#[trigger] devs[i]).bus_id@
                != (#[trigger] devs[j]).bus_id@ by {
                if i == before.len() {
                    assert(devs[j] == before[j]);
                    assert(before[j].bus_id@ != device.bus_id@);
                } else if j == before.len() {
                    assert(devs[i] == before[i]);
                    assert(before[i].bus_id@ != device.bus_id@);
                } else {
                    assert(devs[i] == before[i] && devs[j] == before[j]);
                }
            }
            assert forall|i: int| 0 <= i < devs.len() implies (#[trigger] devs[i]).wf() by {
                if i < before.len() {
                    assert(devs[i] == before[i]);
                }
            }
        }
        Ok(())
    }

    /// Removes, while a mutation is in progress, the device whose bus id is
    /// that of `device`; nothing happens when there is none.
    pub fn remove_device(&mut self, device: &UsbDevice)
        requires
            old(self).wf(),
            old(self).spec_paused(),
        ensures
            final(self).wf(),
            final(self).spec_paused(),
            forall|i: int|
                0 <= i < old(self).spec_devices().len() && (#[trigger] old(
                    self,
                ).spec_devices()[i]).bus_id@ == device.bus_id@ ==> final(self).spec_devices()
                    == old(self).spec_devices().remove(i),
            !has_bus_id(old(self).spec_devices(), device.bus_id@) ==> final(self).spec_devices()
                == old(self).spec_devices(),
    {
        match self.position_of(device.bus_id.as_slice()) {
            None => {},
            Some(i) => {
                let ghost before = self.devices@;
                self.devices.remove(i);
                proof {
                    let devs = self.devices@;
                    assert forall|a: int, b: int|
                        0 <= a < devs.len() && 0 <= b < devs.len() && a != b implies (
                        #[trigger] devs[a]).bus_id@ != (#[trigger] devs[b]).bus_id@ by {
                        let a2 = if a < i {
                            a
                        } else {
                            a + 1
                        };
                        let b2 = if b < i {
                            b
                        } else {
                            b + 1
                        };
                        assert(devs[a] == before[a2] && devs[b] == before[b2]);
                    }
                    assert forall|a: int| 0 <= a < devs.len() implies (#[trigger] devs[a]).wf() by {
                        let a2 = if a < i {
                            a
                        } else {
                            a + 1
                        };
                        assert(devs[a] == before[a2]);
                    }
                    assert forall|j: int|
                        0 <= j < before.len() && (#[trigger] before[j]).bus_id@
                            == device.bus_id@ implies j == i by {
                        if j != i {
                            assert(before[j].bus_id@ != before[i as int].bus_id@);
                        }
                    }
                }
            },
        }
    }
}

impl Default for UsbIpServer {
    fn default() -> (r: UsbIpServer)
        ensures
            r.wf(),
            r.spec_devices().len() == 0,
            !r.spec_paused(),
    {
        UsbIpServer::new()
    }
}

/// Every sequence of additions and removals keeps the bus ids of the
/// exported devices pairwise distinct.
pub proof fn lemma_bus_ids_distinct(s: UsbIpServer, i: int, j: int)
    requires
        s.wf(),
        0 <= i < s.spec_devices().len(),
        0 <= j < s.spec_devices().len(),
        i != j,
    ensures
        s.spec_devices()[i].bus_id@ != s.spec_devices()[j].bus_id@,
{
}

} // verus!
