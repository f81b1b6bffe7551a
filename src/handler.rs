//! The interface-handler contract and the CDC-ACM reference handler.

use vstd::prelude::*;
use crate::codec::SetupPacket;
use crate::device::{UsbEndpoint, EP_BULK, EP_INTERRUPT};

verus! {

/// Behaviour of one interface. For IN endpoints the returned bytes are
/// delivered to the client; for OUT endpoints `req` is consumed and the
/// result is empty.
pub trait UsbInterfaceHandler {
    fn handle_urb(&mut self, ep: UsbEndpoint, setup: SetupPacket, req: &[u8]) -> Vec<u8>;
}

/// Subclass code of CDC ACM.
pub const CDC_ACM_SUBCLASS: u8 = 0x02;

/// A CDC ACM (virtual serial port) interface: bytes queued in `tx_buffer`
/// are delivered on the next bulk IN transfer.
#[derive(Clone, Debug)]
pub struct UsbCdcAcmHandler {
    pub tx_buffer: Vec<u8>,
}

/// What a CDC ACM interface answers on endpoint `ep` with queued bytes `tx`,
/// and the queue after it: bulk IN drains the queue, everything else
/// answers nothing.
pub open spec fn cdc_acm_spec(ep: UsbEndpoint, tx: Seq<u8>) -> (Seq<u8>, Seq<u8>) {
    if ep.address & 0x7f != 0 && ep.address >= 0x80 && ep.attributes != EP_INTERRUPT {
        (tx, Seq::empty())
    } else {
        (Seq::empty(), tx)
    }
}

impl UsbCdcAcmHandler {
    pub fn new() -> (r: UsbCdcAcmHandler)
        ensures
            r.tx_buffer@.len() == 0,
    {
        UsbCdcAcmHandler { tx_buffer: Vec::new() }
    }

    /// The three endpoints of the interface: interrupt IN for notifications,
    /// then bulk IN and bulk OUT.
    pub fn endpoints() -> (r: Vec<UsbEndpoint>)
        ensures
            r@ == seq![
                UsbEndpoint { address: 0x81, attributes: EP_INTERRUPT, max_packet_size: 8, interval: 10 },
                UsbEndpoint { address: 0x82, attributes: EP_BULK, max_packet_size: 512, interval: 0 },
                UsbEndpoint { address: 0x02, attributes: EP_BULK, max_packet_size: 512, interval: 0 },
            ],
    {
        let mut v: Vec<UsbEndpoint> = Vec::new();
        v.push(UsbEndpoint { address: 0x81, attributes: EP_INTERRUPT, max_packet_size: 8, interval: 10 });
        v.push(UsbEndpoint { address: 0x82, attributes: EP_BULK, max_packet_size: 512, interval: 0 });
        v.push(UsbEndpoint { address: 0x02, attributes: EP_BULK, max_packet_size: 512, interval: 0 });
        assert(v@ =~= seq![
            UsbEndpoint { address: 0x81, attributes: EP_INTERRUPT, max_packet_size: 8, interval: 10 },
            UsbEndpoint { address: 0x82, attributes: EP_BULK, max_packet_size: 512, interval: 0 },
            UsbEndpoint { address: 0x02, attributes: EP_BULK, max_packet_size: 512, interval: 0 },
        ]);
        v
    }

    /// Serves one URB on endpoint `ep`.
    pub fn serve(&mut self, ep: UsbEndpoint) -> (r: Vec<u8>)
        ensures
            (r@, final(self).tx_buffer@) == cdc_acm_spec(ep, old(self).tx_buffer@),
    {
        if ep.address & 0x7f != 0 && ep.address >= 0x80 && ep.attributes != EP_INTERRUPT {
            let mut resp: Vec<u8> = Vec::new();
            std::mem::swap(&mut resp, &mut self.tx_buffer);
            resp
        } else {
            Vec::new()
        }
    }
}

impl UsbInterfaceHandler for UsbCdcAcmHandler {
    fn handle_urb(&mut self, ep: UsbEndpoint, _setup: SetupPacket, _req: &[u8]) -> Vec<u8> {
        self.serve(ep)
    }
}

} // verus!
