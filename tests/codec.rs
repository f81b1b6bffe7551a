use usbip::codec::{
    CmdSubmit, CmdUnlink, InterfaceSummary, OpHeader, RetSubmit, RetUnlink, SetupPacket,
};
use usbip::device::DeviceSummary;
use usbip::urb::complete_submit;
use usbip::UsbDevice;

fn sample_cmd(direction: u32) -> CmdSubmit {
    CmdSubmit {
        seq_num: 0x01020304,
        dev_id: 0x00010002,
        direction,
        ep: 2,
        transfer_flags: 0x200,
        transfer_buffer_length: 5,
        start_frame: 7,
        number_of_packets: 0xffffffff,
        interval: 8,
        setup: SetupPacket { request_type: 0x21, request: 0x20, value: 0x1234, index: 0xabcd, length: 7 },
    }
}

#[test]
fn cmd_submit_round_trip() {
    let c = sample_cmd(1);
    let b = c.encode();
    assert_eq!(b.len(), 48);
    assert_eq!(&b[0..8], &[0, 0, 0, 1, 1, 2, 3, 4]);
    // setup fields are little-endian
    assert_eq!(&b[40..48], &[0x21, 0x20, 0x34, 0x12, 0xcd, 0xab, 7, 0]);
    assert_eq!(CmdSubmit::decode(&b), Some(c));
}

#[test]
fn cmd_submit_decode_rejects_other_command() {
    let mut b = sample_cmd(0).encode();
    b[3] = 2;
    assert_eq!(CmdSubmit::decode(&b), None);
    assert_eq!(CmdSubmit::decode(&b[..47]), None);
}

#[test]
fn ret_submit_round_trip() {
    let r = RetSubmit {
        seq_num: 9,
        dev_id: 1,
        direction: 1,
        ep: 3,
        status: 0xffffffe0,
        actual_length: 12,
        start_frame: 4,
        number_of_packets: 5,
        error_count: 6,
    };
    let b = r.encode();
    assert_eq!(b.len(), 48);
    assert_eq!(&b[0..4], &[0, 0, 0, 3]);
    assert!(b[40..].iter().all(|&x| x == 0));
    assert_eq!(RetSubmit::decode(&b), Some(r));
}

#[test]
fn unlink_round_trips() {
    let c = CmdUnlink { seq_num: 3, dev_id: 4, direction: 0, ep: 1, seq_num_submit: 2 };
    let b = c.encode();
    assert_eq!(b.len(), 48);
    assert_eq!(CmdUnlink::decode(&b), Some(c));
    let r = RetUnlink { seq_num: 3, dev_id: 0, direction: 0, ep: 0, status: 0 };
    let b = r.encode();
    assert_eq!(b.len(), 48);
    assert_eq!(&b[0..4], &[0, 0, 0, 4]);
    assert_eq!(RetUnlink::decode(&b), Some(r));
}

#[test]
fn op_header_round_trip() {
    let h = OpHeader { version: 0x0111, code: 0x8005, status: 0 };
    let b = h.encode();
    assert_eq!(b, vec![0x01, 0x11, 0x80, 0x05, 0, 0, 0, 0]);
    assert_eq!(OpHeader::decode(&b), Some(h));
}

#[test]
fn interface_summary_round_trip() {
    let i = InterfaceSummary { class: 2, subclass: 2, protocol: 1 };
    let mut b = Vec::new();
    i.write(&mut b);
    assert_eq!(b, vec![2, 2, 1, 0]);
    assert_eq!(InterfaceSummary::decode(&b), Some(i));
}

#[test]
fn device_summary_round_trip() {
    let mut d = UsbDevice::new(3);
    d.vendor_id = 0x1d6b;
    d.product_id = 0x0104;
    let mut b = Vec::new();
    d.write_dev(&mut b);
    assert_eq!(b.len(), 312);
    let s = DeviceSummary::decode(&b).unwrap();
    let mut path = b"/sys/device/usbip/3".to_vec();
    path.resize(256, 0);
    assert_eq!(s.path, path);
    let mut bus_id = b"3".to_vec();
    bus_id.resize(32, 0);
    assert_eq!(s.bus_id, bus_id);
    assert_eq!(s.fields.dev_num, 3);
    assert_eq!(s.fields.speed, 3);
    assert_eq!(s.fields.vendor_id, 0x1d6b);
    assert_eq!(s.fields.product_id, 0x0104);
    assert_eq!(s.fields.num_interfaces, 0);
}

#[test]
fn in_reply_carries_payload() {
    let c = sample_cmd(1);
    let r = complete_submit(&c, &[9, 8, 7, 6]);
    assert_eq!(r.len(), 48 + 4);
    assert_eq!(&r[24..28], &[0, 0, 0, 4]);
    assert_eq!(&r[48..], &[9, 8, 7, 6]);
}

#[test]
fn out_reply_reports_requested_length() {
    let c = sample_cmd(0);
    let r = complete_submit(&c, &[1, 2]);
    assert_eq!(r.len(), 48);
    assert_eq!(&r[24..28], &[0, 0, 0, 5]);
}
