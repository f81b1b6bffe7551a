use usbip::codec::{CmdSubmit, SetupPacket};
use usbip::device::CLASS_CDC;
use usbip::urb::complete_submit;
use usbip::{
    Connection, Step, UrbRoute, UsbCdcAcmHandler, UsbDevice, UsbIpServer, CDC_ACM_SUBCLASS,
};

/// Feeds `input` to one connection until it needs more bytes or closes;
/// URBs routed to a handler are answered with an empty response.
fn run(server: &UsbIpServer, input: &[u8]) -> Vec<u8> {
    let mut conn = Connection::new();
    let mut pos = 0;
    let mut out = Vec::new();
    loop {
        match conn.step(server, &input[pos..]) {
            Step::NeedMore(_) | Step::Close => break,
            Step::Reply { consumed, output } => {
                out.extend(output);
                pos += consumed;
            }
            Step::Submit { consumed, cmd, route, .. } => {
                match route {
                    UrbRoute::Reply(v) | UrbRoute::Configure { reply: v, .. } => out.extend(v),
                    _ => out.extend(complete_submit(&cmd, &[])),
                }
                pos += consumed;
            }
        }
    }
    out
}

fn cdc_device(index: u32) -> UsbDevice {
    UsbDevice::new(index).with_interface(
        CLASS_CDC,
        CDC_ACM_SUBCLASS,
        0x00,
        "Test CDC ACM",
        UsbCdcAcmHandler::endpoints(),
    )
}

fn import_request(bus_id: &str) -> Vec<u8> {
    let mut req = vec![0x01, 0x11, 0x80, 0x03, 0x00, 0x00, 0x00, 0x00];
    let mut path = bus_id.as_bytes().to_vec();
    path.resize(32, 0);
    req.extend(path);
    req
}

#[test]
fn req_empty_devlist() {
    let server: UsbIpServer = Default::default();
    let out = run(&server, &[0x01, 0x11, 0x80, 0x05, 0x00, 0x00, 0x00, 0x00]);
    assert_eq!(
        out,
        [0x01, 0x11, 0x00, 0x05, 0x00, 0x00, 0x00, 0x00, 0x00, 0x00, 0x00, 0x00]
    );
}

#[test]
fn req_sample_devlist() {
    let server = UsbIpServer::new_simulated(vec![cdc_device(0)]);
    let out = run(&server, &[0x01, 0x11, 0x80, 0x05, 0x00, 0x00, 0x00, 0x00]);
    // header: 0xC, device: 0x138, interface: 4 * 0x1
    assert_eq!(out.len(), 0xC + 0x138 + 4 * 0x1);
    assert_eq!(&out[0..4], &[0x01, 0x11, 0x00, 0x05]);
}

#[test]
fn req_import() {
    let server = UsbIpServer::new_simulated(vec![cdc_device(0)]);
    let out = run(&server, &import_request("0"));
    assert_eq!(out.len(), 0x140);
}

#[test]
fn req_import_get_device_desc() {
    let server = UsbIpServer::new_simulated(vec![cdc_device(0)]);
    let mut req = import_request("0");
    req.extend(vec![
        0x00, 0x00, 0x00, 0x01, // command
        0x00, 0x00, 0x00, 0x01, // seq num
        0x00, 0x00, 0x00, 0x00, // dev id
        0x00, 0x00, 0x00, 0x01, // IN
        0x00, 0x00, 0x00, 0x00, // ep 0
        0x00, 0x00, 0x00, 0x00, // transfer flags
        0x00, 0x00, 0x00, 0x00, // transfer buffer length
        0x00, 0x00, 0x00, 0x00, // start frame
        0x00, 0x00, 0x00, 0x00, // number of packets
        0x00, 0x00, 0x00, 0x00, // interval
        0x80, 0x06, 0x00, 0x01, 0x00, 0x00, 0x40, 0x00, // GetDescriptor to Device
    ]);
    let out = run(&server, &req);
    assert_eq!(out.len(), 0x140 + 0x30 + 0x12);
    // the device descriptor follows the RET_SUBMIT header
    assert_eq!(out[0x170], 18);
    assert_eq!(out[0x171], 1);
    // actual_length is 18
    assert_eq!(&out[0x140 + 24..0x140 + 28], &[0, 0, 0, 18]);
}

#[test]
fn import_miss_replies_status_one() {
    let server = UsbIpServer::new_simulated(vec![cdc_device(0)]);
    let out = run(&server, &import_request("7"));
    assert_eq!(out, vec![0x01, 0x11, 0x00, 0x03, 0x00, 0x00, 0x00, 0x01]);
}

#[test]
fn unlink_is_acknowledged() {
    let server = UsbIpServer::new_simulated(vec![cdc_device(0)]);
    let mut req = import_request("0");
    let mut unlink = vec![0, 0, 0, 2, 0, 0, 0x12, 0x34, 0, 0, 0, 0, 0, 0, 0, 0, 0, 0, 0, 0];
    unlink.extend([0, 0, 0, 9]);
    unlink.extend([0u8; 24]);
    req.extend(unlink);
    let out = run(&server, &req);
    assert_eq!(out.len(), 0x140 + 48);
    let reply = &out[0x140..];
    assert_eq!(&reply[0..4], &[0, 0, 0, 4]);
    assert_eq!(&reply[4..8], &[0, 0, 0x12, 0x34]);
    assert_eq!(&reply[20..24], &[0, 0, 0, 0]);
    assert!(reply[24..].iter().all(|&b| b == 0));
}

#[test]
fn unknown_op_code_closes() {
    let server: UsbIpServer = Default::default();
    let mut conn = Connection::new();
    let step = conn.step(&server, &[0x01, 0x11, 0x80, 0x07, 0, 0, 0, 0]);
    assert!(matches!(step, Step::Close));
}

#[test]
fn submit_before_import_closes() {
    let server: UsbIpServer = Default::default();
    let mut conn = Connection::new();
    let step = conn.step(&server, &[0, 0, 0, 1]);
    assert!(matches!(step, Step::Close));
}

#[test]
fn short_input_asks_for_more() {
    let server: UsbIpServer = Default::default();
    let mut conn = Connection::new();
    assert!(matches!(conn.step(&server, &[0x01, 0x11]), Step::NeedMore(4)));
    assert!(matches!(conn.step(&server, &[0x01, 0x11, 0x80, 0x03]), Step::NeedMore(40)));
}

fn submit(seq: u32, direction: u32, ep: u32, len: u32, setup: [u8; 8]) -> Vec<u8> {
    let c = CmdSubmit {
        seq_num: seq,
        dev_id: 0,
        direction,
        ep,
        transfer_flags: 0,
        transfer_buffer_length: len,
        start_frame: 0,
        number_of_packets: 0,
        interval: 0,
        setup: SetupPacket::parse(&setup),
    };
    c.encode()
}

#[test]
fn bulk_out_goes_to_owning_interface() {
    let server = UsbIpServer::new_simulated(vec![cdc_device(0)]);
    let mut conn = Connection::new();
    let req = import_request("0");
    assert!(matches!(conn.step(&server, &req), Step::Reply { consumed: 40, .. }));
    let mut cmd = submit(5, 0, 2, 3, [0; 8]);
    // incomplete OUT payload
    assert!(matches!(conn.step(&server, &cmd), Step::NeedMore(51)));
    cmd.extend([7, 8, 9]);
    match conn.step(&server, &cmd) {
        Step::Submit { consumed, cmd, device, route, out_data } => {
            assert_eq!(consumed, 51);
            assert_eq!(device, 0);
            assert_eq!(out_data, vec![7, 8, 9]);
            match route {
                UrbRoute::Interface { interface, endpoint, .. } => {
                    assert_eq!(interface, 0);
                    assert_eq!(endpoint.address, 0x02);
                }
                other => panic!("unexpected route {:?}", other),
            }
            let reply = complete_submit(&cmd, &[]);
            // OUT: actual_length is the requested length, no payload
            assert_eq!(reply.len(), 48);
            assert_eq!(&reply[24..28], &[0, 0, 0, 3]);
        }
        other => panic!("unexpected step {:?}", other),
    }
}

#[test]
fn unknown_endpoint_stalls() {
    let server = UsbIpServer::new_simulated(vec![cdc_device(0)]);
    let mut req = import_request("0");
    req.extend(submit(1, 1, 5, 64, [0; 8]));
    let out = run(&server, &req);
    assert_eq!(out.len(), 0x140 + 48);
    assert_ne!(&out[0x140 + 20..0x140 + 24], &[0, 0, 0, 0]);
}

#[test]
fn string_descriptor_zero_is_language_list() {
    let server = UsbIpServer::new_simulated(vec![cdc_device(0)]);
    let mut req = import_request("0");
    req.extend(submit(2, 1, 0, 255, [0x80, 0x06, 0x00, 0x03, 0x00, 0x00, 0xff, 0x00]));
    let out = run(&server, &req);
    assert_eq!(&out[0x140 + 48..], &[4, 3, 0x09, 0x04]);
}

#[test]
fn string_descriptor_is_utf16() {
    let server = UsbIpServer::new_simulated(vec![cdc_device(0)]);
    let mut req = import_request("0");
    // string 3 of a new device is "Product"
    req.extend(submit(2, 1, 0, 255, [0x80, 0x06, 0x03, 0x03, 0x09, 0x04, 0xff, 0x00]));
    let out = run(&server, &req);
    let mut expected = vec![16u8, 3];
    for u in "Product".encode_utf16() {
        expected.extend(u.to_le_bytes());
    }
    assert_eq!(&out[0x140 + 48..], &expected[..]);
}

#[test]
fn string_descriptor_encodes_surrogate_pairs() {
    let dev = UsbDevice::new(0).with_interface(
        CLASS_CDC,
        CDC_ACM_SUBCLASS,
        0x00,
        "a\u{1F600}\u{e9}",
        UsbCdcAcmHandler::endpoints(),
    );
    let server = UsbIpServer::new_simulated(vec![dev]);
    let mut req = import_request("0");
    // the interface name is string 5
    req.extend(submit(2, 1, 0, 255, [0x80, 0x06, 0x05, 0x03, 0x09, 0x04, 0xff, 0x00]));
    let out = run(&server, &req);
    let mut expected = vec![10u8, 3];
    for u in [0x0061u16, 0xd83d, 0xde00, 0x00e9] {
        expected.extend(u.to_le_bytes());
    }
    assert_eq!(&out[0x140 + 48..], &expected[..]);
}

#[test]
fn string_descriptor_out_of_range_stalls() {
    let server = UsbIpServer::new_simulated(vec![cdc_device(0)]);
    let mut req = import_request("0");
    req.extend(submit(2, 1, 0, 255, [0x80, 0x06, 0x09, 0x03, 0x09, 0x04, 0xff, 0x00]));
    let out = run(&server, &req);
    assert_eq!(out.len(), 0x140 + 48);
    assert_ne!(&out[0x140 + 20..0x140 + 24], &[0, 0, 0, 0]);
}

#[test]
fn configuration_descriptor_total_length() {
    let server = UsbIpServer::new_simulated(vec![cdc_device(0)]);
    let mut req = import_request("0");
    req.extend(submit(3, 1, 0, 0xffff, [0x80, 0x06, 0x00, 0x02, 0x00, 0x00, 0xff, 0xff]));
    let out = run(&server, &req);
    let desc = &out[0x140 + 48..];
    // 9 (configuration) + 9 (interface) + 3 * 7 (endpoints)
    assert_eq!(desc.len(), 39);
    assert_eq!(&desc[0..4], &[9, 2, 39, 0]);
    assert_eq!(desc[4], 1);
    assert_eq!(&desc[9..11], &[9, 4]);
}

#[test]
fn descriptor_is_capped_to_length() {
    let server = UsbIpServer::new_simulated(vec![cdc_device(0)]);
    let mut req = import_request("0");
    req.extend(submit(4, 1, 0, 8, [0x80, 0x06, 0x00, 0x01, 0x00, 0x00, 0x08, 0x00]));
    let out = run(&server, &req);
    assert_eq!(out.len(), 0x140 + 48 + 8);
}

#[test]
fn set_then_get_configuration() {
    let server = UsbIpServer::new_simulated(vec![cdc_device(0)]);
    let mut req = import_request("0");
    req.extend(submit(1, 0, 0, 0, [0x00, 0x09, 0x02, 0x00, 0x00, 0x00, 0x00, 0x00]));
    req.extend(submit(2, 1, 0, 1, [0x80, 0x08, 0x00, 0x00, 0x00, 0x00, 0x01, 0x00]));
    let out = run(&server, &req);
    assert_eq!(out.len(), 0x140 + 48 + 48 + 1);
    assert_eq!(out[out.len() - 1], 2);
}

#[test]
fn set_configuration_tells_device_handler() {
    let server = UsbIpServer::new_simulated(vec![cdc_device(0)]);
    let mut conn = Connection::new();
    assert!(matches!(conn.step(&server, &import_request("0")), Step::Reply { .. }));
    let cmd = submit(1, 0, 0, 0, [0x00, 0x09, 0x01, 0x00, 0x00, 0x00, 0x00, 0x00]);
    match conn.step(&server, &cmd) {
        Step::Submit { route: UrbRoute::Configure { setup, reply }, .. } => {
            assert_eq!(setup.request, 0x09);
            assert_eq!(reply.len(), 48);
        }
        other => panic!("unexpected step {:?}", other),
    }
}

#[test]
fn class_request_to_interface_goes_to_its_handler() {
    let server = UsbIpServer::new_simulated(vec![cdc_device(0)]);
    let mut conn = Connection::new();
    assert!(matches!(conn.step(&server, &import_request("0")), Step::Reply { .. }));
    // SET_CONTROL_LINE_STATE to interface 0
    let cmd = submit(1, 0, 0, 0, [0x21, 0x22, 0x03, 0x00, 0x00, 0x00, 0x00, 0x00]);
    match conn.step(&server, &cmd) {
        Step::Submit { route: UrbRoute::Interface { interface, endpoint, .. }, .. } => {
            assert_eq!(interface, 0);
            assert_eq!(endpoint.address, 0x00);
        }
        other => panic!("unexpected step {:?}", other),
    }
    // a class request to a missing interface stalls
    let cmd = submit(2, 0, 0, 0, [0x21, 0x22, 0x03, 0x00, 0x05, 0x00, 0x00, 0x00]);
    match conn.step(&server, &cmd) {
        Step::Submit { route: UrbRoute::Reply(r), .. } => assert_ne!(&r[20..24], &[0, 0, 0, 0]),
        other => panic!("unexpected step {:?}", other),
    }
}

#[test]
fn interface_get_status_goes_to_its_handler() {
    let server = UsbIpServer::new_simulated(vec![cdc_device(0)]);
    let mut conn = Connection::new();
    assert!(matches!(conn.step(&server, &import_request("0")), Step::Reply { .. }));
    let cmd = submit(1, 1, 0, 2, [0x81, 0x00, 0x00, 0x00, 0x00, 0x00, 0x02, 0x00]);
    assert!(matches!(
        conn.step(&server, &cmd),
        Step::Submit { route: UrbRoute::Interface { interface: 0, .. }, .. }
    ));
    // GET_STATUS of endpoint 0x82 goes to the interface that owns it
    let cmd = submit(2, 1, 0, 2, [0x82, 0x00, 0x00, 0x00, 0x82, 0x00, 0x02, 0x00]);
    assert!(matches!(
        conn.step(&server, &cmd),
        Step::Submit { route: UrbRoute::Interface { interface: 0, .. }, .. }
    ));
}

#[test]
fn get_status_is_two_zero_bytes() {
    let server = UsbIpServer::new_simulated(vec![cdc_device(0)]);
    let mut req = import_request("0");
    req.extend(submit(1, 1, 0, 2, [0x80, 0x00, 0x00, 0x00, 0x00, 0x00, 0x02, 0x00]));
    let out = run(&server, &req);
    assert_eq!(&out[0x140 + 48..], &[0, 0]);
}
