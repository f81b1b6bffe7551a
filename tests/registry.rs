use usbip::host::{bcd, HostDevice, HostInterface};
use usbip::device::{decimal_bytes, CLASS_CDC, EP_BULK, EP_INTERRUPT};
use usbip::{
    Connection, RegistryError, Step, UsbCdcAcmHandler, UsbDevice, UsbEndpoint, UsbIpServer,
    CDC_ACM_SUBCLASS,
};

fn cdc_device(index: u32) -> UsbDevice {
    UsbDevice::new(index).with_interface(
        CLASS_CDC,
        CDC_ACM_SUBCLASS,
        0x00,
        "Test CDC ACM",
        UsbCdcAcmHandler::endpoints(),
    )
}

fn device_count(server: &UsbIpServer) -> Vec<u8> {
    let mut conn = Connection::new();
    match conn.step(server, &[0x01, 0x11, 0x80, 0x05, 0, 0, 0, 0]) {
        Step::Reply { output, .. } => output[8..12].to_vec(),
        other => panic!("unexpected step {:?}", other),
    }
}

#[test]
fn add_device_then_devlist_reports_new_count() {
    let mut server = UsbIpServer::new_simulated(vec![cdc_device(0)]);
    assert_eq!(server.barrier_size(), 2);
    server.pause_sockets();
    assert!(server.should_stop_for_control());
    assert_eq!(server.add_device(cdc_device(1)), Ok(()));
    assert_eq!(server.barrier_size(), 3);
    server.resume_sockets();
    assert!(!server.should_stop_for_control());
    assert_eq!(device_count(&server), vec![0, 0, 0, 2]);
}

#[test]
fn add_duplicate_bus_id_is_an_error() {
    let mut server = UsbIpServer::new_simulated(vec![cdc_device(0)]);
    server.pause_sockets();
    assert_eq!(server.add_device(cdc_device(0)), Err(RegistryError::DuplicateBusId));
    assert_eq!(server.devices().len(), 1);
}

#[test]
fn remove_device_by_bus_id() {
    let mut server = UsbIpServer::new_simulated(vec![cdc_device(0), cdc_device(1)]);
    server.pause_sockets();
    server.remove_device(&UsbDevice::new(0));
    server.resume_sockets();
    assert_eq!(server.devices().len(), 1);
    assert_eq!(server.devices()[0].bus_id, b"1".to_vec());
    assert_eq!(device_count(&server), vec![0, 0, 0, 1]);
}

#[test]
fn remove_absent_bus_id_is_noop() {
    let mut server = UsbIpServer::new_simulated(vec![cdc_device(0)]);
    server.pause_sockets();
    server.remove_device(&UsbDevice::new(9));
    assert_eq!(server.devices().len(), 1);
}

#[test]
fn new_device_defaults() {
    let d = UsbDevice::new(42);
    assert_eq!(d.bus_id, b"42".to_vec());
    assert_eq!(d.path, b"/sys/device/usbip/42".to_vec());
    assert_eq!(d.dev_num, 42);
    assert_eq!(d.configuration_value, 1);
    assert_eq!(d.string_product, 3);
    assert_eq!(d.ep0_in.address, 0x80);
    assert_eq!(d.ep0_in.max_packet_size, 64);
}

#[test]
fn decimal_digits() {
    assert_eq!(decimal_bytes(0), b"0".to_vec());
    assert_eq!(decimal_bytes(4294967295), b"4294967295".to_vec());
}

#[test]
fn new_string_returns_next_index() {
    let mut d = UsbDevice::new(0);
    assert_eq!(d.new_string("extra"), 5);
    assert_eq!(d.new_string("more"), 6);
}

#[test]
fn endpoint_lookup_resolves_owner() {
    let d = cdc_device(0).with_interface(
        0xff,
        0,
        0,
        "Vendor",
        vec![UsbEndpoint { address: 0x83, attributes: EP_BULK, max_packet_size: 64, interval: 0 }],
    );
    assert_eq!(d.find_ep(0x82).map(|(e, i)| (e.address, i)), Some((0x82, Some(0))));
    assert_eq!(d.find_ep(0x02).map(|(e, i)| (e.address, i)), Some((0x02, Some(0))));
    assert_eq!(d.find_ep(0x83).map(|(e, i)| (e.address, i)), Some((0x83, Some(1))));
    assert_eq!(d.find_ep(0x80).map(|(e, i)| (e.address, i)), Some((0x80, None)));
    assert_eq!(d.find_ep(0x00).map(|(e, i)| (e.address, i)), Some((0x00, None)));
    assert!(d.find_ep(0x03).is_none());
}

#[test]
fn cdc_bulk_in_drains_buffer() {
    let mut h = UsbCdcAcmHandler::new();
    h.tx_buffer = vec![1, 2, 3];
    let eps = UsbCdcAcmHandler::endpoints();
    assert_eq!(eps[0].attributes, EP_INTERRUPT);
    // interrupt IN answers nothing and keeps the queue
    assert_eq!(h.serve(eps[0]), Vec::<u8>::new());
    assert_eq!(h.tx_buffer, vec![1, 2, 3]);
    // bulk OUT answers nothing
    assert_eq!(h.serve(eps[2]), Vec::<u8>::new());
    // bulk IN drains the queue
    assert_eq!(h.serve(eps[1]), vec![1, 2, 3]);
    assert!(h.tx_buffer.is_empty());
}

#[test]
fn host_device_is_converted() {
    let host = HostDevice {
        bus_number: 1,
        address: 12,
        port_number: 3,
        speed: 3,
        vendor_id: 0x046d,
        product_id: 0xc52b,
        class_code: 0,
        sub_class_code: 0,
        protocol_code: 0,
        device_version: 0x1201,
        usb_version: 0x0200,
        max_packet_size: 32,
        num_configurations: 1,
        configuration_number: 1,
        interfaces: vec![HostInterface {
            class_code: 3,
            sub_class_code: 1,
            protocol_code: 2,
            endpoints: vec![UsbEndpoint { address: 0x81, attributes: EP_INTERRUPT, max_packet_size: 8, interval: 4 }],
            description_string_index: Some(2),
            extra: vec![9, 0x21, 0x11, 0x01, 0, 1, 0x22, 0x34, 0],
        }],
        manufacturer: Some("Logitech".to_string()),
        product: None,
        serial: Some("ABC".to_string()),
    };
    let d = UsbDevice::from_host(&host).unwrap();
    assert_eq!(d.path, b"/sys/bus/1/12/3".to_vec());
    assert_eq!(d.bus_id, b"1-12-3".to_vec());
    assert_eq!(d.bus_num, 1);
    assert_eq!(d.dev_num, 3);
    assert_eq!(d.ep0_in.max_packet_size, 32);
    assert_eq!(d.interfaces.len(), 1);
    assert_eq!(d.interfaces[0].string_interface, 2);
    assert_eq!(d.interfaces[0].class_specific_descriptor.len(), 9);
    assert_eq!(d.string_manufacturer, 1);
    assert_eq!(d.string_product, 0);
    assert_eq!(d.string_serial, 2);
    assert_eq!(d.string_pool, vec!["Logitech".to_string(), "ABC".to_string()]);
}

#[test]
fn host_device_with_shared_endpoint_is_skipped() {
    let intf = |class| HostInterface {
        class_code: class,
        sub_class_code: 0,
        protocol_code: 0,
        endpoints: vec![UsbEndpoint { address: 0x81, attributes: EP_BULK, max_packet_size: 64, interval: 0 }],
        description_string_index: None,
        extra: vec![],
    };
    let host = HostDevice {
        bus_number: 2,
        address: 1,
        port_number: 1,
        speed: 2,
        vendor_id: 1,
        product_id: 2,
        class_code: 0,
        sub_class_code: 0,
        protocol_code: 0,
        device_version: 0,
        usb_version: 0x0110,
        max_packet_size: 8,
        num_configurations: 1,
        configuration_number: 1,
        interfaces: vec![intf(8), intf(9)],
        manufacturer: None,
        product: None,
        serial: None,
    };
    assert!(UsbDevice::from_host(&host).is_none());
}

#[test]
fn check_wf_rejects_endpoint_zero_in_interface() {
    let d = UsbDevice::new(0);
    assert!(d.check_wf());
    let mut bad = cdc_device(0);
    bad.interfaces[0].endpoints[0].address = 0x80;
    assert!(!bad.check_wf());
}

#[test]
fn bus_id_equal_on_the_wire_but_different_is_accepted() {
    let mut server = UsbIpServer::new_simulated(vec![cdc_device(0)]);
    let mut other = cdc_device(1);
    other.bus_id = vec![b'0', 0];
    server.pause_sockets();
    assert_eq!(server.add_device(other), Ok(()));
    assert_eq!(server.devices().len(), 2);
}

#[test]
fn import_resolves_to_first_wire_match() {
    let mut first = cdc_device(0);
    first.dev_num = 11;
    let mut second = cdc_device(1);
    second.bus_id = vec![b'0', 0];
    second.dev_num = 22;
    let server = UsbIpServer::new_simulated(vec![first, second]);
    let mut conn = Connection::new();
    let mut req = vec![0x01, 0x11, 0x80, 0x03, 0, 0, 0, 0, b'0'];
    req.resize(40, 0);
    match conn.step(&server, &req) {
        // dev_num sits at offset 8 + 256 + 32 + 4
        Step::Reply { output, .. } => assert_eq!(&output[300..304], &[0, 0, 0, 11]),
        other => panic!("unexpected step {:?}", other),
    }
}

#[test]
fn with_interface_keeps_identity_and_strings() {
    let mut d = UsbDevice::new(5);
    d.vendor_id = 0xbeef;
    let d = d.with_interface(CLASS_CDC, CDC_ACM_SUBCLASS, 0, "Port", UsbCdcAcmHandler::endpoints());
    assert_eq!(d.vendor_id, 0xbeef);
    assert_eq!(d.bus_id, b"5".to_vec());
    assert_eq!(d.interfaces[0].string_interface, 5);
    assert_eq!(d.string_pool[0], "Default Configuration");
    assert_eq!(d.string_pool[4], "Port");
}

#[test]
fn bcd_encodes_versions() {

    assert_eq!(bcd(2, 0, 0), 0x0200);
    assert_eq!(bcd(1, 1, 0), 0x0110);
    assert_eq!(bcd(12, 3, 4), 0x1234);
}

#[test]
fn host_strings_take_next_indices_in_order() {
    let host = HostDevice {
        bus_number: 3,
        address: 4,
        port_number: 5,
        speed: 3,
        vendor_id: 1,
        product_id: 1,
        class_code: 0,
        sub_class_code: 0,
        protocol_code: 0,
        device_version: 0,
        usb_version: 0x0200,
        max_packet_size: 64,
        num_configurations: 1,
        configuration_number: 1,
        interfaces: vec![],
        manufacturer: Some("Same".to_string()),
        product: Some("Same".to_string()),
        serial: Some("Same".to_string()),
    };
    let d = UsbDevice::from_host(&host).unwrap();
    assert_eq!((d.string_manufacturer, d.string_product, d.string_serial), (1, 2, 3));
    assert_eq!(d.string_pool.len(), 3);
}
