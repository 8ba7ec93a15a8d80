use self_esp::cli::serial::{
    detect_usb_serial_ports, get_serial_ports_name, get_serialport_info, get_usbport_info,
    port_index, port_menu_line, select_port, PortType, SerialPortInfo, UsbPortInfo,
};

fn usb(name: &str, vid: u16) -> SerialPortInfo {
    SerialPortInfo {
        port_name: name.to_string(),
        port_type: PortType::UsbPort(UsbPortInfo {
            vid,
            pid: 0x7523,
            serial_number: Some("A1".to_string()),
            manufacturer: None,
            product: Some("CP2102".to_string()),
        }),
    }
}

fn other(name: &str, port_type: PortType) -> SerialPortInfo {
    SerialPortInfo { port_name: name.to_string(), port_type }
}

fn sample() -> Vec<SerialPortInfo> {
    vec![
        other("/dev/ttyS0", PortType::PciPort),
        usb("/dev/ttyUSB0", 0x1a86),
        other("/dev/rfcomm0", PortType::BluetoothPort),
        other("/dev/ttyX", PortType::Unknown),
        usb("/dev/ttyACM0", 0x303a),
    ]
}

fn names(ports: &Vec<SerialPortInfo>) -> Vec<String> {
    get_serial_ports_name(ports)
}

#[test]
fn detect_lists_all_but_bluetooth() {
    let r = detect_usb_serial_ports(sample(), true);
    assert_eq!(names(&r), vec!["/dev/ttyS0", "/dev/ttyUSB0", "/dev/ttyX", "/dev/ttyACM0"]);
}

#[test]
fn detect_usb_only() {
    let r = detect_usb_serial_ports(sample(), false);
    assert_eq!(names(&r), vec!["/dev/ttyUSB0", "/dev/ttyACM0"]);
}

#[test]
fn usb_only_is_usb_of_all() {
    let all = detect_usb_serial_ports(sample(), true);
    let usb_of_all = detect_usb_serial_ports(all, false);
    let usb_only = detect_usb_serial_ports(sample(), false);
    assert_eq!(names(&usb_of_all), names(&usb_only));
    assert!(detect_usb_serial_ports(vec![], true).is_empty());
}

#[test]
fn port_names_in_order() {
    assert_eq!(
        names(&sample()),
        vec!["/dev/ttyS0", "/dev/ttyUSB0", "/dev/rfcomm0", "/dev/ttyX", "/dev/ttyACM0"]
    );
}

#[test]
fn find_port_by_name() {
    let p = get_serialport_info(sample(), "/dev/ttyACM0").unwrap();
    assert_eq!(p.port_name, "/dev/ttyACM0");
    match p.port_type {
        PortType::UsbPort(u) => assert_eq!(u.vid, 0x303a),
        _ => panic!("expected a USB port"),
    }
    assert!(get_serialport_info(sample(), "/dev/ttyUSB9").is_none());
    let twice = vec![usb("/dev/a", 1), usb("/dev/a", 2)];
    match get_serialport_info(twice, "/dev/a").unwrap().port_type {
        PortType::UsbPort(u) => assert_eq!(u.vid, 1),
        _ => panic!("expected a USB port"),
    }
}

#[test]
fn usb_details() {
    let p = usb("/dev/ttyUSB0", 0x1a86);
    let u = get_usbport_info(&p);
    assert_eq!(u.vid, 0x1a86);
    assert_eq!(u.pid, 0x7523);
    assert_eq!(u.serial_number, Some("A1".to_string()));
    assert_eq!(u.manufacturer, None);
    assert_eq!(u.product, Some("CP2102".to_string()));
}

#[test]
fn menu_lines_and_choice() {
    assert_eq!(port_menu_line(0, "/dev/ttyUSB0"), "[0] /dev/ttyUSB0");
    assert_eq!(port_menu_line(12, "COM3"), "[12] COM3");
    assert_eq!(port_index("1\n"), Some(1));
    assert_eq!(port_index("  12 \r\n"), Some(12));
    assert_eq!(port_index("one\n"), None);
    assert_eq!(port_index("\n"), None);
    assert_eq!(port_index("-1\n"), None);
}

#[test]
fn menu_number_chooses_port() {
    for i in [0usize, 7, 10, 4096] {
        let line = port_menu_line(i, "p");
        let number = &line[1..line.find(']').unwrap()];
        assert_eq!(port_index(&format!("{}\n", number)), Some(i));
    }
}

#[test]
fn select_port_by_typed_index() {
    let names = vec!["/dev/ttyUSB0".to_string(), "/dev/ttyACM0".to_string()];
    assert_eq!(select_port(&names, "1\n"), Some("/dev/ttyACM0".to_string()));
    assert_eq!(select_port(&names, " 0 "), Some("/dev/ttyUSB0".to_string()));
    assert_eq!(select_port(&names, "2\n"), None);
    assert_eq!(select_port(&names, "x\n"), None);
    assert_eq!(select_port(&vec![], "0"), None);
}
