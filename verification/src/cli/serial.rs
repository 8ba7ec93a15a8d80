//! Choosing the serial port that a board hangs on.

use vstd::prelude::*;
use crate::text::{
    decimal, decimal_of, trim, trimmed, parse_usize, parsed_usize, lemma_trim_bounds,
    law_decimal_parses_back, lemma_decimal_digits, is_digit,
};

verus! {

broadcast use vstd::string::group_string_axioms;

/// What is known of a USB serial adapter.
pub struct UsbPortInfo {
    /// Vendor ID.
    pub vid: u16,
    /// Product ID.
    pub pid: u16,
    /// Serial number.
    pub serial_number: Option<String>,
    /// Manufacturer.
    pub manufacturer: Option<String>,
    /// Product name.
    pub product: Option<String>,
}

/// How a serial port is connected.
pub enum PortType {
    /// Through USB.
    UsbPort(UsbPortInfo),
    /// Through PCI (a permanent port).
    PciPort,
    /// Through Bluetooth.
    BluetoothPort,
    /// Not known.
    Unknown,
}

/// A serial port of the system.
pub struct SerialPortInfo {
    /// The short name of the port.
    pub port_name: String,
    /// How it is connected.
    pub port_type: PortType,
}

/// Whether a port is offered: with `list_all_ports`, every port that is not a
/// Bluetooth port (a PCI or unknown port may be a misdetected USB one);
/// otherwise only USB ports.
pub open spec fn is_offered(port: SerialPortInfo, list_all_ports: bool) -> bool {
    if list_all_ports {
        port.port_type is UsbPort || port.port_type is PciPort || port.port_type is Unknown
    } else {
        port.port_type is UsbPort
    }
}

/// The ports that are offered, in the order given.
pub open spec fn offered_ports(ports: Seq<SerialPortInfo>, list_all_ports: bool) -> Seq<
    SerialPortInfo,
>
    decreases ports.len(),
{
    if ports.len() == 0 {
        Seq::empty()
    } else {
        let rest = offered_ports(ports.drop_last(), list_all_ports);
        if is_offered(ports.last(), list_all_ports) {
            rest.push(ports.last())
        } else {
            rest
        }
    }
}

/// Keeps, among the ports of the system, those that may lead to a board.
pub fn detect_usb_serial_ports(ports: Vec<SerialPortInfo>, list_all_ports: bool) -> (r: Vec<
    SerialPortInfo,
>)
    ensures
        r@ == offered_ports(ports@, list_all_ports),
        r@ == ports@.filter(
            |p: SerialPortInfo|
                p.port_type is UsbPort || (list_all_ports && (p.port_type is PciPort
                    || p.port_type is Unknown)),
        ),
{
    proof {
        law_offered_by_port_type(ports@, list_all_ports);
    }
    let mut r: Vec<SerialPortInfo> = Vec::new();
    let ghost all = ports@;
    for port in it: ports
        invariant
            it.seq() == all,
            r@ == offered_ports(all.take(it.index() as int), list_all_ports),
    {
        let ghost i = it.index() as int;
        assert(all.take(i + 1).drop_last() =~= all.take(i));
        assert(all.take(i + 1).last() == port);
        let keep = match &port.port_type {
            PortType::UsbPort(_) => true,
            PortType::PciPort => list_all_ports,
            PortType::Unknown => list_all_ports,
            PortType::BluetoothPort => false,
        };
        if keep {
            r.push(port);
        }
    }
    assert(all.take(all.len() as int) =~= all);
    r
}

/// The names of the ports.
pub open spec fn port_names(ports: Seq<SerialPortInfo>) -> Seq<String> {
    ports.map_values(|p: SerialPortInfo| p.port_name)
}

/// The names of the ports, in order.
pub fn get_serial_ports_name(serialports: &Vec<SerialPortInfo>) -> (r: Vec<String>)
    ensures
        r@ == port_names(serialports@),
        r@.len() == serialports@.len(),
        forall|i: int| 0 <= i < r@.len() ==> #[trigger] r@[i] == serialports@[i].port_name,
{
    let mut r: Vec<String> = Vec::new();
    let mut i: usize = 0;
    while i < serialports.len()
        invariant
            i <= serialports.len(),
            r@ == port_names(serialports@).take(i as int),
        decreases serialports.len() - i,
    {
        r.push(serialports[i].port_name.clone());
        i = i + 1;
        assert(r@ =~= port_names(serialports@).take(i as int));
    }
    assert(r@ =~= port_names(serialports@));
    r
}

/// `i` is the position of the first port with the given name.
pub open spec fn first_named(ports: Seq<SerialPortInfo>, i: int, name: Seq<char>) -> bool {
    &&& 0 <= i < ports.len()
    &&& ports[i].port_name@ == name
    &&& forall|k: int| 0 <= k < i ==> (#[trigger] ports[k]).port_name@ != name
}

/// The first port with the given name, taken out of the list.
pub fn get_serialport_info(ports: Vec<SerialPortInfo>, port_name: &str) -> (r: Option<
    SerialPortInfo,
>)
    ensures
        match r {
            Some(p) => exists|i: int| #[trigger] first_named(ports@, i, port_name@) && ports@[i] == p,
            None => forall|k: int|
                0 <= k < ports@.len() ==> (#[trigger] ports@[k]).port_name@ != port_name@,
        },
{
    let ghost all = ports@;
    let mut list = ports;
    let mut i: usize = 0;
    while i < list.len()
        invariant
            list@ == all,
            ports@ == all,
            i <= all.len(),
            forall|k: int| 0 <= k < i ==> (#[trigger] all[k]).port_name@ != port_name@,
        decreases all.len() - i,
    {
        if crate::text::same_text(list[i].port_name.as_str(), port_name) {
            let p = list.swap_remove(i);
            assert(p == all[i as int]);
            assert(first_named(all, i as int, port_name@));
            return Some(p);
        }
        i = i + 1;
    }
    None
}

fn copy_text(t: &Option<String>) -> (r: Option<String>)
    ensures
        r == *t,
{
    match t {
        Some(s) => Some(s.clone()),
        None => None,
    }
}

/// The USB details of a port that is connected through USB.
pub fn get_usbport_info(port: &SerialPortInfo) -> (r: UsbPortInfo)
    requires
        port.port_type is UsbPort,
    ensures
        r == port.port_type->UsbPort_0,
{
    match &port.port_type {
        PortType::UsbPort(usb) => UsbPortInfo {
            vid: usb.vid,
            pid: usb.pid,
            serial_number: copy_text(&usb.serial_number),
            manufacturer: copy_text(&usb.manufacturer),
            product: copy_text(&usb.product),
        },
        _ => {
            proof {
                assert(false);
            }
            UsbPortInfo {
                vid: 0,
                pid: 0,
                serial_number: None,
                manufacturer: None,
                product: None,
            }
        },
    }
}

/// One line of the port menu: `[i] name`.
pub open spec fn menu_line(i: nat, name: Seq<char>) -> Seq<char> {
    seq!['['] + decimal_of(i) + seq![']', ' '] + name
}

/// The menu line for the port at `index`.
pub fn port_menu_line(index: usize, name: &str) -> (r: String)
    ensures
        r@ == menu_line(index as nat, name@),
{
    let mut r = String::from_str("[");
    r.append(decimal(index as u64).as_str());
    r.append("] ");
    r.append(name);
    proof {
        reveal_strlit("[");
        reveal_strlit("] ");
        assert(r@ =~= menu_line(index as nat, name@));
    }
    r
}

/// The port name that the user's answer chooses: the name at the typed
/// index; `None` when the answer is no number or no port has that index.
pub fn select_port(port_names: &Vec<String>, input: &str) -> (r: Option<String>)
    ensures
        match parsed_usize(trimmed(input@)) {
            Some(i) => if i < port_names@.len() {
                r == Some(port_names@[i as int])
            } else {
                r is None
            },
            None => r is None,
        },
{
    match port_index(input) {
        Some(i) => if i < port_names.len() {
            Some(port_names[i].clone())
        } else {
            None
        },
        None => None,
    }
}

/// The index that the user typed to choose a port: the answer trimmed and
/// read as an unsigned number; `None` when it is not one.
pub fn port_index(input: &str) -> (r: Option<usize>)
    ensures
        r == parsed_usize(trimmed(input@)),
{
    parse_usize(trim(input))
}


/// The ports offered without `list_all_ports` are the USB ports among those
/// offered with it: listing all ports only adds PCI and unknown ones.
pub proof fn law_usb_ports_within_all(ports: Seq<SerialPortInfo>)
    ensures
        offered_ports(ports, false) == offered_ports(offered_ports(ports, true), false),
    decreases ports.len(),
{
    if ports.len() > 0 {
        law_usb_ports_within_all(ports.drop_last());
        let all = offered_ports(ports.drop_last(), true);
        if is_offered(ports.last(), true) {
            assert(all.push(ports.last()).drop_last() =~= all);
        }
    }
}

/// Typing back the number that the port menu shows for a port, followed by
/// the line end, chooses that port.
pub proof fn law_menu_number_chooses_port(i: usize)
    ensures
        parsed_usize(trimmed(decimal_of(i as nat) + seq!['\n'])) == Some(i),
{
    let d = decimal_of(i as nat);
    let typed = d + seq!['\n'];
    lemma_decimal_digits(i as nat);
    assert(is_digit(typed[0]));
    assert(is_digit(typed[d.len() - 1]));
    lemma_trim_bounds(typed, 0, d.len() as int);
    assert(typed.subrange(0, d.len() as int) =~= d);
    law_decimal_parses_back(i);
}


/// The offered ports are, in their order, exactly those whose type is USB
/// (whatever the adapter), and with `list_all_ports` also those whose type is
/// PCI or unknown; Bluetooth ports never are.
pub proof fn law_offered_by_port_type(ports: Seq<SerialPortInfo>, list_all_ports: bool)
    ensures
        offered_ports(ports, list_all_ports) == ports.filter(
            |p: SerialPortInfo|
                p.port_type is UsbPort || (list_all_ports && (p.port_type is PciPort
                    || p.port_type is Unknown)),
        ),
    decreases ports.len(),
{
    reveal(Seq::filter);
    if ports.len() > 0 {
        law_offered_by_port_type(ports.drop_last(), list_all_ports);
    }
}


/// The chosen port is the first one of that name: it has the name, no earlier
/// port has it, and so no two positions qualify.
pub proof fn law_first_named(ports: Seq<SerialPortInfo>, i: int, j: int, name: Seq<char>)
    requires
        first_named(ports, i, name),
    ensures
        0 <= i < ports.len(),
        ports[i].port_name@ == name,
        forall|k: int| 0 <= k < i ==> (#[trigger] ports[k]).port_name@ != name,
        first_named(ports, j, name) ==> i == j,
{
    if first_named(ports, j, name) {
        if j < i {
            assert(ports[j].port_name@ != name);
        }
        if i < j {
            assert(ports[i].port_name@ != name);
        }
    }
}


/// A menu line is `[`, the index in decimal, `] ` and the port name; the
/// number between the brackets reads back as the index.
pub proof fn law_menu_line(i: usize, name: Seq<char>)
    ensures
        ({
            let line = menu_line(i as nat, name);
            let n = decimal_of(i as nat).len() as int;
            &&& line.len() == n + 3 + name.len()
            &&& line[0] == '['
            &&& parsed_usize(line.subrange(1, 1 + n)) == Some(i)
            &&& line[1 + n] == ']'
            &&& line[2 + n] == ' '
            &&& line.subrange(3 + n, line.len() as int) == name
        }),
{
    let line = menu_line(i as nat, name);
    let d = decimal_of(i as nat);
    let n = d.len() as int;
    assert(line.subrange(1, 1 + n) =~= d);
    assert(line.subrange(3 + n, line.len() as int) =~= name);
    law_decimal_parses_back(i);
}

} // verus!
