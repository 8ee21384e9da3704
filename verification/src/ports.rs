//! Description records for enumerated serial ports.

use vstd::prelude::*;

verus! {

/// Hardware class of an enumerated serial port.
#[derive(Clone, Copy, PartialEq, Eq, Structural, Debug)]
pub enum PortKind {
    Usb,
    Bluetooth,
    Pci,
    Unknown,
}

/// One enumerated serial port, with USB identity fields when available.
pub struct SerialPortInfo {
    pub port_name: String,
    pub port_type: String,
    pub vid: Option<u16>,
    pub pid: Option<u16>,
    pub serial_number: Option<String>,
    pub manufacturer: Option<String>,
    pub product: Option<String>,
}

/// Build the description record for one enumerated port. USB ports keep their
/// vendor and product identity; every other kind carries none.
pub fn describe_port(
    port_name: String,
    kind: PortKind,
    vid: u16,
    pid: u16,
    serial_number: Option<String>,
    manufacturer: Option<String>,
    product: Option<String>,
) -> (r: SerialPortInfo)
    ensures
        r.port_name == port_name,
        kind == PortKind::Usb ==> {
            &&& r.port_type@ == "usb"@
            &&& r.vid == Some(vid)
            &&& r.pid == Some(pid)
            &&& r.serial_number == serial_number
            &&& r.manufacturer == manufacturer
            &&& r.product == product
        },
        kind == PortKind::Bluetooth ==> r.port_type@ == "bluetooth"@,
        kind == PortKind::Pci ==> r.port_type@ == "pci"@,
        kind == PortKind::Unknown ==> r.port_type@ == "unknown"@,
        kind != PortKind::Usb ==> {
            &&& r.vid is None
            &&& r.pid is None
            &&& r.serial_number is None
            &&& r.manufacturer is None
            &&& r.product is None
        },
{
    match kind {
        PortKind::Usb => SerialPortInfo {
            port_name,
            port_type: "usb".to_owned(),
            vid: Some(vid),
            pid: Some(pid),
            serial_number,
            manufacturer,
            product,
        },
        PortKind::Bluetooth => SerialPortInfo {
            port_name,
            port_type: "bluetooth".to_owned(),
            vid: None,
            pid: None,
            serial_number: None,
            manufacturer: None,
            product: None,
        },
        PortKind::Pci => SerialPortInfo {
            port_name,
            port_type: "pci".to_owned(),
            vid: None,
            pid: None,
            serial_number: None,
            manufacturer: None,
            product: None,
        },
        PortKind::Unknown => SerialPortInfo {
            port_name,
            port_type: "unknown".to_owned(),
            vid: None,
            pid: None,
            serial_number: None,
            manufacturer: None,
            product: None,
        },
    }
}

} // verus!
