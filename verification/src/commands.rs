//! Lists of what is connected.
use crate::text::{cat2, cat3, cat4, decimal, decimal_text, hex_fixed, hex_text};
use vstd::prelude::*;

verus! {

/// A controller that is connected.
#[derive(Debug)]
pub struct DeviceInfo {
    pub transport: String,
    pub vendor_id: u16,
    pub product_id: u16,
    pub interface_number: i32,
    pub product_name: Option<String>,
    pub path: String,
}

/// What a USB port tells of itself.
#[derive(Debug)]
pub struct UsbInfo {
    pub vendor_id: u16,
    pub product_id: u16,
    pub manufacturer: Option<String>,
    pub product: Option<String>,
    pub serial_number: Option<String>,
}

#[derive(Debug)]
pub enum PortKind {
    Usb(UsbInfo),
    Bluetooth,
    Pci,
    Unknown,
}

/// A serial port that is there.
#[derive(Debug)]
pub struct PortInfo {
    pub name: String,
    pub kind: PortKind,
}

pub open spec fn or_unknown(text: Option<String>) -> Seq<char> {
    match text {
        Some(text) => text@,
        None => "unknown"@,
    }
}

fn text_or_unknown(text: &Option<String>) -> (r: &str)
    ensures
        r@ == or_unknown(*text),
{
    match text {
        Some(text) => text.as_str(),
        None => "unknown",
    }
}

/// The decimal digits of an integer, behind a sign where it is negative.
pub open spec fn signed(n: int) -> Seq<char> {
    if n < 0 {
        "-"@ + decimal((-n) as nat)
    } else {
        decimal(n as nat)
    }
}

fn signed_text(n: i32) -> (r: String)
    ensures
        r@ == signed(n as int),
{
    if n < 0 {
        let digits = decimal_text((-(n as i64)) as u64);
        cat2("-", digits.as_str())
    } else {
        decimal_text(n as u64)
    }
}

pub open spec fn numbered(index: nat, text: Seq<char>) -> Seq<char> {
    "["@ + decimal(index) + "] "@ + text
}

pub open spec fn ids_text(vendor: u16, product: u16) -> Seq<char> {
    " vid=0x"@ + hex_fixed(vendor as nat, 4) + " pid=0x"@ + hex_fixed(product as nat, 4)
}

fn format_ids(vendor: u16, product: u16) -> (r: String)
    ensures
        r@ == ids_text(vendor, product),
{
    let vid = hex_text(vendor as u64, 4);
    let pid = hex_text(product as u64, 4);
    cat4(" vid=0x", vid.as_str(), " pid=0x", pid.as_str())
}

pub open spec fn device_text(d: DeviceInfo) -> Seq<char> {
    "transport="@ + d.transport@ + ids_text(d.vendor_id, d.product_id) + (" interface="@ + signed(
        d.interface_number as int,
    ) + " product="@ + or_unknown(d.product_name)) + (" path="@ + d.path@)
}

fn describe_device(device: &DeviceInfo) -> (r: String)
    ensures
        r@ == device_text(*device),
{
    let ids = format_ids(device.vendor_id, device.product_id);
    let head = cat3("transport=", device.transport.as_str(), ids.as_str());
    let interface = signed_text(device.interface_number);
    let middle = cat4(
        " interface=",
        interface.as_str(),
        " product=",
        text_or_unknown(&device.product_name),
    );
    let tail = cat2(" path=", device.path.as_str());
    cat3(head.as_str(), middle.as_str(), tail.as_str())
}

/// A controller in a list.
pub fn format_device_line(index: usize, device: &DeviceInfo) -> (r: String)
    ensures
        r@ == numbered(index as nat, device_text(*device)),
{
    let number = decimal_text(index as u64);
    let text = describe_device(device);
    cat4("[", number.as_str(), "] ", text.as_str())
}

pub open spec fn port_kind_text(k: PortKind) -> Seq<char> {
    match k {
        PortKind::Usb(info) => "type=usb"@ + ids_text(info.vendor_id, info.product_id) + (
        " manufacturer="@ + or_unknown(info.manufacturer) + " product="@ + or_unknown(
            info.product,
        )) + (" serial="@ + or_unknown(info.serial_number)),
        PortKind::Bluetooth => "type=bluetooth"@,
        PortKind::Pci => "type=pci"@,
        PortKind::Unknown => "type=unknown"@,
    }
}

fn describe_kind(kind: &PortKind) -> (r: String)
    ensures
        r@ == port_kind_text(*kind),
{
    match kind {
        PortKind::Usb(info) => {
            let ids = format_ids(info.vendor_id, info.product_id);
            let head = cat2("type=usb", ids.as_str());
            let middle = cat4(
                " manufacturer=",
                text_or_unknown(&info.manufacturer),
                " product=",
                text_or_unknown(&info.product),
            );
            let tail = cat2(" serial=", text_or_unknown(&info.serial_number));
            cat3(head.as_str(), middle.as_str(), tail.as_str())
        },
        PortKind::Bluetooth => "type=bluetooth".to_owned(),
        PortKind::Pci => "type=pci".to_owned(),
        PortKind::Unknown => "type=unknown".to_owned(),
    }
}

/// A serial port in a list.
pub fn format_output_port(index: usize, port: &PortInfo) -> (r: String)
    ensures
        r@ == numbered(index as nat, port.name@ + " "@ + port_kind_text(port.kind)),
{
    let number = decimal_text(index as u64);
    let kind = describe_kind(&port.kind);
    let text = cat3(port.name.as_str(), " ", kind.as_str());
    cat4("[", number.as_str(), "] ", text.as_str())
}

} // verus!
