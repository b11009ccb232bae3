//! Serial ports as the host reports them, the allow-list of supported adapter
//! chips, and the candidates that pass it.
use vstd::prelude::*;

verus! {

/// USB descriptor of a serial port.
#[derive(Clone, Debug, PartialEq, Eq)]
pub struct UsbInfo {
    pub vid: u16,
    pub pid: u16,
    pub serial_number: Option<String>,
    pub manufacturer: Option<String>,
    pub product: Option<String>,
}

/// How a serial port is attached to the host.
#[derive(Clone, Debug, PartialEq, Eq)]
pub enum PortKind {
    Usb(UsbInfo),
    Pci,
    Bluetooth,
    Unknown,
}

/// One entry of a scan of the host's serial ports.
#[derive(Clone, Debug, PartialEq, Eq)]
pub struct ScannedPort {
    pub port_name: String,
    pub port_type: PortKind,
}

/// A USB port whose vendor and product identifiers are on the allow-list.
#[derive(Clone, Debug, PartialEq, Eq)]
pub struct PortCandidate {
    pub port_name: String,
    pub info: UsbInfo,
}

/// Vendor and product of the CH340 USB-serial chip.
pub const CH340_VID: u16 = 0x1a86;
pub const CH340_PID: u16 = 0x7523;

/// Vendor and product of the FT2232 USB-serial chip.
pub const FT2232_VID: u16 = 0x0403;
pub const FT2232_PID: u16 = 0x6010;

/// The supported `(vendor, product)` pairs.
pub open spec fn is_allowed(vid: u16, pid: u16) -> bool {
    ||| (vid == CH340_VID && pid == CH340_PID)
    ||| (vid == FT2232_VID && pid == FT2232_PID)
}

/// The candidate that a scanned port yields, if it is an allow-listed USB port.
pub open spec fn candidate_of(p: ScannedPort) -> Option<PortCandidate> {
    match p.port_type {
        PortKind::Usb(info) => if is_allowed(info.vid, info.pid) {
            Some(PortCandidate { port_name: p.port_name, info })
        } else {
            None
        },
        _ => None,
    }
}

/// The candidates of a scan, in scan order.
pub open spec fn candidates_of(scan: Seq<ScannedPort>) -> Seq<PortCandidate>
    decreases scan.len(),
{
    if scan.len() == 0 {
        Seq::empty()
    } else {
        let rest = candidates_of(scan.drop_last());
        match candidate_of(scan.last()) {
            Some(c) => rest.push(c),
            None => rest,
        }
    }
}

/// Whether `(vid, pid)` identifies a supported adapter chip.
pub fn allow_listed(vid: u16, pid: u16) -> (r: bool)
    ensures
        r == is_allowed(vid, pid),
{
    (vid == CH340_VID && pid == CH340_PID) || (vid == FT2232_VID && pid == FT2232_PID)
}

fn copy_text(t: &Option<String>) -> (r: Option<String>)
    ensures
        r == *t,
{
    match t {
        Some(s) => Some(s.clone()),
        None => None,
    }
}

fn copy_info(info: &UsbInfo) -> (r: UsbInfo)
    ensures
        r == *info,
{
    UsbInfo {
        vid: info.vid,
        pid: info.pid,
        serial_number: copy_text(&info.serial_number),
        manufacturer: copy_text(&info.manufacturer),
        product: copy_text(&info.product),
    }
}

impl PortCandidate {
    /// A copy of this candidate.
    pub fn clone_candidate(&self) -> (r: PortCandidate)
        ensures
            r == *self,
    {
        PortCandidate { port_name: self.port_name.clone(), info: copy_info(&self.info) }
    }
}

/// Keeps the allow-listed USB ports of a scan, in scan order.
pub fn filter_candidates(scan: &Vec<ScannedPort>) -> (r: Vec<PortCandidate>)
    ensures
        r@ == candidates_of(scan@),
{
    let mut found: Vec<PortCandidate> = Vec::new();
    let mut i: usize = 0;
    while i < scan.len()
        invariant
            i <= scan@.len(),
            found@ == candidates_of(scan@.take(i as int)),
        decreases scan@.len() - i,
    {
        let p = &scan[i];
        assert(scan@.take(i as int + 1).drop_last() =~= scan@.take(i as int));
        assert(scan@.take(i as int + 1).last() == scan@[i as int]);
        match &p.port_type {
            PortKind::Usb(info) => {
                if allow_listed(info.vid, info.pid) {
                    found.push(PortCandidate { port_name: p.port_name.clone(), info: copy_info(info) });
                }
            },
            _ => {},
        }
        i += 1;
    }
    assert(scan@.take(scan@.len() as int) =~= scan@);
    found
}

/// The lower-case hexadecimal digit of `d`.
pub open spec fn hex_digit(d: nat) -> char {
    seq!['0', '1', '2', '3', '4', '5', '6', '7', '8', '9', 'a', 'b', 'c', 'd', 'e', 'f'][d as int]
}

/// `n` in lower-case hexadecimal, without leading zeros.
pub open spec fn hex_of(n: nat) -> Seq<char>
    decreases n,
{
    if n < 16 {
        seq![hex_digit(n)]
    } else {
        hex_of(n / 16).push(hex_digit(n % 16))
    }
}

/// `", <label>: <value>"` for a descriptive string that the device reports.
pub open spec fn optional_part(label: Seq<char>, value: Option<String>) -> Seq<char> {
    match value {
        Some(v) => label + v@,
        None => Seq::empty(),
    }
}

/// The one-line description of a candidate shown to the operator.
pub open spec fn description(c: PortCandidate) -> Seq<char> {
    "Port "@ + c.port_name@ + ": vid: "@ + hex_of(c.info.vid as nat) + ", pid: "@ + hex_of(
        c.info.pid as nat,
    ) + optional_part(", serial number: "@, c.info.serial_number) + optional_part(
        ", manufacturer: "@,
        c.info.manufacturer,
    ) + optional_part(", product: "@, c.info.product)
}

/// Writes `n` in lower-case hexadecimal.
pub fn hex_string(n: u16) -> (r: String)
    ensures
        r@ == hex_of(n as nat),
    decreases n,
{
    let digits = "0123456789abcdef";
    proof {
        reveal_strlit("0123456789abcdef");
    }
    let d: usize = (n % 16) as usize;
    let last = digits.substring_char(d, d + 1);
    assert(last@ =~= seq![hex_digit(d as nat)]);
    if n < 16 {
        String::from_str(last)
    } else {
        let mut s = hex_string(n / 16);
        s.append(last);
        assert(s@ =~= hex_of(n as nat));
        s
    }
}

fn append_optional(s: &mut String, label: &str, value: &Option<String>)
    ensures
        final(s)@ == old(s)@ + optional_part(label@, *value),
{
    match value {
        Some(v) => {
            s.append(label);
            s.append(v.as_str());
            assert(final(s)@ =~= old(s)@ + optional_part(label@, *value));
        },
        None => {
            assert(s@ =~= old(s)@ + optional_part(label@, *value));
        },
    }
}

/// Describes a candidate: its port name, its vendor and product identifiers in
/// hexadecimal, and whichever of serial number, manufacturer and product it
/// reports.
pub fn describe_port(c: &PortCandidate) -> (r: String)
    ensures
        r@ == description(*c),
{
    let mut s = String::from_str("Port ");
    s.append(c.port_name.as_str());
    s.append(": vid: ");
    let vid = hex_string(c.info.vid);
    s.append(vid.as_str());
    s.append(", pid: ");
    let pid = hex_string(c.info.pid);
    s.append(pid.as_str());
    append_optional(&mut s, ", serial number: ", &c.info.serial_number);
    append_optional(&mut s, ", manufacturer: ", &c.info.manufacturer);
    append_optional(&mut s, ", product: ", &c.info.product);
    s
}

} // verus!
