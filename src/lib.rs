//! Detection of a supported USB-serial adapter among the serial ports of a
//! host, interactive disambiguation between several adapters, and the layout
//! of the file that records the chosen port.
pub mod port;
pub mod select;
pub mod store;

pub use port::{allow_listed, describe_port, filter_candidates, hex_string, PortCandidate, PortKind, ScannedPort, UsbInfo};
pub use select::{detect_serial_ports, eq_ignoring_ascii_case, rejection_message, Detection, Resolution, Selector, Step};
pub use store::{choice_dir, choice_file, project_root};
