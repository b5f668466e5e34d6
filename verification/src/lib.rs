//! `usbmagic` - a library for working with "magic USB ports": programmable USB
//! test instruments that can passively observe or actively shape USB traffic.
//!
//! The first supported device is the [Cynthion] from Great Scott Gadgets running
//! the *USB Analyzer* gateware (USB ID `1d50:615b`), which passively captures
//! Low/Full/High-speed USB 2.0 traffic flowing through its TARGET ports.
//!
//! [Cynthion]: https://greatscottgadgets.com/cynthion/
//!
//! # Architecture
//!
//! The library performs no I/O. It decides what to ask of a device and makes sense
//! of what comes back: its functions take and give plain values, and what takes
//! several exchanges is a procedure with a `step` method, which says what to do next
//! and is told how it went. A program around the library moves the bytes.
//!
//! - [`device`], [`backend`], [`usb`]: finding devices and talking to them.
//! - [`capture`], [`pcap`]: what is captured, and recording it.
//! - [`pd`], [`pcapng`]: USB Power Delivery messages, links and traces.
//! - [`host`], [`mock`]: the active USB host, its forensic side, and a virtual bus
//!   to test against.
//! - [`power`]: power monitoring.
//! - [`flash`]: getting at the board's FPGA.
//! - [`cli`]: what the command-line tool decides and prints.
//!
//! Every function states what it does in its contract. What holds of several
//! functions together is stated by public proof functions beside them.

pub mod backend;
pub mod bytes;
pub mod capture;
pub mod cli;
pub mod device;
pub mod error;
pub mod flash;
pub mod host;
pub mod mock;
pub mod pcap;
pub mod pcapng;
pub mod pd;
pub mod power;
pub mod text;
pub mod usb;
pub mod utf16;

pub use capture::{
    CaptureData, CaptureItem, CaptureModel, CaptureOptions, CaptureSource, CaptureStream, Speed,
};
pub use device::{
    discover, Capabilities, DeviceDescription, DeviceModel, Discovered, MagicDevice, State,
};
pub use error::{Error, Result};
pub use host::{BusError, UsbForensics, UsbHost};
pub use pcapng::{parse_pcapng, parse_pd_pseudo_header, sop_name, LINKTYPE_USB_TYPE_C_PD};
pub use pd::link::{PdLink, VbusSource};
pub use pd::trace::{format_pd_message, pd_message_name, PdTrace};
pub use pd::{PdMessage, PdPort, PowerDelivery, Vdm};
pub use power::PowerMonitor;
