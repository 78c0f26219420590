//! Control plane for driving a virtual machine through a relay server.
//!
//! A driver process sends a small, fixed set of operations (create a machine,
//! create a virtual CPU, move register blocks, run one step, push a rendered
//! frame) over a local byte stream to a server that owns the machines. This
//! crate holds the protocol and the state machines on both ends; opening
//! sockets, files and windows is left to the program around it.
//!
//! - [`wire`]: the framing of requests and the catalogue of operations.
//! - [`registry`]: the machines, their CPUs and the identifier counters.
//! - [`dispatch`]: what the server does with one request and what it answers.
//! - [`connection`]: one connection of the server as a state machine.
//! - [`driver`]: the driver's requests and its loop as a state machine.
//! - [`frame`]: the frame, its transfer and the image that is stored of it.
//! - [`viewer`]: reading the stored image back.
//! - [`raster`]: the guest's drawing of pixels and lines into the frame.
//! - [`regs`], [`display`]: the layout of register blocks and device records.
//! - [`decimal`]: decimal text of numbers, for the image header.

pub mod wire;
pub mod decimal;
pub mod frame;
pub mod registry;
pub mod dispatch;
pub mod connection;
pub mod driver;
pub mod raster;
pub mod regs;
pub mod display;
pub mod viewer;
