//! A USB/IP server library: the wire codec, the device model, the standard
//! control-request engine, the URB dispatcher, the per-connection state
//! machine and the device registry, each with its contract.

pub mod codec;
pub mod device;
pub mod setup;
pub mod urb;
pub mod server;
pub mod connection;
pub mod handler;
pub mod host;

pub use connection::{Connection, Step};
pub use device::{UsbDevice, UsbEndpoint, UsbInterface};
pub use handler::{UsbCdcAcmHandler, UsbInterfaceHandler, CDC_ACM_SUBCLASS};
pub use server::{RegistryError, UsbIpServer};
pub use urb::UrbRoute;
