//! Telemetry bridge from EnOcean temperature sensors to a metrics text document.
//!
//! The verified core: a store of the latest reading per transmitter, the
//! exposition formatter, the temperature codec of the sensor profile, the
//! address text form, and the decision taken on each received packet.

mod text;
pub mod address;
pub mod codec;
pub mod exposition;
pub mod store;
pub mod ingest;

pub use address::Address;
pub use codec::{Temperature, decode_temperature};
pub use exposition::{Reading, Timestamp};
pub use ingest::{IngestOutcome, Packet};
pub use store::{ConfigError, DeviceEntry, TemperatureStore};
