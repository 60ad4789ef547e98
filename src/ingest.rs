use vstd::prelude::*;
use crate::address::{Address, id_of_bytes};
use crate::codec::{Temperature, decode_temperature, decodes_to};
use crate::exposition::{Reading, Timestamp};
use crate::store::{TemperatureStore, inserted};

verus! {

/// The radio organisation code of 4-byte sensor data telegrams.
pub const RORG_BS4: u8 = 0xA5;

/// Where the temperature byte stands in the data of a 4-byte sensor telegram.
pub const TEMPERATURE_BYTE: usize = 2;

/// A decoded serial packet, as far as ingestion looks into it.
#[derive(Debug)]
pub enum Packet {
    /// A radio telegram: its radio organisation code, the sender ID and the data bytes.
    RadioErp1 { rorg: u8, sender_id: [u8; 4], payload: Vec<u8> },
    /// Any other kind of packet.
    Other,
}

/// What ingesting a packet did.
#[derive(Clone, Copy, Debug, PartialEq, Eq, Structural)]
pub enum IngestOutcome {
    /// A reading was stored for the address.
    Stored(Address, Temperature),
    /// The packet is not a temperature telegram; nothing changed.
    Ignored,
}

/// The packet carries a temperature: a 4-byte sensor telegram with a data byte
/// at the temperature's place.
pub open spec fn is_temperature_telegram(p: Packet) -> bool {
    match p {
        Packet::RadioErp1 { rorg, sender_id, payload } => rorg == RORG_BS4 && payload@.len()
            > TEMPERATURE_BYTE,
        Packet::Other => false,
    }
}

impl TemperatureStore {
    /// Stores the temperature of a 4-byte sensor telegram, stamped with `now`,
    /// as the latest reading of its sender. Any other packet is ignored.
    pub fn ingest(&mut self, packet: &Packet, now: Timestamp) -> (r: IngestOutcome)
        ensures
            is_temperature_telegram(*packet) ==> match *packet {
                Packet::RadioErp1 { rorg, sender_id, payload } => exists|t: Temperature|
                    decodes_to(payload@[TEMPERATURE_BYTE as int], t)
                        && r == IngestOutcome::Stored(Address { id: id_of_bytes(sender_id@) as u32 }, t)
                        && final(self)@ == inserted(
                        old(self)@,
                        id_of_bytes(sender_id@) as u32,
                        Reading { temperature: t, timestamp: now },
                    ),
                Packet::Other => false,
            },
            !is_temperature_telegram(*packet) ==> r == IngestOutcome::Ignored && final(self)@ == old(self)@,
    {
        match packet {
            Packet::RadioErp1 { rorg, sender_id, payload } => {
                if *rorg == RORG_BS4 && payload.len() > TEMPERATURE_BYTE {
                    let temperature = decode_temperature(payload[TEMPERATURE_BYTE]);
                    let address = Address::from_bytes(*sender_id);
                    self.insert(address, temperature, now);
                    IngestOutcome::Stored(address, temperature)
                } else {
                    IngestOutcome::Ignored
                }
            },
            Packet::Other => IngestOutcome::Ignored,
        }
    }
}

} // verus!
