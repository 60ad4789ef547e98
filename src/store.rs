use vstd::prelude::*;
use std::collections::HashMap;
use vstd::std_specs::iter::IteratorSpec;
use crate::address::{Address, parsed_address};
use crate::codec::Temperature;
use crate::exposition::{Reading, Timestamp, device_line, metric_header, push_device_line, push_header};

verus! {

broadcast use vstd::std_specs::hash::group_hash_axioms;

/// What is known of a transmitter: its configured display name and its latest reading.
#[derive(Debug)]
pub struct DeviceRecord {
    pub name: Option<String>,
    pub reading: Option<Reading>,
}

/// The abstract content of a record: the text of its name and its reading.
pub type RecordModel = (Option<Seq<char>>, Option<Reading>);

pub open spec fn name_model(name: Option<String>) -> Option<Seq<char>> {
    match name {
        Some(n) => Some(n@),
        None => None,
    }
}

pub open spec fn record_model(r: DeviceRecord) -> RecordModel {
    (name_model(r.name), r.reading)
}

/// One entry of the device section of the configuration: a key and a value,
/// each `None` where the document holds something other than a string there.
#[derive(Debug)]
pub struct DeviceEntry {
    pub address: Option<String>,
    pub name: Option<String>,
}

/// Why a device section was refused.
#[derive(Clone, Copy, Debug, PartialEq, Eq, Structural)]
pub enum ConfigError {
    /// A device value is not a string.
    NameNotText,
    /// A device key is not a string.
    AddressNotText,
    /// A device key is not eight hexadecimal digits.
    InvalidAddress,
}

/// What is wrong with an entry, checked in this order: its name, then its key.
pub open spec fn entry_error(e: DeviceEntry) -> Option<ConfigError> {
    match e.name {
        None => Some(ConfigError::NameNotText),
        Some(_) => match e.address {
            None => Some(ConfigError::AddressNotText),
            Some(a) => match parsed_address(a@) {
                None => Some(ConfigError::InvalidAddress),
                Some(_) => None,
            },
        },
    }
}

/// The store described by valid entries: each address with its name and no
/// reading; a later entry for the same address replaces an earlier one.
pub open spec fn configured(entries: Seq<DeviceEntry>) -> Map<u32, RecordModel>
    decreases entries.len(),
{
    if entries.len() == 0 {
        Map::empty()
    } else {
        let e = entries.last();
        configured(entries.drop_last()).insert(
            parsed_address(e.address.unwrap()@).unwrap(),
            (Some(e.name.unwrap()@), None),
        )
    }
}

/// The store after a reading for `id`: its name is kept, a new address gets none.
pub open spec fn inserted(m: Map<u32, RecordModel>, id: u32, r: Reading) -> Map<u32, RecordModel> {
    m.insert(id, (known_name(m, id), Some(r)))
}

/// The name that `m` holds for `id`; none for an address it does not hold.
pub open spec fn known_name(m: Map<u32, RecordModel>, id: u32) -> Option<Seq<char>> {
    if m.contains_key(id) { m[id].0 } else { None }
}

/// The text that a record contributes: one line if it has a reading, else nothing.
pub open spec fn record_text(id: u32, rec: RecordModel) -> Seq<char> {
    match rec.1 {
        Some(r) => device_line(id, rec.0, r),
        None => Seq::empty(),
    }
}

/// The lines of the records of `m`, taken in the order `order`.
pub open spec fn record_lines(order: Seq<u32>, m: Map<u32, RecordModel>) -> Seq<char>
    decreases order.len(),
{
    if order.len() == 0 {
        Seq::empty()
    } else {
        record_lines(order.drop_last(), m) + record_text(order.last(), m[order.last()])
    }
}

/// `order` names every address of `m` once.
pub open spec fn is_listing(order: Seq<u32>, m: Map<u32, RecordModel>) -> bool {
    order.no_duplicates() && order.to_set() == m.dom()
}

proof fn lemma_configured_has_no_reading(entries: Seq<DeviceEntry>)
    ensures
        forall|id: u32| #[trigger] configured(entries).contains_key(id) ==> configured(entries)[id].1 is None,
    decreases entries.len(),
{
    if entries.len() > 0 {
        lemma_configured_has_no_reading(entries.drop_last());
    }
}

proof fn lemma_unread_records_render_nothing(order: Seq<u32>, m: Map<u32, RecordModel>)
    requires
        forall|i: int| 0 <= i < order.len() ==> m.contains_key(#[trigger] order[i]),
        forall|id: u32| #[trigger] m.contains_key(id) ==> m[id].1 is None,
    ensures
        record_lines(order, m) == Seq::<char>::empty(),
    decreases order.len(),
{
    if order.len() > 0 {
        let p = order.drop_last();
        assert forall|i: int| 0 <= i < p.len() implies m.contains_key(#[trigger] p[i]) by {
            assert(p[i] == order[i]);
        }
        lemma_unread_records_render_nothing(p, m);
        assert(m.contains_key(order[order.len() - 1]));
        assert(record_lines(order, m) =~= Seq::<char>::empty());
    }
}

/// A store just built from configuration lists no device in its document,
/// whatever the order of the listing: its scrape is the header alone.
pub proof fn lemma_configured_store_renders_header_only(entries: Seq<DeviceEntry>, order: Seq<u32>)
    requires
        is_listing(order, configured(entries)),
    ensures
        metric_header() + record_lines(order, configured(entries)) == metric_header(),
{
    lemma_configured_has_no_reading(entries);
    assert forall|i: int| 0 <= i < order.len() implies configured(entries).contains_key(#[trigger] order[i]) by {
        assert(order.to_set().contains(order[i]));
    }
    lemma_unread_records_render_nothing(order, configured(entries));
    assert(metric_header() + Seq::<char>::empty() =~= metric_header());
}

/// A second reading for an address replaces the first: the store is as if
/// only the second had been inserted.
pub proof fn lemma_insert_overwrites(m: Map<u32, RecordModel>, id: u32, first: Reading, second: Reading)
    ensures
        inserted(inserted(m, id, first), id, second) == inserted(m, id, second),
{
    assert(inserted(inserted(m, id, first), id, second) =~= inserted(m, id, second));
}

/// Every listed record contributes its text to the document, as one piece.
pub proof fn lemma_record_text_in_lines(order: Seq<u32>, m: Map<u32, RecordModel>, id: u32)
    requires
        order.contains(id),
    ensures
        exists|before: Seq<char>, after: Seq<char>|
            record_lines(order, m) == before + record_text(id, m[id]) + after,
    decreases order.len(),
{
    let p = order.drop_last();
    let last_text = record_text(order.last(), m[order.last()]);
    if order.last() == id {
        let before = record_lines(p, m);
        assert(record_lines(order, m) == before + record_text(id, m[id]) + Seq::<char>::empty());
    } else {
        let k = choose|k: int| 0 <= k < order.len() && order[k] == id;
        assert(k != order.len() - 1);
        assert(p[k] == id);
        lemma_record_text_in_lines(p, m, id);
        let (before, after) = choose|before: Seq<char>, after: Seq<char>|
            record_lines(p, m) == before + record_text(id, m[id]) + after;
        assert(record_lines(order, m) =~= before + record_text(id, m[id]) + (after + last_text));
    }
}

/// After a reading for an address, every document of the store holds the line
/// of that reading: with the configured name, or with the address label alone
/// for an address that was not configured.
pub proof fn lemma_scrape_shows_inserted_reading(
    m: Map<u32, RecordModel>,
    id: u32,
    r: Reading,
    order: Seq<u32>,
)
    requires
        is_listing(order, inserted(m, id, r)),
    ensures
        exists|before: Seq<char>, after: Seq<char>|
            metric_header() + record_lines(order, inserted(m, id, r)) == #[trigger] (before
                + device_line(id, known_name(m, id), r) + after),
{
    let n = inserted(m, id, r);
    assert(order.to_set().contains(id));
    lemma_record_text_in_lines(order, n, id);
    let (before, after) = choose|before: Seq<char>, after: Seq<char>|
        record_lines(order, n) == before + record_text(id, n[id]) + after;
    assert(metric_header() + record_lines(order, n) =~= (metric_header() + before) + record_text(id, n[id]) + after);
}

/// The latest reading of every known transmitter.
pub struct TemperatureStore {
    devices: HashMap<u32, DeviceRecord>,
}

impl View for TemperatureStore {
    type V = Map<u32, RecordModel>;

    closed spec fn view(&self) -> Map<u32, RecordModel> {
        Map::new(
            |id: u32| self.devices@.contains_key(id),
            |id: u32| record_model(self.devices@[id]),
        )
    }
}

impl TemperatureStore {
    /// A store that knows the configured devices, each without a reading.
    /// Fails on the first entry, in order, whose value is not a string or whose
    /// key is not a valid address.
    pub fn with_devices(config_devices: &Vec<DeviceEntry>) -> (r: Result<TemperatureStore, ConfigError>)
        ensures
            match r {
                Ok(store) => (forall|i: int|
                    0 <= i < config_devices@.len() ==> (#[trigger] entry_error(config_devices@[i])) is None)
                    && store@ == configured(config_devices@),
                Err(e) => exists|i: int|
                    0 <= i < config_devices@.len() && entry_error(config_devices@[i]) == Some(e)
                        && forall|j: int| 0 <= j < i ==> (#[trigger] entry_error(config_devices@[j])) is None,
            },
    {
        let mut devices: HashMap<u32, DeviceRecord> = HashMap::new();
        let n = config_devices.len();
        for i in 0..n
            invariant
                n == config_devices@.len(),
                forall|j: int| 0 <= j < i ==> (#[trigger] entry_error(config_devices@[j])) is None,
                (TemperatureStore { devices })@ == configured(config_devices@.take(i as int)),
        {
            let entry = &config_devices[i];
            let name = match &entry.name {
                Some(name) => name.clone(),
                None => {
                    return Err(ConfigError::NameNotText);
                },
            };
            let text = match &entry.address {
                Some(text) => text,
                None => {
                    return Err(ConfigError::AddressNotText);
                },
            };
            let address = match Address::parse(text.as_str()) {
                Some(address) => address,
                None => {
                    return Err(ConfigError::InvalidAddress);
                },
            };
            devices.insert(address.id, DeviceRecord { name: Some(name), reading: None });
            proof {
                let prefix = config_devices@.take(i + 1);
                assert(prefix.drop_last() == config_devices@.take(i as int));
                assert(prefix.last() == config_devices@[i as int]);
                assert((TemperatureStore { devices })@ =~= configured(prefix));
            }
        }
        proof {
            assert(config_devices@.take(n as int) == config_devices@);
        }
        Ok(TemperatureStore { devices })
    }

    /// Records `temperature` at `timestamp` as the latest reading of `address`,
    /// replacing any earlier one. An address not configured is added without a name.
    pub fn insert(&mut self, address: Address, temperature: Temperature, timestamp: Timestamp)
        ensures
            final(self)@ == inserted(old(self)@, address.id, Reading { temperature, timestamp }),
    {
        let reading = Reading { temperature, timestamp };
        let name = match self.devices.remove(&address.id) {
            Some(record) => record.name,
            None => None,
        };
        self.devices.insert(address.id, DeviceRecord { name, reading: Some(reading) });
        assert(self@ =~= inserted(old(self)@, address.id, reading));
    }

    /// The exposition document: the header, then one line per transmitter
    /// that has a reading, in an unspecified order.
    pub fn scrape(&mut self) -> (r: String)
        ensures
            final(self)@ == old(self)@,
            exists|order: Seq<u32>|
                is_listing(order, old(self)@) && r@ == metric_header() + #[trigger] record_lines(order, old(self)@),
    {
        let mut scrape = String::new();
        push_header(&mut scrape);
        let ghost model = self@;
        let ghost keys = self.devices.keys().remaining();
        for id in it: self.devices.keys()
            invariant
                model == self@,
                it.seq() == keys,
                scrape@ == metric_header() + record_lines(
                    it.seq().take(it.index()).map_values(|k: &u32| *k),
                    model,
                ),
        {
            let ghost done = it.seq().take(it.index()).map_values(|k: &u32| *k);
            match self.devices.get(id) {
                Some(record) => {
                    match record.reading {
                        Some(reading) => push_device_line(&mut scrape, *id, &record.name, reading),
                        None => {},
                    }
                },
                None => {},
            }
            proof {
                let next = it.seq().take(it.index() + 1).map_values(|k: &u32| *k);
                assert(next.drop_last() =~= done);
            }
        }
        proof {
            let order = keys.map_values(|k: &u32| *k);
            assert(keys.take(keys.len() as int) == keys);
            assert(order =~= keys.unref());
            assert(order.to_set() =~= model.dom());
            assert(is_listing(order, model));
        }
        scrape
    }
}

} // verus!
