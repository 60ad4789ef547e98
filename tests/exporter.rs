use temperature_exporter::{
    decode_temperature, Address, ConfigError, DeviceEntry, IngestOutcome, Packet, Temperature,
    TemperatureStore, Timestamp,
};

const HEADER: &str = "# HELP enocean_temperature_celsius Temperature reported by an EnOcean sensor, in degrees Celsius\n# TYPE enocean_temperature_celsius gauge\n";

fn entry(address: &str, name: &str) -> DeviceEntry {
    DeviceEntry { address: Some(address.to_string()), name: Some(name.to_string()) }
}

fn addr(text: &str) -> Address {
    Address::parse(text).unwrap()
}

fn celsius(decicelsius: i32) -> Temperature {
    Temperature { decicelsius }
}

fn at(unix_millis: u64) -> Timestamp {
    Timestamp { unix_millis }
}

#[test]
fn configured_devices_without_readings_show_header_only() {
    let entries = vec![entry("0185A1B2", "Living Room"), entry("0185A1B3", "Kitchen")];
    let mut store = TemperatureStore::with_devices(&entries).unwrap();
    let text = store.scrape();
    assert_eq!(text, HEADER);
    assert!(!text.contains("0185A1B2"));
}

#[test]
fn configured_device_reading_has_name_label() {
    let mut store = TemperatureStore::with_devices(&vec![entry("0185A1B2", "Living Room")]).unwrap();
    store.insert(addr("0185A1B2"), celsius(215), at(1_700_000_000_123));
    let text = store.scrape();
    let expected = format!(
        "{HEADER}enocean_temperature_celsius{{address=\"0185A1B2\", name=\"Living Room\"}} 21.5 1700000000123\n"
    );
    assert_eq!(text, expected);
}

#[test]
fn unconfigured_address_has_address_label_only() {
    let mut store = TemperatureStore::with_devices(&vec![entry("0185A1B2", "Living Room")]).unwrap();
    assert!(!store.scrape().contains("FFD2A001"));
    store.insert(addr("ffd2a001"), celsius(180), at(42));
    let text = store.scrape();
    assert!(text.contains("enocean_temperature_celsius{address=\"FFD2A001\"} 18 42\n"));
    assert!(!text.contains("name=\"\""));
    assert_eq!(text.lines().count(), 3);
}

#[test]
fn second_insert_overwrites_first() {
    let mut store = TemperatureStore::with_devices(&vec![entry("0185A1B2", "Living Room")]).unwrap();
    store.insert(addr("0185A1B2"), celsius(215), at(1000));
    store.insert(addr("0185A1B2"), celsius(220), at(2000));
    let text = store.scrape();
    assert_eq!(
        text,
        format!("{HEADER}enocean_temperature_celsius{{address=\"0185A1B2\", name=\"Living Room\"}} 22 2000\n")
    );
    assert!(!text.contains("21.5"));
}

#[test]
fn older_reading_inserted_last_still_wins() {
    let mut store = TemperatureStore::with_devices(&vec![]).unwrap();
    store.insert(addr("00000001"), celsius(220), at(2000));
    store.insert(addr("00000001"), celsius(215), at(1000));
    assert_eq!(
        store.scrape(),
        format!("{HEADER}enocean_temperature_celsius{{address=\"00000001\"}} 21.5 1000\n")
    );
}

#[test]
fn codec_extremes_and_midpoint() {
    assert_eq!(decode_temperature(0), celsius(400));
    assert_eq!(decode_temperature(255), celsius(0));
    assert_eq!(decode_temperature(128), celsius(200));
}

#[test]
fn codec_is_half_degree_quantised() {
    // 80 * 1 / 255 rounds to 0, 80 * 2 / 255 rounds to 1
    assert_eq!(decode_temperature(1), celsius(400));
    assert_eq!(decode_temperature(2), celsius(395));
    assert_eq!(decode_temperature(100), celsius(245));
    assert_eq!(decode_temperature(254), celsius(0));
}

#[test]
fn invalid_device_key_is_refused() {
    let r = TemperatureStore::with_devices(&vec![entry("0185A1B2", "a"), entry("not-an-id", "b")]);
    assert_eq!(r.err(), Some(ConfigError::InvalidAddress));
}

#[test]
fn device_value_not_text_is_refused() {
    let bad = DeviceEntry { address: Some("0185A1B2".to_string()), name: None };
    let r = TemperatureStore::with_devices(&vec![bad]);
    assert_eq!(r.err(), Some(ConfigError::NameNotText));
}

#[test]
fn device_key_not_text_is_refused() {
    let bad = DeviceEntry { address: None, name: Some("a".to_string()) };
    let r = TemperatureStore::with_devices(&vec![bad]);
    assert_eq!(r.err(), Some(ConfigError::AddressNotText));
}

#[test]
fn first_bad_entry_decides_the_error() {
    let entries = vec![
        entry("0185A1B2", "a"),
        DeviceEntry { address: Some("xyz".to_string()), name: None },
        entry("123", "c"),
    ];
    let r = TemperatureStore::with_devices(&entries);
    assert_eq!(r.err(), Some(ConfigError::NameNotText));
}

#[test]
fn later_entry_for_same_address_wins() {
    let entries = vec![entry("0185a1b2", "Old"), entry("0185A1B2", "New")];
    let mut store = TemperatureStore::with_devices(&entries).unwrap();
    store.insert(addr("0185A1B2"), celsius(100), at(5));
    assert_eq!(
        store.scrape(),
        format!("{HEADER}enocean_temperature_celsius{{address=\"0185A1B2\", name=\"New\"}} 10 5\n")
    );
}

#[test]
fn address_text_forms() {
    assert_eq!(addr("0185a1b2"), Address { id: 0x0185A1B2 });
    assert_eq!(Address { id: 0x0185A1B2 }.to_text(), "0185A1B2");
    assert_eq!(Address { id: 7 }.to_text(), "00000007");
    assert_eq!(Address::parse("0185A1B"), None);
    assert_eq!(Address::parse("0185A1B20"), None);
    assert_eq!(Address::parse("0185A1G2"), None);
    assert_eq!(Address::parse(""), None);
    assert_eq!(Address::from_bytes([0x01, 0x85, 0xA1, 0xB2]), Address { id: 0x0185A1B2 });
}

#[test]
fn negative_and_whole_temperatures_render() {
    let mut store = TemperatureStore::with_devices(&vec![]).unwrap();
    store.insert(Address { id: 1 }, celsius(-5), at(0));
    assert!(store.scrape().contains("} -0.5 0\n"));
    store.insert(Address { id: 1 }, celsius(-120), at(0));
    assert!(store.scrape().contains("} -12 0\n"));
    store.insert(Address { id: 1 }, celsius(0), at(u64::MAX));
    assert!(store.scrape().contains("} 0 18446744073709551615\n"));
}

#[test]
fn several_devices_each_get_one_line() {
    let entries = vec![entry("00000001", "One"), entry("00000002", "Two"), entry("00000003", "Three")];
    let mut store = TemperatureStore::with_devices(&entries).unwrap();
    store.insert(Address { id: 1 }, celsius(200), at(10));
    store.insert(Address { id: 3 }, celsius(305), at(30));
    let text = store.scrape();
    assert!(text.starts_with(HEADER));
    assert_eq!(text.lines().count(), 4);
    assert!(text.contains("enocean_temperature_celsius{address=\"00000001\", name=\"One\"} 20 10\n"));
    assert!(text.contains("enocean_temperature_celsius{address=\"00000003\", name=\"Three\"} 30.5 30\n"));
    assert!(!text.contains("Two"));
}

#[test]
fn sensor_telegram_is_stored() {
    let mut store = TemperatureStore::with_devices(&vec![entry("0185A1B2", "Hall")]).unwrap();
    let packet = Packet::RadioErp1 {
        rorg: 0xA5,
        sender_id: [0x01, 0x85, 0xA1, 0xB2],
        payload: vec![0x00, 0x00, 128, 0x08],
    };
    let outcome = store.ingest(&packet, at(77));
    assert_eq!(outcome, IngestOutcome::Stored(Address { id: 0x0185A1B2 }, celsius(200)));
    assert_eq!(
        store.scrape(),
        format!("{HEADER}enocean_temperature_celsius{{address=\"0185A1B2\", name=\"Hall\"}} 20 77\n")
    );
}

#[test]
fn other_telegrams_are_ignored() {
    let mut store = TemperatureStore::with_devices(&vec![]).unwrap();
    let rocker = Packet::RadioErp1 { rorg: 0xF6, sender_id: [0, 0, 0, 1], payload: vec![0x30] };
    assert_eq!(store.ingest(&rocker, at(1)), IngestOutcome::Ignored);
    let short = Packet::RadioErp1 { rorg: 0xA5, sender_id: [0, 0, 0, 1], payload: vec![1, 2] };
    assert_eq!(store.ingest(&short, at(1)), IngestOutcome::Ignored);
    assert_eq!(store.ingest(&Packet::Other, at(1)), IngestOutcome::Ignored);
    assert_eq!(store.scrape(), HEADER);
}

#[test]
fn address_text_reads_back() {
    for id in [0u32, 1, 0x0185A1B2, 0xDEADBEEF, u32::MAX] {
        let a = Address { id };
        assert_eq!(Address::parse(&a.to_text()), Some(a));
    }
}
