use telemetry_ingest::data::{CollectPayload, IngestError, Metric, Reading};
use telemetry_ingest::pipeline::ingest;
use telemetry_ingest::store::Store;

const UID: &str = "11111111-1111-1111-1111-111111111111";
const TS: i64 = 1704067200000000;

fn payload(uid: &str, name: &str, device_type: &str, readings: Vec<(&str, i64, f64)>) -> CollectPayload {
    CollectPayload {
        device_uid: uid.to_string(),
        name: name.to_string(),
        device_type: device_type.to_string(),
        metrics: vec![Metric {
            sensor: "temp".to_string(),
            readings: readings
                .into_iter()
                .map(|(c, t, v)| Reading {
                    channel: c.to_string(),
                    timestamp: t,
                    value_bits: v.to_bits(),
                })
                .collect(),
        }],
    }
}

#[test]
fn end_to_end_scenario() {
    let mut store = Store::new();
    let p1 = payload(UID, "dev", "weather", vec![("c1", TS, 21.5)]);
    assert_eq!(ingest(&mut store, &p1), Ok(()));
    assert_eq!(store.device_count(), 1);
    assert_eq!(store.sensor_count(), 1);
    assert_eq!(store.channel_count(), 1);
    assert_eq!(store.reading_count(), 1);

    let p2 = payload(UID, "dev", "weather", vec![("c1", TS, 22.0)]);
    assert_eq!(ingest(&mut store, &p2), Ok(()));
    let sid = store.lookup_sensor(0x11111111_1111_1111_1111_111111111111, "temp", "temp").unwrap();
    let cid = store.lookup_channel(sid, "c1").unwrap();
    assert_eq!(store.reading_count(), 1);
    assert_eq!(store.stored_value(sid, cid, TS), Some(22.0f64.to_bits()));
    assert_ne!(store.stored_value(sid, cid, TS), Some(21.5f64.to_bits()));
}

#[test]
fn malformed_uuid_rejected_nothing_persisted() {
    let mut store = Store::new();
    let p = payload("not-a-uuid", "dev", "weather", vec![("c1", TS, 1.0)]);
    let r = ingest(&mut store, &p);
    assert_eq!(r, Err(IngestError::InvalidDeviceUid));
    assert_eq!(store.device_count(), 0);
    assert_eq!(store.sensor_count(), 0);
    assert_eq!(store.channel_count(), 0);
    assert_eq!(store.reading_count(), 0);
    let e = r.unwrap_err();
    assert_eq!(e.status_code(), 400);
    assert_eq!(e.message(), "Invalid UUID");
}

#[test]
fn device_creation_idempotent_attrs_kept() {
    let mut store = Store::new();
    let p1 = payload(UID, "first-name", "first-type", vec![("c1", TS, 1.0)]);
    let p2 = payload(UID, "second-name", "second-type", vec![("c1", TS, 2.0)]);
    assert_eq!(ingest(&mut store, &p1), Ok(()));
    assert_eq!(ingest(&mut store, &p2), Ok(()));
    assert_eq!(store.device_count(), 1);
    let d = store.get_device(0x11111111_1111_1111_1111_111111111111).unwrap();
    assert_eq!(d.name, "first-name");
    assert_eq!(d.device_type, "first-type");
    assert_eq!(d.display_name, "first-name");
}

#[test]
fn sensor_and_channel_identity_stable() {
    let mut store = Store::new();
    let uid_val = 0x11111111_1111_1111_1111_111111111111u128;
    let p1 = payload(UID, "dev", "weather", vec![("c1", TS, 1.0)]);
    assert_eq!(ingest(&mut store, &p1), Ok(()));
    let sid1 = store.lookup_sensor(uid_val, "temp", "temp").unwrap();
    let cid1 = store.lookup_channel(sid1, "c1").unwrap();

    let p2 = payload(UID, "dev", "weather", vec![("c1", TS + 60, 2.0)]);
    assert_eq!(ingest(&mut store, &p2), Ok(()));
    let sid2 = store.lookup_sensor(uid_val, "temp", "temp").unwrap();
    let cid2 = store.lookup_channel(sid2, "c1").unwrap();

    assert_eq!(sid1, sid2);
    assert_eq!(cid1, cid2);
    assert_eq!(store.sensor_count(), 1);
    assert_eq!(store.channel_count(), 1);
    assert_eq!(store.reading_count(), 2);
}

#[test]
fn last_write_wins_within_one_batch() {
    let mut store = Store::new();
    let uid_val = 0x11111111_1111_1111_1111_111111111111u128;
    let p = payload(UID, "dev", "weather", vec![("c1", TS, 21.5), ("c1", TS, 23.25)]);
    assert_eq!(ingest(&mut store, &p), Ok(()));
    let sid = store.lookup_sensor(uid_val, "temp", "temp").unwrap();
    let cid = store.lookup_channel(sid, "c1").unwrap();
    assert_eq!(store.reading_count(), 1);
    assert_eq!(store.stored_value(sid, cid, TS), Some(23.25f64.to_bits()));
}

#[test]
fn repeated_identical_batches_leave_one_row_set() {
    let mut store = Store::new();
    let uid_val = 0x11111111_1111_1111_1111_111111111111u128;
    for _ in 0..5 {
        let p = payload(UID, "dev", "weather", vec![("c1", TS, 21.5)]);
        assert_eq!(ingest(&mut store, &p), Ok(()));
    }
    assert_eq!(store.device_count(), 1);
    assert_eq!(store.sensor_count(), 1);
    assert_eq!(store.channel_count(), 1);
    assert_eq!(store.reading_count(), 1);
    let sid = store.lookup_sensor(uid_val, "temp", "temp").unwrap();
    let cid = store.lookup_channel(sid, "c1").unwrap();
    assert_eq!(store.stored_value(sid, cid, TS), Some(21.5f64.to_bits()));
}

#[test]
fn distinct_channels_get_distinct_rows() {
    let mut store = Store::new();
    let uid_val = 0x11111111_1111_1111_1111_111111111111u128;
    let p = payload(UID, "dev", "weather", vec![("c1", TS, 1.0), ("c2", TS, 2.0)]);
    assert_eq!(ingest(&mut store, &p), Ok(()));
    let sid = store.lookup_sensor(uid_val, "temp", "temp").unwrap();
    let c1 = store.lookup_channel(sid, "c1").unwrap();
    let c2 = store.lookup_channel(sid, "c2").unwrap();
    assert_ne!(c1, c2);
    assert_eq!(store.reading_count(), 2);
    assert_eq!(store.stored_value(sid, c1, TS), Some(1.0f64.to_bits()));
    assert_eq!(store.stored_value(sid, c2, TS), Some(2.0f64.to_bits()));
}

#[test]
fn empty_metrics_creates_device_only() {
    let mut store = Store::new();
    let p = CollectPayload {
        device_uid: UID.to_string(),
        name: "dev".to_string(),
        device_type: "weather".to_string(),
        metrics: vec![],
    };
    assert_eq!(ingest(&mut store, &p), Ok(()));
    assert_eq!(store.device_count(), 1);
    assert_eq!(store.sensor_count(), 0);
    assert_eq!(store.channel_count(), 0);
    assert_eq!(store.reading_count(), 0);
}

#[test]
fn uuid_forms_accepted_and_rejected() {
    let mut store = Store::new();
    // The uuid parser accepts the simple (hyphen-free) form of the same value.
    let p_simple = payload("11111111111111111111111111111111", "dev", "weather", vec![("c1", TS, 1.0)]);
    assert_eq!(ingest(&mut store, &p_simple), Ok(()));
    assert_eq!(store.device_count(), 1);
    // A truncated identifier is rejected and changes nothing.
    let p_short = payload("11111111-1111-1111-1111", "dev", "weather", vec![("c1", TS, 1.0)]);
    assert_eq!(ingest(&mut store, &p_short), Err(IngestError::InvalidDeviceUid));
    assert_eq!(store.device_count(), 1);
}

#[test]
fn error_status_codes_and_messages() {
    assert_eq!(IngestError::InvalidDeviceUid.status_code(), 400);
    assert_eq!(IngestError::BeginFailed.status_code(), 500);
    assert_eq!(IngestError::DeviceInsert.status_code(), 500);
    assert_eq!(IngestError::SensorInsert.status_code(), 500);
    assert_eq!(IngestError::SensorLookup.status_code(), 500);
    assert_eq!(IngestError::ChannelInsert.status_code(), 500);
    assert_eq!(IngestError::ChannelLookup.status_code(), 500);
    assert_eq!(IngestError::ReadingInsert.status_code(), 500);
    assert_eq!(IngestError::CommitFailed.status_code(), 500);
    assert_eq!(IngestError::BeginFailed.message(), "Failed to begin transaction");
    assert_eq!(IngestError::DeviceInsert.message(), "Device insert error");
    assert_eq!(IngestError::SensorInsert.message(), "Sensor insert error");
    assert_eq!(IngestError::SensorLookup.message(), "Failed to get sensor ID");
    assert_eq!(IngestError::ChannelInsert.message(), "Channel insert error");
    assert_eq!(IngestError::ChannelLookup.message(), "Failed to get channel ID");
    assert_eq!(IngestError::ReadingInsert.message(), "Reading insert error");
    assert_eq!(IngestError::CommitFailed.message(), "Transaction commit failed");
}
