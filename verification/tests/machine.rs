use telemetry_ingest::data::{CollectPayload, IngestError, Metric, Reading};
use telemetry_ingest::machine::{drive_against_store, DbReply, IngestRun, Statement, StepOutcome};
use telemetry_ingest::pipeline::ingest;
use telemetry_ingest::store::Store;

const UID: &str = "11111111-1111-1111-1111-111111111111";
const UID_VAL: u128 = 0x11111111_1111_1111_1111_111111111111;
const TS: i64 = 1704067200000000;

fn one_reading_payload() -> CollectPayload {
    CollectPayload {
        device_uid: UID.to_string(),
        name: "dev".to_string(),
        device_type: "weather".to_string(),
        metrics: vec![Metric {
            sensor: "temp".to_string(),
            readings: vec![Reading {
                channel: "c1".to_string(),
                timestamp: TS,
                value_bits: 21.5f64.to_bits(),
            }],
        }],
    }
}

fn expect_next<'a>(out: StepOutcome<'a>) -> Statement<'a> {
    match out {
        StepOutcome::Next(s) => s,
        StepOutcome::Finished(r) => panic!("run ended early: {:?}", r.err()),
    }
}

#[test]
fn full_run_statement_sequence() {
    let p = one_reading_payload();
    let (mut run, first) = IngestRun::start(&p).unwrap();
    match first {
        Statement::InsertDevice { uid, name, device_type, display_name } => {
            assert_eq!(uid, UID_VAL);
            assert_eq!(name, "dev");
            assert_eq!(device_type, "weather");
            assert_eq!(display_name, "dev");
        },
        _ => panic!("expected the device insert first"),
    }
    // Device row done; sensor insert comes next, type and name both "temp".
    let s = expect_next(run.step(&p, DbReply::Done));
    match s {
        Statement::InsertSensor { device_uid, sensor_type, name } => {
            assert_eq!(device_uid, UID_VAL);
            assert_eq!(sensor_type, "temp");
            assert_eq!(name, "temp");
        },
        _ => panic!("expected the sensor insert"),
    }
    // The insert conflicted (no row back): the fallback lookup follows.
    let s = expect_next(run.step(&p, DbReply::MaybeRow(None)));
    match s {
        Statement::SelectSensor { device_uid, sensor_type, name } => {
            assert_eq!(device_uid, UID_VAL);
            assert_eq!(sensor_type, "temp");
            assert_eq!(name, "temp");
        },
        _ => panic!("expected the sensor lookup"),
    }
    // The lookup found id 7: the channel insert for "c1" follows under it.
    let s = expect_next(run.step(&p, DbReply::Row(7)));
    match s {
        Statement::InsertChannel { sensor_id, name } => {
            assert_eq!(sensor_id, 7);
            assert_eq!(name, "c1");
        },
        _ => panic!("expected the channel insert"),
    }
    // The channel insert created id 3: the reading upsert follows.
    let s = expect_next(run.step(&p, DbReply::MaybeRow(Some(3))));
    match s {
        Statement::UpsertReading { sensor_id, channel_id, timestamp, value_bits } => {
            assert_eq!(sensor_id, 7);
            assert_eq!(channel_id, 3);
            assert_eq!(timestamp, TS);
            assert_eq!(value_bits, 21.5f64.to_bits());
        },
        _ => panic!("expected the reading upsert"),
    }
    // Reading recorded; the batch is exhausted, so the commit follows.
    let s = expect_next(run.step(&p, DbReply::Done));
    assert!(matches!(s, Statement::Commit));
    // Commit done: the run reports success.
    match run.step(&p, DbReply::Done) {
        StepOutcome::Finished(r) => assert_eq!(r, Ok(())),
        StepOutcome::Next(_) => panic!("expected the run to finish"),
    }
}

#[test]
fn channel_select_fallback() {
    let p = one_reading_payload();
    let (mut run, _) = IngestRun::start(&p).unwrap();
    let _ = expect_next(run.step(&p, DbReply::Done));
    let _ = expect_next(run.step(&p, DbReply::MaybeRow(Some(1))));
    // The channel insert conflicted: the fallback lookup follows.
    let s = expect_next(run.step(&p, DbReply::MaybeRow(None)));
    match s {
        Statement::SelectChannel { sensor_id, name } => {
            assert_eq!(sensor_id, 1);
            assert_eq!(name, "c1");
        },
        _ => panic!("expected the channel lookup"),
    }
    let s = expect_next(run.step(&p, DbReply::Row(9)));
    assert!(matches!(s, Statement::UpsertReading { channel_id: 9, .. }));
}

#[test]
fn malformed_uuid_never_opens_a_run() {
    let p = CollectPayload {
        device_uid: "not-a-uuid".to_string(),
        name: "dev".to_string(),
        device_type: "weather".to_string(),
        metrics: vec![],
    };
    match IngestRun::start(&p) {
        Err(e) => assert_eq!(e, IngestError::InvalidDeviceUid),
        Ok(_) => panic!("a malformed identifier must be rejected before any statement"),
    }
}

#[test]
fn fault_on_last_insert_aborts_whole_batch() {
    let p = one_reading_payload();
    let (mut run, _) = IngestRun::start(&p).unwrap();
    let _ = expect_next(run.step(&p, DbReply::Done));
    let _ = expect_next(run.step(&p, DbReply::MaybeRow(Some(1))));
    let _ = expect_next(run.step(&p, DbReply::MaybeRow(Some(2))));
    // The reading upsert - the batch's last write - fails: the run ends in
    // the reading fault and issues nothing further; the caller rolls back,
    // so no row of the batch survives.
    match run.step(&p, DbReply::Fault) {
        StepOutcome::Finished(r) => {
            assert_eq!(r, Err(IngestError::ReadingInsert));
            let e = r.unwrap_err();
            assert_eq!(e.status_code(), 500);
            assert_eq!(e.message(), "Reading insert error");
        },
        StepOutcome::Next(_) => panic!("no statement may follow a fault"),
    }
}

#[test]
fn commit_fault_reported() {
    let p = CollectPayload {
        device_uid: UID.to_string(),
        name: "dev".to_string(),
        device_type: "weather".to_string(),
        metrics: vec![],
    };
    let (mut run, _) = IngestRun::start(&p).unwrap();
    // No metrics: the commit follows the device insert at once.
    let s = expect_next(run.step(&p, DbReply::Done));
    assert!(matches!(s, Statement::Commit));
    match run.step(&p, DbReply::Fault) {
        StepOutcome::Finished(r) => assert_eq!(r, Err(IngestError::CommitFailed)),
        StepOutcome::Next(_) => panic!("no statement may follow a fault"),
    }
}

#[test]
fn device_fault_reported() {
    let p = one_reading_payload();
    let (mut run, _) = IngestRun::start(&p).unwrap();
    match run.step(&p, DbReply::Fault) {
        StepOutcome::Finished(r) => assert_eq!(r, Err(IngestError::DeviceInsert)),
        StepOutcome::Next(_) => panic!("no statement may follow a fault"),
    }
}

#[test]
fn sensor_lookup_fault_is_the_consistency_fault() {
    let p = one_reading_payload();
    let (mut run, _) = IngestRun::start(&p).unwrap();
    let _ = expect_next(run.step(&p, DbReply::Done));
    let _ = expect_next(run.step(&p, DbReply::MaybeRow(None)));
    // The fallback lookup found nothing (the narrow race) or failed: the
    // run surfaces the sensor-lookup fault.
    match run.step(&p, DbReply::Fault) {
        StepOutcome::Finished(r) => assert_eq!(r, Err(IngestError::SensorLookup)),
        StepOutcome::Next(_) => panic!("no statement may follow a fault"),
    }
}

#[test]
fn driving_statements_against_store_matches_pipeline() {
    let p = CollectPayload {
        device_uid: UID.to_string(),
        name: "dev".to_string(),
        device_type: "weather".to_string(),
        metrics: vec![
            Metric {
                sensor: "temp".to_string(),
                readings: vec![
                    Reading { channel: "c1".to_string(), timestamp: TS, value_bits: 21.5f64.to_bits() },
                    Reading { channel: "c2".to_string(), timestamp: TS, value_bits: 3.0f64.to_bits() },
                ],
            },
            Metric {
                sensor: "humidity".to_string(),
                readings: vec![
                    Reading { channel: "c1".to_string(), timestamp: TS, value_bits: 0.5f64.to_bits() },
                ],
            },
        ],
    };

    let mut driven = Store::new();
    let mut piped = Store::new();
    assert_eq!(drive_against_store(&mut driven, &p), Ok(()));
    assert_eq!(ingest(&mut piped, &p), Ok(()));

    for s in [&driven, &piped] {
        assert_eq!(s.device_count(), 1);
        assert_eq!(s.sensor_count(), 2);
        assert_eq!(s.channel_count(), 3);
        assert_eq!(s.reading_count(), 3);
        let temp = s.lookup_sensor(UID_VAL, "temp", "temp").unwrap();
        let hum = s.lookup_sensor(UID_VAL, "humidity", "humidity").unwrap();
        let t_c1 = s.lookup_channel(temp, "c1").unwrap();
        let t_c2 = s.lookup_channel(temp, "c2").unwrap();
        let h_c1 = s.lookup_channel(hum, "c1").unwrap();
        assert_eq!(s.stored_value(temp, t_c1, TS), Some(21.5f64.to_bits()));
        assert_eq!(s.stored_value(temp, t_c2, TS), Some(3.0f64.to_bits()));
        assert_eq!(s.stored_value(hum, h_c1, TS), Some(0.5f64.to_bits()));
    }
}
