//! The ingestion pipeline: one batch, one atomic unit of work.
//!
//! The device identifier is validated first; nothing is touched where it is
//! rejected. Then the device row is created (or found), and every metric's
//! sensor, every reading's channel, and every reading value is resolved and
//! recorded in the nested order of the batch. `spec_ingest` gives the store
//! state a request leaves behind, exactly, and `ingest` is proved to produce
//! it.

use vstd::prelude::*;
use crate::data::{CollectPayload, CollectPayloadV, MetricV, ReadingV, IngestError};
use crate::device_uid::{uuid_parse, parse_device_uid};
use crate::store::{
    Store, StoreV, device_exists, spec_create_device, spec_resolve_sensor, spec_resolve_channel,
    spec_upsert_reading,
};

verus! {

/// One reading applied to the store: resolve the channel under its sensor,
/// then record the value at (sensor, channel, timestamp), last write winning.
pub open spec fn spec_apply_reading(m: StoreV, sid: u64, r: ReadingV) -> StoreV {
    let (m1, cid) = spec_resolve_channel(m, sid, r.channel);
    spec_upsert_reading(m1, sid, cid, r.timestamp, r.value_bits)
}

/// The first `k` readings of a metric, applied in order.
pub open spec fn spec_apply_readings(m: StoreV, sid: u64, rs: Seq<ReadingV>, k: int) -> StoreV
    decreases k,
{
    if k <= 0 {
        m
    } else {
        spec_apply_reading(spec_apply_readings(m, sid, rs, k - 1), sid, rs[k - 1])
    }
}

/// One metric applied: resolve the sensor — its type and its name are both
/// the metric's sensor field — then apply its readings in order.
pub open spec fn spec_apply_metric(m: StoreV, uid: u128, met: MetricV) -> StoreV {
    let (m1, sid) = spec_resolve_sensor(m, uid, met.sensor, met.sensor);
    spec_apply_readings(m1, sid, met.readings, met.readings.len() as int)
}

/// The first `k` metrics of a batch, applied in order.
pub open spec fn spec_apply_metrics(m: StoreV, uid: u128, ms: Seq<MetricV>, k: int) -> StoreV
    decreases k,
{
    if k <= 0 {
        m
    } else {
        spec_apply_metric(spec_apply_metrics(m, uid, ms, k - 1), uid, ms[k - 1])
    }
}

/// A whole accepted batch: the device row first — its display name is the
/// payload's name — then every metric in order.
pub open spec fn spec_ingest_ok(m: StoreV, uid: u128, p: CollectPayloadV) -> StoreV {
    spec_apply_metrics(
        spec_create_device(m, uid, p.name, p.device_type, p.name),
        uid,
        p.metrics,
        p.metrics.len() as int,
    )
}

/// What one request leaves behind: the store unchanged where the device
/// identifier is rejected, the fully applied batch where it parses.
pub open spec fn spec_ingest(m: StoreV, p: CollectPayloadV) -> StoreV {
    match uuid_parse(p.device_uid) {
        Some(uid) => spec_ingest_ok(m, uid, p),
        None => m,
    }
}

/// Ingest one batch into the store: succeeds exactly on the payloads whose
/// device identifier parses as a UUID, and then leaves the store in the
/// state `spec_ingest` gives; a rejected payload changes nothing.
pub fn ingest(store: &mut Store, payload: &CollectPayload) -> (r: Result<(), IngestError>)
    requires
        old(store)@.wf(),
    ensures
        final(store)@.wf(),
        final(store)@ == spec_ingest(old(store)@, payload@),
        r is Ok <==> uuid_parse(payload@.device_uid) is Some,
        r is Err ==> r == Err::<(), IngestError>(IngestError::InvalidDeviceUid) && final(store)@
            == old(store)@,
{
    let uid = match parse_device_uid(payload.device_uid.as_str()) {
        Ok(u) => u,
        Err(e) => {
            return Err(e);
        },
    };
    store.create_device(
        uid,
        payload.name.as_str(),
        payload.device_type.as_str(),
        payload.name.as_str(),
    );
    let ghost m0 = store@;
    proof {
        assert(m0 == spec_create_device(old(store)@, uid, payload@.name, payload@.device_type, payload@.name));
    }
    let nm = payload.metrics.len();
    let mut mi: usize = 0;
    while mi < nm
        invariant
            store@.wf(),
            nm == payload@.metrics.len(),
            0 <= mi <= nm,
            device_exists(store@.devices, uid),
            store@ == spec_apply_metrics(m0, uid, payload@.metrics, mi as int),
        decreases nm - mi,
    {
        let met = &payload.metrics[mi];
        proof {
            assert(met@ == payload@.metrics[mi as int]);
        }
        let ghost m_before = store@;
        let sid = store.resolve_sensor(uid, met.sensor.as_str(), met.sensor.as_str());
        let ghost m_mid = store@;
        let nr = met.readings.len();
        let mut ri: usize = 0;
        while ri < nr
            invariant
                store@.wf(),
                0 <= mi < payload@.metrics.len(),
                met@ == payload@.metrics[mi as int],
                nr == met@.readings.len(),
                0 <= ri <= nr,
                (sid as int) < store@.sensors.len(),
                store@ == spec_apply_readings(m_mid, sid, met@.readings, ri as int),
                store@.devices == m_mid.devices,
                store@.sensors == m_mid.sensors,
            decreases nr - ri,
        {
            let rd = &met.readings[ri];
            proof {
                assert(rd@ == met@.readings[ri as int]);
            }
            let ghost m_r = store@;
            let cid = store.resolve_channel(sid, rd.channel.as_str());
            store.upsert_reading(sid, cid, rd.timestamp, rd.value_bits);
            proof {
                assert(store@ == spec_apply_reading(m_r, sid, rd@));
                assert(store@ == spec_apply_readings(m_mid, sid, met@.readings, ri as int + 1));
            }
            ri += 1;
        }
        proof {
            assert(store@ == spec_apply_readings(m_mid, sid, met@.readings, met@.readings.len() as int));
            assert((m_mid, sid) == spec_resolve_sensor(m_before, uid, met@.sensor, met@.sensor));
            assert(store@ == spec_apply_metric(m_before, uid, met@));
            assert(store@ == spec_apply_metrics(m0, uid, payload@.metrics, mi as int + 1));
            assert(device_exists(store@.devices, uid));
        }
        mi += 1;
    }
    proof {
        assert(store@ == spec_apply_metrics(m0, uid, payload@.metrics, payload@.metrics.len() as int));
        assert(store@ == spec_ingest_ok(old(store)@, uid, payload@));
        assert(store@ == spec_ingest(old(store)@, payload@));
    }
    Ok(())
}

} // verus!
