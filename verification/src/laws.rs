//! Laws of the resolver and the pipeline, proved once and for all over the
//! store model: idempotent device creation, stable sensor and channel
//! identity, and last-write-wins readings.

use vstd::prelude::*;
use crate::data::{CollectPayloadV, MetricV, ReadingV};
use crate::device_uid::uuid_parse;
use crate::store::{
    StoreV, device_exists, device_row_of, sensor_key_at, sensor_exists, sensor_id_of,
    channel_key_at, channel_exists, channel_id_of, reading_key_at, reading_exists,
    reading_value_of, spec_create_device, spec_resolve_sensor, spec_resolve_channel,
    spec_upsert_reading,
};
use crate::pipeline::{
    spec_apply_reading, spec_apply_readings, spec_apply_metric, spec_apply_metrics, spec_ingest,
};

verus! {

/// Creating a device twice with the same uid is the same as creating it
/// once: the second submission, whatever attributes it carries, changes
/// nothing and raises no fault.
pub proof fn lemma_device_creation_idempotent(
    m: StoreV,
    uid: u128,
    n1: Seq<char>,
    t1: Seq<char>,
    d1: Seq<char>,
    n2: Seq<char>,
    t2: Seq<char>,
    d2: Seq<char>,
)
    ensures
        spec_create_device(spec_create_device(m, uid, n1, t1, d1), uid, n2, t2, d2)
            == spec_create_device(m, uid, n1, t1, d1),
{
    let m1 = spec_create_device(m, uid, n1, t1, d1);
    if device_exists(m.devices, uid) {
        assert(m1 == m);
    } else {
        assert(m1.devices[m.devices.len() as int].uid == uid);
        assert(device_exists(m1.devices, uid));
    }
}

/// Resolving a sensor key twice yields the same surrogate id, and the second
/// resolution changes nothing: the natural key maps to one id for good.
pub proof fn lemma_resolve_sensor_stable(m: StoreV, uid: u128, st: Seq<char>, nm: Seq<char>)
    ensures
        ({
            let (m1, id1) = spec_resolve_sensor(m, uid, st, nm);
            let (m2, id2) = spec_resolve_sensor(m1, uid, st, nm);
            m2 == m1 && id2 == id1
        }),
{
    let (m1, id1) = spec_resolve_sensor(m, uid, st, nm);
    if !sensor_exists(m.sensors, uid, st, nm) {
        let n = m.sensors.len() as int;
        assert(sensor_key_at(m1.sensors, uid, st, nm, n));
        assert(sensor_exists(m1.sensors, uid, st, nm));
        let w = choose|j: int| sensor_key_at(m1.sensors, uid, st, nm, j);
        assert(sensor_key_at(m1.sensors, uid, st, nm, w));
        if w != n {
            assert(sensor_key_at(m.sensors, uid, st, nm, w));
            assert(false);
        }
        assert(sensor_id_of(m1.sensors, uid, st, nm) == id1);
    }
}

/// Resolving a channel key twice yields the same surrogate id, and the
/// second resolution changes nothing.
pub proof fn lemma_resolve_channel_stable(m: StoreV, sid: u64, nm: Seq<char>)
    ensures
        ({
            let (m1, id1) = spec_resolve_channel(m, sid, nm);
            let (m2, id2) = spec_resolve_channel(m1, sid, nm);
            m2 == m1 && id2 == id1
        }),
{
    let (m1, id1) = spec_resolve_channel(m, sid, nm);
    if !channel_exists(m.channels, sid, nm) {
        let n = m.channels.len() as int;
        assert(channel_key_at(m1.channels, sid, nm, n));
        assert(channel_exists(m1.channels, sid, nm));
        let w = choose|j: int| channel_key_at(m1.channels, sid, nm, j);
        assert(channel_key_at(m1.channels, sid, nm, w));
        if w != n {
            assert(channel_key_at(m.channels, sid, nm, w));
            assert(false);
        }
        assert(channel_id_of(m1.channels, sid, nm) == id1);
    }
}

/// Writing a reading key twice keeps exactly one row for it, holding the
/// later value: the result is the same as writing the later value once.
pub proof fn lemma_reading_last_write_wins(
    m: StoreV,
    sid: u64,
    cid: u64,
    ts: i64,
    v1: u64,
    v2: u64,
)
    requires
        m.wf(),
    ensures
        spec_upsert_reading(spec_upsert_reading(m, sid, cid, ts, v1), sid, cid, ts, v2)
            == spec_upsert_reading(m, sid, cid, ts, v2),
        reading_value_of(
            spec_upsert_reading(spec_upsert_reading(m, sid, cid, ts, v1), sid, cid, ts, v2),
            sid,
            cid,
            ts,
        ) == Some(v2),
{
    let m1 = spec_upsert_reading(m, sid, cid, ts, v1);
    let m2 = spec_upsert_reading(m1, sid, cid, ts, v2);
    let mo = spec_upsert_reading(m, sid, cid, ts, v2);
    if reading_exists(m.readings, sid, cid, ts) {
        let j = choose|k: int| reading_key_at(m.readings, sid, cid, ts, k);
        assert(reading_key_at(m.readings, sid, cid, ts, j));
        assert(reading_key_at(m1.readings, sid, cid, ts, j));
        assert(reading_exists(m1.readings, sid, cid, ts));
        let j2 = choose|k: int| reading_key_at(m1.readings, sid, cid, ts, k);
        assert(reading_key_at(m1.readings, sid, cid, ts, j2));
        if j2 != j {
            assert(reading_key_at(m.readings, sid, cid, ts, j2));
            assert(false);
        }
        assert(m2.readings =~= m.readings.update(j, m2.readings[j]));
        assert(m2 =~= mo);
    } else {
        let n = m.readings.len() as int;
        assert(reading_key_at(m1.readings, sid, cid, ts, n));
        assert(reading_exists(m1.readings, sid, cid, ts));
        let j2 = choose|k: int| reading_key_at(m1.readings, sid, cid, ts, k);
        assert(reading_key_at(m1.readings, sid, cid, ts, j2));
        if j2 != n {
            assert(reading_key_at(m.readings, sid, cid, ts, j2));
            assert(false);
        }
        assert(m2.readings =~= m.readings.push(m2.readings[n]));
        assert(m2 =~= mo);
    }
    let jf = choose|k: int| reading_key_at(m2.readings, sid, cid, ts, k);
    assert(reading_key_at(m2.readings, sid, cid, ts, jf)) by {
        if reading_exists(m.readings, sid, cid, ts) {
            let j = choose|k: int| reading_key_at(m.readings, sid, cid, ts, k);
            assert(reading_key_at(m2.readings, sid, cid, ts, j));
        } else {
            assert(reading_key_at(m2.readings, sid, cid, ts, m.readings.len() as int));
        }
    }
    assert(m2.readings[jf].value_bits == v2) by {
        if jf < m.readings.len() {
            if !reading_key_at(m.readings, sid, cid, ts, jf) {
                assert(false);
            }
        }
    }
}

/// No metric or reading ever touches the device table: applying any prefix
/// of a batch's metrics leaves the device rows exactly as they were.
pub proof fn lemma_apply_metrics_devices(m: StoreV, uid: u128, ms: Seq<MetricV>, k: int)
    ensures
        spec_apply_metrics(m, uid, ms, k).devices == m.devices,
    decreases k,
{
    if k > 0 {
        lemma_apply_metrics_devices(m, uid, ms, k - 1);
        let mp = spec_apply_metrics(m, uid, ms, k - 1);
        lemma_apply_readings_devices(
            spec_resolve_sensor(mp, uid, ms[k - 1].sensor, ms[k - 1].sensor).0,
            spec_resolve_sensor(mp, uid, ms[k - 1].sensor, ms[k - 1].sensor).1,
            ms[k - 1].readings,
            ms[k - 1].readings.len() as int,
        );
    }
}

/// Readings never touch the device table either.
pub proof fn lemma_apply_readings_devices(
    m: StoreV,
    sid: u64,
    rs: Seq<ReadingV>,
    k: int,
)
    ensures
        spec_apply_readings(m, sid, rs, k).devices == m.devices,
    decreases k,
{
    if k > 0 {
        lemma_apply_readings_devices(m, sid, rs, k - 1);
    }
}

/// Submitting a second batch for an already-known device uid never errors
/// out of the device step and leaves the stored device row — its name, type
/// and display name — exactly as the first batch created it, whatever
/// attributes the second batch carries.
pub proof fn lemma_ingest_device_attrs_stable(
    m: StoreV,
    p1: CollectPayloadV,
    p2: CollectPayloadV,
    uid: u128,
)
    requires
        uuid_parse(p1.device_uid) == Some(uid),
        uuid_parse(p2.device_uid) == Some(uid),
    ensures
        device_exists(spec_ingest(m, p1).devices, uid),
        device_row_of(spec_ingest(spec_ingest(m, p1), p2).devices, uid) == device_row_of(
            spec_ingest(m, p1).devices,
            uid,
        ),
{
    let ma = spec_create_device(m, uid, p1.name, p1.device_type, p1.name);
    lemma_apply_metrics_devices(ma, uid, p1.metrics, p1.metrics.len() as int);
    let m1 = spec_ingest(m, p1);
    assert(m1.devices == ma.devices);
    if !device_exists(m.devices, uid) {
        assert(ma.devices[m.devices.len() as int].uid == uid);
    }
    assert(device_exists(m1.devices, uid));
    let mb = spec_create_device(m1, uid, p2.name, p2.device_type, p2.name);
    assert(mb == m1);
    lemma_apply_metrics_devices(mb, uid, p2.metrics, p2.metrics.len() as int);
    assert(spec_ingest(m1, p2).devices == m1.devices);
}

/// Creating a device keeps the store well-formed, and afterwards the uid is
/// present.
pub proof fn lemma_create_device_wf(m: StoreV, uid: u128, n: Seq<char>, t: Seq<char>, d: Seq<char>)
    requires
        m.wf(),
    ensures
        spec_create_device(m, uid, n, t, d).wf(),
        device_exists(spec_create_device(m, uid, n, t, d).devices, uid),
{
    let m1 = spec_create_device(m, uid, n, t, d);
    if !device_exists(m.devices, uid) {
        let len = m.devices.len() as int;
        assert(m1.devices[len].uid == uid);
        assert(device_exists(m1.devices, uid));
        assert forall|i: int, j: int| 0 <= i < j < m1.devices.len() implies (
        #[trigger] m1.devices[i]).uid != (#[trigger] m1.devices[j]).uid by {
            if j == len {
                assert(m1.devices[i] == m.devices[i]);
            }
        }
        assert forall|k: int| 0 <= k < m1.sensors.len() implies device_exists(
            m1.devices,
            (#[trigger] m1.sensors[k]).device_uid,
        ) by {
            assert(device_exists(m.devices, m.sensors[k].device_uid));
            let w = choose|j: int|
                0 <= j < m.devices.len() && m.devices[j].uid == m.sensors[k].device_uid;
            assert(m1.devices[w].uid == m1.sensors[k].device_uid);
        }
    }
}

/// Resolving a sensor keeps the store well-formed and touches only the
/// sensor table; the id it yields names a sensor row.
pub proof fn lemma_resolve_sensor_wf(m: StoreV, uid: u128, st: Seq<char>, nm: Seq<char>)
    requires
        m.wf(),
        device_exists(m.devices, uid),
        m.sensors.len() < u64::MAX,
    ensures
        ({
            let (m1, id) = spec_resolve_sensor(m, uid, st, nm);
            &&& m1.wf()
            &&& (id as int) < m1.sensors.len()
            &&& m1.devices == m.devices
            &&& m1.channels == m.channels
            &&& m1.readings == m.readings
        }),
{
    let (m1, id) = spec_resolve_sensor(m, uid, st, nm);
    if sensor_exists(m.sensors, uid, st, nm) {
        let w = choose|j: int| sensor_key_at(m.sensors, uid, st, nm, j);
        assert(sensor_key_at(m.sensors, uid, st, nm, w));
        assert(m.sensors[w].id == w as u64);
    } else {
        let n = m.sensors.len() as int;
        assert forall|i: int| 0 <= i < m1.sensors.len() implies (#[trigger] m1.sensors[i]).id
            == i as u64 by {
            if i < n {
                assert(m1.sensors[i] == m.sensors[i]);
            }
        }
        assert forall|a: int, b: int| 0 <= a < b < m1.sensors.len() implies !((
        #[trigger] m1.sensors[a]).device_uid == (#[trigger] m1.sensors[b]).device_uid
            && m1.sensors[a].sensor_type == m1.sensors[b].sensor_type && m1.sensors[a].name
            == m1.sensors[b].name) by {
            if b == n {
                assert(m1.sensors[a] == m.sensors[a]);
                assert(!sensor_key_at(m.sensors, uid, st, nm, a));
            }
        }
        assert forall|k: int| 0 <= k < m1.sensors.len() implies device_exists(
            m1.devices,
            (#[trigger] m1.sensors[k]).device_uid,
        ) by {
            if k < n {
                assert(m1.sensors[k] == m.sensors[k]);
            } else {
                assert(m1.sensors[k].device_uid == uid);
            }
        }
    }
}

/// Resolving a channel keeps the store well-formed and touches only the
/// channel table; the id it yields names a channel row of that sensor.
pub proof fn lemma_resolve_channel_wf(m: StoreV, sid: u64, nm: Seq<char>)
    requires
        m.wf(),
        (sid as int) < m.sensors.len(),
        m.channels.len() < u64::MAX,
    ensures
        ({
            let (m1, id) = spec_resolve_channel(m, sid, nm);
            &&& m1.wf()
            &&& (id as int) < m1.channels.len()
            &&& m1.channels[id as int].sensor_id == sid
            &&& m1.devices == m.devices
            &&& m1.sensors == m.sensors
            &&& m1.readings == m.readings
        }),
{
    let (m1, id) = spec_resolve_channel(m, sid, nm);
    if channel_exists(m.channels, sid, nm) {
        let w = choose|j: int| channel_key_at(m.channels, sid, nm, j);
        assert(channel_key_at(m.channels, sid, nm, w));
        assert(m.channels[w].id == w as u64);
    } else {
        let n = m.channels.len() as int;
        assert forall|i: int| 0 <= i < m1.channels.len() implies (#[trigger] m1.channels[i]).id
            == i as u64 by {
            if i < n {
                assert(m1.channels[i] == m.channels[i]);
            }
        }
        assert forall|a: int, b: int| 0 <= a < b < m1.channels.len() implies !((
        #[trigger] m1.channels[a]).sensor_id == (#[trigger] m1.channels[b]).sensor_id
            && m1.channels[a].name == m1.channels[b].name) by {
            if b == n {
                assert(m1.channels[a] == m.channels[a]);
                assert(!channel_key_at(m.channels, sid, nm, a));
            }
        }
        assert forall|i: int| 0 <= i < m1.readings.len() implies ((
        #[trigger] m1.readings[i]).channel_id as int) < m1.channels.len()
            && m1.channels[m1.readings[i].channel_id as int].sensor_id
            == m1.readings[i].sensor_id by {
            assert(m1.readings[i] == m.readings[i]);
            assert(m1.channels[m.readings[i].channel_id as int] == m.channels[m.readings[i].channel_id as int]);
        }
    }
}

/// After a resolution the key is present and maps to the id that was
/// returned.
pub proof fn lemma_resolve_sensor_found(m: StoreV, uid: u128, st: Seq<char>, nm: Seq<char>)
    ensures
        ({
            let (m1, id) = spec_resolve_sensor(m, uid, st, nm);
            sensor_exists(m1.sensors, uid, st, nm) && sensor_id_of(m1.sensors, uid, st, nm) == id
        }),
{
    let (m1, id) = spec_resolve_sensor(m, uid, st, nm);
    if !sensor_exists(m.sensors, uid, st, nm) {
        let n = m.sensors.len() as int;
        assert(sensor_key_at(m1.sensors, uid, st, nm, n));
        assert(sensor_exists(m1.sensors, uid, st, nm));
        let w = choose|j: int| sensor_key_at(m1.sensors, uid, st, nm, j);
        assert(sensor_key_at(m1.sensors, uid, st, nm, w));
        if w != n {
            assert(sensor_key_at(m.sensors, uid, st, nm, w));
            assert(false);
        }
    }
}

/// The channel counterpart of `lemma_resolve_sensor_found`.
pub proof fn lemma_resolve_channel_found(m: StoreV, sid: u64, nm: Seq<char>)
    ensures
        ({
            let (m1, id) = spec_resolve_channel(m, sid, nm);
            channel_exists(m1.channels, sid, nm) && channel_id_of(m1.channels, sid, nm) == id
        }),
{
    let (m1, id) = spec_resolve_channel(m, sid, nm);
    if !channel_exists(m.channels, sid, nm) {
        let n = m.channels.len() as int;
        assert(channel_key_at(m1.channels, sid, nm, n));
        assert(channel_exists(m1.channels, sid, nm));
        let w = choose|j: int| channel_key_at(m1.channels, sid, nm, j);
        assert(channel_key_at(m1.channels, sid, nm, w));
        if w != n {
            assert(channel_key_at(m.channels, sid, nm, w));
            assert(false);
        }
    }
}

/// Submitting the same single-reading batch a second time — the sequential
/// image of concurrent identical submissions — leaves the store exactly as
/// the first submission left it: nothing new is created and the reading
/// keeps its value.
pub proof fn lemma_identical_batch_idempotent(m: StoreV, p: CollectPayloadV, uid: u128)
    requires
        m.wf(),
        m.sensors.len() < u64::MAX,
        m.channels.len() < u64::MAX,
        uuid_parse(p.device_uid) == Some(uid),
        p.metrics.len() == 1,
        p.metrics[0].readings.len() == 1,
    ensures
        spec_ingest(spec_ingest(m, p), p) == spec_ingest(m, p),
{
    let met = p.metrics[0];
    let rd = met.readings[0];
    let ma = spec_create_device(m, uid, p.name, p.device_type, p.name);
    lemma_create_device_wf(m, uid, p.name, p.device_type, p.name);
    let (mb, sid) = spec_resolve_sensor(ma, uid, met.sensor, met.sensor);
    lemma_resolve_sensor_wf(ma, uid, met.sensor, met.sensor);
    lemma_resolve_sensor_found(ma, uid, met.sensor, met.sensor);
    let (mc, cid) = spec_resolve_channel(mb, sid, rd.channel);
    lemma_resolve_channel_wf(mb, sid, rd.channel);
    lemma_resolve_channel_found(mb, sid, rd.channel);
    let md = spec_upsert_reading(mc, sid, cid, rd.timestamp, rd.value_bits);

    assert(spec_apply_readings(mb, sid, met.readings, 0) == mb);
    assert(spec_apply_readings(mb, sid, met.readings, 1) == spec_apply_reading(mb, sid, rd));
    assert(spec_apply_metrics(ma, uid, p.metrics, 0) == ma);
    assert(spec_apply_metrics(ma, uid, p.metrics, 1) == spec_apply_metric(ma, uid, met));
    assert(spec_ingest(m, p) == md);

    assert(md.devices == ma.devices);
    assert(device_exists(md.devices, uid));
    assert(spec_create_device(md, uid, p.name, p.device_type, p.name) == md);
    assert(md.sensors == mb.sensors);
    assert(sensor_exists(md.sensors, uid, met.sensor, met.sensor));
    assert(spec_resolve_sensor(md, uid, met.sensor, met.sensor) == (md, sid));
    assert(md.channels == mc.channels);
    assert(channel_exists(md.channels, sid, rd.channel));
    assert(spec_resolve_channel(md, sid, rd.channel) == (md, cid));
    lemma_reading_last_write_wins(mc, sid, cid, rd.timestamp, rd.value_bits, rd.value_bits);
    assert(spec_upsert_reading(md, sid, cid, rd.timestamp, rd.value_bits) == md);
    assert(spec_apply_reading(md, sid, rd) == md);
    assert(spec_apply_readings(md, sid, met.readings, 0) == md);
    assert(spec_apply_readings(md, sid, met.readings, 1) == md);
    assert(spec_apply_metrics(md, uid, p.metrics, 0) == md);
    assert(spec_apply_metrics(md, uid, p.metrics, 1) == md);
    assert(spec_ingest(md, p) == md);
}

} // verus!
