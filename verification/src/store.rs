//! The normalized store: four tables under the device -> sensor -> channel ->
//! reading hierarchy, with the race-free get-or-create (resolver) semantics
//! of each level.
//!
//! `Store` is an in-memory table set whose operations have exactly the
//! semantics the pipeline asks of the relational store: a conflict-ignoring
//! device insert, get-or-create resolution of sensors and channels, and a
//! last-write-wins upsert of readings. Surrogate ids are the row's position
//! in its table. Each operation's contract gives the new table state exactly,
//! as a function of the old one.

use vstd::prelude::*;

verus! {

/// A device row: the externally supplied uid is the natural key; the
/// attributes are fixed at creation and never updated by this path.
#[derive(Debug)]
pub struct DeviceRow {
    pub uid: u128,
    pub name: String,
    pub device_type: String,
    pub display_name: String,
}

/// Mathematical image of a `DeviceRow`.
pub struct DeviceRowV {
    pub uid: u128,
    pub name: Seq<char>,
    pub device_type: Seq<char>,
    pub display_name: Seq<char>,
}

impl View for DeviceRow {
    type V = DeviceRowV;

    open spec fn view(&self) -> DeviceRowV {
        DeviceRowV {
            uid: self.uid,
            name: self.name@,
            device_type: self.device_type@,
            display_name: self.display_name@,
        }
    }
}

impl DeepView for DeviceRow {
    type V = DeviceRowV;

    open spec fn deep_view(&self) -> DeviceRowV {
        self.view()
    }
}

/// A sensor row: surrogate id plus the natural key
/// (device_uid, sensor_type, name).
#[derive(Debug)]
pub struct SensorRow {
    pub id: u64,
    pub device_uid: u128,
    pub sensor_type: String,
    pub name: String,
}

/// Mathematical image of a `SensorRow`.
pub struct SensorRowV {
    pub id: u64,
    pub device_uid: u128,
    pub sensor_type: Seq<char>,
    pub name: Seq<char>,
}

impl View for SensorRow {
    type V = SensorRowV;

    open spec fn view(&self) -> SensorRowV {
        SensorRowV {
            id: self.id,
            device_uid: self.device_uid,
            sensor_type: self.sensor_type@,
            name: self.name@,
        }
    }
}

impl DeepView for SensorRow {
    type V = SensorRowV;

    open spec fn deep_view(&self) -> SensorRowV {
        self.view()
    }
}

/// A channel row: surrogate id plus the natural key (sensor_id, name).
#[derive(Debug)]
pub struct ChannelRow {
    pub id: u64,
    pub sensor_id: u64,
    pub name: String,
}

/// Mathematical image of a `ChannelRow`.
pub struct ChannelRowV {
    pub id: u64,
    pub sensor_id: u64,
    pub name: Seq<char>,
}

impl View for ChannelRow {
    type V = ChannelRowV;

    open spec fn view(&self) -> ChannelRowV {
        ChannelRowV { id: self.id, sensor_id: self.sensor_id, name: self.name@ }
    }
}

impl DeepView for ChannelRow {
    type V = ChannelRowV;

    open spec fn deep_view(&self) -> ChannelRowV {
        self.view()
    }
}

/// A reading row: natural key (sensor_id, channel_id, timestamp), and the
/// stored value, overwritten on conflict.
#[derive(Clone, Copy, Debug, PartialEq, Eq, Structural)]
pub struct ReadingRow {
    pub sensor_id: u64,
    pub channel_id: u64,
    pub timestamp: i64,
    pub value_bits: u64,
}

impl View for ReadingRow {
    type V = ReadingRow;

    open spec fn view(&self) -> ReadingRow {
        *self
    }
}

impl DeepView for ReadingRow {
    type V = ReadingRow;

    open spec fn deep_view(&self) -> ReadingRow {
        *self
    }
}

/// The whole table set, as mathematics: one sequence of rows per table, in
/// insertion order.
#[verifier::ext_equal]
pub struct StoreV {
    pub devices: Seq<DeviceRowV>,
    pub sensors: Seq<SensorRowV>,
    pub channels: Seq<ChannelRowV>,
    pub readings: Seq<ReadingRow>,
}

/// Some device row carries this uid.
pub open spec fn device_exists(devs: Seq<DeviceRowV>, uid: u128) -> bool {
    exists|j: int| 0 <= j < devs.len() && devs[j].uid == uid
}

/// The row of the device with this uid (meaningful only where one exists;
/// unique in a well-formed store).
pub open spec fn device_row_of(devs: Seq<DeviceRowV>, uid: u128) -> DeviceRowV {
    devs[choose|j: int| 0 <= j < devs.len() && devs[j].uid == uid]
}

/// Row `j` carries the sensor natural key (device_uid, sensor_type, name).
pub open spec fn sensor_key_at(
    ss: Seq<SensorRowV>,
    uid: u128,
    st: Seq<char>,
    nm: Seq<char>,
    j: int,
) -> bool {
    0 <= j < ss.len() && ss[j].device_uid == uid && ss[j].sensor_type == st && ss[j].name == nm
}

/// Some sensor row carries this natural key.
pub open spec fn sensor_exists(ss: Seq<SensorRowV>, uid: u128, st: Seq<char>, nm: Seq<char>) -> bool {
    exists|j: int| sensor_key_at(ss, uid, st, nm, j)
}

/// The surrogate id of the sensor with this natural key (meaningful only
/// where one exists; unique in a well-formed store).
pub open spec fn sensor_id_of(ss: Seq<SensorRowV>, uid: u128, st: Seq<char>, nm: Seq<char>) -> u64 {
    ss[choose|j: int| sensor_key_at(ss, uid, st, nm, j)].id
}

/// Row `j` carries the channel natural key (sensor_id, name).
pub open spec fn channel_key_at(cs: Seq<ChannelRowV>, sid: u64, nm: Seq<char>, j: int) -> bool {
    0 <= j < cs.len() && cs[j].sensor_id == sid && cs[j].name == nm
}

/// Some channel row carries this natural key.
pub open spec fn channel_exists(cs: Seq<ChannelRowV>, sid: u64, nm: Seq<char>) -> bool {
    exists|j: int| channel_key_at(cs, sid, nm, j)
}

/// The surrogate id of the channel with this natural key (meaningful only
/// where one exists; unique in a well-formed store).
pub open spec fn channel_id_of(cs: Seq<ChannelRowV>, sid: u64, nm: Seq<char>) -> u64 {
    cs[choose|j: int| channel_key_at(cs, sid, nm, j)].id
}

/// Row `j` carries the reading natural key (sensor_id, channel_id, timestamp).
pub open spec fn reading_key_at(rs: Seq<ReadingRow>, sid: u64, cid: u64, ts: i64, j: int) -> bool {
    0 <= j < rs.len() && rs[j].sensor_id == sid && rs[j].channel_id == cid && rs[j].timestamp == ts
}

/// Some reading row carries this natural key.
pub open spec fn reading_exists(rs: Seq<ReadingRow>, sid: u64, cid: u64, ts: i64) -> bool {
    exists|j: int| reading_key_at(rs, sid, cid, ts, j)
}

/// The position of the reading with this natural key (meaningful only where
/// one exists; unique in a well-formed store).
pub open spec fn reading_index_of(rs: Seq<ReadingRow>, sid: u64, cid: u64, ts: i64) -> int {
    choose|j: int| reading_key_at(rs, sid, cid, ts, j)
}

/// The stored value for a reading key, if any row carries that key.
pub open spec fn reading_value_of(m: StoreV, sid: u64, cid: u64, ts: i64) -> Option<u64> {
    if reading_exists(m.readings, sid, cid, ts) {
        Some(m.readings[reading_index_of(m.readings, sid, cid, ts)].value_bits)
    } else {
        None
    }
}

impl StoreV {
    /// Surrogate ids are the row positions of their table.
    pub open spec fn ids_are_positions(self) -> bool {
        &&& forall|i: int|
            0 <= i < self.sensors.len() ==> (#[trigger] self.sensors[i]).id == i as u64
        &&& forall|i: int|
            0 <= i < self.channels.len() ==> (#[trigger] self.channels[i]).id == i as u64
    }

    /// At most one row per natural key, in every table.
    pub open spec fn keys_unique(self) -> bool {
        &&& forall|i: int, j: int|
            0 <= i < j < self.devices.len() ==> (#[trigger] self.devices[i]).uid != (
            #[trigger] self.devices[j]).uid
        &&& forall|i: int, j: int|
            0 <= i < j < self.sensors.len() ==> !((#[trigger] self.sensors[i]).device_uid == (
            #[trigger] self.sensors[j]).device_uid && self.sensors[i].sensor_type
                == self.sensors[j].sensor_type && self.sensors[i].name == self.sensors[j].name)
        &&& forall|i: int, j: int|
            0 <= i < j < self.channels.len() ==> !((#[trigger] self.channels[i]).sensor_id == (
            #[trigger] self.channels[j]).sensor_id && self.channels[i].name
                == self.channels[j].name)
        &&& forall|i: int, j: int|
            0 <= i < j < self.readings.len() ==> !((#[trigger] self.readings[i]).sensor_id == (
            #[trigger] self.readings[j]).sensor_id && self.readings[i].channel_id
                == self.readings[j].channel_id && self.readings[i].timestamp
                == self.readings[j].timestamp)
    }

    /// Every child row points at an existing parent: sensors at a device,
    /// channels at a sensor, readings at a channel of their own sensor.
    pub open spec fn refs_ok(self) -> bool {
        &&& forall|i: int|
            0 <= i < self.sensors.len() ==> device_exists(
                self.devices,
                (#[trigger] self.sensors[i]).device_uid,
            )
        &&& forall|i: int|
            0 <= i < self.channels.len() ==> ((#[trigger] self.channels[i]).sensor_id as int)
                < self.sensors.len()
        &&& forall|i: int|
            0 <= i < self.readings.len() ==> ((#[trigger] self.readings[i]).channel_id as int)
                < self.channels.len() && self.channels[self.readings[i].channel_id as int].sensor_id
                == self.readings[i].sensor_id
    }

    /// Well-formedness: the invariant every store operation preserves.
    pub open spec fn wf(self) -> bool {
        &&& self.ids_are_positions()
        &&& self.keys_unique()
        &&& self.refs_ok()
        &&& self.sensors.len() <= u64::MAX
        &&& self.channels.len() <= u64::MAX
    }
}

/// Conflict-ignoring device creation: a new row where the uid is unseen,
/// no change at all where it is already present.
pub open spec fn spec_create_device(
    m: StoreV,
    uid: u128,
    name: Seq<char>,
    device_type: Seq<char>,
    display_name: Seq<char>,
) -> StoreV {
    if device_exists(m.devices, uid) {
        m
    } else {
        StoreV {
            devices: m.devices.push(DeviceRowV { uid, name, device_type, display_name }),
            ..m
        }
    }
}

/// Get-or-create resolution of a sensor: the surrogate id the natural key
/// already maps to, or a fresh row whose id is the next position.
pub open spec fn spec_resolve_sensor(m: StoreV, uid: u128, st: Seq<char>, nm: Seq<char>) -> (
    StoreV,
    u64,
) {
    if sensor_exists(m.sensors, uid, st, nm) {
        (m, sensor_id_of(m.sensors, uid, st, nm))
    } else {
        let id = m.sensors.len() as u64;
        (
            StoreV {
                sensors: m.sensors.push(
                    SensorRowV { id, device_uid: uid, sensor_type: st, name: nm },
                ),
                ..m
            },
            id,
        )
    }
}

/// Get-or-create resolution of a channel under its sensor.
pub open spec fn spec_resolve_channel(m: StoreV, sid: u64, nm: Seq<char>) -> (StoreV, u64) {
    if channel_exists(m.channels, sid, nm) {
        (m, channel_id_of(m.channels, sid, nm))
    } else {
        let id = m.channels.len() as u64;
        (
            StoreV { channels: m.channels.push(ChannelRowV { id, sensor_id: sid, name: nm }), ..m },
            id,
        )
    }
}

/// Last-write-wins upsert of a reading: overwrite the value of the row with
/// this key, or append a new row where none carries it.
pub open spec fn spec_upsert_reading(m: StoreV, sid: u64, cid: u64, ts: i64, v: u64) -> StoreV {
    let row = ReadingRow { sensor_id: sid, channel_id: cid, timestamp: ts, value_bits: v };
    if reading_exists(m.readings, sid, cid, ts) {
        StoreV { readings: m.readings.update(reading_index_of(m.readings, sid, cid, ts), row), ..m }
    } else {
        StoreV { readings: m.readings.push(row), ..m }
    }
}

/// The in-memory table set. Operations mirror, one for one, the statements
/// the pipeline issues against the relational store.
pub struct Store {
    pub devices: Vec<DeviceRow>,
    pub sensors: Vec<SensorRow>,
    pub channels: Vec<ChannelRow>,
    pub readings: Vec<ReadingRow>,
}

impl View for Store {
    type V = StoreV;

    open spec fn view(&self) -> StoreV {
        StoreV {
            devices: self.devices.deep_view(),
            sensors: self.sensors.deep_view(),
            channels: self.channels.deep_view(),
            readings: self.readings.deep_view(),
        }
    }
}

impl Store {
    /// An empty store: no rows in any table.
    pub fn new() -> (s: Store)
        ensures
            s@.wf(),
            s@.devices.len() == 0,
            s@.sensors.len() == 0,
            s@.channels.len() == 0,
            s@.readings.len() == 0,
    {
        let s = Store { devices: Vec::new(), sensors: Vec::new(), channels: Vec::new(), readings: Vec::new() };
        proof {
            assert(s@.devices =~= Seq::<DeviceRowV>::empty());
            assert(s@.sensors =~= Seq::<SensorRowV>::empty());
            assert(s@.channels =~= Seq::<ChannelRowV>::empty());
            assert(s@.readings =~= Seq::<ReadingRow>::empty());
        }
        s
    }

    /// Create the device row for this uid unless one already exists; an
    /// existing row, whatever its attributes, is left untouched and the call
    /// still succeeds.
    pub fn create_device(&mut self, uid: u128, name: &str, device_type: &str, display_name: &str)
        requires
            old(self)@.wf(),
        ensures
            final(self)@.wf(),
            final(self)@ == spec_create_device(old(self)@, uid, name@, device_type@, display_name@),
            device_exists(final(self)@.devices, uid),
    {
        let ghost pre = self@;
        let n = self.devices.len();
        let mut i: usize = 0;
        while i < n
            invariant
                pre == old(self)@,
                pre.wf(),
                n == pre.devices.len(),
                self@ == pre,
                0 <= i <= n,
                forall|j: int| 0 <= j < i ==> (#[trigger] pre.devices[j]).uid != uid,
            decreases n - i,
        {
            if self.devices[i].uid == uid {
                proof {
                    assert(pre.devices[i as int].uid == uid);
                    assert(device_exists(pre.devices, uid));
                }
                return ;
            }
            proof {
                assert(pre.devices[i as int].uid != uid);
            }
            i += 1;
        }
        proof {
            assert(!device_exists(pre.devices, uid));
        }
        let row = DeviceRow {
            uid,
            name: name.to_owned(),
            device_type: device_type.to_owned(),
            display_name: display_name.to_owned(),
        };
        self.devices.push(row);
        proof {
            assert(self@.devices =~= pre.devices.push(
                DeviceRowV { uid, name: name@, device_type: device_type@, display_name: display_name@ },
            ));
            assert(self@ =~= spec_create_device(pre, uid, name@, device_type@, display_name@));
            assert(device_exists(self@.devices, uid)) by {
                assert(self@.devices[pre.devices.len() as int].uid == uid);
            }
            assert forall|k: int| 0 <= k < self@.sensors.len() implies device_exists(
                self@.devices,
                (#[trigger] self@.sensors[k]).device_uid,
            ) by {
                assert(self@.sensors[k] == pre.sensors[k]);
                assert(device_exists(pre.devices, pre.sensors[k].device_uid));
                let w = choose|j: int|
                    0 <= j < pre.devices.len() && pre.devices[j].uid == pre.sensors[k].device_uid;
                assert(self@.devices[w].uid == self@.sensors[k].device_uid);
            }
        }
    }

    /// Resolve or create the sensor for (device_uid, sensor_type, name):
    /// the existing surrogate id where the key is known, else a fresh row.
    /// Identity is stable: the same key always maps to the same id.
    pub fn resolve_sensor(&mut self, device_uid: u128, sensor_type: &str, name: &str) -> (r: u64)
        requires
            old(self)@.wf(),
            device_exists(old(self)@.devices, device_uid),
        ensures
            final(self)@.wf(),
            (final(self)@, r) == spec_resolve_sensor(old(self)@, device_uid, sensor_type@, name@),
            (r as int) < final(self)@.sensors.len(),
            final(self)@.sensors[r as int].device_uid == device_uid,
            final(self)@.sensors[r as int].sensor_type == sensor_type@,
            final(self)@.sensors[r as int].name == name@,
            final(self)@.devices == old(self)@.devices,
            final(self)@.channels == old(self)@.channels,
            final(self)@.readings == old(self)@.readings,
    {
        let ghost pre = self@;
        let st_key = sensor_type.to_owned();
        let nm_key = name.to_owned();
        let n = self.sensors.len();
        let mut i: usize = 0;
        while i < n
            invariant
                pre == old(self)@,
                n == pre.sensors.len(),
                self@ == pre,
                pre.wf(),
                0 <= i <= n,
                st_key@ == sensor_type@,
                nm_key@ == name@,
                forall|j: int| 0 <= j < i ==> !sensor_key_at(pre.sensors, device_uid, sensor_type@, name@, j),
            decreases n - i,
        {
            if self.sensors[i].device_uid == device_uid && self.sensors[i].sensor_type == st_key
                && self.sensors[i].name == nm_key {
                proof {
                    assert(sensor_key_at(pre.sensors, device_uid, sensor_type@, name@, i as int));
                    let w = choose|j: int| sensor_key_at(pre.sensors, device_uid, sensor_type@, name@, j);
                    assert(sensor_key_at(pre.sensors, device_uid, sensor_type@, name@, w));
                    if w != i as int {
                        assert(pre.sensors[w].device_uid == pre.sensors[i as int].device_uid
                            && pre.sensors[w].sensor_type == pre.sensors[i as int].sensor_type
                            && pre.sensors[w].name == pre.sensors[i as int].name);
                        assert(false);
                    }
                    assert(sensor_id_of(pre.sensors, device_uid, sensor_type@, name@) == pre.sensors[i as int].id);
                }
                return self.sensors[i].id;
            }
            i += 1;
        }
        proof {
            assert(!sensor_exists(pre.sensors, device_uid, sensor_type@, name@));
            assert(usize::MAX <= u64::MAX);
        }
        let id = n as u64;
        let row = SensorRow { id, device_uid, sensor_type: st_key, name: nm_key };
        self.sensors.push(row);
        let n2 = self.sensors.len();
        proof {
            let rowv = SensorRowV { id, device_uid, sensor_type: sensor_type@, name: name@ };
            assert(self@.sensors =~= pre.sensors.push(rowv));
            assert(self@ =~= spec_resolve_sensor(pre, device_uid, sensor_type@, name@).0);
            assert(self@.sensors[n as int] == rowv);
            assert(n2 == n + 1);
            assert(self@.sensors.len() <= usize::MAX <= u64::MAX);
            assert forall|a: int, b: int| 0 <= a < b < self@.sensors.len() implies !((
            #[trigger] self@.sensors[a]).device_uid == (#[trigger] self@.sensors[b]).device_uid
                && self@.sensors[a].sensor_type == self@.sensors[b].sensor_type
                && self@.sensors[a].name == self@.sensors[b].name) by {
                if b == n as int {
                    assert(self@.sensors[a] == pre.sensors[a]);
                    assert(!sensor_key_at(pre.sensors, device_uid, sensor_type@, name@, a));
                }
            }
            assert forall|k: int| 0 <= k < self@.sensors.len() implies device_exists(
                self@.devices,
                (#[trigger] self@.sensors[k]).device_uid,
            ) by {
                if k < n {
                    assert(device_exists(pre.devices, pre.sensors[k].device_uid));
                }
            }
        }
        id
    }

    /// Resolve or create the channel for (sensor_id, name): the existing
    /// surrogate id where the key is known, else a fresh row. Identity is
    /// stable: the same key always maps to the same id.
    pub fn resolve_channel(&mut self, sensor_id: u64, name: &str) -> (r: u64)
        requires
            old(self)@.wf(),
            (sensor_id as int) < old(self)@.sensors.len(),
        ensures
            final(self)@.wf(),
            (final(self)@, r) == spec_resolve_channel(old(self)@, sensor_id, name@),
            (r as int) < final(self)@.channels.len(),
            final(self)@.channels[r as int].sensor_id == sensor_id,
            final(self)@.channels[r as int].name == name@,
            final(self)@.devices == old(self)@.devices,
            final(self)@.sensors == old(self)@.sensors,
            final(self)@.readings == old(self)@.readings,
    {
        let ghost pre = self@;
        let nm_key = name.to_owned();
        let n = self.channels.len();
        let mut i: usize = 0;
        while i < n
            invariant
                pre == old(self)@,
                n == pre.channels.len(),
                self@ == pre,
                pre.wf(),
                0 <= i <= n,
                nm_key@ == name@,
                forall|j: int| 0 <= j < i ==> !channel_key_at(pre.channels, sensor_id, name@, j),
            decreases n - i,
        {
            if self.channels[i].sensor_id == sensor_id && self.channels[i].name == nm_key {
                proof {
                    assert(channel_key_at(pre.channels, sensor_id, name@, i as int));
                    let w = choose|j: int| channel_key_at(pre.channels, sensor_id, name@, j);
                    assert(channel_key_at(pre.channels, sensor_id, name@, w));
                    if w != i as int {
                        assert(pre.channels[w].sensor_id == pre.channels[i as int].sensor_id
                            && pre.channels[w].name == pre.channels[i as int].name);
                        assert(false);
                    }
                    assert(channel_id_of(pre.channels, sensor_id, name@) == pre.channels[i as int].id);
                }
                return self.channels[i].id;
            }
            i += 1;
        }
        proof {
            assert(!channel_exists(pre.channels, sensor_id, name@));
            assert(usize::MAX <= u64::MAX);
        }
        let id = n as u64;
        let row = ChannelRow { id, sensor_id, name: nm_key };
        self.channels.push(row);
        let n2 = self.channels.len();
        proof {
            let rowv = ChannelRowV { id, sensor_id, name: name@ };
            assert(self@.channels =~= pre.channels.push(rowv));
            assert(self@ =~= spec_resolve_channel(pre, sensor_id, name@).0);
            assert(self@.channels[n as int] == rowv);
            assert(n2 == n + 1);
            assert(self@.channels.len() <= usize::MAX <= u64::MAX);
            assert forall|a: int, b: int| 0 <= a < b < self@.channels.len() implies !((
            #[trigger] self@.channels[a]).sensor_id == (#[trigger] self@.channels[b]).sensor_id
                && self@.channels[a].name == self@.channels[b].name) by {
                if b == n as int {
                    assert(self@.channels[a] == pre.channels[a]);
                    assert(!channel_key_at(pre.channels, sensor_id, name@, a));
                }
            }
        }
        id
    }

    /// Record the value for (sensor_id, channel_id, timestamp): overwrite the
    /// existing row's value where the key is present, else append a row. The
    /// most recent write is the one that stays; no duplicate row ever arises.
    pub fn upsert_reading(&mut self, sensor_id: u64, channel_id: u64, timestamp: i64, value_bits: u64)
        requires
            old(self)@.wf(),
            (channel_id as int) < old(self)@.channels.len(),
            old(self)@.channels[channel_id as int].sensor_id == sensor_id,
        ensures
            final(self)@.wf(),
            final(self)@ == spec_upsert_reading(old(self)@, sensor_id, channel_id, timestamp, value_bits),
            reading_value_of(final(self)@, sensor_id, channel_id, timestamp) == Some(value_bits),
            final(self)@.devices == old(self)@.devices,
            final(self)@.sensors == old(self)@.sensors,
            final(self)@.channels == old(self)@.channels,
    {
        let ghost pre = self@;
        let row = ReadingRow { sensor_id, channel_id, timestamp, value_bits };
        let n = self.readings.len();
        let mut i: usize = 0;
        while i < n
            invariant
                pre == old(self)@,
                n == pre.readings.len(),
                self@ == pre,
                pre.wf(),
                0 <= i <= n,
                row == (ReadingRow { sensor_id, channel_id, timestamp, value_bits }),
                forall|j: int| 0 <= j < i ==> !reading_key_at(pre.readings, sensor_id, channel_id, timestamp, j),
            decreases n - i,
        {
            if self.readings[i].sensor_id == sensor_id && self.readings[i].channel_id == channel_id
                && self.readings[i].timestamp == timestamp {
                proof {
                    assert(reading_key_at(pre.readings, sensor_id, channel_id, timestamp, i as int));
                    let w = choose|j: int| reading_key_at(pre.readings, sensor_id, channel_id, timestamp, j);
                    assert(w == i as int);
                }
                proof {
                    let w = choose|j: int| reading_key_at(pre.readings, sensor_id, channel_id, timestamp, j);
                    assert(reading_key_at(pre.readings, sensor_id, channel_id, timestamp, w));
                    if w != i as int {
                        assert(pre.readings[w].sensor_id == pre.readings[i as int].sensor_id
                            && pre.readings[w].channel_id == pre.readings[i as int].channel_id
                            && pre.readings[w].timestamp == pre.readings[i as int].timestamp);
                        assert(false);
                    }
                }
                self.readings[i] = row;
                proof {
                    assert(self@.readings =~= pre.readings.update(i as int, row));
                    assert(self@ =~= spec_upsert_reading(pre, sensor_id, channel_id, timestamp, value_bits));
                    assert(reading_key_at(self@.readings, sensor_id, channel_id, timestamp, i as int));
                    let w2 = choose|j: int| reading_key_at(self@.readings, sensor_id, channel_id, timestamp, j);
                    assert(reading_key_at(self@.readings, sensor_id, channel_id, timestamp, w2));
                    if w2 != i as int {
                        assert(self@.readings[w2].sensor_id == self@.readings[i as int].sensor_id
                            && self@.readings[w2].channel_id == self@.readings[i as int].channel_id
                            && self@.readings[w2].timestamp == self@.readings[i as int].timestamp);
                        assert(false);
                    }
                    assert forall|a: int, b: int| 0 <= a < b < self@.readings.len() implies !((
                    #[trigger] self@.readings[a]).sensor_id == (#[trigger] self@.readings[b]).sensor_id
                        && self@.readings[a].channel_id == self@.readings[b].channel_id
                        && self@.readings[a].timestamp == self@.readings[b].timestamp) by {
                        let pa = pre.readings[a];
                        let pb = pre.readings[b];
                        assert(pa.sensor_id == self@.readings[a].sensor_id
                            && pa.channel_id == self@.readings[a].channel_id
                            && pa.timestamp == self@.readings[a].timestamp);
                        assert(pb.sensor_id == self@.readings[b].sensor_id
                            && pb.channel_id == self@.readings[b].channel_id
                            && pb.timestamp == self@.readings[b].timestamp);
                    }
                }
                return ;
            }
            i += 1;
        }
        proof {
            assert(!reading_exists(pre.readings, sensor_id, channel_id, timestamp));
        }
        self.readings.push(row);
        proof {
            assert(self@.readings =~= pre.readings.push(row));
            assert(self@ =~= spec_upsert_reading(pre, sensor_id, channel_id, timestamp, value_bits));
            assert(reading_key_at(self@.readings, sensor_id, channel_id, timestamp, n as int));
            let w2 = choose|j: int| reading_key_at(self@.readings, sensor_id, channel_id, timestamp, j);
            assert(reading_key_at(self@.readings, sensor_id, channel_id, timestamp, w2));
            if w2 != n as int {
                assert(reading_key_at(pre.readings, sensor_id, channel_id, timestamp, w2));
                assert(false);
            }
            assert forall|a: int, b: int| 0 <= a < b < self@.readings.len() implies !((
            #[trigger] self@.readings[a]).sensor_id == (#[trigger] self@.readings[b]).sensor_id
                && self@.readings[a].channel_id == self@.readings[b].channel_id
                && self@.readings[a].timestamp == self@.readings[b].timestamp) by {
                if b == n as int {
                    assert(self@.readings[a] == pre.readings[a]);
                    assert(!reading_key_at(pre.readings, sensor_id, channel_id, timestamp, a));
                }
            }
        }
    }

    /// How many device rows the store holds.
    pub fn device_count(&self) -> (r: usize)
        ensures
            r == self@.devices.len(),
    {
        self.devices.len()
    }

    /// How many sensor rows the store holds.
    pub fn sensor_count(&self) -> (r: usize)
        ensures
            r == self@.sensors.len(),
    {
        self.sensors.len()
    }

    /// How many channel rows the store holds.
    pub fn channel_count(&self) -> (r: usize)
        ensures
            r == self@.channels.len(),
    {
        self.channels.len()
    }

    /// How many reading rows the store holds.
    pub fn reading_count(&self) -> (r: usize)
        ensures
            r == self@.readings.len(),
    {
        self.readings.len()
    }

    /// The device row for this uid, if one exists.
    pub fn get_device(&self, uid: u128) -> (r: Option<&DeviceRow>)
        requires
            self@.wf(),
        ensures
            match r {
                Some(d) => device_exists(self@.devices, uid) && d@ == device_row_of(
                    self@.devices,
                    uid,
                ),
                None => !device_exists(self@.devices, uid),
            },
    {
        let n = self.devices.len();
        let mut i: usize = 0;
        while i < n
            invariant
                self@.wf(),
                n == self@.devices.len(),
                0 <= i <= n,
                forall|j: int| 0 <= j < i ==> (#[trigger] self@.devices[j]).uid != uid,
            decreases n - i,
        {
            if self.devices[i].uid == uid {
                proof {
                    assert(self@.devices[i as int].uid == uid);
                    let w = choose|j: int| 0 <= j < self@.devices.len() && self@.devices[j].uid == uid;
                    assert(self@.devices[w].uid == uid);
                    if w != i as int {
                        assert(false);
                    }
                }
                return Some(&self.devices[i]);
            }
            i += 1;
        }
        None
    }

    /// The surrogate id the sensor natural key maps to, if it is known.
    pub fn lookup_sensor(&self, device_uid: u128, sensor_type: &str, name: &str) -> (r: Option<
        u64,
    >)
        requires
            self@.wf(),
        ensures
            match r {
                Some(id) => sensor_exists(self@.sensors, device_uid, sensor_type@, name@) && id
                    == sensor_id_of(self@.sensors, device_uid, sensor_type@, name@),
                None => !sensor_exists(self@.sensors, device_uid, sensor_type@, name@),
            },
    {
        let st_key = sensor_type.to_owned();
        let nm_key = name.to_owned();
        let n = self.sensors.len();
        let mut i: usize = 0;
        while i < n
            invariant
                self@.wf(),
                n == self@.sensors.len(),
                0 <= i <= n,
                st_key@ == sensor_type@,
                nm_key@ == name@,
                forall|j: int| 0 <= j < i ==> !sensor_key_at(self@.sensors, device_uid, sensor_type@, name@, j),
            decreases n - i,
        {
            if self.sensors[i].device_uid == device_uid && self.sensors[i].sensor_type == st_key
                && self.sensors[i].name == nm_key {
                proof {
                    assert(sensor_key_at(self@.sensors, device_uid, sensor_type@, name@, i as int));
                    let w = choose|j: int| sensor_key_at(self@.sensors, device_uid, sensor_type@, name@, j);
                    assert(sensor_key_at(self@.sensors, device_uid, sensor_type@, name@, w));
                    if w != i as int {
                        assert(false);
                    }
                }
                return Some(self.sensors[i].id);
            }
            i += 1;
        }
        None
    }

    /// The surrogate id the channel natural key maps to, if it is known.
    pub fn lookup_channel(&self, sensor_id: u64, name: &str) -> (r: Option<u64>)
        requires
            self@.wf(),
        ensures
            match r {
                Some(id) => channel_exists(self@.channels, sensor_id, name@) && id == channel_id_of(
                    self@.channels,
                    sensor_id,
                    name@,
                ),
                None => !channel_exists(self@.channels, sensor_id, name@),
            },
    {
        let nm_key = name.to_owned();
        let n = self.channels.len();
        let mut i: usize = 0;
        while i < n
            invariant
                self@.wf(),
                n == self@.channels.len(),
                0 <= i <= n,
                nm_key@ == name@,
                forall|j: int| 0 <= j < i ==> !channel_key_at(self@.channels, sensor_id, name@, j),
            decreases n - i,
        {
            if self.channels[i].sensor_id == sensor_id && self.channels[i].name == nm_key {
                proof {
                    assert(channel_key_at(self@.channels, sensor_id, name@, i as int));
                    let w = choose|j: int| channel_key_at(self@.channels, sensor_id, name@, j);
                    assert(channel_key_at(self@.channels, sensor_id, name@, w));
                    if w != i as int {
                        assert(false);
                    }
                }
                return Some(self.channels[i].id);
            }
            i += 1;
        }
        None
    }

    /// The stored value for (sensor_id, channel_id, timestamp), if any.
    pub fn stored_value(&self, sensor_id: u64, channel_id: u64, timestamp: i64) -> (r: Option<
        u64,
    >)
        requires
            self@.wf(),
        ensures
            r == reading_value_of(self@, sensor_id, channel_id, timestamp),
    {
        let n = self.readings.len();
        let mut i: usize = 0;
        while i < n
            invariant
                self@.wf(),
                n == self@.readings.len(),
                0 <= i <= n,
                forall|j: int| 0 <= j < i ==> !reading_key_at(self@.readings, sensor_id, channel_id, timestamp, j),
            decreases n - i,
        {
            if self.readings[i].sensor_id == sensor_id && self.readings[i].channel_id == channel_id
                && self.readings[i].timestamp == timestamp {
                proof {
                    assert(reading_key_at(self@.readings, sensor_id, channel_id, timestamp, i as int));
                    let w = choose|j: int| reading_key_at(self@.readings, sensor_id, channel_id, timestamp, j);
                    assert(reading_key_at(self@.readings, sensor_id, channel_id, timestamp, w));
                    if w != i as int {
                        assert(false);
                    }
                }
                return Some(self.readings[i].value_bits);
            }
            i += 1;
        }
        None
    }
}

} // verus!
