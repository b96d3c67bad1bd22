//! The request as a state machine: one step per database round trip.
//!
//! The pipeline's decisions — which statement to issue next, what to do with
//! the rows a statement returned, when to give up and with which fault — are
//! verified here; performing a statement against the actual store and
//! reporting the reply is the caller's (unverified) part. A run starts with
//! the device identifier validated, issues the statements of the batch in
//! its nested order, and ends with a commit or aborts on the first fault:
//! after a fault no further statement is ever issued.

use vstd::prelude::*;
use crate::data::{CollectPayload, CollectPayloadV, IngestError};
use crate::device_uid::{uuid_parse, parse_device_uid};
use crate::pipeline::{spec_apply_metrics, spec_apply_readings, spec_apply_reading, spec_apply_metric, spec_ingest};
use crate::store::{Store, StoreV, device_exists, spec_create_device, spec_resolve_sensor, spec_resolve_channel, spec_upsert_reading};

verus! {

/// One statement against the relational store, as plain data. The insert
/// statements are the conflict-ignoring ones of the resolver: `InsertDevice`
/// ignores a uid conflict and returns nothing; `InsertSensor` and
/// `InsertChannel` ignore a natural-key conflict and return the fresh row's
/// id if one was created; the selects are the resolver's fallback lookups by
/// the same natural key; `UpsertReading` overwrites the value on a key
/// conflict.
pub enum Statement<'a> {
    InsertDevice { uid: u128, name: &'a str, device_type: &'a str, display_name: &'a str },
    InsertSensor { device_uid: u128, sensor_type: &'a str, name: &'a str },
    SelectSensor { device_uid: u128, sensor_type: &'a str, name: &'a str },
    InsertChannel { sensor_id: u64, name: &'a str },
    SelectChannel { sensor_id: u64, name: &'a str },
    UpsertReading { sensor_id: u64, channel_id: u64, timestamp: i64, value_bits: u64 },
    Commit,
}

/// Mathematical image of a `Statement`.
pub enum StatementV {
    InsertDevice { uid: u128, name: Seq<char>, device_type: Seq<char>, display_name: Seq<char> },
    InsertSensor { device_uid: u128, sensor_type: Seq<char>, name: Seq<char> },
    SelectSensor { device_uid: u128, sensor_type: Seq<char>, name: Seq<char> },
    InsertChannel { sensor_id: u64, name: Seq<char> },
    SelectChannel { sensor_id: u64, name: Seq<char> },
    UpsertReading { sensor_id: u64, channel_id: u64, timestamp: i64, value_bits: u64 },
    Commit,
}

impl<'a> View for Statement<'a> {
    type V = StatementV;

    open spec fn view(&self) -> StatementV {
        match *self {
            Statement::InsertDevice { uid, name, device_type, display_name } => StatementV::InsertDevice {
                uid,
                name: name@,
                device_type: device_type@,
                display_name: display_name@,
            },
            Statement::InsertSensor { device_uid, sensor_type, name } => StatementV::InsertSensor {
                device_uid,
                sensor_type: sensor_type@,
                name: name@,
            },
            Statement::SelectSensor { device_uid, sensor_type, name } => StatementV::SelectSensor {
                device_uid,
                sensor_type: sensor_type@,
                name: name@,
            },
            Statement::InsertChannel { sensor_id, name } => StatementV::InsertChannel {
                sensor_id,
                name: name@,
            },
            Statement::SelectChannel { sensor_id, name } => StatementV::SelectChannel {
                sensor_id,
                name: name@,
            },
            Statement::UpsertReading { sensor_id, channel_id, timestamp, value_bits } => StatementV::UpsertReading {
                sensor_id,
                channel_id,
                timestamp,
                value_bits,
            },
            Statement::Commit => StatementV::Commit,
        }
    }
}

/// What the store answered to the last statement: completion without rows,
/// an optional row's id, a required row's id, or a fault. A reply whose
/// shape does not fit the statement that was issued counts as a fault.
#[derive(Clone, Copy, Debug)]
pub enum DbReply {
    Done,
    MaybeRow(Option<u64>),
    Row(u64),
    Fault,
}

/// Where in the batch the run stands: which statement is outstanding.
#[derive(Clone, Copy, Debug, PartialEq, Eq, Structural)]
pub enum RunPhase {
    /// The device insert is outstanding.
    Device,
    /// The sensor insert for metric `mi` is outstanding.
    SensorInsert,
    /// The fallback sensor lookup for metric `mi` is outstanding.
    SensorSelect,
    /// The channel insert for reading `ri` of metric `mi` is outstanding.
    ChannelInsert,
    /// The fallback channel lookup for that reading is outstanding.
    ChannelSelect,
    /// The reading upsert for that reading is outstanding.
    Reading,
    /// The commit is outstanding.
    Committing,
    /// The run has ended, in success or fault; no statement is outstanding.
    Closed,
}

/// The outcome of one step: the next statement to perform, or the end of the
/// run with its result.
pub enum StepOutcome<'a> {
    Next(Statement<'a>),
    Finished(Result<(), IngestError>),
}

/// Mathematical image of a `StepOutcome`.
pub enum StepOutcomeV {
    Next(StatementV),
    Finished(Result<(), IngestError>),
}

impl<'a> View for StepOutcome<'a> {
    type V = StepOutcomeV;

    open spec fn view(&self) -> StepOutcomeV {
        match *self {
            StepOutcome::Next(s) => StepOutcomeV::Next(s@),
            StepOutcome::Finished(r) => StepOutcomeV::Finished(r),
        }
    }
}

/// One in-flight request: the parsed device uid and the cursor over the
/// batch. The payload itself stays with the caller and is handed to each
/// step; a ghost snapshot pins every step to the same batch.
pub struct IngestRun {
    pub device_uid: u128,
    pub mi: usize,
    pub ri: usize,
    pub sensor_id: u64,
    pub phase: RunPhase,
    pub snapshot: Ghost<CollectPayloadV>,
}

/// The fault each phase's statement reports when the store fails it.
pub open spec fn fault_of(ph: RunPhase) -> IngestError {
    match ph {
        RunPhase::Device => IngestError::DeviceInsert,
        RunPhase::SensorInsert => IngestError::SensorInsert,
        RunPhase::SensorSelect => IngestError::SensorLookup,
        RunPhase::ChannelInsert => IngestError::ChannelInsert,
        RunPhase::ChannelSelect => IngestError::ChannelLookup,
        RunPhase::Reading => IngestError::ReadingInsert,
        RunPhase::Committing => IngestError::CommitFailed,
        RunPhase::Closed => IngestError::CommitFailed,
    }
}

/// The step failed: the run closes at once with the fault of the phase the
/// failing statement belonged to.
pub open spec fn step_faulted(pre: IngestRun, post: IngestRun, out: StepOutcomeV) -> bool {
    &&& post == (IngestRun { phase: RunPhase::Closed, ..pre })
    &&& out == StepOutcomeV::Finished(Err::<(), IngestError>(fault_of(pre.phase)))
}

/// The sensor insert statement of metric `k`: the metric's sensor field is
/// both the sensor's type and its name.
pub open spec fn sensor_stmt_of(p: CollectPayloadV, uid: u128, k: int) -> StatementV {
    StatementV::InsertSensor {
        device_uid: uid,
        sensor_type: p.metrics[k].sensor,
        name: p.metrics[k].sensor,
    }
}

/// The run turns to metric `k`: its sensor insert where a metric is left,
/// the commit where the batch is exhausted.
pub open spec fn step_to_metric(pre: IngestRun, p: CollectPayloadV, k: int, post: IngestRun, out: StepOutcomeV) -> bool {
    if k < p.metrics.len() {
        &&& post == (IngestRun { phase: RunPhase::SensorInsert, mi: k as usize, ri: 0, ..pre })
        &&& out == StepOutcomeV::Next(sensor_stmt_of(p, pre.device_uid, k))
    } else {
        &&& post == (IngestRun { phase: RunPhase::Committing, mi: k as usize, ri: 0, ..pre })
        &&& out == StepOutcomeV::Next(StatementV::Commit)
    }
}

/// The run turns to reading `k` of the current metric: its channel insert
/// where a reading is left, else onward to the next metric.
pub open spec fn step_to_reading(pre: IngestRun, p: CollectPayloadV, k: int, post: IngestRun, out: StepOutcomeV) -> bool {
    if k < p.metrics[pre.mi as int].readings.len() {
        &&& post == (IngestRun { phase: RunPhase::ChannelInsert, ri: k as usize, ..pre })
        &&& out == StepOutcomeV::Next(
            StatementV::InsertChannel {
                sensor_id: pre.sensor_id,
                name: p.metrics[pre.mi as int].readings[k].channel,
            },
        )
    } else {
        step_to_metric(pre, p, pre.mi + 1, post, out)
    }
}

/// The sensor of the current metric resolved to `id`: remember it and turn
/// to the metric's first reading.
pub open spec fn step_sensor_resolved(pre: IngestRun, p: CollectPayloadV, id: u64, post: IngestRun, out: StepOutcomeV) -> bool {
    step_to_reading(IngestRun { sensor_id: id, ..pre }, p, 0, post, out)
}

/// The channel of the current reading resolved to `cid`: issue the upsert of
/// that reading's value.
pub open spec fn step_channel_resolved(pre: IngestRun, p: CollectPayloadV, cid: u64, post: IngestRun, out: StepOutcomeV) -> bool {
    &&& post == (IngestRun { phase: RunPhase::Reading, ..pre })
    &&& out == StepOutcomeV::Next(
        StatementV::UpsertReading {
            sensor_id: pre.sensor_id,
            channel_id: cid,
            timestamp: p.metrics[pre.mi as int].readings[pre.ri as int].timestamp,
            value_bits: p.metrics[pre.mi as int].readings[pre.ri as int].value_bits,
        },
    )
}

/// The whole transition relation of one step, phase by phase. Every reply
/// whose shape does not fit the outstanding statement — a fault first of all
/// — closes the run with that phase's fault.
pub open spec fn step_spec(pre: IngestRun, p: CollectPayloadV, reply: DbReply, post: IngestRun, out: StepOutcomeV) -> bool {
    match (pre.phase, reply) {
        (RunPhase::Device, DbReply::Done) => step_to_metric(pre, p, 0, post, out),
        (RunPhase::SensorInsert, DbReply::MaybeRow(Some(id))) => step_sensor_resolved(pre, p, id, post, out),
        (RunPhase::SensorInsert, DbReply::MaybeRow(None)) => {
            &&& post == (IngestRun { phase: RunPhase::SensorSelect, ..pre })
            &&& out == StepOutcomeV::Next(
                StatementV::SelectSensor {
                    device_uid: pre.device_uid,
                    sensor_type: p.metrics[pre.mi as int].sensor,
                    name: p.metrics[pre.mi as int].sensor,
                },
            )
        },
        (RunPhase::SensorSelect, DbReply::Row(id)) => step_sensor_resolved(pre, p, id, post, out),
        (RunPhase::ChannelInsert, DbReply::MaybeRow(Some(cid))) => step_channel_resolved(pre, p, cid, post, out),
        (RunPhase::ChannelInsert, DbReply::MaybeRow(None)) => {
            &&& post == (IngestRun { phase: RunPhase::ChannelSelect, ..pre })
            &&& out == StepOutcomeV::Next(
                StatementV::SelectChannel {
                    sensor_id: pre.sensor_id,
                    name: p.metrics[pre.mi as int].readings[pre.ri as int].channel,
                },
            )
        },
        (RunPhase::ChannelSelect, DbReply::Row(cid)) => step_channel_resolved(pre, p, cid, post, out),
        (RunPhase::Reading, DbReply::Done) => step_to_reading(pre, p, pre.ri + 1, post, out),
        (RunPhase::Committing, DbReply::Done) => {
            &&& post == (IngestRun { phase: RunPhase::Closed, ..pre })
            &&& out == StepOutcomeV::Finished(Ok::<(), IngestError>(()))
        },
        _ => step_faulted(pre, post, out),
    }
}

impl IngestRun {
    /// The run speaks of this payload: the uid is its parsed device
    /// identifier and the cursor stands inside its metrics.
    pub open spec fn inv(self, p: CollectPayloadV) -> bool {
        &&& self.snapshot@ == p
        &&& uuid_parse(p.device_uid) == Some(self.device_uid)
        &&& match self.phase {
            RunPhase::Device => true,
            RunPhase::SensorInsert | RunPhase::SensorSelect => (self.mi as int) < p.metrics.len(),
            RunPhase::ChannelInsert | RunPhase::ChannelSelect | RunPhase::Reading => (self.mi as int)
                < p.metrics.len() && (self.ri as int) < p.metrics[self.mi as int].readings.len(),
            RunPhase::Committing => true,
            RunPhase::Closed => true,
        }
    }

    /// Open a run for one batch: rejected outright — nothing issued, nothing
    /// to roll back — where the device identifier does not parse; otherwise
    /// the run starts with the device insert outstanding.
    pub fn start<'a>(payload: &'a CollectPayload) -> (r: Result<(IngestRun, Statement<'a>), IngestError>)
        ensures
            match r {
                Ok((run, stmt)) => {
                    &&& uuid_parse(payload@.device_uid) == Some(run.device_uid)
                    &&& run.inv(payload@)
                    &&& run.phase is Device
                    &&& run.mi == 0
                    &&& run.ri == 0
                    &&& stmt@ == StatementV::InsertDevice {
                        uid: run.device_uid,
                        name: payload@.name,
                        device_type: payload@.device_type,
                        display_name: payload@.name,
                    }
                },
                Err(e) => uuid_parse(payload@.device_uid) is None && e
                    == IngestError::InvalidDeviceUid,
            },
    {
        let uid = match parse_device_uid(payload.device_uid.as_str()) {
            Ok(u) => u,
            Err(e) => {
                return Err(e);
            },
        };
        let run = IngestRun {
            device_uid: uid,
            mi: 0,
            ri: 0,
            sensor_id: 0,
            phase: RunPhase::Device,
            snapshot: Ghost(payload@),
        };
        let stmt = Statement::InsertDevice {
            uid,
            name: payload.name.as_str(),
            device_type: payload.device_type.as_str(),
            display_name: payload.name.as_str(),
        };
        Ok((run, stmt))
    }

    /// Close the run with the outstanding phase's fault.
    fn fail<'a>(&mut self) -> (r: StepOutcome<'a>)
        ensures
            step_faulted(*old(self), *final(self), r@),
    {
        let e = fault_code(self.phase);
        self.phase = RunPhase::Closed;
        StepOutcome::Finished(Err(e))
    }

    /// Feed the store's reply to the outstanding statement and get the next
    /// statement to perform, or the end of the run. The transition taken is
    /// exactly `step_spec`; in particular a fault reply closes the run at
    /// once.
    pub fn step<'a>(&mut self, payload: &'a CollectPayload, reply: DbReply) -> (r: StepOutcome<'a>)
        requires
            old(self).inv(payload@),
            !(old(self).phase is Closed),
        ensures
            final(self).inv(payload@),
            step_spec(*old(self), payload@, reply, *final(self), r@),
    {
        match self.phase {
            RunPhase::Device => match reply {
                DbReply::Done => self.to_metric(payload, 0),
                _ => self.fail(),
            },
            RunPhase::SensorInsert => match reply {
                DbReply::MaybeRow(Some(id)) => self.sensor_resolved(payload, id),
                DbReply::MaybeRow(None) => {
                    self.phase = RunPhase::SensorSelect;
                    let met = &payload.metrics[self.mi];
                    StepOutcome::Next(
                        Statement::SelectSensor {
                            device_uid: self.device_uid,
                            sensor_type: met.sensor.as_str(),
                            name: met.sensor.as_str(),
                        },
                    )
                },
                _ => self.fail(),
            },
            RunPhase::SensorSelect => match reply {
                DbReply::Row(id) => self.sensor_resolved(payload, id),
                _ => self.fail(),
            },
            RunPhase::ChannelInsert => match reply {
                DbReply::MaybeRow(Some(cid)) => self.channel_resolved(payload, cid),
                DbReply::MaybeRow(None) => {
                    self.phase = RunPhase::ChannelSelect;
                    let rd = &payload.metrics[self.mi].readings[self.ri];
                    StepOutcome::Next(
                        Statement::SelectChannel {
                            sensor_id: self.sensor_id,
                            name: rd.channel.as_str(),
                        },
                    )
                },
                _ => self.fail(),
            },
            RunPhase::ChannelSelect => match reply {
                DbReply::Row(cid) => self.channel_resolved(payload, cid),
                _ => self.fail(),
            },
            RunPhase::Reading => match reply {
                DbReply::Done => {
                    let n_readings = payload.metrics[self.mi].readings.len();
                    proof {
                        assert(self.ri < n_readings);
                    }
                    let k = self.ri + 1;
                    self.to_reading(payload, k)
                },
                _ => self.fail(),
            },
            RunPhase::Committing => match reply {
                DbReply::Done => {
                    self.phase = RunPhase::Closed;
                    StepOutcome::Finished(Ok(()))
                },
                _ => self.fail(),
            },
            RunPhase::Closed => self.fail(),
        }
    }

    /// Turn to metric `k`, or to the commit where the batch is exhausted.
    fn to_metric<'a>(&mut self, payload: &'a CollectPayload, k: usize) -> (r: StepOutcome<'a>)
        requires
            old(self).inv(payload@),
            k <= payload@.metrics.len(),
        ensures
            final(self).inv(payload@),
            step_to_metric(*old(self), payload@, k as int, *final(self), r@),
    {
        if k < payload.metrics.len() {
            self.phase = RunPhase::SensorInsert;
            self.mi = k;
            self.ri = 0;
            let met = &payload.metrics[k];
            StepOutcome::Next(
                Statement::InsertSensor {
                    device_uid: self.device_uid,
                    sensor_type: met.sensor.as_str(),
                    name: met.sensor.as_str(),
                },
            )
        } else {
            self.phase = RunPhase::Committing;
            self.mi = k;
            self.ri = 0;
            StepOutcome::Next(Statement::Commit)
        }
    }

    /// Turn to reading `k` of the current metric, or onward past it.
    fn to_reading<'a>(&mut self, payload: &'a CollectPayload, k: usize) -> (r: StepOutcome<'a>)
        requires
            old(self).inv(payload@),
            (old(self).mi as int) < payload@.metrics.len(),
            k <= payload@.metrics[old(self).mi as int].readings.len(),
        ensures
            final(self).inv(payload@),
            step_to_reading(*old(self), payload@, k as int, *final(self), r@),
    {
        let met = &payload.metrics[self.mi];
        if k < met.readings.len() {
            self.phase = RunPhase::ChannelInsert;
            self.ri = k;
            let rd = &met.readings[k];
            StepOutcome::Next(
                Statement::InsertChannel { sensor_id: self.sensor_id, name: rd.channel.as_str() },
            )
        } else {
            let n_metrics = payload.metrics.len();
            proof {
                assert(self.mi < n_metrics);
            }
            let next = self.mi + 1;
            self.to_metric(payload, next)
        }
    }

    /// The current metric's sensor resolved to `id`.
    fn sensor_resolved<'a>(&mut self, payload: &'a CollectPayload, id: u64) -> (r: StepOutcome<'a>)
        requires
            old(self).inv(payload@),
            (old(self).mi as int) < payload@.metrics.len(),
        ensures
            final(self).inv(payload@),
            step_sensor_resolved(*old(self), payload@, id, *final(self), r@),
    {
        self.sensor_id = id;
        self.to_reading(payload, 0)
    }

    /// The current reading's channel resolved to `cid`.
    fn channel_resolved<'a>(&mut self, payload: &'a CollectPayload, cid: u64) -> (r: StepOutcome<'a>)
        requires
            old(self).inv(payload@),
            (old(self).mi as int) < payload@.metrics.len(),
            (old(self).ri as int) < payload@.metrics[old(self).mi as int].readings.len(),
        ensures
            final(self).inv(payload@),
            step_channel_resolved(*old(self), payload@, cid, *final(self), r@),
    {
        self.phase = RunPhase::Reading;
        let rd = &payload.metrics[self.mi].readings[self.ri];
        StepOutcome::Next(
            Statement::UpsertReading {
                sensor_id: self.sensor_id,
                channel_id: cid,
                timestamp: rd.timestamp,
                value_bits: rd.value_bits,
            },
        )
    }
}

/// The exec image of `fault_of`, read off the phase before the run closes.
fn fault_code(ph: RunPhase) -> (r: IngestError)
    ensures
        r == fault_of(ph),
{
    match ph {
        RunPhase::Device => IngestError::DeviceInsert,
        RunPhase::SensorInsert => IngestError::SensorInsert,
        RunPhase::SensorSelect => IngestError::SensorLookup,
        RunPhase::ChannelInsert => IngestError::ChannelInsert,
        RunPhase::ChannelSelect => IngestError::ChannelLookup,
        RunPhase::Reading => IngestError::ReadingInsert,
        RunPhase::Committing => IngestError::CommitFailed,
        RunPhase::Closed => IngestError::CommitFailed,
    }
}

/// A fault reply, whatever the phase, ends the run at once and in error:
/// once a statement has failed, no later statement of the batch is issued —
/// the caller rolls the transaction back and nothing of the batch survives.
pub proof fn lemma_fault_aborts(
    pre: IngestRun,
    p: CollectPayloadV,
    reply: DbReply,
    post: IngestRun,
    out: StepOutcomeV,
)
    requires
        step_spec(pre, p, reply, post, out),
        reply is Fault,
    ensures
        post.phase is Closed,
        out == StepOutcomeV::Finished(Err::<(), IngestError>(fault_of(pre.phase))),
{
}

/// How far the current metric still has to go, for termination of a driving
/// loop: a run strictly shrinks the measure (metrics left, phase order,
/// readings left, phase order again) at every successful step.
pub open spec fn outer_rank(ph: RunPhase) -> int {
    match ph {
        RunPhase::Device => 2,
        RunPhase::SensorInsert => 1,
        _ => 0,
    }
}

/// The inner tie-breaker of the termination measure: a channel insert comes
/// before its reading's upsert.
pub open spec fn inner_rank(ph: RunPhase) -> int {
    match ph {
        RunPhase::ChannelInsert => 1,
        _ => 0,
    }
}

/// How the store must look, and which statement must be outstanding, at each
/// phase of a run driven against the in-memory store: exactly the prefix of
/// the batch behind the cursor has been applied.
pub open spec fn run_store_inv(run: IngestRun, p: CollectPayloadV, base: StoreV, s: StoreV, stmt: StatementV) -> bool {
    let uid = run.device_uid;
    let ms = p.metrics;
    let m0 = spec_create_device(base, uid, p.name, p.device_type, p.name);
    let mmi = spec_apply_metrics(m0, uid, ms, run.mi as int);
    match run.phase {
        RunPhase::Device => {
            &&& run.mi == 0
            &&& run.ri == 0
            &&& s == base
            &&& stmt == StatementV::InsertDevice {
                uid,
                name: p.name,
                device_type: p.device_type,
                display_name: p.name,
            }
        },
        RunPhase::SensorInsert => {
            &&& (run.mi as int) < ms.len()
            &&& s == mmi
            &&& stmt == sensor_stmt_of(p, uid, run.mi as int)
            &&& device_exists(s.devices, uid)
        },
        RunPhase::ChannelInsert => {
            let rs = ms[run.mi as int].readings;
            let (m1, sid) = spec_resolve_sensor(mmi, uid, ms[run.mi as int].sensor, ms[run.mi as int].sensor);
            &&& (run.mi as int) < ms.len()
            &&& (run.ri as int) < rs.len()
            &&& run.sensor_id == sid
            &&& (sid as int) < s.sensors.len()
            &&& s == spec_apply_readings(m1, sid, rs, run.ri as int)
            &&& stmt == StatementV::InsertChannel { sensor_id: sid, name: rs[run.ri as int].channel }
            &&& device_exists(s.devices, uid)
        },
        RunPhase::Reading => {
            let rs = ms[run.mi as int].readings;
            let (m1, sid) = spec_resolve_sensor(mmi, uid, ms[run.mi as int].sensor, ms[run.mi as int].sensor);
            let sr = spec_apply_readings(m1, sid, rs, run.ri as int);
            let (m2, cid) = spec_resolve_channel(sr, sid, rs[run.ri as int].channel);
            &&& (run.mi as int) < ms.len()
            &&& (run.ri as int) < rs.len()
            &&& run.sensor_id == sid
            &&& (sid as int) < s.sensors.len()
            &&& s == m2
            &&& (cid as int) < s.channels.len()
            &&& s.channels[cid as int].sensor_id == sid
            &&& stmt == StatementV::UpsertReading {
                sensor_id: sid,
                channel_id: cid,
                timestamp: rs[run.ri as int].timestamp,
                value_bits: rs[run.ri as int].value_bits,
            }
            &&& device_exists(s.devices, uid)
        },
        RunPhase::Committing => s == spec_apply_metrics(m0, uid, ms, ms.len() as int) && stmt
            == StatementV::Commit,
        _ => false,
    }
}

/// The machine and the pipeline agree: driving a run's statements against
/// the in-memory store yields exactly what `spec_ingest` gives — the same
/// result the nested pipeline produces. The store's resolver answers every
/// conflict-ignoring insert with the surviving row's id, so the fallback
/// lookups and the fault paths never arise here; against a relational store
/// the same statements are performed by the transport.
pub fn drive_against_store(store: &mut Store, payload: &CollectPayload) -> (r: Result<(), IngestError>)
    requires
        old(store)@.wf(),
    ensures
        final(store)@.wf(),
        final(store)@ == spec_ingest(old(store)@, payload@),
        r is Ok <==> uuid_parse(payload@.device_uid) is Some,
        r is Err ==> r == Err::<(), IngestError>(IngestError::InvalidDeviceUid) && final(store)@
            == old(store)@,
{
    let ghost base = old(store)@;
    let (mut run, first) = match IngestRun::start(payload) {
        Ok(x) => x,
        Err(e) => {
            return Err(e);
        },
    };
    let ghost uid = run.device_uid;
    let mut stmt = first;
    loop
        invariant
            base == old(store)@,
            store@.wf(),
            run.inv(payload@),
            run.device_uid == uid,
            run_store_inv(run, payload@, base, store@, stmt@),
        decreases
            payload@.metrics.len() - run.mi,
            outer_rank(run.phase),
            (if run.phase is ChannelInsert || run.phase is Reading {
                payload@.metrics[run.mi as int].readings.len() - run.ri
            } else {
                0
            }),
            inner_rank(run.phase),
    {
        let ghost pre_run = run;
        let n_metrics = payload.metrics.len();
        proof {
            assert(payload@.metrics.len() == n_metrics);
        }
        match stmt {
            Statement::InsertDevice { uid: d_uid, name, device_type, display_name } => {
                store.create_device(d_uid, name, device_type, display_name);
                match run.step(payload, DbReply::Done) {
                    StepOutcome::Next(s) => {
                        proof {
                            let p = payload@;
                            let m0 = spec_create_device(base, uid, p.name, p.device_type, p.name);
                            assert(store@ == m0);
                            assert(spec_apply_metrics(m0, uid, p.metrics, 0) == m0);
                        }
                        stmt = s;
                    },
                    StepOutcome::Finished(_) => {
                        proof {
                            assert(false);
                        }
                        return Err(IngestError::DeviceInsert);
                    },
                }
            },
            Statement::InsertSensor { device_uid, sensor_type, name } => {
                let id = store.resolve_sensor(device_uid, sensor_type, name);
                match run.step(payload, DbReply::MaybeRow(Some(id))) {
                    StepOutcome::Next(s) => {
                        proof {
                            let p = payload@;
                            let ms = p.metrics;
                            let mi = pre_run.mi as int;
                            let m0 = spec_create_device(base, uid, p.name, p.device_type, p.name);
                            let mmi = spec_apply_metrics(m0, uid, ms, mi);
                            let rs = ms[mi].readings;
                            let (m1, sid) = spec_resolve_sensor(mmi, uid, ms[mi].sensor, ms[mi].sensor);
                            assert(store@ == m1 && id == sid);
                            assert(spec_apply_readings(m1, sid, rs, 0) == m1);
                            if rs.len() == 0 {
                                assert(spec_apply_metric(mmi, uid, ms[mi]) == m1);
                                assert(spec_apply_metrics(m0, uid, ms, mi + 1) == m1);
                            }
                        }
                        stmt = s;
                    },
                    StepOutcome::Finished(_) => {
                        proof {
                            assert(false);
                        }
                        return Err(IngestError::SensorInsert);
                    },
                }
            },
            Statement::InsertChannel { sensor_id, name } => {
                let cid = store.resolve_channel(sensor_id, name);
                match run.step(payload, DbReply::MaybeRow(Some(cid))) {
                    StepOutcome::Next(s) => {
                        stmt = s;
                    },
                    StepOutcome::Finished(_) => {
                        proof {
                            assert(false);
                        }
                        return Err(IngestError::ChannelInsert);
                    },
                }
            },
            Statement::UpsertReading { sensor_id, channel_id, timestamp, value_bits } => {
                let n_readings = payload.metrics[run.mi].readings.len();
                proof {
                    assert(payload@.metrics[pre_run.mi as int].readings.len() == n_readings);
                }
                store.upsert_reading(sensor_id, channel_id, timestamp, value_bits);
                match run.step(payload, DbReply::Done) {
                    StepOutcome::Next(s) => {
                        proof {
                            let p = payload@;
                            let ms = p.metrics;
                            let mi = pre_run.mi as int;
                            let ri = pre_run.ri as int;
                            let m0 = spec_create_device(base, uid, p.name, p.device_type, p.name);
                            let mmi = spec_apply_metrics(m0, uid, ms, mi);
                            let rs = ms[mi].readings;
                            let (m1, sid) = spec_resolve_sensor(mmi, uid, ms[mi].sensor, ms[mi].sensor);
                            let sr = spec_apply_readings(m1, sid, rs, ri);
                            let (m2, cid) = spec_resolve_channel(sr, sid, rs[ri].channel);
                            assert(store@ == spec_upsert_reading(m2, sid, cid, rs[ri].timestamp, rs[ri].value_bits));
                            assert(spec_apply_reading(sr, sid, rs[ri]) == store@);
                            assert(spec_apply_readings(m1, sid, rs, ri + 1) == store@);
                            if ri + 1 == rs.len() {
                                assert(spec_apply_metric(mmi, uid, ms[mi]) == store@);
                                assert(spec_apply_metrics(m0, uid, ms, mi + 1) == store@);
                            }
                        }
                        stmt = s;
                    },
                    StepOutcome::Finished(_) => {
                        proof {
                            assert(false);
                        }
                        return Err(IngestError::ReadingInsert);
                    },
                }
            },
            Statement::Commit => {
                // The in-memory store is not transactional: its writes are
                // already in place, so the commit is the run's last word.
                match run.step(payload, DbReply::Done) {
                    StepOutcome::Finished(r) => {
                        proof {
                            let p = payload@;
                            let m0 = spec_create_device(base, uid, p.name, p.device_type, p.name);
                            assert(store@ == spec_apply_metrics(m0, uid, p.metrics, p.metrics.len() as int));
                            assert(spec_ingest(base, p) == store@);
                            assert(r == Ok::<(), IngestError>(()));
                        }
                        return Ok(());
                    },
                    StepOutcome::Next(_) => {
                        proof {
                            assert(false);
                        }
                        return Err(IngestError::CommitFailed);
                    },
                }
            },
            Statement::SelectSensor { .. } => {
                proof {
                    assert(false);
                }
                return Err(IngestError::SensorLookup);
            },
            Statement::SelectChannel { .. } => {
                proof {
                    assert(false);
                }
                return Err(IngestError::ChannelLookup);
            },
        }
    }
}

} // verus!
