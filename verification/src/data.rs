//! Input shape of one ingestion batch, and the faults the pipeline reports.
//!
//! Timestamps are carried as signed 64-bit instants (the caller picks the
//! unit, e.g. microseconds since the Unix epoch) and measurement values as
//! the 64-bit pattern of the caller's floating-point value: the pipeline
//! never computes with either, it only stores and compares them.

use vstd::prelude::*;

verus! {

/// One channel reading under a metric: which channel, when, and the value.
pub struct Reading {
    pub channel: String,
    pub timestamp: i64,
    pub value_bits: u64,
}

/// Mathematical image of a `Reading`.
pub struct ReadingV {
    pub channel: Seq<char>,
    pub timestamp: i64,
    pub value_bits: u64,
}

impl View for Reading {
    type V = ReadingV;

    open spec fn view(&self) -> ReadingV {
        ReadingV { channel: self.channel@, timestamp: self.timestamp, value_bits: self.value_bits }
    }
}

impl DeepView for Reading {
    type V = ReadingV;

    open spec fn deep_view(&self) -> ReadingV {
        self.view()
    }
}

/// One metric of a batch: a sensor name and its readings.
pub struct Metric {
    pub sensor: String,
    pub readings: Vec<Reading>,
}

/// Mathematical image of a `Metric`.
pub struct MetricV {
    pub sensor: Seq<char>,
    pub readings: Seq<ReadingV>,
}

impl View for Metric {
    type V = MetricV;

    open spec fn view(&self) -> MetricV {
        MetricV { sensor: self.sensor@, readings: self.readings.deep_view() }
    }
}

impl DeepView for Metric {
    type V = MetricV;

    open spec fn deep_view(&self) -> MetricV {
        self.view()
    }
}

/// One ingestion batch as handed over by the transport: the device's
/// externally supplied identifier (a UUID in string form), its display
/// attributes, and the metrics to record.
pub struct CollectPayload {
    pub device_uid: String,
    pub name: String,
    pub device_type: String,
    pub metrics: Vec<Metric>,
}

/// Mathematical image of a `CollectPayload`.
pub struct CollectPayloadV {
    pub device_uid: Seq<char>,
    pub name: Seq<char>,
    pub device_type: Seq<char>,
    pub metrics: Seq<MetricV>,
}

impl View for CollectPayload {
    type V = CollectPayloadV;

    open spec fn view(&self) -> CollectPayloadV {
        CollectPayloadV {
            device_uid: self.device_uid@,
            name: self.name@,
            device_type: self.device_type@,
            metrics: self.metrics.deep_view(),
        }
    }
}

/// Every way one ingestion request can fail. The batch is all-or-nothing:
/// whichever fault comes first aborts the whole request.
#[derive(Clone, Copy, Debug, PartialEq, Eq, Structural)]
pub enum IngestError {
    /// The device identifier does not parse as a UUID; the caller's input is
    /// rejected before anything is attempted.
    InvalidDeviceUid,
    /// The transaction could not be opened.
    BeginFailed,
    /// The conflict-ignoring insert of the device row failed.
    DeviceInsert,
    /// The conflict-ignoring insert of a sensor row failed.
    SensorInsert,
    /// The fallback lookup of a sensor id found nothing or failed.
    SensorLookup,
    /// The conflict-ignoring insert of a channel row failed.
    ChannelInsert,
    /// The fallback lookup of a channel id found nothing or failed.
    ChannelLookup,
    /// The upsert of a reading row failed.
    ReadingInsert,
    /// The final commit failed; nothing of the batch is visible.
    CommitFailed,
}

impl IngestError {
    /// The HTTP status the transport reports for this fault: the malformed
    /// identifier is the caller's error, everything else is the store's.
    pub fn status_code(&self) -> (r: u16)
        ensures
            r == (if self is InvalidDeviceUid { 400u16 } else { 500u16 }),
    {
        match self {
            IngestError::InvalidDeviceUid => 400,
            _ => 500,
        }
    }

    /// The fixed, non-sensitive message the transport hands the caller.
    pub fn message(&self) -> (r: &'static str)
        ensures
            self is InvalidDeviceUid ==> r@ == "Invalid UUID"@,
            self is BeginFailed ==> r@ == "Failed to begin transaction"@,
            self is DeviceInsert ==> r@ == "Device insert error"@,
            self is SensorInsert ==> r@ == "Sensor insert error"@,
            self is SensorLookup ==> r@ == "Failed to get sensor ID"@,
            self is ChannelInsert ==> r@ == "Channel insert error"@,
            self is ChannelLookup ==> r@ == "Failed to get channel ID"@,
            self is ReadingInsert ==> r@ == "Reading insert error"@,
            self is CommitFailed ==> r@ == "Transaction commit failed"@,
    {
        match self {
            IngestError::InvalidDeviceUid => "Invalid UUID",
            IngestError::BeginFailed => "Failed to begin transaction",
            IngestError::DeviceInsert => "Device insert error",
            IngestError::SensorInsert => "Sensor insert error",
            IngestError::SensorLookup => "Failed to get sensor ID",
            IngestError::ChannelInsert => "Channel insert error",
            IngestError::ChannelLookup => "Failed to get channel ID",
            IngestError::ReadingInsert => "Reading insert error",
            IngestError::CommitFailed => "Transaction commit failed",
        }
    }
}

} // verus!
