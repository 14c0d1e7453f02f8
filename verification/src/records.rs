//! The records of the telemetry store: one sample of system vitals with its
//! disk and network sub-records, and the store's errors.

use vstd::prelude::*;
use crate::numbers::Milli;
use crate::time::Timestamp;

verus! {

/// Why an operation on the store or the alert engine failed.
#[derive(Clone, Copy, Debug, PartialEq, Eq, Structural)]
pub enum TelemetryError {
    /// No configuration or history entry has the given id, or the entry is
    /// not in a state that allows the change.
    NotFound,
    /// The tables break the schema: a stored sample lacks its network
    /// sub-record, or rows handed over for loading do not fit together.
    SchemaInvariantViolation,
    /// A time given as text is no RFC 3339 instant, or an instant has no
    /// such text.
    ValidationError,
    /// The store refused a write.
    StorageFailure,
}

impl TelemetryError {
    /// A short text that names the error.
    pub open spec fn description(self) -> Seq<char> {
        match self {
            TelemetryError::NotFound => "not found"@,
            TelemetryError::SchemaInvariantViolation => "sample without network record"@,
            TelemetryError::ValidationError => "invalid time"@,
            TelemetryError::StorageFailure => "storage failure"@,
        }
    }

    /// A short text that names the error.
    pub fn message(&self) -> (r: String)
        ensures
            r@ == self.description(),
    {
        let text = match self {
            TelemetryError::NotFound => "not found",
            TelemetryError::SchemaInvariantViolation => "sample without network record",
            TelemetryError::ValidationError => "invalid time",
            TelemetryError::StorageFailure => "storage failure",
        };
        text.to_owned()
    }
}

/// The use of one mounted file system at the time of a sample.
#[derive(Debug)]
pub struct DiskUsageData {
    pub mount_point: String,
    pub used_space: i64,
    pub total_space: i64,
    pub usage_percent: Milli,
}

/// A disk record, its mount point as characters.
pub struct DiskUsageView {
    pub mount_point: Seq<char>,
    pub used_space: i64,
    pub total_space: i64,
    pub usage_percent: Milli,
}

impl View for DiskUsageData {
    type V = DiskUsageView;

    open spec fn view(&self) -> DiskUsageView {
        DiskUsageView {
            mount_point: self.mount_point@,
            used_space: self.used_space,
            total_space: self.total_space,
            usage_percent: self.usage_percent,
        }
    }
}

impl Clone for DiskUsageData {
    fn clone(&self) -> (r: Self)
        ensures
            r == *self,
    {
        DiskUsageData {
            mount_point: self.mount_point.clone(),
            used_space: self.used_space,
            total_space: self.total_space,
            usage_percent: self.usage_percent,
        }
    }
}

/// The traffic counters of the host at the time of a sample.
#[derive(Clone, Copy, Debug, PartialEq, Eq, Structural)]
pub struct NetworkTrafficData {
    pub bytes_received: i64,
    pub bytes_sent: i64,
    pub packets_received: i64,
    pub packets_sent: i64,
}

/// One timestamped snapshot of system vitals.
#[derive(Debug)]
pub struct HistoricalSystemData {
    pub id: String,
    pub timestamp: Timestamp,
    pub cpu_usage: Milli,
    pub memory_usage: Milli,
    pub memory_total: i64,
    pub disk_usage: Vec<DiskUsageData>,
    pub network_traffic: NetworkTrafficData,
    pub system_load: Milli,
}

/// A sample, its texts as characters.
pub struct SampleView {
    pub id: Seq<char>,
    pub timestamp: Timestamp,
    pub cpu_usage: Milli,
    pub memory_usage: Milli,
    pub memory_total: i64,
    pub disk_usage: Seq<DiskUsageView>,
    pub network_traffic: NetworkTrafficData,
    pub system_load: Milli,
}

/// The views of a list of disk records.
pub open spec fn disk_views(disks: Seq<DiskUsageData>) -> Seq<DiskUsageView> {
    disks.map_values(|d: DiskUsageData| d@)
}

/// The views of a list of samples.
pub open spec fn sample_views(samples: Seq<HistoricalSystemData>) -> Seq<SampleView> {
    samples.map_values(|s: HistoricalSystemData| s@)
}

impl View for HistoricalSystemData {
    type V = SampleView;

    open spec fn view(&self) -> SampleView {
        SampleView {
            id: self.id@,
            timestamp: self.timestamp,
            cpu_usage: self.cpu_usage,
            memory_usage: self.memory_usage,
            memory_total: self.memory_total,
            disk_usage: disk_views(self.disk_usage@),
            network_traffic: self.network_traffic,
            system_load: self.system_load,
        }
    }
}

/// A copy of a list of disk records.
pub fn clone_disks(disks: &Vec<DiskUsageData>) -> (r: Vec<DiskUsageData>)
    ensures
        r@ == disks@,
{
    let mut r: Vec<DiskUsageData> = Vec::new();
    let mut i: usize = 0;
    while i < disks.len()
        invariant
            i <= disks.len(),
            r@ == disks@.take(i as int),
        decreases disks.len() - i,
    {
        r.push(disks[i].clone());
        assert(r@ =~= disks@.take(i + 1));
        i += 1;
    }
    assert(disks@.take(i as int) =~= disks@);
    r
}

impl Clone for HistoricalSystemData {
    fn clone(&self) -> (r: Self)
        ensures
            r@ == self@,
    {
        HistoricalSystemData {
            id: self.id.clone(),
            timestamp: self.timestamp,
            cpu_usage: self.cpu_usage,
            memory_usage: self.memory_usage,
            memory_total: self.memory_total,
            disk_usage: clone_disks(&self.disk_usage),
            network_traffic: self.network_traffic,
            system_load: self.system_load,
        }
    }
}

/// The counts and bounds of the sample table.
#[derive(Clone, Copy, Debug, PartialEq, Eq, Structural)]
pub struct DatabaseStats {
    pub total_records: i64,
    pub oldest_timestamp: Option<Timestamp>,
    pub newest_timestamp: Option<Timestamp>,
}

} // verus!
