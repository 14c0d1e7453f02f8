//! The operations that take their times as text or make a new sample from
//! bare figures: they read the clock, draw ids and parse times, and hand the
//! rest to the store.

use vstd::prelude::*;
use crate::database::DatabaseManager;
use crate::export::{window_count, window_export};
use crate::text::line_feeds;
use crate::ids::fresh_id;
use crate::numbers::Milli;
use crate::records::{
    disk_views,
    sample_views,
    DiskUsageData,
    HistoricalSystemData,
    NetworkTrafficData,
    SampleView,
    TelemetryError,
};
use crate::time::{current_time, parse_rfc3339, rfc3339_instant, Timestamp};

verus! {

/// The instant that an RFC 3339 text writes.
pub open spec fn instant_of(text: Seq<char>) -> Option<Timestamp> {
    match rfc3339_instant(text) {
        Some((secs, nanos)) => Some(Timestamp { secs, nanos }),
        None => None,
    }
}

/// Reads an instant from its RFC 3339 text. Text that is none is a
/// validation error.
pub fn parse_time(text: &str) -> (r: Result<Timestamp, TelemetryError>)
    ensures
        match instant_of(text@) {
            Some(t) => r == Ok::<Timestamp, TelemetryError>(t),
            None => r == Err::<Timestamp, TelemetryError>(TelemetryError::ValidationError),
        },
{
    match parse_rfc3339(text) {
        Ok(t) => Ok(t),
        Err(_) => Err(TelemetryError::ValidationError),
    }
}

/// The sample that the figures of one sampling tick make under the id `id`
/// at the time `timestamp`.
pub open spec fn sample_of_tick(
    id: Seq<char>,
    timestamp: Timestamp,
    cpu_usage: Milli,
    memory_usage: Milli,
    memory_total: i64,
    system_load: Milli,
    disk_usage: Seq<DiskUsageData>,
    network_traffic: NetworkTrafficData,
) -> SampleView {
    SampleView {
        id,
        timestamp,
        cpu_usage,
        memory_usage,
        memory_total,
        disk_usage: disk_views(disk_usage),
        network_traffic,
        system_load,
    }
}

/// The sample that the figures of one sampling tick make, with a fresh id
/// and the time of the call.
pub fn new_sample(
    cpu_usage: Milli,
    memory_usage: Milli,
    memory_total: i64,
    system_load: Milli,
    disk_usage: Vec<DiskUsageData>,
    network_traffic: NetworkTrafficData,
) -> (r: HistoricalSystemData)
    ensures
        r@ == sample_of_tick(
            r.id@,
            r.timestamp,
            cpu_usage,
            memory_usage,
            memory_total,
            system_load,
            disk_usage@,
            network_traffic,
        ),
{
    HistoricalSystemData {
        id: fresh_id(),
        timestamp: current_time(),
        cpu_usage,
        memory_usage,
        memory_total,
        disk_usage,
        network_traffic,
        system_load,
    }
}

/// Stores the figures of one sampling tick as a sample with a fresh id and
/// the time of the call, and returns the id. Fails, with nothing stored,
/// where the fresh id is one that a stored sample has; so it cannot fail
/// while the store is empty.
pub fn store_historical_data(
    db: &mut DatabaseManager,
    cpu_usage: Milli,
    memory_usage: Milli,
    memory_total: i64,
    system_load: Milli,
    disk_usage: Vec<DiskUsageData>,
    network_traffic: NetworkTrafficData,
) -> (r: Result<String, TelemetryError>)
    requires
        old(db).wf(),
    ensures
        final(db).wf(),
        match r {
            Ok(id) => !old(db)@.has_sample(id@) && exists|timestamp: Timestamp|
                final(db)@ == old(db)@.insert(
                    #[trigger] sample_of_tick(
                        id@,
                        timestamp,
                        cpu_usage,
                        memory_usage,
                        memory_total,
                        system_load,
                        disk_usage@,
                        network_traffic,
                    ),
                ),
            Err(error) => error == TelemetryError::StorageFailure && final(db)@ == old(db)@,
        },
        old(db)@.samples.len() == 0 ==> r is Ok,
{
    let data = new_sample(
        cpu_usage,
        memory_usage,
        memory_total,
        system_load,
        disk_usage,
        network_traffic,
    );
    match db.store_historical_data(&data) {
        Ok(()) => Ok(data.id),
        Err(error) => Err(error),
    }
}

/// Reads the samples of a window whose two ends are given as RFC 3339
/// text. An end that is no such text is a validation error.
pub fn fetch_historical_data(db: &DatabaseManager, start_time: &str, end_time: &str) -> (r: Result<
    Vec<HistoricalSystemData>,
    TelemetryError,
>)
    requires
        db.wf(),
    ensures
        match (instant_of(start_time@), instant_of(end_time@)) {
            (Some(start), Some(end)) => match db@.fetch(start, end) {
                Ok(samples) => r matches Ok(found) && sample_views(found@) == samples,
                Err(error) => r matches Err(e) && e == error,
            },
            _ => r matches Err(e) && e == TelemetryError::ValidationError,
        },
{
    let start = match parse_time(start_time) {
        Ok(t) => t,
        Err(error) => {
            return Err(error);
        },
    };
    let end = match parse_time(end_time) {
        Ok(t) => t,
        Err(error) => {
            return Err(error);
        },
    };
    db.fetch_historical_data(start, end)
}

/// Exports the samples of a window whose two ends are given as RFC 3339
/// text. An end that is no such text is a validation error.
pub fn export_historical_data(db: &DatabaseManager, start_time: &str, end_time: &str) -> (r: Result<
    String,
    TelemetryError,
>)
    requires
        db.wf(),
    ensures
        match (instant_of(start_time@), instant_of(end_time@)) {
            (Some(start), Some(end)) => match window_export(db@, start, end) {
                Ok(text) => r matches Ok(found) && found@ == text && line_feeds(text)
                    == window_count(db@, start, end) + 1,
                Err(error) => r matches Err(e) && e == error,
            },
            _ => r matches Err(e) && e == TelemetryError::ValidationError,
        },
{
    let start = match parse_time(start_time) {
        Ok(t) => t,
        Err(error) => {
            return Err(error);
        },
    };
    let end = match parse_time(end_time) {
        Ok(t) => t,
        Err(error) => {
            return Err(error);
        },
    };
    db.export_historical_data_csv(start, end)
}

} // verus!
