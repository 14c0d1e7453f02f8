//! The telemetry store: writing a sample, reading a window of time, pruning
//! and statistics.

use vstd::prelude::*;
use crate::database::{
    disk_row_views,
    disk_rows_of,
    holds_id,
    in_window,
    leading_not_after,
    lemma_filter_last,
    lemma_filter_member,
    lemma_insert_wf,
    lemma_pruned_wf,
    network_row_of,
    network_row_views,
    row_of,
    sample_row_views,
    traffic_for,
    usage_for,
    DatabaseManager,
    DiskRow,
    DiskRowView,
    NetworkRow,
    NetworkRowView,
    SampleRow,
    SampleRowView,
};
use crate::records::{
    disk_views,
    sample_views,
    DatabaseStats,
    DiskUsageData,
    HistoricalSystemData,
    NetworkTrafficData,
    TelemetryError,
};
use crate::time::{current_time, Timestamp};

verus! {

/// Whether one of `rows` has the id `id`.
pub(crate) fn contains_id(rows: &Vec<SampleRow>, id: &String) -> (r: bool)
    ensures
        r == holds_id(sample_row_views(rows@), id@),
{
    let mut i: usize = 0;
    while i < rows.len()
        invariant
            i <= rows.len(),
            forall|j: int| 0 <= j < i ==> (#[trigger] sample_row_views(rows@)[j]).id != id@,
        decreases rows.len() - i,
    {
        if rows[i].id == *id {
            assert(sample_row_views(rows@)[i as int].id == id@);
            return true;
        }
        i += 1;
    }
    false
}

impl DatabaseManager {
    /// Writes one sample with its sub-records, all of it or nothing. A sample
    /// whose id is stored already is refused.
    pub fn store_historical_data(&mut self, data: &HistoricalSystemData) -> (r: Result<
        (),
        TelemetryError,
    >)
        requires
            old(self).wf(),
        ensures
            final(self).wf(),
            match r {
                Ok(()) => {
                    &&& !old(self)@.has_sample(data@.id)
                    &&& final(self)@ == old(self)@.insert(data@)
                },
                Err(error) => {
                    &&& old(self)@.has_sample(data@.id)
                    &&& error == TelemetryError::StorageFailure
                    &&& final(self)@ == old(self)@
                },
            },
    {
        if contains_id(&self.samples, &data.id) {
            return Err(TelemetryError::StorageFailure);
        }
        let ghost before = self@;
        let mut k: usize = 0;
        assert(before.samples.skip(0) =~= before.samples);
        while k < self.samples.len() && self.samples[k].timestamp.is_not_after(&data.timestamp)
            invariant
                k <= self.samples.len(),
                self@ == before,
                leading_not_after(before.samples, data.timestamp) == k + leading_not_after(
                    before.samples.skip(k as int),
                    data.timestamp,
                ),
            decreases self.samples.len() - k,
        {
            assert(before.samples.skip(k as int).drop_first() =~= before.samples.skip(k + 1));
            assert(before.samples.skip(k as int)[0] == self.samples@[k as int]@);
            k += 1;
        }
        proof {
            if k < self.samples.len() {
                assert(before.samples.skip(k as int)[0] == self.samples@[k as int]@);
            }
            assert(leading_not_after(before.samples, data.timestamp) == k);
        }
        let row = SampleRow {
            id: data.id.clone(),
            timestamp: data.timestamp,
            cpu_usage: data.cpu_usage,
            memory_usage: data.memory_usage,
            memory_total: data.memory_total,
            system_load: data.system_load,
        };
        self.samples.insert(k, row);
        assert(sample_row_views(self.samples@) =~= before.samples.insert(k as int, row_of(data@)));
        let mut i: usize = 0;
        while i < data.disk_usage.len()
            invariant
                i <= data.disk_usage.len(),
                self@.samples == before.samples.insert(k as int, row_of(data@)),
                self@.networks == before.networks,
                self@.configurations == before.configurations,
                self@.history == before.history,
                self@.disks == before.disks + disk_rows_of(data@).take(i as int),
            decreases data.disk_usage.len() - i,
        {
            let ghost disks_before = self.disks@;
            self.disks.push(
                DiskRow { historical_data_id: data.id.clone(), usage: data.disk_usage[i].clone() },
            );
            proof {
                assert(disk_rows_of(data@)[i as int] == self.disks@.last()@);
                assert(disk_row_views(self.disks@) =~= disk_row_views(disks_before).push(
                    self.disks@.last()@,
                ));
                assert(self@.disks =~= before.disks + disk_rows_of(data@).take(i + 1));
            }
            i += 1;
        }
        assert(disk_rows_of(data@).take(i as int) =~= disk_rows_of(data@));
        let ghost networks_before = self.networks@;
        self.networks.push(
            NetworkRow { historical_data_id: data.id.clone(), traffic: data.network_traffic },
        );
        proof {
            assert(network_row_views(self.networks@) =~= network_row_views(networks_before).push(
                network_row_of(data@),
            ));
            lemma_insert_wf(before, data@);
        }
        Ok(())
    }

    /// The disk records of the sample `id`, in the order of their rows.
    fn disks_of(&self, id: &String) -> (r: Vec<DiskUsageData>)
        ensures
            disk_views(r@) == self@.disks_of(id@),
    {
        let mut r: Vec<DiskUsageData> = Vec::new();
        let ghost f = |row: DiskRowView| usage_for(row, id@);
        let mut i: usize = 0;
        assert(disk_views(r@) =~= self@.disks.take(0).filter_map(f));
        while i < self.disks.len()
            invariant
                i <= self.disks.len(),
                f == |row: DiskRowView| usage_for(row, id@),
                disk_views(r@) == self@.disks.take(i as int).filter_map(f),
            decreases self.disks.len() - i,
        {
            proof {
                self@.disks.lemma_filter_map_take_succ(f, i as int);
            }
            let ghost before = r@;
            if self.disks[i].historical_data_id == *id {
                r.push(self.disks[i].usage.clone());
                assert(disk_views(r@) =~= disk_views(before).push(self.disks@[i as int].usage@));
            }
            i += 1;
        }
        assert(self@.disks.take(i as int) =~= self@.disks);
        r
    }

    /// The network record of the sample `id`.
    fn network_of(&self, id: &String) -> (r: Option<NetworkTrafficData>)
        ensures
            r == self@.network_of(id@),
    {
        let mut i: usize = 0;
        assert(self@.networks.skip(0) =~= self@.networks);
        while i < self.networks.len()
            invariant
                i <= self.networks.len(),
                traffic_for(self@.networks, id@) == traffic_for(self@.networks.skip(i as int), id@),
            decreases self.networks.len() - i,
        {
            assert(self@.networks.skip(i as int)[0] == self.networks@[i as int]@);
            if self.networks[i].historical_data_id == *id {
                return Some(self.networks[i].traffic);
            }
            assert(self@.networks.skip(i as int).drop_first() =~= self@.networks.skip(i + 1));
            i += 1;
        }
        None
    }

    /// Reads the samples whose time lies between `start_time` and `end_time`,
    /// both included, in the order of their times; samples of one time come
    /// in the order in which they were written. A sample without its network
    /// record fails the whole read.
    pub fn fetch_historical_data(&self, start_time: Timestamp, end_time: Timestamp) -> (r: Result<
        Vec<HistoricalSystemData>,
        TelemetryError,
    >)
        requires
            self.wf(),
        ensures
            match self@.fetch(start_time, end_time) {
                Ok(samples) => r matches Ok(found) && sample_views(found@) == samples,
                Err(error) => r matches Err(e) && e == error,
            },
            r matches Ok(found) ==> forall|i: int, j: int|
                0 <= i < j < found.len() ==> (#[trigger] found[i]).timestamp.not_after(
                    (#[trigger] found[j]).timestamp,
                ),
    {
        let ghost db = self@;
        let ghost keep = |row: SampleRowView| in_window(row.timestamp, start_time, end_time);
        let ghost build = |row: SampleRowView| db.sample_of(row).unwrap();
        let mut found: Vec<HistoricalSystemData> = Vec::new();
        let mut i: usize = 0;
        proof {
            db.samples.take(0).lemma_filter_len(keep);
            assert(sample_views(found@) =~= db.samples.take(0).filter(keep).map_values(build));
        }
        while i < self.samples.len()
            invariant
                i <= self.samples.len(),
                db == self@,
                keep == |row: SampleRowView| in_window(row.timestamp, start_time, end_time),
                build == |row: SampleRowView| db.sample_of(row).unwrap(),
                forall|j: int|
                    0 <= j < db.samples.take(i as int).filter(keep).len() ==> db.sample_of(
                        #[trigger] db.samples.take(i as int).filter(keep)[j],
                    ) is Some,
                sample_views(found@) == db.samples.take(i as int).filter(keep).map_values(build),
            decreases self.samples.len() - i,
        {
            let row = &self.samples[i];
            let ghost done = db.samples.take(i as int).filter(keep);
            let ghost next = db.samples.take(i + 1).filter(keep);
            proof {
                assert(db.samples.take(i + 1).drop_last() =~= db.samples.take(i as int));
                lemma_filter_last(db.samples.take(i + 1), keep);
                assert(db.samples.take(i + 1).last() == row@);
            }
            if start_time.is_not_after(&row.timestamp) && row.timestamp.is_not_after(&end_time) {
                let disk_usage = self.disks_of(&row.id);
                match self.network_of(&row.id) {
                    None => {
                        proof {
                            db.samples.lemma_filter_contains(keep, i as int);
                            let window = db.window(start_time, end_time);
                            let n = choose|n: int| 0 <= n < window.len() && window[n] == row@;
                            assert(!(db.sample_of(window[n]) is Some));
                        }
                        return Err(TelemetryError::SchemaInvariantViolation);
                    },
                    Some(network_traffic) => {
                        let ghost before = found@;
                        let sample = HistoricalSystemData {
                            id: row.id.clone(),
                            timestamp: row.timestamp,
                            cpu_usage: row.cpu_usage,
                            memory_usage: row.memory_usage,
                            memory_total: row.memory_total,
                            disk_usage,
                            network_traffic,
                            system_load: row.system_load,
                        };
                        proof {
                            assert(sample@ == db.sample_of(row@).unwrap());
                            assert(next =~= done.push(row@));
                            assert(next.map_values(build) =~= done.map_values(build).push(
                                sample@,
                            ));
                            assert(sample_views(before.push(sample)) =~= sample_views(before).push(
                                sample@,
                            ));
                        }
                        found.push(sample);
                    },
                }
            }
            i += 1;
        }
        proof {
            assert(db.samples.take(i as int) =~= db.samples);
            let window = db.window(start_time, end_time);
            crate::database::lemma_filter_ordered(db.samples, keep);
            assert forall|a: int, b: int| 0 <= a < b < found.len() implies (#[trigger] found[a])
                .timestamp.not_after((#[trigger] found[b]).timestamp) by {
                assert(sample_views(found@)[a] == build(window[a]));
                assert(sample_views(found@)[b] == build(window[b]));
                assert(window[a].timestamp.not_after(window[b].timestamp));
            }
        }
        Ok(found)
    }

    /// Removes every sample before `cutoff`, with its sub-records, and says
    /// how many samples went.
    pub fn prune_before(&mut self, cutoff: Timestamp) -> (removed: u64)
        requires
            old(self).wf(),
        ensures
            final(self).wf(),
            final(self)@ == old(self)@.pruned(cutoff),
            removed == old(self)@.samples.len() - final(self)@.samples.len(),
            forall|i: int|
                0 <= i < final(self)@.samples.len() ==> !(#[trigger] final(self)@.samples[i])
                    .timestamp.before(cutoff),
    {
        let ghost before = self@;
        let ghost keep = |row: SampleRowView| !row.timestamp.before(cutoff);
        let mut samples: Vec<SampleRow> = Vec::new();
        let mut i: usize = 0;
        proof {
            before.samples.take(0).lemma_filter_len(keep);
            assert(sample_row_views(samples@) =~= before.samples.take(0).filter(keep));
        }
        while i < self.samples.len()
            invariant
                i <= self.samples.len(),
                self@ == before,
                keep == |row: SampleRowView| !row.timestamp.before(cutoff),
                sample_row_views(samples@) == before.samples.take(i as int).filter(keep),
            decreases self.samples.len() - i,
        {
            proof {
                assert(before.samples.take(i + 1).drop_last() =~= before.samples.take(i as int));
                lemma_filter_last(before.samples.take(i + 1), keep);
            }
            let ghost kept = samples@;
            if !self.samples[i].timestamp.is_before(&cutoff) {
                samples.push(self.samples[i].clone());
                assert(sample_row_views(samples@) =~= sample_row_views(kept).push(
                    self.samples@[i as int]@,
                ));
            }
            i += 1;
        }
        assert(before.samples.take(i as int) =~= before.samples);
        let ghost remaining = sample_row_views(samples@);
        let ghost keep_disk = |row: DiskRowView| holds_id(remaining, row.historical_data_id);
        let mut disks: Vec<DiskRow> = Vec::new();
        let mut d: usize = 0;
        proof {
            before.disks.take(0).lemma_filter_len(keep_disk);
            assert(disk_row_views(disks@) =~= before.disks.take(0).filter(keep_disk));
        }
        while d < self.disks.len()
            invariant
                d <= self.disks.len(),
                self@ == before,
                remaining == sample_row_views(samples@),
                keep_disk == |row: DiskRowView| holds_id(remaining, row.historical_data_id),
                disk_row_views(disks@) == before.disks.take(d as int).filter(keep_disk),
            decreases self.disks.len() - d,
        {
            proof {
                assert(before.disks.take(d + 1).drop_last() =~= before.disks.take(d as int));
                lemma_filter_last(before.disks.take(d + 1), keep_disk);
            }
            let ghost kept = disks@;
            if contains_id(&samples, &self.disks[d].historical_data_id) {
                disks.push(self.disks[d].clone());
                assert(disk_row_views(disks@) =~= disk_row_views(kept).push(
                    self.disks@[d as int]@,
                ));
            }
            d += 1;
        }
        assert(before.disks.take(d as int) =~= before.disks);
        let ghost keep_network = |row: NetworkRowView| holds_id(remaining, row.historical_data_id);
        let mut networks: Vec<NetworkRow> = Vec::new();
        let mut n: usize = 0;
        proof {
            before.networks.take(0).lemma_filter_len(keep_network);
            assert(network_row_views(networks@) =~= before.networks.take(0).filter(keep_network));
        }
        while n < self.networks.len()
            invariant
                n <= self.networks.len(),
                self@ == before,
                remaining == sample_row_views(samples@),
                keep_network == |row: NetworkRowView| holds_id(remaining, row.historical_data_id),
                network_row_views(networks@) == before.networks.take(n as int).filter(keep_network),
            decreases self.networks.len() - n,
        {
            proof {
                assert(before.networks.take(n + 1).drop_last() =~= before.networks.take(n as int));
                lemma_filter_last(before.networks.take(n + 1), keep_network);
            }
            let ghost kept = networks@;
            if contains_id(&samples, &self.networks[n].historical_data_id) {
                networks.push(self.networks[n].clone());
                assert(network_row_views(networks@) =~= network_row_views(kept).push(
                    self.networks@[n as int]@,
                ));
            }
            n += 1;
        }
        assert(before.networks.take(n as int) =~= before.networks);
        proof {
            before.samples.lemma_filter_len(keep);
            lemma_pruned_wf(before, cutoff);
            assert forall|j: int| 0 <= j < remaining.len() implies !(#[trigger] remaining[j])
                .timestamp.before(cutoff) by {
                lemma_filter_member(before.samples, keep, j);
            }
        }
        let removed = (self.samples.len() - samples.len()) as u64;
        self.samples = samples;
        self.disks = disks;
        self.networks = networks;
        removed
    }

    /// Removes every sample that is more than `retention_days` days older
    /// than the time of the call, and says how many samples went. The
    /// cutoff is the time of the call less the retention.
    pub fn prune_historical_data(&mut self, retention_days: i32) -> (removed: u64)
        requires
            old(self).wf(),
        ensures
            final(self).wf(),
            exists|now: Timestamp|
                final(self)@ == old(self)@.pruned(
                    #[trigger] now.days_earlier(retention_days as int),
                ),
            removed == old(self)@.samples.len() - final(self)@.samples.len(),
    {
        let now = current_time();
        let cutoff = now.minus_days(retention_days);
        self.prune_before(cutoff)
    }

    /// The number of samples and the times of the oldest and of the newest;
    /// no times for an empty store.
    pub fn get_database_stats(&self) -> (r: DatabaseStats)
        requires
            self.wf(),
        ensures
            r == self@.stats(),
            forall|i: int|
                0 <= i < self@.samples.len() ==> r.oldest_timestamp.unwrap().not_after(
                    (#[trigger] self@.samples[i]).timestamp,
                ) && self@.samples[i].timestamp.not_after(r.newest_timestamp.unwrap()),
    {
        let count = self.samples.len();
        let total_records: i64 = if count as u64 > i64::MAX as u64 {
            i64::MAX
        } else {
            count as i64
        };
        if count == 0 {
            DatabaseStats { total_records, oldest_timestamp: None, newest_timestamp: None }
        } else {
            proof {
                assert(self@.samples.first() == self.samples@[0]@);
                assert(self@.samples.last() == self.samples@[count - 1]@);
                assert forall|i: int| 0 <= i < self@.samples.len() implies self@.samples.first()
                    .timestamp.not_after((#[trigger] self@.samples[i]).timestamp)
                    && self@.samples[i].timestamp.not_after(self@.samples.last().timestamp) by {
                    if 0 < i {
                        assert(self@.samples[0].timestamp.not_after(self@.samples[i].timestamp));
                    }
                    if i < count - 1 {
                        assert(self@.samples[i].timestamp.not_after(
                            self@.samples[count - 1].timestamp,
                        ));
                    }
                }
            }
            DatabaseStats {
                total_records,
                oldest_timestamp: Some(self.samples[0].timestamp),
                newest_timestamp: Some(self.samples[count - 1].timestamp),
            }
        }
    }
}

} // verus!
