//! The tables of the store and of the alert engine, as values and as the
//! mathematical model that the contracts speak of.

use vstd::prelude::*;
use crate::alerts::{
    configuration_views,
    history_views,
    AlertConfiguration,
    AlertHistory,
    ConfigurationView,
    HistoryView,
};
use crate::numbers::Milli;
use crate::records::{
    DatabaseStats,
    DiskUsageData,
    DiskUsageView,
    NetworkTrafficData,
    SampleView,
    TelemetryError,
};
use crate::time::Timestamp;

verus! {

/// A row of the sample table: a sample without its sub-records.
#[derive(Debug)]
pub struct SampleRow {
    pub id: String,
    pub timestamp: Timestamp,
    pub cpu_usage: Milli,
    pub memory_usage: Milli,
    pub memory_total: i64,
    pub system_load: Milli,
}

/// A row of the disk table: one disk record of the sample it names.
#[derive(Debug)]
pub struct DiskRow {
    pub historical_data_id: String,
    pub usage: DiskUsageData,
}

/// A row of the network table: the network record of the sample it names.
#[derive(Debug)]
pub struct NetworkRow {
    pub historical_data_id: String,
    pub traffic: NetworkTrafficData,
}

/// A row of the sample table, its id as characters.
pub struct SampleRowView {
    pub id: Seq<char>,
    pub timestamp: Timestamp,
    pub cpu_usage: Milli,
    pub memory_usage: Milli,
    pub memory_total: i64,
    pub system_load: Milli,
}

/// A row of the disk table, its texts as characters.
pub struct DiskRowView {
    pub historical_data_id: Seq<char>,
    pub usage: DiskUsageView,
}

/// A row of the network table, its sample id as characters.
pub struct NetworkRowView {
    pub historical_data_id: Seq<char>,
    pub traffic: NetworkTrafficData,
}

impl View for SampleRow {
    type V = SampleRowView;

    open spec fn view(&self) -> SampleRowView {
        SampleRowView {
            id: self.id@,
            timestamp: self.timestamp,
            cpu_usage: self.cpu_usage,
            memory_usage: self.memory_usage,
            memory_total: self.memory_total,
            system_load: self.system_load,
        }
    }
}

impl View for DiskRow {
    type V = DiskRowView;

    open spec fn view(&self) -> DiskRowView {
        DiskRowView { historical_data_id: self.historical_data_id@, usage: self.usage@ }
    }
}

impl View for NetworkRow {
    type V = NetworkRowView;

    open spec fn view(&self) -> NetworkRowView {
        NetworkRowView { historical_data_id: self.historical_data_id@, traffic: self.traffic }
    }
}

/// The views of a list of sample rows.
pub open spec fn sample_row_views(rows: Seq<SampleRow>) -> Seq<SampleRowView> {
    rows.map_values(|r: SampleRow| r@)
}

/// The views of a list of disk rows.
pub open spec fn disk_row_views(rows: Seq<DiskRow>) -> Seq<DiskRowView> {
    rows.map_values(|r: DiskRow| r@)
}

/// The views of a list of network rows.
pub open spec fn network_row_views(rows: Seq<NetworkRow>) -> Seq<NetworkRowView> {
    rows.map_values(|r: NetworkRow| r@)
}

/// The parent row of a sample.
pub open spec fn row_of(s: SampleView) -> SampleRowView {
    SampleRowView {
        id: s.id,
        timestamp: s.timestamp,
        cpu_usage: s.cpu_usage,
        memory_usage: s.memory_usage,
        memory_total: s.memory_total,
        system_load: s.system_load,
    }
}

/// The disk rows of a sample, in the order of its disk records.
pub open spec fn disk_rows_of(s: SampleView) -> Seq<DiskRowView> {
    s.disk_usage.map_values(|d: DiskUsageView| DiskRowView { historical_data_id: s.id, usage: d })
}

/// The network row of a sample.
pub open spec fn network_row_of(s: SampleView) -> NetworkRowView {
    NetworkRowView { historical_data_id: s.id, traffic: s.network_traffic }
}

/// The disk record of a row, where the row belongs to the sample `id`.
pub open spec fn usage_for(row: DiskRowView, id: Seq<char>) -> Option<DiskUsageView> {
    if row.historical_data_id == id {
        Some(row.usage)
    } else {
        None
    }
}

/// The traffic of the first of `rows` that belongs to the sample `id`.
pub open spec fn traffic_for(rows: Seq<NetworkRowView>, id: Seq<char>) -> Option<
    NetworkTrafficData,
>
    decreases rows.len(),
{
    if rows.len() == 0 {
        None
    } else if rows[0].historical_data_id == id {
        Some(rows[0].traffic)
    } else {
        traffic_for(rows.drop_first(), id)
    }
}

/// How many rows at the head of `rows` are not after `t`.
pub open spec fn leading_not_after(rows: Seq<SampleRowView>, t: Timestamp) -> nat
    decreases rows.len(),
{
    if rows.len() > 0 && rows[0].timestamp.not_after(t) {
        1 + leading_not_after(rows.drop_first(), t)
    } else {
        0
    }
}

/// Whether `t` lies in the closed window from `start` to `end`.
pub open spec fn in_window(t: Timestamp, start: Timestamp, end: Timestamp) -> bool {
    start.not_after(t) && t.not_after(end)
}

/// Whether one of `rows` has the id `id`.
pub open spec fn holds_id(rows: Seq<SampleRowView>, id: Seq<char>) -> bool {
    exists|i: int| 0 <= i < rows.len() && #[trigger] rows[i].id == id
}

/// The content of the five tables.
pub struct Database {
    pub samples: Seq<SampleRowView>,
    pub disks: Seq<DiskRowView>,
    pub networks: Seq<NetworkRowView>,
    pub configurations: Seq<ConfigurationView>,
    pub history: Seq<HistoryView>,
}

impl Database {
    /// Five tables without a row.
    pub open spec fn empty() -> Database {
        Database {
            samples: Seq::empty(),
            disks: Seq::empty(),
            networks: Seq::empty(),
            configurations: Seq::empty(),
            history: Seq::empty(),
        }
    }

    /// Whether a sample with the id `id` is stored.
    pub open spec fn has_sample(self, id: Seq<char>) -> bool {
        holds_id(self.samples, id)
    }

    /// The sample table is ordered by time and holds no id twice, and every
    /// row of the two child tables names a stored sample.
    pub open spec fn telemetry_wf(self) -> bool {
        &&& forall|i: int, j: int|
            0 <= i < j < self.samples.len() ==> (#[trigger] self.samples[i]).timestamp.not_after(
                (#[trigger] self.samples[j]).timestamp,
            )
        &&& forall|i: int, j: int|
            0 <= i < j < self.samples.len() ==> (#[trigger] self.samples[i]).id
                != (#[trigger] self.samples[j]).id
        &&& forall|k: int|
            0 <= k < self.disks.len() ==> self.has_sample(
                (#[trigger] self.disks[k]).historical_data_id,
            )
        &&& forall|k: int|
            0 <= k < self.networks.len() ==> self.has_sample(
                (#[trigger] self.networks[k]).historical_data_id,
            )
    }

    /// No two rules share an id, and no two history entries.
    pub open spec fn alerts_wf(self) -> bool {
        &&& forall|i: int, j: int|
            0 <= i < j < self.configurations.len() ==> (#[trigger] self.configurations[i]).id
                != (#[trigger] self.configurations[j]).id
        &&& forall|i: int, j: int|
            0 <= i < j < self.history.len() ==> (#[trigger] self.history[i]).id
                != (#[trigger] self.history[j]).id
    }

    /// The invariant of the five tables.
    pub open spec fn wf(self) -> bool {
        self.telemetry_wf() && self.alerts_wf()
    }

    /// The disk records of the sample `id`, in the order of their rows.
    pub open spec fn disks_of(self, id: Seq<char>) -> Seq<DiskUsageView> {
        self.disks.filter_map(|row: DiskRowView| usage_for(row, id))
    }

    /// The network record of the sample `id`.
    pub open spec fn network_of(self, id: Seq<char>) -> Option<NetworkTrafficData> {
        traffic_for(self.networks, id)
    }

    /// The sample that a parent row and the child rows of its id make up;
    /// `None` where it has no network row.
    pub open spec fn sample_of(self, row: SampleRowView) -> Option<SampleView> {
        match self.network_of(row.id) {
            Some(traffic) => Some(
                SampleView {
                    id: row.id,
                    timestamp: row.timestamp,
                    cpu_usage: row.cpu_usage,
                    memory_usage: row.memory_usage,
                    memory_total: row.memory_total,
                    disk_usage: self.disks_of(row.id),
                    network_traffic: traffic,
                    system_load: row.system_load,
                },
            ),
            None => None,
        }
    }

    /// The parent rows whose time lies in the window, in table order.
    pub open spec fn window(self, start: Timestamp, end: Timestamp) -> Seq<SampleRowView> {
        self.samples.filter(|row: SampleRowView| in_window(row.timestamp, start, end))
    }

    /// What a read of the window returns: its samples in table order, or the
    /// schema error where one of them has no network row.
    pub open spec fn fetch(self, start: Timestamp, end: Timestamp) -> Result<
        Seq<SampleView>,
        TelemetryError,
    > {
        let rows = self.window(start, end);
        if forall|i: int| 0 <= i < rows.len() ==> self.sample_of(#[trigger] rows[i]) is Some {
            Ok(rows.map_values(|row: SampleRowView| self.sample_of(row).unwrap()))
        } else {
            Err(TelemetryError::SchemaInvariantViolation)
        }
    }

    /// The tables after the sample `s` was written: its parent row stands
    /// behind the rows that are not after it, its child rows at the end of
    /// their tables.
    pub open spec fn insert(self, s: SampleView) -> Database {
        Database {
            samples: self.samples.insert(
                leading_not_after(self.samples, s.timestamp) as int,
                row_of(s),
            ),
            disks: self.disks + disk_rows_of(s),
            networks: self.networks.push(network_row_of(s)),
            ..self
        }
    }

    /// The tables after every sample before `cutoff` was removed, with its
    /// child rows.
    pub open spec fn pruned(self, cutoff: Timestamp) -> Database {
        let samples = self.samples.filter(|row: SampleRowView| !row.timestamp.before(cutoff));
        Database {
            samples,
            disks: self.disks.filter(|row: DiskRowView| holds_id(samples, row.historical_data_id)),
            networks: self.networks.filter(
                |row: NetworkRowView| holds_id(samples, row.historical_data_id),
            ),
            ..self
        }
    }

    /// The number of samples, held within `i64`, and the times of the first
    /// and the last row of the sample table.
    pub open spec fn stats(self) -> DatabaseStats {
        DatabaseStats {
            total_records: if self.samples.len() > i64::MAX {
                i64::MAX
            } else {
                self.samples.len() as i64
            },
            oldest_timestamp: if self.samples.len() == 0 {
                None
            } else {
                Some(self.samples.first().timestamp)
            },
            newest_timestamp: if self.samples.len() == 0 {
                None
            } else {
                Some(self.samples.last().timestamp)
            },
        }
    }
}

/// The telemetry store and the alert engine: five tables held in memory.
pub struct DatabaseManager {
    pub(crate) samples: Vec<SampleRow>,
    pub(crate) disks: Vec<DiskRow>,
    pub(crate) networks: Vec<NetworkRow>,
    pub(crate) configurations: Vec<AlertConfiguration>,
    pub(crate) history: Vec<AlertHistory>,
}

impl View for DatabaseManager {
    type V = Database;

    open(crate) spec fn view(&self) -> Database {
        Database {
            samples: sample_row_views(self.samples@),
            disks: disk_row_views(self.disks@),
            networks: network_row_views(self.networks@),
            configurations: configuration_views(self.configurations@),
            history: history_views(self.history@),
        }
    }
}

impl DatabaseManager {
    /// The invariant of the tables. `new` establishes it and every operation
    /// keeps it.
    pub open spec fn wf(&self) -> bool {
        self@.wf()
    }

    /// A manager with empty tables.
    pub fn new() -> (r: DatabaseManager)
        ensures
            r@ == Database::empty(),
            r.wf(),
    {
        let r = DatabaseManager {
            samples: Vec::new(),
            disks: Vec::new(),
            networks: Vec::new(),
            configurations: Vec::new(),
            history: Vec::new(),
        };
        proof {
            assert(r@.samples =~= Seq::empty());
            assert(r@.disks =~= Seq::empty());
            assert(r@.networks =~= Seq::empty());
            assert(r@.configurations =~= Seq::empty());
            assert(r@.history =~= Seq::empty());
        }
        r
    }
}

impl Clone for SampleRow {
    fn clone(&self) -> (r: Self)
        ensures
            r == *self,
    {
        SampleRow {
            id: self.id.clone(),
            timestamp: self.timestamp,
            cpu_usage: self.cpu_usage,
            memory_usage: self.memory_usage,
            memory_total: self.memory_total,
            system_load: self.system_load,
        }
    }
}

impl Clone for DiskRow {
    fn clone(&self) -> (r: Self)
        ensures
            r == *self,
    {
        DiskRow { historical_data_id: self.historical_data_id.clone(), usage: self.usage.clone() }
    }
}

impl Clone for NetworkRow {
    fn clone(&self) -> (r: Self)
        ensures
            r == *self,
    {
        NetworkRow { historical_data_id: self.historical_data_id.clone(), traffic: self.traffic }
    }
}

/// Whether `rows` are in the order of their times.
pub open spec fn ordered(rows: Seq<SampleRowView>) -> bool {
    forall|i: int, j: int|
        0 <= i < j < rows.len() ==> (#[trigger] rows[i]).timestamp.not_after(
            (#[trigger] rows[j]).timestamp,
        )
}

/// Whether no two of `rows` share an id.
pub open spec fn distinct_ids(rows: Seq<SampleRowView>) -> bool {
    forall|i: int, j: int|
        0 <= i < j < rows.len() ==> (#[trigger] rows[i]).id != (#[trigger] rows[j]).id
}

/// The count of leading rows not after `t` ends at the first row after `t`.
pub proof fn lemma_leading_not_after(rows: Seq<SampleRowView>, t: Timestamp)
    ensures
        leading_not_after(rows, t) <= rows.len(),
        forall|i: int|
            0 <= i < leading_not_after(rows, t) ==> (#[trigger] rows[i]).timestamp.not_after(t),
        leading_not_after(rows, t) < rows.len() ==> !rows[leading_not_after(
            rows,
            t,
        ) as int].timestamp.not_after(t),
    decreases rows.len(),
{
    if rows.len() > 0 && rows[0].timestamp.not_after(t) {
        let rest = rows.drop_first();
        lemma_leading_not_after(rest, t);
        assert forall|i: int| 0 <= i < leading_not_after(rows, t) implies (#[trigger] rows[i])
            .timestamp.not_after(t) by {
            if i > 0 {
                assert(rows[i] == rest[i - 1]);
            }
        }
        if leading_not_after(rows, t) < rows.len() {
            assert(rows[leading_not_after(rows, t) as int] == rest[leading_not_after(rest, t) as int]);
        }
    }
}

/// What a filter of `rows` is, told from its last row.
pub proof fn lemma_filter_last<A>(rows: Seq<A>, keep: spec_fn(A) -> bool)
    requires
        rows.len() > 0,
    ensures
        rows.filter(keep) == if keep(rows.last()) {
            rows.drop_last().filter(keep).push(rows.last())
        } else {
            rows.drop_last().filter(keep)
        },
{
    assert(rows =~= rows.drop_last().push(rows.last()));
    rows.drop_last().lemma_filter_push(rows.last(), keep);
}

/// Every row of a filter is a row of the sequence it was taken from, and
/// passes the filter.
pub proof fn lemma_filter_member<A>(rows: Seq<A>, keep: spec_fn(A) -> bool, i: int)
    requires
        0 <= i < rows.filter(keep).len(),
    ensures
        keep(rows.filter(keep)[i]),
        rows.contains(rows.filter(keep)[i]),
{
    rows.lemma_filter_pred(keep, i);
    assert(rows.filter(keep).contains(rows.filter(keep)[i]));
    rows.lemma_filter_contains_rev(keep, rows.filter(keep)[i]);
}

/// A filter of rows in the order of their times is in that order too.
pub proof fn lemma_filter_ordered(rows: Seq<SampleRowView>, keep: spec_fn(SampleRowView) -> bool)
    requires
        ordered(rows),
    ensures
        ordered(rows.filter(keep)),
    decreases rows.len(),
{
    let f = rows.filter(keep);
    if rows.len() == 0 {
        rows.lemma_filter_len(keep);
    } else {
        let head = rows.drop_last();
        let fh = head.filter(keep);
        assert(ordered(head)) by {
            assert forall|i: int, j: int| 0 <= i < j < head.len() implies (#[trigger] head[i])
                .timestamp.not_after((#[trigger] head[j]).timestamp) by {
                assert(head[i] == rows[i] && head[j] == rows[j]);
            }
        }
        lemma_filter_ordered(head, keep);
        lemma_filter_last(rows, keep);
        if keep(rows.last()) {
            assert forall|i: int, j: int| 0 <= i < j < f.len() implies (#[trigger] f[i])
                .timestamp.not_after((#[trigger] f[j]).timestamp) by {
                if j < fh.len() {
                    assert(f[i] == fh[i] && f[j] == fh[j]);
                } else {
                    lemma_filter_member(head, keep, i);
                    let a = choose|a: int| 0 <= a < head.len() && head[a] == fh[i];
                    assert(rows[a] == f[i]);
                    assert(rows[rows.len() - 1] == f[j]);
                }
            }
        }
    }
}

/// A filter of rows with distinct ids has distinct ids.
pub proof fn lemma_filter_distinct(rows: Seq<SampleRowView>, keep: spec_fn(SampleRowView) -> bool)
    requires
        distinct_ids(rows),
    ensures
        distinct_ids(rows.filter(keep)),
    decreases rows.len(),
{
    let f = rows.filter(keep);
    if rows.len() == 0 {
        rows.lemma_filter_len(keep);
    } else {
        let head = rows.drop_last();
        let fh = head.filter(keep);
        assert(distinct_ids(head)) by {
            assert forall|i: int, j: int| 0 <= i < j < head.len() implies (#[trigger] head[i]).id
                != (#[trigger] head[j]).id by {
                assert(head[i] == rows[i] && head[j] == rows[j]);
            }
        }
        lemma_filter_distinct(head, keep);
        lemma_filter_last(rows, keep);
        if keep(rows.last()) {
            assert forall|i: int, j: int| 0 <= i < j < f.len() implies (#[trigger] f[i]).id != (
            #[trigger] f[j]).id by {
                if j < fh.len() {
                    assert(f[i] == fh[i] && f[j] == fh[j]);
                } else {
                    lemma_filter_member(head, keep, i);
                    let a = choose|a: int| 0 <= a < head.len() && head[a] == fh[i];
                    assert(rows[a] == f[i]);
                    assert(rows[rows.len() - 1] == f[j]);
                }
            }
        }
    }
}

/// A sequence with one row put in holds the ids it held, and the new one.
pub proof fn lemma_insert_holds_id(
    rows: Seq<SampleRowView>,
    k: int,
    row: SampleRowView,
    id: Seq<char>,
)
    requires
        0 <= k <= rows.len(),
    ensures
        holds_id(rows.insert(k, row), id) <==> (holds_id(rows, id) || row.id == id),
{
    let new = rows.insert(k, row);
    rows.insert_ensures(k, row);
    if holds_id(rows, id) {
        let a = choose|a: int| 0 <= a < rows.len() && #[trigger] rows[a].id == id;
        if a < k {
            assert(new[a].id == id);
        } else {
            assert(new[a + 1].id == id);
        }
    }
    if row.id == id {
        assert(new[k].id == id);
    }
    if holds_id(new, id) {
        let b = choose|b: int| 0 <= b < new.len() && #[trigger] new[b].id == id;
        if b < k {
            assert(rows[b].id == id);
        } else if b > k {
            assert(new[(b - 1) + 1] == rows[b - 1]);
            assert(rows[b - 1].id == id);
        }
    }
}

/// Writing a sample whose id is new keeps the invariant of the telemetry
/// tables.
pub proof fn lemma_insert_wf(db: Database, s: SampleView)
    requires
        db.telemetry_wf(),
        !db.has_sample(s.id),
    ensures
        db.insert(s).telemetry_wf(),
{
    let k = leading_not_after(db.samples, s.timestamp) as int;
    let row = row_of(s);
    let new = db.insert(s);
    lemma_leading_not_after(db.samples, s.timestamp);
    db.samples.insert_ensures(k, row);
    assert forall|i: int, j: int| 0 <= i < j < new.samples.len() implies (
    #[trigger] new.samples[i]).timestamp.not_after((#[trigger] new.samples[j]).timestamp) by {
        if j < k {
        } else if j == k {
        } else if i == k {
            assert(new.samples[(j - 1) + 1] == db.samples[j - 1]);
            if k < j - 1 {
                assert(db.samples[k].timestamp.not_after(db.samples[j - 1].timestamp));
            }
        } else if i < k {
            assert(new.samples[(j - 1) + 1] == db.samples[j - 1]);
            assert(db.samples[i].timestamp.not_after(db.samples[j - 1].timestamp));
        } else {
            assert(new.samples[(j - 1) + 1] == db.samples[j - 1]);
            assert(new.samples[(i - 1) + 1] == db.samples[i - 1]);
            assert(db.samples[i - 1].timestamp.not_after(db.samples[j - 1].timestamp));
        }
    }
    assert forall|i: int, j: int| 0 <= i < j < new.samples.len() implies (
    #[trigger] new.samples[i]).id != (#[trigger] new.samples[j]).id by {
        let a = if i < k {
            i
        } else {
            i - 1
        };
        let b = if j < k {
            j
        } else {
            j - 1
        };
        if i != k {
            assert(new.samples[i] == db.samples[a]) by {
                if i > k {
                    assert(new.samples[(i - 1) + 1] == db.samples[i - 1]);
                }
            }
        }
        if j != k {
            assert(new.samples[j] == db.samples[b]) by {
                if j > k {
                    assert(new.samples[(j - 1) + 1] == db.samples[j - 1]);
                }
            }
        }
        if i != k && j != k {
            assert(a < b);
            assert(db.samples[a].id != db.samples[b].id);
        }
    }
    assert forall|n: int| 0 <= n < new.disks.len() implies new.has_sample(
        (#[trigger] new.disks[n]).historical_data_id,
    ) by {
        lemma_insert_holds_id(db.samples, k, row, new.disks[n].historical_data_id);
        if n < db.disks.len() {
            assert(new.disks[n] == db.disks[n]);
        }
    }
    assert forall|n: int| 0 <= n < new.networks.len() implies new.has_sample(
        (#[trigger] new.networks[n]).historical_data_id,
    ) by {
        lemma_insert_holds_id(db.samples, k, row, new.networks[n].historical_data_id);
        if n < db.networks.len() {
            assert(new.networks[n] == db.networks[n]);
        }
    }
}

/// Pruning keeps the invariant of the telemetry tables.
pub proof fn lemma_pruned_wf(db: Database, cutoff: Timestamp)
    requires
        db.telemetry_wf(),
    ensures
        db.pruned(cutoff).telemetry_wf(),
{
    let new = db.pruned(cutoff);
    let keep = |row: SampleRowView| !row.timestamp.before(cutoff);
    lemma_filter_ordered(db.samples, keep);
    lemma_filter_distinct(db.samples, keep);
    assert forall|n: int| 0 <= n < new.disks.len() implies new.has_sample(
        (#[trigger] new.disks[n]).historical_data_id,
    ) by {
        lemma_filter_member(
            db.disks,
            |row: DiskRowView| holds_id(new.samples, row.historical_data_id),
            n,
        );
    }
    assert forall|n: int| 0 <= n < new.networks.len() implies new.has_sample(
        (#[trigger] new.networks[n]).historical_data_id,
    ) by {
        lemma_filter_member(
            db.networks,
            |row: NetworkRowView| holds_id(new.samples, row.historical_data_id),
            n,
        );
    }
}

} // verus!
