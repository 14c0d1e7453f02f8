//! Loading of tables that were kept elsewhere: the rows are taken as they
//! are, once they are found to keep the invariant of the store.

use vstd::prelude::*;
use crate::alerts::{
    configuration_views,
    history_views,
    AlertConfiguration,
    AlertHistory,
    ConfigurationView,
    HistoryView,
};
use crate::database::{
    disk_row_views,
    holds_id,
    network_row_views,
    ordered,
    sample_row_views,
    Database,
    DatabaseManager,
    DiskRow,
    NetworkRow,
    SampleRow,
    SampleRowView,
};
use crate::records::TelemetryError;
use crate::text::texts;

verus! {

/// The ids of sample rows, in order.
pub open spec fn sample_keys(rows: Seq<SampleRowView>) -> Seq<Seq<char>> {
    rows.map_values(|row: SampleRowView| row.id)
}

/// The ids of rules, in order.
pub open spec fn rule_keys(rules: Seq<ConfigurationView>) -> Seq<Seq<char>> {
    rules.map_values(|rule: ConfigurationView| rule.id)
}

/// The ids of history entries, in order.
pub open spec fn entry_keys(entries: Seq<HistoryView>) -> Seq<Seq<char>> {
    entries.map_values(|e: HistoryView| e.id)
}

/// Whether no two of `ids` are the same text.
pub open spec fn distinct_texts(ids: Seq<Seq<char>>) -> bool {
    forall|i: int, j: int| 0 <= i < j < ids.len() ==> #[trigger] ids[i] != #[trigger] ids[j]
}

fn texts_distinct(ids: &Vec<String>) -> (r: bool)
    ensures
        r == distinct_texts(texts(ids@)),
{
    let ghost names = texts(ids@);
    let mut j: usize = 0;
    while j < ids.len()
        invariant
            j <= ids.len(),
            names == texts(ids@),
            forall|a: int, b: int| 0 <= a < b < j ==> #[trigger] names[a] != #[trigger] names[b],
        decreases ids.len() - j,
    {
        let mut i: usize = 0;
        while i < j
            invariant
                i <= j < ids.len(),
                names == texts(ids@),
                forall|a: int| 0 <= a < i ==> #[trigger] names[a] != names[j as int],
            decreases j - i,
        {
            if ids[i] == ids[j] {
                assert(names[i as int] == names[j as int]);
                return false;
            }
            i += 1;
        }
        j += 1;
    }
    true
}

fn sample_ids(rows: &Vec<SampleRow>) -> (r: Vec<String>)
    ensures
        texts(r@) == sample_keys(sample_row_views(rows@)),
{
    let mut r: Vec<String> = Vec::new();
    let mut i: usize = 0;
    while i < rows.len()
        invariant
            i <= rows.len(),
            r.len() == i,
            forall|j: int| 0 <= j < i ==> (#[trigger] r@[j])@ == rows@[j].id@,
        decreases rows.len() - i,
    {
        r.push(rows[i].id.clone());
        i += 1;
    }
    assert(texts(r@) =~= sample_keys(sample_row_views(rows@)));
    r
}

fn rule_ids(rules: &Vec<AlertConfiguration>) -> (r: Vec<String>)
    ensures
        texts(r@) == rule_keys(configuration_views(rules@)),
{
    let mut r: Vec<String> = Vec::new();
    let mut i: usize = 0;
    while i < rules.len()
        invariant
            i <= rules.len(),
            r.len() == i,
            forall|j: int| 0 <= j < i ==> (#[trigger] r@[j])@ == rules@[j].id@,
        decreases rules.len() - i,
    {
        r.push(rules[i].id.clone());
        i += 1;
    }
    assert(texts(r@) =~= rule_keys(configuration_views(rules@)));
    r
}

fn entry_ids(entries: &Vec<AlertHistory>) -> (r: Vec<String>)
    ensures
        texts(r@) == entry_keys(history_views(entries@)),
{
    let mut r: Vec<String> = Vec::new();
    let mut i: usize = 0;
    while i < entries.len()
        invariant
            i <= entries.len(),
            r.len() == i,
            forall|j: int| 0 <= j < i ==> (#[trigger] r@[j])@ == entries@[j].id@,
        decreases entries.len() - i,
    {
        r.push(entries[i].id.clone());
        i += 1;
    }
    assert(texts(r@) =~= entry_keys(history_views(entries@)));
    r
}

fn rows_ordered(rows: &Vec<SampleRow>) -> (r: bool)
    ensures
        r == ordered(sample_row_views(rows@)),
{
    let ghost views = sample_row_views(rows@);
    let mut i: usize = 1;
    while i < rows.len()
        invariant
            1 <= i,
            views == sample_row_views(rows@),
            forall|a: int, b: int|
                0 <= a < b < i && b < views.len() ==> (#[trigger] views[a]).timestamp.not_after(
                    (#[trigger] views[b]).timestamp,
                ),
        decreases rows.len() - i,
    {
        if !rows[i - 1].timestamp.is_not_after(&rows[i].timestamp) {
            assert(!views[i - 1].timestamp.not_after(views[i as int].timestamp));
            return false;
        }
        proof {
            assert forall|a: int, b: int| 0 <= a < b < i + 1 && b < views.len() implies (
            #[trigger] views[a]).timestamp.not_after((#[trigger] views[b]).timestamp) by {
                if b == i && a < i - 1 {
                    assert(views[a].timestamp.not_after(views[i - 1].timestamp));
                }
            }
        }
        i += 1;
    }
    true
}

fn disks_name_samples(disks: &Vec<DiskRow>, samples: &Vec<SampleRow>) -> (r: bool)
    ensures
        r == (forall|k: int|
            0 <= k < disks.len() ==> holds_id(
                sample_row_views(samples@),
                (#[trigger] disk_row_views(disks@)[k]).historical_data_id,
            )),
{
    let mut k: usize = 0;
    while k < disks.len()
        invariant
            k <= disks.len(),
            forall|j: int|
                0 <= j < k ==> holds_id(
                    sample_row_views(samples@),
                    (#[trigger] disk_row_views(disks@)[j]).historical_data_id,
                ),
        decreases disks.len() - k,
    {
        if !crate::store::contains_id(samples, &disks[k].historical_data_id) {
            assert(disk_row_views(disks@)[k as int].historical_data_id
                == disks@[k as int].historical_data_id@);
            return false;
        }
        k += 1;
    }
    true
}

fn networks_name_samples(networks: &Vec<NetworkRow>, samples: &Vec<SampleRow>) -> (r: bool)
    ensures
        r == (forall|k: int|
            0 <= k < networks.len() ==> holds_id(
                sample_row_views(samples@),
                (#[trigger] network_row_views(networks@)[k]).historical_data_id,
            )),
{
    let mut k: usize = 0;
    while k < networks.len()
        invariant
            k <= networks.len(),
            forall|j: int|
                0 <= j < k ==> holds_id(
                    sample_row_views(samples@),
                    (#[trigger] network_row_views(networks@)[j]).historical_data_id,
                ),
        decreases networks.len() - k,
    {
        if !crate::store::contains_id(samples, &networks[k].historical_data_id) {
            assert(network_row_views(networks@)[k as int].historical_data_id
                == networks@[k as int].historical_data_id@);
            return false;
        }
        k += 1;
    }
    true
}

/// The content of five tables given as rows.
pub open spec fn tables_of(
    samples: Seq<SampleRow>,
    disks: Seq<DiskRow>,
    networks: Seq<NetworkRow>,
    configurations: Seq<AlertConfiguration>,
    history: Seq<AlertHistory>,
) -> Database {
    Database {
        samples: sample_row_views(samples),
        disks: disk_row_views(disks),
        networks: network_row_views(networks),
        configurations: configuration_views(configurations),
        history: history_views(history),
    }
}

impl DatabaseManager {
    /// A manager over the given rows, where they keep the invariant of the
    /// tables: the samples in the order of their times, no id twice in a
    /// table that has ids, and every child row with its sample. Rows that
    /// do not are refused as a breach of the schema. That every sample has a
    /// network row is not asked here: a read finds that out.
    pub fn from_tables(
        samples: Vec<SampleRow>,
        disks: Vec<DiskRow>,
        networks: Vec<NetworkRow>,
        configurations: Vec<AlertConfiguration>,
        history: Vec<AlertHistory>,
    ) -> (r: Result<DatabaseManager, TelemetryError>)
        ensures
            match r {
                Ok(db) => db.wf() && db@ == tables_of(
                    samples@,
                    disks@,
                    networks@,
                    configurations@,
                    history@,
                ),
                Err(error) => error == TelemetryError::SchemaInvariantViolation && !tables_of(
                    samples@,
                    disks@,
                    networks@,
                    configurations@,
                    history@,
                ).wf(),
            },
    {
        let ghost tables = tables_of(samples@, disks@, networks@, configurations@, history@);
        if !rows_ordered(&samples) {
            proof {
                let rows = tables.samples;
                let (i, j) = choose|i: int, j: int|
                    0 <= i < j < rows.len() && !(#[trigger] rows[i]).timestamp.not_after(
                        (#[trigger] rows[j]).timestamp,
                    );
                assert(!tables.samples[i].timestamp.not_after(tables.samples[j].timestamp));
            }
            return Err(TelemetryError::SchemaInvariantViolation);
        }
        if !texts_distinct(&sample_ids(&samples)) {
            proof {
                let keys = sample_keys(tables.samples);
                let (i, j) = choose|i: int, j: int|
                    0 <= i < j < keys.len() && #[trigger] keys[i] == #[trigger] keys[j];
                assert(tables.samples[i].id == tables.samples[j].id);
            }
            return Err(TelemetryError::SchemaInvariantViolation);
        }
        if !disks_name_samples(&disks, &samples) {
            proof {
                let k = choose|k: int|
                    0 <= k < disks.len() && !holds_id(
                        sample_row_views(samples@),
                        (#[trigger] disk_row_views(disks@)[k]).historical_data_id,
                    );
                assert(!tables.has_sample(tables.disks[k].historical_data_id));
            }
            return Err(TelemetryError::SchemaInvariantViolation);
        }
        if !networks_name_samples(&networks, &samples) {
            proof {
                let k = choose|k: int|
                    0 <= k < networks.len() && !holds_id(
                        sample_row_views(samples@),
                        (#[trigger] network_row_views(networks@)[k]).historical_data_id,
                    );
                assert(!tables.has_sample(tables.networks[k].historical_data_id));
            }
            return Err(TelemetryError::SchemaInvariantViolation);
        }
        if !texts_distinct(&rule_ids(&configurations)) {
            proof {
                let keys = rule_keys(tables.configurations);
                let (i, j) = choose|i: int, j: int|
                    0 <= i < j < keys.len() && #[trigger] keys[i] == #[trigger] keys[j];
                assert(tables.configurations[i].id == tables.configurations[j].id);
            }
            return Err(TelemetryError::SchemaInvariantViolation);
        }
        if !texts_distinct(&entry_ids(&history)) {
            proof {
                let keys = entry_keys(tables.history);
                let (i, j) = choose|i: int, j: int|
                    0 <= i < j < keys.len() && #[trigger] keys[i] == #[trigger] keys[j];
                assert(tables.history[i].id == tables.history[j].id);
            }
            return Err(TelemetryError::SchemaInvariantViolation);
        }
        proof {
            let keys = sample_keys(tables.samples);
            assert forall|i: int, j: int| 0 <= i < j < tables.samples.len() implies (
            #[trigger] tables.samples[i]).id != (#[trigger] tables.samples[j]).id by {
                assert(keys[i] != keys[j]);
            }
            let rules = rule_keys(tables.configurations);
            assert forall|i: int, j: int| 0 <= i < j < tables.configurations.len() implies (
            #[trigger] tables.configurations[i]).id != (#[trigger] tables.configurations[j]).id by {
                assert(rules[i] != rules[j]);
            }
            let entries = entry_keys(tables.history);
            assert forall|i: int, j: int| 0 <= i < j < tables.history.len() implies (
            #[trigger] tables.history[i]).id != (#[trigger] tables.history[j]).id by {
                assert(entries[i] != entries[j]);
            }
            assert(tables.telemetry_wf());
            assert(tables.alerts_wf());
        }
        Ok(DatabaseManager { samples, disks, networks, configurations, history })
    }
}

} // verus!
