//! Laws that relate the operations of the store and of the alert engine,
//! and laws of the readers of command output.

use vstd::prelude::*;
use crate::alerts::{
    breach_of,
    breaches_of,
    entry_of,
    AcknowledgmentView,
    ConfigurationView,
    HistoryView,
    MetricValues,
};
use crate::csv::fields_of;
use crate::database::{
    disk_rows_of,
    holds_id,
    in_window,
    leading_not_after,
    lemma_filter_distinct,
    lemma_filter_last,
    lemma_filter_member,
    lemma_insert_wf,
    lemma_leading_not_after,
    network_row_of,
    row_of,
    traffic_for,
    usage_for,
    Database,
    DiskRowView,
    NetworkRowView,
    SampleRowView,
};
use crate::engine::{acknowledged, alerts_raised};
use crate::export::{
    csv_cells,
    csv_export,
    csv_header,
    csv_record,
    csv_row,
    csv_rows,
    disk_cell,
    lemma_csv_line_one_feed,
    lemma_csv_record_fields,
    lemma_csv_row_one_feed,
    lemma_disk_cell_one_line,
    lemma_header_one_feed,
    lemma_network_object_one_line,
    network_object,
    times_writable,
    window_count,
    window_export,
};
use crate::ping::{ping_fallback, ping_latency_text};
use crate::records::{DiskUsageView, SampleView, TelemetryError};
use crate::text::{
    byte_len,
    byte_prefix,
    char_bytes,
    chars_within,
    find_from,
    lemma_line_feeds_add,
    lemma_plain_one_line,
    line_feeds,
};
use crate::time::{time_field, Timestamp};

verus! {

/// A filter keeps all of a sequence whose every row passes it.
pub proof fn lemma_filter_all<A>(rows: Seq<A>, keep: spec_fn(A) -> bool)
    requires
        forall|i: int| 0 <= i < rows.len() ==> keep(#[trigger] rows[i]),
    ensures
        rows.filter(keep) == rows,
    decreases rows.len(),
{
    if rows.len() == 0 {
        rows.lemma_filter_len(keep);
        assert(rows.filter(keep) =~= rows);
    } else {
        let head = rows.drop_last();
        assert forall|i: int| 0 <= i < head.len() implies keep(#[trigger] head[i]) by {
            assert(head[i] == rows[i]);
        }
        lemma_filter_all(head, keep);
        lemma_filter_last(rows, keep);
        assert(head.push(rows.last()) =~= rows);
    }
}

/// Filtering twice by one test is filtering once.
pub proof fn lemma_filter_twice<A>(rows: Seq<A>, keep: spec_fn(A) -> bool)
    ensures
        rows.filter(keep).filter(keep) == rows.filter(keep),
{
    let once = rows.filter(keep);
    assert forall|i: int| 0 <= i < once.len() implies keep(#[trigger] once[i]) by {
        lemma_filter_member(rows, keep, i);
    }
    lemma_filter_all(once, keep);
}

/// The network record of `id` in a table that gained a row of `id` at its
/// end and held none before is the traffic of that row.
proof fn lemma_traffic_of_new_row(rows: Seq<NetworkRowView>, row: NetworkRowView)
    requires
        forall|i: int| 0 <= i < rows.len() ==> (#[trigger] rows[i]).historical_data_id
            != row.historical_data_id,
    ensures
        traffic_for(rows.push(row), row.historical_data_id) == Some(row.traffic),
    decreases rows.len(),
{
    let all = rows.push(row);
    if rows.len() == 0 {
        assert(all[0] == row);
    } else {
        assert(all[0] == rows[0]);
        assert(all.drop_first() =~= rows.drop_first().push(row));
        assert forall|i: int| 0 <= i < rows.drop_first().len() implies (
        #[trigger] rows.drop_first()[i]).historical_data_id != row.historical_data_id by {
            assert(rows.drop_first()[i] == rows[i + 1]);
        }
        lemma_traffic_of_new_row(rows.drop_first(), row);
    }
}

/// The disk records of `s` in a table that gained the disk rows of `s` at
/// its end and held none of its id before are the disk records of `s`.
proof fn lemma_disks_of_new_rows(rows: Seq<DiskRowView>, s: SampleView, n: int)
    requires
        forall|i: int| 0 <= i < rows.len() ==> (#[trigger] rows[i]).historical_data_id != s.id,
        0 <= n <= s.disk_usage.len(),
    ensures
        (rows + disk_rows_of(s).take(n)).filter_map(|row: DiskRowView| usage_for(row, s.id))
            == s.disk_usage.take(n),
    decreases rows.len() + n,
{
    let f = |row: DiskRowView| usage_for(row, s.id);
    let all = rows + disk_rows_of(s).take(n);
    if n > 0 {
        assert(all.drop_last() =~= rows + disk_rows_of(s).take(n - 1));
        assert(all.last() == disk_rows_of(s)[n - 1]);
        lemma_disks_of_new_rows(rows, s, n - 1);
        assert(s.disk_usage.take(n) =~= s.disk_usage.take(n - 1) + seq![s.disk_usage[n - 1]]);
    } else if rows.len() > 0 {
        assert(all =~= rows);
        assert(all.drop_last() =~= rows.drop_last() + disk_rows_of(s).take(0));
        assert forall|i: int| 0 <= i < rows.drop_last().len() implies (
        #[trigger] rows.drop_last()[i]).historical_data_id != s.id by {
            assert(rows.drop_last()[i] == rows[i]);
        }
        lemma_disks_of_new_rows(rows.drop_last(), s, 0);
        assert(s.disk_usage.take(0) =~= Seq::<DiskUsageView>::empty());
    } else {
        assert(all =~= Seq::<DiskRowView>::empty());
        assert(s.disk_usage.take(0) =~= Seq::<DiskUsageView>::empty());
    }
}

/// Round trip in a store that holds no sample of the same time: after a
/// sample was written, a read of the window that begins and ends at its
/// time returns that sample and nothing else, disk and network records
/// included. It holds for a sample whose id is new.
pub proof fn lemma_store_then_fetch(db: Database, s: SampleView)
    requires
        db.telemetry_wf(),
        !db.has_sample(s.id),
        forall|i: int| 0 <= i < db.samples.len() ==> (#[trigger] db.samples[i]).timestamp
            != s.timestamp,
    ensures
        db.insert(s).fetch(s.timestamp, s.timestamp) == Ok::<Seq<SampleView>, TelemetryError>(
            seq![s],
        ),
{
    let new = db.insert(s);
    let row = row_of(s);
    let k = leading_not_after(db.samples, s.timestamp) as int;
    let keep = |r: SampleRowView| in_window(r.timestamp, s.timestamp, s.timestamp);
    let window = new.window(s.timestamp, s.timestamp);
    lemma_leading_not_after(db.samples, s.timestamp);
    db.samples.insert_ensures(k, row);
    lemma_insert_wf(db, s);
    lemma_filter_distinct(new.samples, keep);
    assert(new.samples[k] == row);
    new.samples.lemma_filter_contains(keep, k);
    assert(window.len() >= 1);
    assert forall|i: int| 0 <= i < window.len() implies #[trigger] window[i] == row by {
        lemma_filter_member(new.samples, keep, i);
        let a = choose|a: int| 0 <= a < new.samples.len() && new.samples[a] == window[i];
        assert(new.samples[a].timestamp == s.timestamp);
        if a < k {
            assert(new.samples[a] == db.samples[a]);
        } else if a > k {
            assert(new.samples[(a - 1) + 1] == db.samples[a - 1]);
        }
    }
    if window.len() >= 2 {
        assert(window[0].id != window[1].id);
    }
    assert(window =~= seq![row]);
    assert forall|i: int| 0 <= i < db.networks.len() implies (
    #[trigger] db.networks[i]).historical_data_id != s.id by {
        assert(db.has_sample(db.networks[i].historical_data_id));
    }
    lemma_traffic_of_new_row(db.networks, network_row_of(s));
    assert forall|i: int| 0 <= i < db.disks.len() implies (
    #[trigger] db.disks[i]).historical_data_id != s.id by {
        assert(db.has_sample(db.disks[i].historical_data_id));
    }
    lemma_disks_of_new_rows(db.disks, s, s.disk_usage.len() as int);
    assert(disk_rows_of(s).take(s.disk_usage.len() as int) =~= disk_rows_of(s));
    assert(s.disk_usage.take(s.disk_usage.len() as int) =~= s.disk_usage);
    assert(new.sample_of(row) == Some(s));
    assert(window.map_values(|r: SampleRowView| new.sample_of(r).unwrap()) =~= seq![s]);
}

/// The network record of an id that a table held stays what it was when a
/// row is added at the end of the table.
proof fn lemma_traffic_of_held_row(rows: Seq<NetworkRowView>, row: NetworkRowView, id: Seq<char>)
    requires
        traffic_for(rows, id) is Some,
    ensures
        traffic_for(rows.push(row), id) == traffic_for(rows, id),
    decreases rows.len(),
{
    let all = rows.push(row);
    assert(all[0] == rows[0]);
    if rows[0].historical_data_id != id {
        assert(all.drop_first() =~= rows.drop_first().push(row));
        lemma_traffic_of_held_row(rows.drop_first(), row, id);
    }
}

/// The disk records of an id stay what they were when rows of another id
/// are added at the end of the table.
proof fn lemma_disks_of_other_rows(rows: Seq<DiskRowView>, s: SampleView, id: Seq<char>, n: int)
    requires
        id != s.id,
        0 <= n <= s.disk_usage.len(),
    ensures
        (rows + disk_rows_of(s).take(n)).filter_map(|row: DiskRowView| usage_for(row, id))
            == rows.filter_map(|row: DiskRowView| usage_for(row, id)),
    decreases n,
{
    let all = rows + disk_rows_of(s).take(n);
    if n > 0 {
        assert(all.drop_last() =~= rows + disk_rows_of(s).take(n - 1));
        assert(all.last() == disk_rows_of(s)[n - 1]);
        lemma_disks_of_other_rows(rows, s, id, n - 1);
    } else {
        assert(all =~= rows);
    }
}

/// Whether `s` stands in `found` at the place `i` and nowhere else.
pub open spec fn stands_only_at(found: Seq<SampleView>, s: SampleView, i: int) -> bool {
    &&& 0 <= i < found.len()
    &&& found[i] == s
    &&& forall|j: int| 0 <= j < found.len() && #[trigger] found[j] == s ==> j == i
}

/// Round trip, whatever else the store holds: after a sample was written, a
/// read of the window that begins and ends at its time returns exactly one
/// record equal to that sample, disk and network records included. It holds
/// for a sample whose id is new, in a store whose samples of that time can
/// be read.
pub proof fn lemma_store_then_fetch_among_others(db: Database, s: SampleView)
    requires
        db.telemetry_wf(),
        !db.has_sample(s.id),
        db.fetch(s.timestamp, s.timestamp) is Ok,
    ensures
        match db.insert(s).fetch(s.timestamp, s.timestamp) {
            Ok(found) => exists|i: int| #[trigger] stands_only_at(found, s, i),
            Err(_) => false,
        },
{
    let new = db.insert(s);
    let row = row_of(s);
    let k = leading_not_after(db.samples, s.timestamp) as int;
    let keep = |r: SampleRowView| in_window(r.timestamp, s.timestamp, s.timestamp);
    let window = new.window(s.timestamp, s.timestamp);
    let before = db.window(s.timestamp, s.timestamp);
    lemma_leading_not_after(db.samples, s.timestamp);
    db.samples.insert_ensures(k, row);
    lemma_insert_wf(db, s);
    lemma_filter_distinct(new.samples, keep);
    assert(new.samples[k] == row);
    new.samples.lemma_filter_contains(keep, k);
    let i = choose|i: int| 0 <= i < window.len() && window[i] == row;
    assert forall|n: int| 0 <= n < db.networks.len() implies (
    #[trigger] db.networks[n]).historical_data_id != s.id by {
        assert(db.has_sample(db.networks[n].historical_data_id));
    }
    lemma_traffic_of_new_row(db.networks, network_row_of(s));
    assert forall|n: int| 0 <= n < db.disks.len() implies (
    #[trigger] db.disks[n]).historical_data_id != s.id by {
        assert(db.has_sample(db.disks[n].historical_data_id));
    }
    lemma_disks_of_new_rows(db.disks, s, s.disk_usage.len() as int);
    assert(disk_rows_of(s).take(s.disk_usage.len() as int) =~= disk_rows_of(s));
    assert(s.disk_usage.take(s.disk_usage.len() as int) =~= s.disk_usage);
    assert(new.sample_of(row) == Some(s));
    assert forall|j: int| 0 <= j < window.len() implies new.sample_of(
        #[trigger] window[j],
    ) is Some by {
        if window[j] != row {
            lemma_filter_member(new.samples, keep, j);
            let a = choose|a: int| 0 <= a < new.samples.len() && new.samples[a] == window[j];
            let held = if a < k {
                a
            } else {
                a - 1
            };
            assert(new.samples[a] == db.samples[held]) by {
                if a > k {
                    assert(new.samples[(a - 1) + 1] == db.samples[a - 1]);
                }
            }
            db.samples.lemma_filter_contains(keep, held);
            let b = choose|b: int| 0 <= b < before.len() && before[b] == db.samples[held];
            assert(db.sample_of(before[b]) is Some);
            lemma_traffic_of_held_row(db.networks, network_row_of(s), window[j].id);
        }
    }
    let found = window.map_values(|r: SampleRowView| new.sample_of(r).unwrap());
    assert(found[i] == s);
    assert forall|j: int| 0 <= j < found.len() && #[trigger] found[j] == s implies j == i by {
        assert(window[j].id == s.id);
        if j < i {
            assert(window[j].id != window[i].id);
        }
        if i < j {
            assert(window[i].id != window[j].id);
        }
    }
    assert(new.fetch(s.timestamp, s.timestamp) == Ok::<Seq<SampleView>, TelemetryError>(found));
    assert(match new.fetch(s.timestamp, s.timestamp) {
        Ok(f) => stands_only_at(f, s, i),
        Err(_) => false,
    });
}

/// Pruning: after a prune no stored sample is before the cutoff.
pub proof fn lemma_prune_leaves_none_before(db: Database, cutoff: Timestamp)
    ensures
        forall|i: int|
            0 <= i < db.pruned(cutoff).samples.len() ==> !(#[trigger] db.pruned(
                cutoff,
            ).samples[i]).timestamp.before(cutoff),
{
    let keep = |row: SampleRowView| !row.timestamp.before(cutoff);
    assert forall|i: int| 0 <= i < db.pruned(cutoff).samples.len() implies !(#[trigger] db.pruned(
        cutoff,
    ).samples[i]).timestamp.before(cutoff) by {
        lemma_filter_member(db.samples, keep, i);
    }
}

/// Pruning: a second prune with the same cutoff changes nothing, so it
/// removes no sample.
pub proof fn lemma_prune_twice(db: Database, cutoff: Timestamp)
    ensures
        db.pruned(cutoff).pruned(cutoff) == db.pruned(cutoff),
        db.pruned(cutoff).samples.len() - db.pruned(cutoff).pruned(cutoff).samples.len() == 0,
{
    let once = db.pruned(cutoff);
    let twice = once.pruned(cutoff);
    let keep = |row: SampleRowView| !row.timestamp.before(cutoff);
    lemma_filter_twice(db.samples, keep);
    assert(twice.samples == once.samples);
    let keep_disk = |row: DiskRowView| holds_id(once.samples, row.historical_data_id);
    lemma_filter_twice(db.disks, keep_disk);
    let keep_network = |row: NetworkRowView| holds_id(once.samples, row.historical_data_id);
    lemma_filter_twice(db.networks, keep_network);
    assert(twice.disks == once.disks);
    assert(twice.networks == once.networks);
}

/// The lines of samples whose times can be written hold one line feed for
/// each sample.
pub proof fn lemma_rows_line_feeds(samples: Seq<SampleView>)
    requires
        times_writable(samples),
    ensures
        line_feeds(csv_rows(samples).flatten()) == samples.len(),
    decreases samples.len(),
{
    if samples.len() == 0 {
        assert(csv_rows(samples) =~= Seq::<Seq<char>>::empty());
        assert(csv_rows(samples).flatten() =~= Seq::<char>::empty());
    } else {
        let head = samples.drop_last();
        let last = samples.last();
        assert forall|i: int| 0 <= i < head.len() implies time_field(
            (#[trigger] head[i]).timestamp,
        ) is Some by {
            assert(head[i] == samples[i]);
        }
        lemma_rows_line_feeds(head);
        assert(csv_rows(samples) =~= csv_rows(head).push(csv_row(last)));
        csv_rows(head).lemma_flatten_push(csv_row(last));
        lemma_csv_row_one_feed(last);
        lemma_line_feeds_add(csv_rows(head).flatten(), csv_row(last));
    }
}

/// An export that succeeds holds one line more than it has samples: the
/// header, then one line for each sample.
pub proof fn lemma_export_line_count(samples: Seq<SampleView>)
    ensures
        csv_export(samples) matches Ok(text) ==> line_feeds(text) == samples.len() + 1,
{
    if times_writable(samples) {
        lemma_header_one_feed();
        lemma_rows_line_feeds(samples);
        lemma_line_feeds_add(csv_header(), csv_rows(samples).flatten());
    }
}

/// An export of a window that succeeds holds one line more than a read of
/// the same window returns samples.
pub proof fn lemma_export_row_count(db: Database, start: Timestamp, end: Timestamp)
    ensures
        window_export(db, start, end) matches Ok(text) ==> line_feeds(text) == window_count(
            db,
            start,
            end,
        ) + 1,
{
    if let Ok(samples) = db.fetch(start, end) {
        lemma_export_line_count(samples);
    }
}

/// The line of a sample in an export is a record of seven fields, closed
/// by a line feed. The fields read back as the time, the four figures and
/// the two JSON texts of the sample, each JSON text as one field.
pub proof fn lemma_export_row_fields(s: SampleView)
    requires
        time_field(s.timestamp) is Some,
    ensures
        csv_row(s) == csv_record(s) + seq!['\n'],
        line_feeds(csv_record(s)) == 0,
        fields_of(csv_record(s)).len() == 7,
        fields_of(csv_record(s)) == csv_cells(
            s,
            time_field(s.timestamp).unwrap(),
            disk_cell(s.disk_usage),
            network_object(s.network_traffic),
        ),
{
    let time = time_field(s.timestamp).unwrap();
    lemma_csv_record_fields(s, time, disk_cell(s.disk_usage), network_object(s.network_traffic));
    lemma_plain_one_line(time);
    lemma_disk_cell_one_line(s.disk_usage);
    lemma_network_object_one_line(s.network_traffic);
    lemma_csv_line_one_feed(s, time, disk_cell(s.disk_usage), network_object(s.network_traffic));
}

/// One rule that the values breach raises exactly one entry: it names the
/// rule, holds the value observed for the metric of the rule, and is not
/// acknowledged.
pub proof fn lemma_one_breach_raises_one_entry(
    db: Database,
    rule: ConfigurationView,
    values: MetricValues,
    ids: Seq<Seq<char>>,
    at: Timestamp,
    entries: Seq<HistoryView>,
)
    requires
        db.configurations == seq![rule],
        rule.breached_by(values),
        alerts_raised(db, values, ids, at, entries),
    ensures
        ids.len() == 1,
        entries == seq![
            (HistoryView {
                id: ids[0],
                config_id: rule.id,
                triggered_at: at,
                value: values.of(rule.metric),
                acknowledgment: AcknowledgmentView::Unacknowledged,
            }),
        ],
{
    let rules = seq![rule];
    assert(rules.drop_last() =~= Seq::<ConfigurationView>::empty());
    reveal_with_fuel(Seq::filter_map, 3);
    assert(breaches_of(rules, values) =~= seq![breach_of(rule, values).unwrap()]);
    assert(entries =~= seq![entry_of(breach_of(rule, values).unwrap(), ids[0], at)]);
}

/// What a pass raises follows its breaches one for one: as many entries as
/// breaches, each not acknowledged, with the rule and the value of its
/// breach, the time of the pass and its own id.
pub proof fn lemma_raised_entries_follow_breaches(
    db: Database,
    values: MetricValues,
    ids: Seq<Seq<char>>,
    at: Timestamp,
    entries: Seq<HistoryView>,
)
    requires
        alerts_raised(db, values, ids, at, entries),
    ensures
        entries.len() == breaches_of(db.configurations, values).len(),
        forall|i: int|
            0 <= i < entries.len() ==> {
                let entry = #[trigger] entries[i];
                let breach = breaches_of(db.configurations, values)[i];
                &&& entry.id == ids[i]
                &&& entry.config_id == breach.config_id
                &&& entry.value == breach.value
                &&& entry.triggered_at == at
                &&& entry.acknowledgment is Unacknowledged
                &&& !db.has_entry(entry.id)
            },
{
}

/// An acknowledgment changes nothing but the acknowledgment of the entry it
/// names: the history keeps its length and order, and every entry its id,
/// its rule, its time and its value.
pub proof fn lemma_acknowledge_changes_only_acknowledgment(
    db: Database,
    id: Seq<char>,
    by: Seq<char>,
    at: Timestamp,
)
    ensures
        db.with_acknowledged(id, by, at).history.len() == db.history.len(),
        forall|i: int|
            0 <= i < db.history.len() ==> {
                let before = #[trigger] db.history[i];
                let after = db.with_acknowledged(id, by, at).history[i];
                &&& after.id == before.id
                &&& after.config_id == before.config_id
                &&& after.triggered_at == before.triggered_at
                &&& after.value == before.value
                &&& before.id != id ==> after == before
                &&& before.id == id ==> after.acknowledgment == (AcknowledgmentView::Acknowledged {
                    by,
                    at,
                })
            },
        db.with_acknowledged(id, by, at).samples == db.samples,
        db.with_acknowledged(id, by, at).disks == db.disks,
        db.with_acknowledged(id, by, at).networks == db.networks,
        db.with_acknowledged(id, by, at).configurations == db.configurations,
{
}

/// An entry that was acknowledged cannot be acknowledged again.
pub proof fn lemma_acknowledged_entry_is_closed(
    db: Database,
    id: Seq<char>,
    by: Seq<char>,
    at: Timestamp,
)
    ensures
        !db.with_acknowledged(id, by, at).has_open_entry(id),
{
    let after = db.with_acknowledged(id, by, at);
    if after.has_open_entry(id) {
        let i = choose|i: int|
            0 <= i < after.history.len() && (#[trigger] after.history[i]).id == id
                && after.history[i].acknowledgment is Unacknowledged;
        assert(db.history[i].id == id);
    }
}

/// A rule that is not enabled is breached by no values, and a list of such
/// rules gives no breach.
pub proof fn lemma_disabled_rules_trigger_nothing(
    rules: Seq<ConfigurationView>,
    values: MetricValues,
)
    requires
        forall|i: int| 0 <= i < rules.len() ==> !(#[trigger] rules[i]).enabled,
    ensures
        forall|i: int| 0 <= i < rules.len() ==> breach_of(#[trigger] rules[i], values) is None,
        breaches_of(rules, values).len() == 0,
    decreases rules.len(),
{
    if rules.len() > 0 {
        assert forall|i: int| 0 <= i < rules.drop_last().len() implies !(
        #[trigger] rules.drop_last()[i]).enabled by {
            assert(rules.drop_last()[i] == rules[i]);
        }
        lemma_disabled_rules_trigger_nothing(rules.drop_last(), values);
        assert(!rules.last().enabled);
    }
}

/// The head of a text that an excerpt quotes takes no more bytes than the
/// limit, and it is the whole text if and only if the text takes no more.
pub proof fn lemma_excerpt_within_limit(s: Seq<char>, limit: nat)
    ensures
        chars_within(s, limit) <= s.len(),
        byte_len(byte_prefix(s, limit)) <= limit,
        byte_len(s) <= limit <==> byte_prefix(s, limit) == s,
    decreases s.len(),
{
    if s.len() > 0 && char_bytes(s[0]) <= limit {
        let rest = s.drop_first();
        let left = (limit - char_bytes(s[0])) as nat;
        lemma_excerpt_within_limit(rest, left);
        let n = chars_within(rest, left) as int;
        assert(s.take(n + 1).drop_first() =~= rest.take(n));
        assert(s.take(n + 1)[0] == s[0]);
        if byte_prefix(rest, left) == rest {
            assert(rest.take(n).len() == rest.len());
            assert(s.take(n + 1) =~= s);
        }
        if byte_prefix(s, limit) == s {
            assert(s.take(n + 1).len() == s.len());
            assert(rest.take(n) =~= rest);
        }
    } else {
        assert(s.take(0) =~= Seq::<char>::empty());
        assert(byte_len(Seq::<char>::empty()) == 0);
        if s.len() == 0 {
            assert(s =~= Seq::<char>::empty());
        } else {
            assert(s.take(0).len() != s.len());
        }
    }
}

/// Output that holds neither of the two time markers gives the fallback
/// text: the output in `(output: ` and `)`, cut to a hundred bytes.
pub proof fn lemma_ping_without_marker_falls_back(output: Seq<char>)
    requires
        find_from(output, "时间="@, 0) is None,
        find_from(output, "time="@, 0) is None,
    ensures
        ping_latency_text(output) == ping_fallback(output),
{
}

} // verus!
