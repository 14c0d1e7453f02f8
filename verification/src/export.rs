//! Export of stored samples as comma-separated text, with the sub-records
//! of each sample embedded as JSON.

use vstd::prelude::*;
use crate::csv::{
    fields_of,
    lemma_quoted_line_feeds,
    lemma_read_add,
    lemma_read_comma,
    lemma_read_plain,
    lemma_read_quoted,
    next_field,
    push_quoted,
    quoted,
    start,
    Mode,
    Reading,
};
use crate::database::{Database, DatabaseManager};
use crate::numbers::{
    integer_text,
    lemma_integer_text_one_line,
    lemma_integer_text_plain,
    lemma_thousandths_text_one_line,
    lemma_thousandths_text_plain,
    push_integer,
    push_thousandths,
    thousandths_text,
};
use crate::records::{
    disk_views,
    sample_views,
    DiskUsageData,
    DiskUsageView,
    HistoricalSystemData,
    NetworkTrafficData,
    SampleView,
    TelemetryError,
};
use crate::text::{
    append,
    append_str,
    chars_of,
    is_plain,
    lemma_line_feeds_add,
    lemma_no_line_feed,
    lemma_plain_one_line,
    line_feeds,
    string_of,
    texts,
};
use crate::time::{time_field, write_time, Timestamp};

verus! {

/// `serde_json`'s error.
#[verifier::external_type_specification]
#[verifier::external_body]
pub struct ExJsonError(serde_json::Error);

/// The JSON string literal that `serde_json` writes for a text, quotes
/// included.
pub uninterp spec fn json_string(text: Seq<char>) -> Option<Seq<char>>;

/// The characters of a written literal, `None` for a failed writing.
pub open spec fn written(r: Result<String, serde_json::Error>) -> Option<Seq<char>> {
    match r {
        Ok(s) => Some(s@),
        Err(_) => None,
    }
}

/// `serde_json::to_string` on a string slice: the JSON string literal for
/// `text`, or `serde_json`'s error. The outcome is a function of the text
/// alone, and the literal holds no line feed: `serde_json` writes each
/// control character as an escape.
#[verifier::external_body]
pub(crate) fn json_quote(text: &str) -> (r: Result<String, serde_json::Error>)
    ensures
        written(r) == json_string(text@),
        r matches Ok(literal) ==> line_feeds(literal@) == 0,
{
    serde_json::to_string(text)
}

/// The JSON object of a network record.
pub open spec fn network_object(n: NetworkTrafficData) -> Seq<char> {
    "{\"bytes_received\":"@ + integer_text(n.bytes_received as int) + ",\"bytes_sent\":"@
        + integer_text(n.bytes_sent as int) + ",\"packets_received\":"@ + integer_text(
        n.packets_received as int,
    ) + ",\"packets_sent\":"@ + integer_text(n.packets_sent as int) + "}"@
}

/// The JSON object of a network record stands on one line.
pub proof fn lemma_network_object_one_line(n: NetworkTrafficData)
    ensures
        line_feeds(network_object(n)) == 0,
{
    reveal_strlit("{\"bytes_received\":");
    reveal_strlit(",\"bytes_sent\":");
    reveal_strlit(",\"packets_received\":");
    reveal_strlit(",\"packets_sent\":");
    reveal_strlit("}");
    let a = "{\"bytes_received\":"@;
    let b = integer_text(n.bytes_received as int);
    let c = ",\"bytes_sent\":"@;
    let d = integer_text(n.bytes_sent as int);
    let e = ",\"packets_received\":"@;
    let f = integer_text(n.packets_received as int);
    let g = ",\"packets_sent\":"@;
    let h = integer_text(n.packets_sent as int);
    let i = "}"@;
    lemma_no_line_feed(a);
    lemma_no_line_feed(c);
    lemma_no_line_feed(e);
    lemma_no_line_feed(g);
    lemma_no_line_feed(i);
    lemma_integer_text_one_line(n.bytes_received as int);
    lemma_integer_text_one_line(n.bytes_sent as int);
    lemma_integer_text_one_line(n.packets_received as int);
    lemma_integer_text_one_line(n.packets_sent as int);
    lemma_line_feeds_add(a, b);
    lemma_line_feeds_add(a + b, c);
    lemma_line_feeds_add(a + b + c, d);
    lemma_line_feeds_add(a + b + c + d, e);
    lemma_line_feeds_add(a + b + c + d + e, f);
    lemma_line_feeds_add(a + b + c + d + e + f, g);
    lemma_line_feeds_add(a + b + c + d + e + f + g, h);
    lemma_line_feeds_add(a + b + c + d + e + f + g + h, i);
}

/// Writes the JSON object of a network record.
pub fn network_traffic_json(n: &NetworkTrafficData) -> (r: String)
    ensures
        r@ == network_object(*n),
{
    let mut out: Vec<char> = Vec::new();
    append_str(&mut out, "{\"bytes_received\":");
    push_integer(&mut out, n.bytes_received);
    append_str(&mut out, ",\"bytes_sent\":");
    push_integer(&mut out, n.bytes_sent);
    append_str(&mut out, ",\"packets_received\":");
    push_integer(&mut out, n.packets_received);
    append_str(&mut out, ",\"packets_sent\":");
    push_integer(&mut out, n.packets_sent);
    append_str(&mut out, "}");
    assert(out@ =~= network_object(*n));
    string_of(&out)
}

/// The JSON object of a disk record whose mount point is written as the
/// literal `mount`. The usage is written with at least one decimal place.
pub open spec fn disk_object(d: DiskUsageView, mount: Seq<char>) -> Seq<char> {
    "{\"mount_point\":"@ + mount + ",\"used_space\":"@ + integer_text(d.used_space as int)
        + ",\"total_space\":"@ + integer_text(d.total_space as int) + ",\"usage_percent\":"@
        + thousandths_text(d.usage_percent.0 as nat, 1) + "}"@
}

/// The JSON objects of a list of disk records, parted by commas.
pub open spec fn disk_objects(disks: Seq<DiskUsageView>, mounts: Seq<Seq<char>>) -> Seq<char>
    decreases disks.len(),
{
    if disks.len() == 0 {
        Seq::empty()
    } else if disks.len() == 1 {
        disk_object(disks[0], mounts[0])
    } else {
        disk_objects(disks.drop_last(), mounts.drop_last()) + ","@ + disk_object(
            disks.last(),
            mounts.last(),
        )
    }
}

/// The JSON object of a disk record stands on one line where the literal
/// of its mount point does.
pub proof fn lemma_disk_object_one_line(d: DiskUsageView, mount: Seq<char>)
    requires
        line_feeds(mount) == 0,
    ensures
        line_feeds(disk_object(d, mount)) == 0,
{
    reveal_strlit("{\"mount_point\":");
    reveal_strlit(",\"used_space\":");
    reveal_strlit(",\"total_space\":");
    reveal_strlit(",\"usage_percent\":");
    reveal_strlit("}");
    let a = "{\"mount_point\":"@;
    let c = ",\"used_space\":"@;
    let e = integer_text(d.used_space as int);
    let f = ",\"total_space\":"@;
    let g = integer_text(d.total_space as int);
    let h = ",\"usage_percent\":"@;
    let i = thousandths_text(d.usage_percent.0 as nat, 1);
    let j = "}"@;
    lemma_no_line_feed(a);
    lemma_no_line_feed(c);
    lemma_no_line_feed(f);
    lemma_no_line_feed(h);
    lemma_no_line_feed(j);
    lemma_integer_text_one_line(d.used_space as int);
    lemma_integer_text_one_line(d.total_space as int);
    lemma_thousandths_text_one_line(d.usage_percent.0 as nat, 1);
    lemma_line_feeds_add(a, mount);
    lemma_line_feeds_add(a + mount, c);
    lemma_line_feeds_add(a + mount + c, e);
    lemma_line_feeds_add(a + mount + c + e, f);
    lemma_line_feeds_add(a + mount + c + e + f, g);
    lemma_line_feeds_add(a + mount + c + e + f + g, h);
    lemma_line_feeds_add(a + mount + c + e + f + g + h, i);
    lemma_line_feeds_add(a + mount + c + e + f + g + h + i, j);
}

/// The JSON objects of a list of disk records stand on one line where the
/// literals of their mount points do.
pub proof fn lemma_disk_objects_one_line(disks: Seq<DiskUsageView>, mounts: Seq<Seq<char>>)
    requires
        mounts.len() == disks.len(),
        forall|i: int| 0 <= i < mounts.len() ==> line_feeds(#[trigger] mounts[i]) == 0,
    ensures
        line_feeds(disk_objects(disks, mounts)) == 0,
    decreases disks.len(),
{
    if disks.len() == 0 {
    } else if disks.len() == 1 {
        lemma_disk_object_one_line(disks[0], mounts[0]);
    } else {
        assert forall|i: int| 0 <= i < mounts.drop_last().len() implies line_feeds(
            #[trigger] mounts.drop_last()[i],
        ) == 0 by {
            assert(mounts.drop_last()[i] == mounts[i]);
        }
        lemma_disk_objects_one_line(disks.drop_last(), mounts.drop_last());
        lemma_disk_object_one_line(disks.last(), mounts.last());
        reveal_strlit(",");
        lemma_no_line_feed(","@);
        let head = disk_objects(disks.drop_last(), mounts.drop_last());
        lemma_line_feeds_add(head, ","@);
        lemma_line_feeds_add(head + ","@, disk_object(disks.last(), mounts.last()));
    }
}

/// The JSON array of a list of disk records stands on one line where the
/// literals of their mount points do.
pub proof fn lemma_disk_array_one_line(disks: Seq<DiskUsageView>, mounts: Seq<Seq<char>>)
    requires
        mounts.len() == disks.len(),
        forall|i: int| 0 <= i < mounts.len() ==> line_feeds(#[trigger] mounts[i]) == 0,
    ensures
        line_feeds(disk_array(disks, mounts)) == 0,
{
    lemma_disk_objects_one_line(disks, mounts);
    reveal_strlit("[");
    reveal_strlit("]");
    lemma_no_line_feed("["@);
    lemma_no_line_feed("]"@);
    lemma_line_feeds_add("["@, disk_objects(disks, mounts));
    lemma_line_feeds_add("["@ + disk_objects(disks, mounts), "]"@);
}

/// The JSON array of a list of disk records.
pub open spec fn disk_array(disks: Seq<DiskUsageView>, mounts: Seq<Seq<char>>) -> Seq<char> {
    "["@ + disk_objects(disks, mounts) + "]"@
}

fn push_disk_object(out: &mut Vec<char>, d: &DiskUsageData, mount: &String)
    ensures
        final(out)@ == old(out)@ + disk_object(d@, mount@),
{
    append_str(out, "{\"mount_point\":");
    append_str(out, mount.as_str());
    append_str(out, ",\"used_space\":");
    push_integer(out, d.used_space);
    append_str(out, ",\"total_space\":");
    push_integer(out, d.total_space);
    append_str(out, ",\"usage_percent\":");
    push_thousandths(out, d.usage_percent, 1);
    append_str(out, "}");
    assert(out@ =~= old(out)@ + disk_object(d@, mount@));
}

/// Writes the JSON array of a list of disk records; `mounts` holds the
/// mount point of each as a JSON string literal. Literals that are not as
/// many as the records give no text at all.
pub fn disk_usage_json(disks: &Vec<DiskUsageData>, mounts: &Vec<String>) -> (r: String)
    ensures
        r@ == (if mounts.len() == disks.len() {
            disk_array(disk_views(disks@), texts(mounts@))
        } else {
            Seq::empty()
        }),
{
    if mounts.len() != disks.len() {
        return String::new();
    }
    let ghost all = disk_views(disks@);
    let ghost quoted = texts(mounts@);
    let mut out: Vec<char> = Vec::new();
    append_str(&mut out, "[");
    let mut i: usize = 0;
    assert(out@ =~= "["@ + disk_objects(all.take(0), quoted.take(0)));
    while i < disks.len()
        invariant
            i <= disks.len(),
            mounts.len() == disks.len(),
            all == disk_views(disks@),
            quoted == texts(mounts@),
            out@ == "["@ + disk_objects(all.take(i as int), quoted.take(i as int)),
        decreases disks.len() - i,
    {
        let ghost before = out@;
        if i > 0 {
            append_str(&mut out, ",");
        }
        push_disk_object(&mut out, &disks[i], &mounts[i]);
        proof {
            assert(all.take(i + 1).drop_last() =~= all.take(i as int));
            assert(quoted.take(i + 1).drop_last() =~= quoted.take(i as int));
            assert(all.take(i + 1).last() == disks@[i as int]@);
            assert(quoted.take(i + 1).last() == mounts@[i as int]@);
            if i == 0 {
                assert(all.take(1)[0] == disks@[0]@);
                assert(quoted.take(1)[0] == mounts@[0]@);
                assert(out@ =~= "["@ + disk_objects(all.take(1), quoted.take(1)));
            } else {
                assert(out@ =~= "["@ + disk_objects(all.take(i + 1), quoted.take(i + 1)));
            }
        }
        i += 1;
    }
    proof {
        assert(all.take(i as int) =~= all);
        assert(quoted.take(i as int) =~= quoted);
    }
    append_str(&mut out, "]");
    string_of(&out)
}

/// The first line of an export.
pub open spec fn csv_header() -> Seq<char> {
    "timestamp,cpu_usage,memory_usage,memory_total,system_load,disk_usage,network_traffic\n"@
}

/// The seven cells of a line of an export: the time as text, the usage of
/// processor and memory, the total memory, the load, and the two JSON
/// texts.
pub open spec fn csv_cells(
    s: SampleView,
    timestamp: Seq<char>,
    disks: Seq<char>,
    network: Seq<char>,
) -> Seq<Seq<char>> {
    seq![
        timestamp,
        thousandths_text(s.cpu_usage.0 as nat, 0),
        thousandths_text(s.memory_usage.0 as nat, 0),
        integer_text(s.memory_total as int),
        thousandths_text(s.system_load.0 as nat, 0),
        disks,
        network,
    ]
}

/// The record of a line of an export: its seven cells parted by commas,
/// the first five as they are and each JSON text as one quoted field.
pub open spec fn csv_record_text(
    s: SampleView,
    timestamp: Seq<char>,
    disks: Seq<char>,
    network: Seq<char>,
) -> Seq<char> {
    timestamp + seq![','] + thousandths_text(s.cpu_usage.0 as nat, 0) + seq![',']
        + thousandths_text(s.memory_usage.0 as nat, 0) + seq![','] + integer_text(
        s.memory_total as int,
    ) + seq![','] + thousandths_text(s.system_load.0 as nat, 0) + seq![','] + quoted(disks)
        + seq![','] + quoted(network)
}

/// One line of an export: its record, closed by a line feed.
pub open spec fn csv_line_text(
    s: SampleView,
    timestamp: Seq<char>,
    disks: Seq<char>,
    network: Seq<char>,
) -> Seq<char> {
    csv_record_text(s, timestamp, disks, network) + seq!['\n']
}

/// The record of a line reads back as its seven cells, each JSON text as
/// one field and as it was before it was quoted. It holds where the time
/// is written plain.
pub proof fn lemma_csv_record_fields(
    s: SampleView,
    timestamp: Seq<char>,
    disks: Seq<char>,
    network: Seq<char>,
)
    requires
        is_plain(timestamp),
    ensures
        fields_of(csv_record_text(s, timestamp, disks, network)) == csv_cells(
            s,
            timestamp,
            disks,
            network,
        ),
        fields_of(csv_record_text(s, timestamp, disks, network)).len() == 7,
{
    let comma = seq![','];
    let none = Seq::<char>::empty();
    let cpu = thousandths_text(s.cpu_usage.0 as nat, 0);
    let memory = thousandths_text(s.memory_usage.0 as nat, 0);
    let total = integer_text(s.memory_total as int);
    let load = thousandths_text(s.system_load.0 as nat, 0);
    lemma_thousandths_text_plain(s.cpu_usage.0 as nat, 0);
    lemma_thousandths_text_plain(s.memory_usage.0 as nat, 0);
    lemma_integer_text_plain(s.memory_total as int);
    lemma_thousandths_text_plain(s.system_load.0 as nat, 0);
    let r0 = start();
    // The time.
    let t1 = timestamp;
    lemma_read_plain(r0, timestamp);
    let r1 = Reading { field: none + timestamp, ..r0 };
    assert(none + timestamp =~= timestamp);
    let t2 = t1 + comma;
    lemma_read_add(r0, t1, comma);
    lemma_read_comma(r1);
    let d1 = seq![timestamp];
    let r2 = Reading { mode: Mode::Bare, field: none, done: d1 };
    assert(next_field(r1).done =~= d1);
    // The usage of the processor.
    let t3 = t2 + cpu;
    lemma_read_add(r0, t2, cpu);
    lemma_read_plain(r2, cpu);
    assert(none + cpu =~= cpu);
    let t4 = t3 + comma;
    lemma_read_add(r0, t3, comma);
    lemma_read_comma(Reading { field: cpu, ..r2 });
    let d2 = seq![timestamp, cpu];
    let r4 = Reading { mode: Mode::Bare, field: none, done: d2 };
    assert(d1.push(cpu) =~= d2);
    // The usage of memory.
    let t5 = t4 + memory;
    lemma_read_add(r0, t4, memory);
    lemma_read_plain(r4, memory);
    assert(none + memory =~= memory);
    let t6 = t5 + comma;
    lemma_read_add(r0, t5, comma);
    lemma_read_comma(Reading { field: memory, ..r4 });
    let d3 = seq![timestamp, cpu, memory];
    let r6 = Reading { mode: Mode::Bare, field: none, done: d3 };
    assert(d2.push(memory) =~= d3);
    // The total memory.
    let t7 = t6 + total;
    lemma_read_add(r0, t6, total);
    lemma_read_plain(r6, total);
    assert(none + total =~= total);
    let t8 = t7 + comma;
    lemma_read_add(r0, t7, comma);
    lemma_read_comma(Reading { field: total, ..r6 });
    let d4 = seq![timestamp, cpu, memory, total];
    let r8 = Reading { mode: Mode::Bare, field: none, done: d4 };
    assert(d3.push(total) =~= d4);
    // The load.
    let t9 = t8 + load;
    lemma_read_add(r0, t8, load);
    lemma_read_plain(r8, load);
    assert(none + load =~= load);
    let t10 = t9 + comma;
    lemma_read_add(r0, t9, comma);
    lemma_read_comma(Reading { field: load, ..r8 });
    let d5 = seq![timestamp, cpu, memory, total, load];
    let r10 = Reading { mode: Mode::Bare, field: none, done: d5 };
    assert(d4.push(load) =~= d5);
    // The disk records.
    let t11 = t10 + quoted(disks);
    lemma_read_add(r0, t10, quoted(disks));
    lemma_read_quoted(r10, disks);
    assert(none + disks =~= disks);
    let t12 = t11 + comma;
    lemma_read_add(r0, t11, comma);
    lemma_read_comma(Reading { mode: Mode::Closing, field: disks, ..r10 });
    let d6 = seq![timestamp, cpu, memory, total, load, disks];
    let r12 = Reading { mode: Mode::Bare, field: none, done: d6 };
    assert(d5.push(disks) =~= d6);
    // The network record.
    let t13 = t12 + quoted(network);
    lemma_read_add(r0, t12, quoted(network));
    lemma_read_quoted(r12, network);
    assert(none + network =~= network);
    assert(t13 == csv_record_text(s, timestamp, disks, network));
    assert(d6.push(network) =~= csv_cells(s, timestamp, disks, network));
}

/// A line of an export whose three text cells hold no line feed holds one:
/// the line feed that closes it.
pub proof fn lemma_csv_line_one_feed(
    s: SampleView,
    timestamp: Seq<char>,
    disks: Seq<char>,
    network: Seq<char>,
)
    requires
        line_feeds(timestamp) == 0,
        line_feeds(disks) == 0,
        line_feeds(network) == 0,
    ensures
        line_feeds(csv_record_text(s, timestamp, disks, network)) == 0,
        line_feeds(csv_line_text(s, timestamp, disks, network)) == 1,
{
    let comma = seq![','];
    let cpu = thousandths_text(s.cpu_usage.0 as nat, 0);
    let memory = thousandths_text(s.memory_usage.0 as nat, 0);
    let total = integer_text(s.memory_total as int);
    let load = thousandths_text(s.system_load.0 as nat, 0);
    lemma_no_line_feed(comma);
    lemma_thousandths_text_one_line(s.cpu_usage.0 as nat, 0);
    lemma_thousandths_text_one_line(s.memory_usage.0 as nat, 0);
    lemma_integer_text_one_line(s.memory_total as int);
    lemma_thousandths_text_one_line(s.system_load.0 as nat, 0);
    lemma_quoted_line_feeds(disks);
    lemma_quoted_line_feeds(network);
    let a = timestamp + comma;
    lemma_line_feeds_add(timestamp, comma);
    let b = a + cpu;
    lemma_line_feeds_add(a, cpu);
    let c = b + comma;
    lemma_line_feeds_add(b, comma);
    let d = c + memory;
    lemma_line_feeds_add(c, memory);
    let e = d + comma;
    lemma_line_feeds_add(d, comma);
    let f = e + total;
    lemma_line_feeds_add(e, total);
    let g = f + comma;
    lemma_line_feeds_add(f, comma);
    let h = g + load;
    lemma_line_feeds_add(g, load);
    let i = h + comma;
    lemma_line_feeds_add(h, comma);
    let j = i + quoted(disks);
    lemma_line_feeds_add(i, quoted(disks));
    let k = j + comma;
    lemma_line_feeds_add(j, comma);
    let l = k + quoted(network);
    lemma_line_feeds_add(k, quoted(network));
    let feed = seq!['\n'];
    assert(feed.drop_last() =~= Seq::<char>::empty());
    assert(line_feeds(Seq::<char>::empty()) == 0);
    assert(line_feeds(feed) == 1);
    lemma_line_feeds_add(l, feed);
}

/// Writes one line of an export from the sample and its three cells that
/// are text already; the two JSON texts are written as quoted fields.
pub fn csv_line(sample: &HistoricalSystemData, timestamp: &str, disks: &str, network: &str) -> (r:
    String)
    ensures
        r@ == csv_line_text(sample@, timestamp@, disks@, network@),
{
    let mut out: Vec<char> = chars_of(timestamp);
    out.push(',');
    push_thousandths(&mut out, sample.cpu_usage, 0);
    out.push(',');
    push_thousandths(&mut out, sample.memory_usage, 0);
    out.push(',');
    push_integer(&mut out, sample.memory_total);
    out.push(',');
    push_thousandths(&mut out, sample.system_load, 0);
    out.push(',');
    push_quoted(&mut out, &chars_of(disks));
    out.push(',');
    push_quoted(&mut out, &chars_of(network));
    out.push('\n');
    assert(out@ =~= csv_line_text(sample@, timestamp@, disks@, network@));
    string_of(&out)
}

/// The JSON string literal of a mount point, which stands on one line;
/// `None` for a mount point that has no such literal.
pub open spec fn mount_literal(mount: Seq<char>) -> Option<Seq<char>> {
    match json_string(mount) {
        Some(literal) => if line_feeds(literal) == 0 {
            Some(literal)
        } else {
            None
        },
        None => None,
    }
}

/// Whether every mount point of `disks` has a JSON string literal.
pub open spec fn mounts_writable(disks: Seq<DiskUsageView>) -> bool {
    forall|i: int| 0 <= i < disks.len() ==> mount_literal((#[trigger] disks[i]).mount_point) is Some
}

/// The disk cell of a sample: the JSON array of its disk records, or no
/// text at all where a mount point has no JSON string literal.
pub open spec fn disk_cell(disks: Seq<DiskUsageView>) -> Seq<char> {
    if mounts_writable(disks) {
        disk_array(disks, disks.map_values(|d: DiskUsageView| mount_literal(d.mount_point).unwrap()))
    } else {
        Seq::empty()
    }
}

/// The disk cell of a sample stands on one line.
pub proof fn lemma_disk_cell_one_line(disks: Seq<DiskUsageView>)
    ensures
        line_feeds(disk_cell(disks)) == 0,
{
    if mounts_writable(disks) {
        let mounts = disks.map_values(|d: DiskUsageView| mount_literal(d.mount_point).unwrap());
        assert forall|i: int| 0 <= i < mounts.len() implies line_feeds(#[trigger] mounts[i])
            == 0 by {
            assert(mount_literal(disks[i].mount_point) is Some);
        }
        lemma_disk_array_one_line(disks, mounts);
    }
}

/// The record of a sample in an export.
pub open spec fn csv_record(s: SampleView) -> Seq<char> {
    csv_record_text(
        s,
        time_field(s.timestamp).unwrap(),
        disk_cell(s.disk_usage),
        network_object(s.network_traffic),
    )
}

/// The line of a sample in an export: its record, closed by a line feed.
pub open spec fn csv_row(s: SampleView) -> Seq<char> {
    csv_line_text(
        s,
        time_field(s.timestamp).unwrap(),
        disk_cell(s.disk_usage),
        network_object(s.network_traffic),
    )
}

/// The lines of the samples of an export, in their order.
pub open spec fn csv_rows(samples: Seq<SampleView>) -> Seq<Seq<char>> {
    samples.map_values(|s: SampleView| csv_row(s))
}

/// Whether every sample has a time that can be written as RFC 3339 text.
pub open spec fn times_writable(samples: Seq<SampleView>) -> bool {
    forall|i: int| 0 <= i < samples.len() ==> time_field((#[trigger] samples[i]).timestamp) is Some
}

/// The text of an export: the header, then the lines.
pub open spec fn csv_text(rows: Seq<Seq<char>>) -> Seq<char> {
    csv_header() + rows.flatten()
}

/// What an export of `samples` gives: the text of their lines, or the
/// validation error where a time cannot be written.
pub open spec fn csv_export(samples: Seq<SampleView>) -> Result<Seq<char>, TelemetryError> {
    if times_writable(samples) {
        Ok(csv_text(csv_rows(samples)))
    } else {
        Err(TelemetryError::ValidationError)
    }
}

/// Writes the disk cell of a sample.
fn disk_cell_text(disks: &Vec<DiskUsageData>) -> (r: String)
    ensures
        r@ == disk_cell(disk_views(disks@)),
{
    let ghost all = disk_views(disks@);
    let mut mounts: Vec<String> = Vec::new();
    let mut i: usize = 0;
    while i < disks.len()
        invariant
            i <= disks.len(),
            all == disk_views(disks@),
            mounts.len() == i,
            forall|j: int|
                0 <= j < i ==> mount_literal((#[trigger] all[j]).mount_point) == Some(mounts@[j]@),
        decreases disks.len() - i,
    {
        match json_quote(disks[i].mount_point.as_str()) {
            Ok(literal) => {
                mounts.push(literal);
            },
            Err(_) => {
                assert(!(mount_literal(all[i as int].mount_point) is Some));
                return String::new();
            },
        }
        i += 1;
    }
    proof {
        assert(texts(mounts@) =~= all.map_values(
            |d: DiskUsageView| mount_literal(d.mount_point).unwrap(),
        ));
    }
    disk_usage_json(disks, &mounts)
}

/// The header is one line.
pub proof fn lemma_header_one_feed()
    ensures
        line_feeds(csv_header()) == 1,
{
    reveal_strlit(
        "timestamp,cpu_usage,memory_usage,memory_total,system_load,disk_usage,network_traffic\n",
    );
    let header = csv_header();
    assert(header.last() == '\n');
    lemma_no_line_feed(header.drop_last());
}

/// The line of a sample whose time can be written holds one line feed, the
/// one that closes it.
pub proof fn lemma_csv_row_one_feed(s: SampleView)
    requires
        time_field(s.timestamp) is Some,
    ensures
        line_feeds(csv_row(s)) == 1,
{
    lemma_plain_one_line(time_field(s.timestamp).unwrap());
    lemma_disk_cell_one_line(s.disk_usage);
    lemma_network_object_one_line(s.network_traffic);
    lemma_csv_line_one_feed(
        s,
        time_field(s.timestamp).unwrap(),
        disk_cell(s.disk_usage),
        network_object(s.network_traffic),
    );
}

/// Writes the line of a sample; `None` for a sample whose time cannot be
/// written.
fn sample_line(sample: &HistoricalSystemData) -> (r: Option<String>)
    ensures
        match time_field(sample@.timestamp) {
            Some(_) => r matches Some(line) && line@ == csv_row(sample@),
            None => r is None,
        },
{
    match write_time(sample.timestamp) {
        None => None,
        Some(timestamp) => {
            let disks = disk_cell_text(&sample.disk_usage);
            let network = network_traffic_json(&sample.network_traffic);
            Some(csv_line(sample, timestamp.as_str(), disks.as_str(), network.as_str()))
        },
    }
}

/// Writes an export of `samples`: the header line, then one line for each
/// sample.
pub fn export_csv(samples: &Vec<HistoricalSystemData>) -> (r: Result<String, TelemetryError>)
    ensures
        match csv_export(sample_views(samples@)) {
            Ok(text) => r matches Ok(found) && found@ == text,
            Err(error) => r matches Err(e) && e == error,
        },
        r matches Ok(found) ==> line_feeds(found@) == samples.len() + 1,
{
    let ghost all = sample_views(samples@);
    let mut out: Vec<char> = chars_of(
        "timestamp,cpu_usage,memory_usage,memory_total,system_load,disk_usage,network_traffic\n",
    );
    let mut i: usize = 0;
    assert(out@ =~= csv_text(csv_rows(all.take(0))));
    proof {
        lemma_header_one_feed();
    }
    while i < samples.len()
        invariant
            i <= samples.len(),
            all == sample_views(samples@),
            times_writable(all.take(i as int)),
            out@ == csv_text(csv_rows(all.take(i as int))),
            line_feeds(out@) == i + 1,
        decreases samples.len() - i,
    {
        let sample = &samples[i];
        assert(all[i as int] == sample@);
        match sample_line(sample) {
            None => {
                return Err(TelemetryError::ValidationError);
            },
            Some(line) => {
                let v = chars_of(line.as_str());
                let ghost before = out@;
                append(&mut out, &v);
                proof {
                    lemma_csv_row_one_feed(sample@);
                    lemma_line_feeds_add(before, line@);
                    let done = csv_rows(all.take(i as int));
                    assert(csv_rows(all.take(i + 1)) =~= done.push(csv_row(sample@)));
                    done.lemma_flatten_push(csv_row(sample@));
                    assert(out@ =~= csv_text(csv_rows(all.take(i + 1))));
                    assert forall|j: int| 0 <= j < all.take(i + 1).len() implies time_field(
                        (#[trigger] all.take(i + 1)[j]).timestamp,
                    ) is Some by {
                        if j < i {
                            assert(all.take(i + 1)[j] == all.take(i as int)[j]);
                        }
                    }
                }
            },
        }
        i += 1;
    }
    assert(all.take(i as int) =~= all);
    Ok(string_of(&out))
}

/// What an export of a window gives: the text of the samples that a read of
/// the window returns, or the error of the read.
pub open spec fn window_export(db: Database, start: Timestamp, end: Timestamp) -> Result<
    Seq<char>,
    TelemetryError,
> {
    match db.fetch(start, end) {
        Ok(samples) => csv_export(samples),
        Err(error) => Err(error),
    }
}

/// How many samples a read of a window returns; none where it fails.
pub open spec fn window_count(db: Database, start: Timestamp, end: Timestamp) -> nat {
    match db.fetch(start, end) {
        Ok(samples) => samples.len(),
        Err(_) => 0,
    }
}

impl DatabaseManager {
    /// Exports the samples of a window of time: the header line, then one
    /// line for each sample that a read of the window returns.
    pub fn export_historical_data_csv(&self, start_time: Timestamp, end_time: Timestamp) -> (r:
        Result<String, TelemetryError>)
        requires
            self.wf(),
        ensures
            match window_export(self@, start_time, end_time) {
                Ok(text) => r matches Ok(found) && found@ == text,
                Err(error) => r matches Err(e) && e == error,
            },
            r matches Ok(found) ==> line_feeds(found@) == window_count(self@, start_time, end_time)
                + 1,
    {
        match self.fetch_historical_data(start_time, end_time) {
            Ok(samples) => {
                assert(sample_views(samples@).len() == samples.len());
                export_csv(&samples)
            },
            Err(error) => Err(error),
        }
    }
}

} // verus!
