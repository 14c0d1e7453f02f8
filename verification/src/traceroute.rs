//! Reader of route-trace output: one hop for each line that begins with a
//! hop number.

use vstd::prelude::*;
use crate::diagnostics::{
    command_line,
    failure_message,
    failure_record,
    failure_text,
    failure_view,
    hop_views,
    CommandLine,
    CommandLineView,
    CommandOutcome,
    Dialect,
    DiagnosticsView,
    HopView,
    NetworkDiagnosticsResult,
    NetworkHop,
};
use crate::numbers::{parse_thousandths, parse_unsigned, read_thousandths, read_unsigned, Milli};
use crate::text::{
    chars_of,
    optional_text,
    ends_with,
    ends_with_char,
    has_suffix,
    lines_of,
    remove_all,
    split_lines,
    split_words,
    starts_with_char,
    string_of,
    strip_leading,
    strip_trailing,
    trim,
    trimmed,
    views,
    without,
    without_leading,
    without_trailing,
    words,
};

verus! {

/// The hop number that opens a line: its first word read as a number, where
/// the line has a second word too.
pub open spec fn hop_number(line: Seq<char>) -> Option<u32> {
    let parts = words(line);
    if parts.len() >= 2 {
        number_of(parts[0])
    } else {
        None
    }
}

/// A hop number as written.
pub open spec fn number_of(word: Seq<char>) -> Option<u32> {
    match parse_unsigned(word, u32::MAX as u64) {
        Some(n) => Some(n as u32),
        None => None,
    }
}

fn hop_number_of(parts: &Vec<Vec<char>>) -> (r: Option<u32>)
    ensures
        r == (if parts.len() >= 2 {
            number_of(parts@[0]@)
        } else {
            None
        }),
{
    if parts.len() >= 2 {
        match read_unsigned(&parts[0], u32::MAX as u64) {
            Some(n) => Some(n as u32),
            None => None,
        }
    } else {
        None
    }
}

/// The hop number of a line of Windows `tracert` output.
pub fn extract_windows_tracert_hop_number(line: &str) -> (r: Option<u32>)
    ensures
        r == hop_number(line@),
{
    let parts = split_words(&chars_of(line));
    proof {
        if parts.len() >= 1 {
            assert(views(parts@)[0] == parts@[0]@);
        }
    }
    hop_number_of(&parts)
}

/// The hop number of a line of POSIX `traceroute` output.
pub fn extract_unix_traceroute_hop_number(line: &str) -> (r: Option<u32>)
    ensures
        r == hop_number(line@),
{
    let parts = split_words(&chars_of(line));
    proof {
        if parts.len() >= 1 {
            assert(views(parts@)[0] == parts@[0]@);
        }
    }
    hop_number_of(&parts)
}

/// The first of `parts` that ends in `ms`.
pub open spec fn latency_word(parts: Seq<Seq<char>>) -> Option<Seq<char>>
    decreases parts.len(),
{
    if parts.len() == 0 {
        None
    } else if has_suffix(parts[0], "ms"@) {
        Some(parts[0])
    } else {
        latency_word(parts.drop_first())
    }
}

/// The latency of a hop: its first word that ends in `ms`, read as a quantity
/// once every `ms` is taken out of it.
pub open spec fn hop_latency(parts: Seq<Seq<char>>) -> Option<Milli> {
    match latency_word(parts) {
        Some(w) => parse_thousandths(without(w, "ms"@)),
        None => None,
    }
}

/// The host name of a hop: its third word, where a fourth follows. Under the
/// Windows dialect a word that opens a bracket is no name; under the POSIX
/// dialect the name stands in parentheses, which are taken off.
pub open spec fn hop_hostname(parts: Seq<Seq<char>>, dialect: Dialect) -> Option<Seq<char>> {
    if parts.len() < 4 {
        None
    } else {
        let w = parts[2];
        match dialect {
            Dialect::Windows => if w.len() > 0 && w[0] == '[' {
                None
            } else {
                Some(w)
            },
            Dialect::Posix => if w.len() > 0 && w[0] == '(' && w.last() == ')' {
                Some(strip_trailing(strip_leading(w, '('), ')'))
            } else {
                None
            },
        }
    }
}

fn read_hop_latency(parts: &Vec<Vec<char>>) -> (r: Option<Milli>)
    ensures
        r == hop_latency(views(parts@)),
{
    let unit = chars_of("ms");
    let mut i: usize = 0;
    assert(views(parts@).skip(0) =~= views(parts@));
    while i < parts.len()
        invariant
            i <= parts.len(),
            unit@ == "ms"@,
            latency_word(views(parts@)) == latency_word(views(parts@).skip(i as int)),
        decreases parts.len() - i,
    {
        let ghost rest = views(parts@).skip(i as int);
        assert(rest[0] == parts@[i as int]@);
        if ends_with(&parts[i], &unit) {
            return read_thousandths(&remove_all(&parts[i], &unit));
        }
        assert(rest.drop_first() =~= views(parts@).skip(i + 1));
        i += 1;
    }
    None
}

fn read_hop_hostname(parts: &Vec<Vec<char>>, dialect: Dialect) -> (r: Option<String>)
    ensures
        optional_text(r) == hop_hostname(views(parts@), dialect),
{
    if parts.len() < 4 {
        return None;
    }
    let w = &parts[2];
    assert(views(parts@)[2] == w@);
    match dialect {
        Dialect::Windows => if starts_with_char(w, '[') {
            None
        } else {
            Some(string_of(w))
        },
        Dialect::Posix => if starts_with_char(w, '(') && ends_with_char(w, ')') {
            Some(string_of(&without_trailing(&without_leading(w, '('), ')')))
        } else {
            None
        },
    }
}

/// The address, host name and latency that a line of a trace gives: its
/// second word, and what its words say of name and latency. A line of fewer
/// than three words gives the address `unknown` and nothing else.
pub open spec fn hop_info(line: Seq<char>, dialect: Dialect) -> (
    Seq<char>,
    Option<Seq<char>>,
    Option<Milli>,
) {
    let parts = words(line);
    if parts.len() >= 3 {
        (parts[1], hop_hostname(parts, dialect), hop_latency(parts))
    } else {
        ("unknown"@, None, None)
    }
}

/// The view of an address, a host name and a latency.
pub open spec fn info_view(info: (String, Option<String>, Option<Milli>)) -> (
    Seq<char>,
    Option<Seq<char>>,
    Option<Milli>,
) {
    (info.0@, optional_text(info.1), info.2)
}

fn hop_info_of(parts: &Vec<Vec<char>>, dialect: Dialect) -> (r: (
    String,
    Option<String>,
    Option<Milli>,
))
    ensures
        info_view(r) == (if parts.len() >= 3 {
            (
                views(parts@)[1],
                hop_hostname(views(parts@), dialect),
                hop_latency(views(parts@)),
            )
        } else {
            ("unknown"@, None, None)
        }),
{
    if parts.len() >= 3 {
        assert(views(parts@)[1] == parts@[1]@);
        (string_of(&parts[1]), read_hop_hostname(parts, dialect), read_hop_latency(parts))
    } else {
        ("unknown".to_owned(), None, None)
    }
}

/// Address, host name and latency of a line of Windows `tracert` output.
pub fn extract_windows_tracert_hop_info(line: &str) -> (r: (String, Option<String>, Option<Milli>))
    ensures
        info_view(r) == hop_info(line@, Dialect::Windows),
{
    hop_info_of(&split_words(&chars_of(line)), Dialect::Windows)
}

/// Address, host name and latency of a line of POSIX `traceroute` output.
pub fn extract_unix_traceroute_hop_info(line: &str) -> (r: (String, Option<String>, Option<Milli>))
    ensures
        info_view(r) == hop_info(line@, Dialect::Posix),
{
    hop_info_of(&split_words(&chars_of(line)), Dialect::Posix)
}

/// The hop that a line reports, white space around the line set aside:
/// `None` for a line that is blank or does not begin with a hop number.
pub open spec fn hop_of(line: Seq<char>, dialect: Dialect) -> Option<HopView> {
    match hop_number(trim(line)) {
        Some(n) => {
            let info = hop_info(trim(line), dialect);
            Some(
                HopView {
                    hop_number: n,
                    address: info.0,
                    hostname: info.1,
                    latency_ms: info.2,
                    packet_loss_percent: None,
                },
            )
        },
        None => None,
    }
}

/// The view of an optional hop.
pub open spec fn hop_view(o: Option<NetworkHop>) -> Option<HopView> {
    match o {
        Some(hop) => Some(hop@),
        None => None,
    }
}

/// Reads one line of route-trace output.
pub fn parse_traceroute_hop(line: &str, dialect: Dialect) -> (r: Option<NetworkHop>)
    ensures
        hop_view(r) == hop_of(line@, dialect),
{
    hop_of_line(&chars_of(line), dialect)
}

fn hop_of_line(line: &Vec<char>, dialect: Dialect) -> (r: Option<NetworkHop>)
    ensures
        hop_view(r) == hop_of(line@, dialect),
{
    let parts = split_words(&trimmed(line));
    proof {
        if parts.len() >= 1 {
            assert(views(parts@)[0] == parts@[0]@);
        }
    }
    match hop_number_of(&parts) {
        Some(n) => {
            let (address, hostname, latency_ms) = hop_info_of(&parts, dialect);
            Some(
                NetworkHop { hop_number: n, address, hostname, latency_ms, packet_loss_percent: None },
            )
        },
        None => None,
    }
}

/// The hops that the lines of a trace report, in order.
pub open spec fn trace_hops(lines: Seq<Seq<char>>, dialect: Dialect) -> Seq<HopView> {
    lines.filter_map(|line: Seq<char>| hop_of(line, dialect))
}

/// What a route trace reports: its hops in the order of their lines, lines
/// that report none passed over. A trace without any hop is a failure that
/// quotes its beginning.
pub open spec fn traceroute_summary(s: Seq<char>, dialect: Dialect) -> Result<
    DiagnosticsView,
    Seq<char>,
> {
    let hops = trace_hops(lines_of(s), dialect);
    if hops.len() == 0 {
        Err(failure_text("无法解析traceroute结果: "@, s))
    } else {
        Ok(
            DiagnosticsView {
                success: true,
                message: "Traceroute成功"@,
                latency_ms: None,
                packet_loss_percent: None,
                hops: Some(hops),
            },
        )
    }
}

/// Reads the output of a route trace.
pub fn parse_traceroute_result(output: &str, dialect: Dialect) -> (r: Result<
    NetworkDiagnosticsResult,
    String,
>)
    ensures
        match traceroute_summary(output@, dialect) {
            Ok(view) => r matches Ok(found) && found@ == view,
            Err(text) => r matches Err(message) && message@ == text,
        },
{
    let v = chars_of(output);
    let lines = split_lines(&v);
    let mut hops: Vec<NetworkHop> = Vec::new();
    let ghost f = |line: Seq<char>| hop_of(line, dialect);
    let mut i: usize = 0;
    assert(hop_views(hops@) =~= views(lines@).take(0).filter_map(f));
    while i < lines.len()
        invariant
            i <= lines.len(),
            f == |line: Seq<char>| hop_of(line, dialect),
            hop_views(hops@) == views(lines@).take(i as int).filter_map(f),
        decreases lines.len() - i,
    {
        proof {
            views(lines@).lemma_filter_map_take_succ(f, i as int);
            assert(views(lines@)[i as int] == lines@[i as int]@);
        }
        let ghost before = hops@;
        if let Some(hop) = hop_of_line(&lines[i], dialect) {
            hops.push(hop);
            assert(hop_views(hops@) =~= hop_views(before) + seq![hop@]);
        }
        i += 1;
    }
    assert(views(lines@).take(i as int) =~= views(lines@));
    if hops.len() == 0 {
        return Err(failure_message("无法解析traceroute结果: ", &v));
    }
    Ok(
        NetworkDiagnosticsResult {
            success: true,
            message: "Traceroute成功".to_owned(),
            latency_ms: None,
            packet_loss_percent: None,
            hops: Some(hops),
        },
    )
}

/// The command line of a route trace to `host`: `tracert` under the
/// Windows dialect, `traceroute` under the POSIX dialect.
pub fn traceroute_command(host: &str, dialect: Dialect) -> (r: CommandLine)
    ensures
        r@ == (CommandLineView {
            program: match dialect {
                Dialect::Windows => "tracert"@,
                Dialect::Posix => "traceroute"@,
            },
            arguments: seq![host@],
        }),
{
    let mut arguments: Vec<Vec<char>> = Vec::new();
    arguments.push(chars_of(host));
    assert(views(arguments@) =~= seq![host@]);
    match dialect {
        Dialect::Windows => command_line("tracert", &arguments),
        Dialect::Posix => command_line("traceroute", &arguments),
    }
}

/// What a route trace reports: its hops where the command succeeded or
/// printed anything; else a record without success that quotes what the
/// command wrote to its error stream, or why it did not start.
pub open spec fn traceroute_diagnosis(outcome: CommandOutcome, dialect: Dialect) -> Result<
    DiagnosticsView,
    Seq<char>,
> {
    match outcome {
        CommandOutcome::Finished { success, stdout, stderr } => if success || stdout@.len() > 0 {
            traceroute_summary(stdout@, dialect)
        } else {
            Ok(failure_view("Traceroute失败: "@, stderr@))
        },
        CommandOutcome::NotStarted { reason } => Ok(
            failure_view("无法执行traceroute命令: "@, reason@),
        ),
    }
}

/// Tells the outcome of a route trace.
pub fn diagnose_network_traceroute(outcome: &CommandOutcome, dialect: Dialect) -> (r: Result<
    NetworkDiagnosticsResult,
    String,
>)
    ensures
        match traceroute_diagnosis(*outcome, dialect) {
            Ok(view) => r matches Ok(found) && found@ == view,
            Err(text) => r matches Err(message) && message@ == text,
        },
{
    match outcome {
        CommandOutcome::Finished { success, stdout, stderr } => {
            if *success || !stdout.as_str().is_empty() {
                parse_traceroute_result(stdout.as_str(), dialect)
            } else {
                Ok(failure_record("Traceroute失败: ", stderr))
            }
        },
        CommandOutcome::NotStarted { reason } => Ok(
            failure_record("无法执行traceroute命令: ", reason),
        ),
    }
}

} // verus!
