//! Readers of `ping` output: the round-trip time of a single echo, and the
//! summary of a run of several.

use vstd::prelude::*;
use crate::diagnostics::{
    command_line,
    failure_message,
    failure_record,
    failure_text,
    failure_view,
    CommandLine,
    CommandLineView,
    CommandOutcome,
    Dialect,
    DiagnosticsView,
    NetworkDiagnosticsResult,
    EXCERPT_BYTES,
};
use crate::numbers::{
    decimal_text,
    or_zero,
    parse_thousandths,
    push_decimal,
    read_thousandths,
    Milli,
};
use crate::text::{
    append,
    append_str,
    chars_of,
    find,
    find_from,
    byte_len,
    byte_prefix,
    head_within,
    last_word,
    last_word_of,
    lemma_find_from,
    optional_chars,
    slice_of,
    split_at_char,
    split_on,
    string_of,
    strip_trailing,
    without_trailing,
    trim,
    trimmed,
    views,
};

verus! {

/// What stands in `s` between the end of the first `marker` and the first
/// `unit` found from that marker's start on. `None` where either is missing
/// or the unit begins inside the marker.
pub open spec fn span_after(s: Seq<char>, marker: Seq<char>, unit: Seq<char>) -> Option<
    Seq<char>,
> {
    match find_from(s, marker, 0) {
        Some(p) => match find_from(s, unit, p) {
            Some(e) => if p + marker.len() <= e {
                Some(s.subrange(p + marker.len(), e))
            } else {
                None
            },
            None => None,
        },
        None => None,
    }
}

fn span_between(v: &Vec<char>, marker: &str, unit: &str) -> (r: Option<Vec<char>>)
    ensures
        optional_chars(r) == span_after(v@, marker@, unit@),
{
    let m = chars_of(marker);
    let u = chars_of(unit);
    match find(v, &m, 0) {
        None => None,
        Some(p) => match find(v, &u, p) {
            None => None,
            Some(e) => {
                proof {
                    lemma_find_from(v@, m@, 0);
                    lemma_find_from(v@, u@, p as int);
                }
                if m.len() <= e - p {
                    Some(slice_of(v, p + m.len(), e))
                } else {
                    None
                }
            },
        },
    }
}

/// The text that stands for a single echo whose time could not be found:
/// the output in `(output: ` and `)`. Of an output of more than
/// `EXCERPT_BYTES` bytes only the longest head within that many bytes is
/// quoted, and three dots follow it.
pub open spec fn ping_fallback(s: Seq<char>) -> Seq<char> {
    if byte_len(s) > EXCERPT_BYTES {
        "(output: "@ + byte_prefix(s, EXCERPT_BYTES as nat) + "...)"@
    } else {
        "(output: "@ + s + ")"@
    }
}

/// A span, where it holds at least one character.
pub open spec fn filled(o: Option<Seq<char>>) -> Option<Seq<char>> {
    match o {
        Some(t) => if t.len() > 0 {
            Some(t)
        } else {
            None
        },
        None => None,
    }
}

/// The round-trip time that the output of a single echo reports, as written
/// there: what stands between `时间=` and `ms`, else between `time=` and
/// ` ms`, else the fallback text.
pub open spec fn ping_latency_text(s: Seq<char>) -> Seq<char> {
    match filled(span_after(s, "时间="@, "ms"@)) {
        Some(t) => t,
        None => match filled(span_after(s, "time="@, " ms"@)) {
            Some(t) => t,
            None => ping_fallback(s),
        },
    }
}

fn ping_fallback_text(v: &Vec<char>) -> (r: String)
    ensures
        r@ == ping_fallback(v@),
{
    let mut out = chars_of("(output: ");
    let (head, longer) = head_within(v, EXCERPT_BYTES);
    if longer {
        append(&mut out, &head);
        let tail = chars_of("...)");
        append(&mut out, &tail);
    } else {
        append(&mut out, v);
        let tail = chars_of(")");
        append(&mut out, &tail);
    }
    string_of(&out)
}

/// Extracts the round-trip time from the output of a single echo. Never
/// fails: output without a readable time gives a text that quotes it.
pub fn parse_ping_latency(output: &str) -> (r: String)
    ensures
        r@ == ping_latency_text(output@),
{
    let v = chars_of(output);
    if let Some(t) = span_between(&v, "时间=", "ms") {
        if t.len() > 0 {
            return string_of(&t);
        }
    }
    if let Some(t) = span_between(&v, "time=", " ms") {
        if t.len() > 0 {
            return string_of(&t);
        }
    }
    ping_fallback_text(&v)
}

/// A span read as a decimal quantity, white space around it set aside.
pub open spec fn span_quantity(o: Option<Seq<char>>) -> Option<Milli> {
    match o {
        Some(t) => parse_thousandths(trim(t)),
        None => None,
    }
}

/// The average round-trip time of a Windows summary: the quantity between
/// `平均 = ` and `ms`.
pub open spec fn windows_average(s: Seq<char>) -> Option<Milli> {
    span_quantity(span_after(s, "平均 = "@, "ms"@))
}

/// The loss figure of a Windows summary: the quantity between the first
/// opening parenthesis and the percent sign that follows it.
pub open spec fn windows_loss(s: Seq<char>) -> Option<Milli> {
    span_quantity(span_after(s, "("@, "%"@))
}

/// The average round-trip time of a POSIX summary: the second of the figures
/// that slashes part between `rtt min/avg/max/mdev = ` and ` ms`.
pub open spec fn posix_average(s: Seq<char>) -> Option<Milli> {
    match span_after(s, "rtt min/avg/max/mdev = "@, " ms"@) {
        Some(t) => {
            let figures = split_on(t, '/');
            if figures.len() >= 2 {
                parse_thousandths(trim(figures[1]))
            } else {
                None
            }
        },
        None => None,
    }
}

/// The loss figure of a POSIX summary: the quantity written by the last
/// word before `packet loss`, percent signs at its end set aside.
pub open spec fn posix_loss(s: Seq<char>) -> Option<Milli> {
    match find_from(s, "packet loss"@, 0) {
        Some(p) => parse_thousandths(strip_trailing(last_word(s.take(p)), '%')),
        None => None,
    }
}

/// The record of a run whose summary gave an average.
pub open spec fn ping_success(latency: Milli, loss: Option<Milli>) -> DiagnosticsView {
    DiagnosticsView {
        success: true,
        message: "Ping成功"@,
        latency_ms: Some(latency),
        packet_loss_percent: Some(or_zero(loss)),
        hops: None,
    }
}

/// What the summary of a run of echoes reports. The Windows patterns are
/// tried under the Windows dialect only, the POSIX patterns under both; a
/// missing loss figure counts as zero. Output without an average is a failure
/// that quotes its beginning.
pub open spec fn ping_summary(s: Seq<char>, dialect: Dialect) -> Result<
    DiagnosticsView,
    Seq<char>,
> {
    if dialect == Dialect::Windows && windows_average(s) is Some {
        Ok(ping_success(windows_average(s).unwrap(), windows_loss(s)))
    } else if posix_average(s) is Some {
        Ok(ping_success(posix_average(s).unwrap(), posix_loss(s)))
    } else {
        Err(failure_text("无法解析ping结果: "@, s))
    }
}

fn read_span(o: Option<Vec<char>>) -> (r: Option<Milli>)
    ensures
        r == span_quantity(optional_chars(o)),
{
    match o {
        Some(t) => read_thousandths(&trimmed(&t)),
        None => None,
    }
}

fn extract_windows_ping_avg_latency(v: &Vec<char>) -> (r: Option<Milli>)
    ensures
        r == windows_average(v@),
{
    read_span(span_between(v, "平均 = ", "ms"))
}

fn extract_windows_ping_packet_loss(v: &Vec<char>) -> (r: Option<Milli>)
    ensures
        r == windows_loss(v@),
{
    read_span(span_between(v, "(", "%"))
}

fn extract_unix_ping_avg_latency(v: &Vec<char>) -> (r: Option<Milli>)
    ensures
        r == posix_average(v@),
{
    match span_between(v, "rtt min/avg/max/mdev = ", " ms") {
        Some(t) => {
            let figures = split_at_char(&t, '/');
            if figures.len() >= 2 {
                assert(views(figures@)[1] == figures@[1]@);
                read_thousandths(&trimmed(&figures[1]))
            } else {
                None
            }
        },
        None => None,
    }
}

fn extract_unix_ping_packet_loss(v: &Vec<char>) -> (r: Option<Milli>)
    ensures
        r == posix_loss(v@),
{
    let marker = chars_of("packet loss");
    match find(v, &marker, 0) {
        Some(p) => {
            proof {
                lemma_find_from(v@, marker@, 0);
            }
            read_thousandths(&without_trailing(&last_word_of(v, p), '%'))
        },
        None => None,
    }
}

fn ping_success_record(latency: Milli, loss: Option<Milli>) -> (r: NetworkDiagnosticsResult)
    ensures
        r@ == ping_success(latency, loss),
{
    let loss_or_zero = match loss {
        Some(m) => m,
        None => Milli(0),
    };
    NetworkDiagnosticsResult {
        success: true,
        message: "Ping成功".to_owned(),
        latency_ms: Some(latency),
        packet_loss_percent: Some(loss_or_zero),
        hops: None,
    }
}

/// Reads the summary of a run of echoes.
pub fn parse_ping_result(output: &str, dialect: Dialect) -> (r: Result<
    NetworkDiagnosticsResult,
    String,
>)
    ensures
        match ping_summary(output@, dialect) {
            Ok(view) => r matches Ok(found) && found@ == view,
            Err(text) => r matches Err(message) && message@ == text,
        },
{
    let v = chars_of(output);
    if dialect == Dialect::Windows {
        if let Some(average) = extract_windows_ping_avg_latency(&v) {
            let loss = extract_windows_ping_packet_loss(&v);
            return Ok(ping_success_record(average, loss));
        }
    }
    if let Some(average) = extract_unix_ping_avg_latency(&v) {
        let loss = extract_unix_ping_packet_loss(&v);
        return Ok(ping_success_record(average, loss));
    }
    Err(failure_message("无法解析ping结果: ", &v))
}

/// How many echoes a diagnostic sends where the caller names no count.
pub const DEFAULT_PING_COUNT: u32 = 4;

/// The arguments of a `ping` run of `count` echoes to `host`, each awaited
/// for five seconds.
pub open spec fn ping_arguments(host: Seq<char>, count: u32, dialect: Dialect) -> Seq<Seq<char>> {
    match dialect {
        Dialect::Windows => seq!["-n"@, decimal_text(count as nat), "-w"@, "5000"@, host],
        Dialect::Posix => seq!["-c"@, decimal_text(count as nat), "-W"@, "5"@, host],
    }
}

/// The command line of a `ping` run of `count` echoes to `host`.
pub fn ping_command(host: &str, count: u32, dialect: Dialect) -> (r: CommandLine)
    ensures
        r@ == (CommandLineView {
            program: "ping"@,
            arguments: ping_arguments(host@, count, dialect),
        }),
{
    let mut number: Vec<char> = Vec::new();
    push_decimal(&mut number, count as u64);
    assert(number@ =~= decimal_text(count as nat));
    let mut arguments: Vec<Vec<char>> = Vec::new();
    match dialect {
        Dialect::Windows => {
            arguments.push(chars_of("-n"));
            arguments.push(number);
            arguments.push(chars_of("-w"));
            arguments.push(chars_of("5000"));
        },
        Dialect::Posix => {
            arguments.push(chars_of("-c"));
            arguments.push(number);
            arguments.push(chars_of("-W"));
            arguments.push(chars_of("5"));
        },
    }
    arguments.push(chars_of(host));
    assert(views(arguments@) =~= ping_arguments(host@, count, dialect));
    command_line("ping", &arguments)
}

/// The command line of the diagnostic run: as many echoes as `count` says,
/// `DEFAULT_PING_COUNT` where it says none.
pub fn diagnostic_ping_command(host: &str, count: Option<u32>, dialect: Dialect) -> (r: CommandLine)
    ensures
        r@ == (CommandLineView {
            program: "ping"@,
            arguments: ping_arguments(
                host@,
                match count {
                    Some(n) => n,
                    None => DEFAULT_PING_COUNT,
                },
                dialect,
            ),
        }),
{
    let echoes = match count {
        Some(n) => n,
        None => DEFAULT_PING_COUNT,
    };
    ping_command(host, echoes, dialect)
}

/// What a single echo to `host` reports: the round-trip time where the
/// command succeeded, else what it printed, else why it did not start.
pub open spec fn ping_report(host: Seq<char>, outcome: CommandOutcome) -> Result<
    Seq<char>,
    Seq<char>,
> {
    match outcome {
        CommandOutcome::Finished { success, stdout, stderr } => if success {
            Ok("Ping "@ + host + " 成功: "@ + ping_latency_text(stdout@))
        } else {
            Err("Ping "@ + host + " 失败: stdout="@ + stdout@ + ", stderr="@ + stderr@)
        },
        CommandOutcome::NotStarted { reason } => Err("无法执行ping命令: "@ + reason@),
    }
}

/// Tells the outcome of a single echo to `host`.
pub fn ping_host(host: &str, outcome: &CommandOutcome) -> (r: Result<String, String>)
    ensures
        match ping_report(host@, *outcome) {
            Ok(text) => r matches Ok(found) && found@ == text,
            Err(text) => r matches Err(message) && message@ == text,
        },
{
    match outcome {
        CommandOutcome::Finished { success, stdout, stderr } => {
            let mut out = chars_of("Ping ");
            append_str(&mut out, host);
            if *success {
                let latency = parse_ping_latency(stdout.as_str());
                append_str(&mut out, " 成功: ");
                append_str(&mut out, latency.as_str());
                assert(out@ =~= "Ping "@ + host@ + " 成功: "@ + latency@);
                Ok(string_of(&out))
            } else {
                append_str(&mut out, " 失败: stdout=");
                append_str(&mut out, stdout.as_str());
                append_str(&mut out, ", stderr=");
                append_str(&mut out, stderr.as_str());
                assert(out@ =~= "Ping "@ + host@ + " 失败: stdout="@ + stdout@ + ", stderr="@
                    + stderr@);
                Err(string_of(&out))
            }
        },
        CommandOutcome::NotStarted { reason } => {
            let mut out = chars_of("无法执行ping命令: ");
            append_str(&mut out, reason.as_str());
            Err(string_of(&out))
        },
    }
}

/// What a run of several echoes reports: the summary where the command
/// succeeded; else a record without success that quotes what the command
/// wrote to its error stream, or why it did not start.
pub open spec fn ping_diagnosis(outcome: CommandOutcome, dialect: Dialect) -> Result<
    DiagnosticsView,
    Seq<char>,
> {
    match outcome {
        CommandOutcome::Finished { success, stdout, stderr } => if success {
            ping_summary(stdout@, dialect)
        } else {
            Ok(failure_view("Ping失败: "@, stderr@))
        },
        CommandOutcome::NotStarted { reason } => Ok(failure_view("无法执行ping命令: "@, reason@)),
    }
}

/// Tells the outcome of a run of several echoes.
pub fn diagnose_network_ping(outcome: &CommandOutcome, dialect: Dialect) -> (r: Result<
    NetworkDiagnosticsResult,
    String,
>)
    ensures
        match ping_diagnosis(*outcome, dialect) {
            Ok(view) => r matches Ok(found) && found@ == view,
            Err(text) => r matches Err(message) && message@ == text,
        },
{
    match outcome {
        CommandOutcome::Finished { success, stdout, stderr } => {
            if *success {
                parse_ping_result(stdout.as_str(), dialect)
            } else {
                Ok(failure_record("Ping失败: ", stderr))
            }
        },
        CommandOutcome::NotStarted { reason } => Ok(failure_record("无法执行ping命令: ", reason)),
    }
}

} // verus!
