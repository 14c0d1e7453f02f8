use host_telemetry::diagnostics::{CommandOutcome, Dialect};
use host_telemetry::numbers::Milli;
use host_telemetry::ping::{
    diagnose_network_ping, diagnostic_ping_command, parse_ping_latency, parse_ping_result,
    ping_command, ping_host,
};

#[test]
fn latency_of_posix_echo() {
    let output = "64 bytes from 8.8.8.8: icmp_seq=1 ttl=117 time=15.2 ms";
    assert_eq!(parse_ping_latency(output), "15.2");
}

#[test]
fn latency_of_windows_echo() {
    let output = "来自 8.8.8.8 的回复: 字节=32 时间=15ms TTL=117";
    assert_eq!(parse_ping_latency(output), "15");
}

#[test]
fn latency_prefers_windows_marker() {
    assert_eq!(parse_ping_latency("time=3 ms 时间=7ms"), "7");
}

#[test]
fn latency_with_nothing_between_falls_through() {
    assert_eq!(parse_ping_latency("时间=ms time=4.5 ms"), "4.5");
}

#[test]
fn latency_fallback_quotes_short_output() {
    assert_eq!(parse_ping_latency("no reply"), "(output: no reply)");
    assert_eq!(parse_ping_latency(""), "(output: )");
}

#[test]
fn latency_fallback_truncates_long_output() {
    let output = "x".repeat(150);
    let expected = format!("(output: {}...)", "x".repeat(100));
    assert_eq!(parse_ping_latency(&output), expected);
    let exact = "y".repeat(100);
    assert_eq!(parse_ping_latency(&exact), format!("(output: {})", exact));
}

#[test]
fn latency_fallback_cuts_at_a_hundred_bytes_between_characters() {
    let output = "é".repeat(60);
    assert_eq!(output.len(), 120);
    let expected = format!("(output: {}...)", "é".repeat(50));
    assert_eq!(parse_ping_latency(&output), expected);

    let exact = "é".repeat(50);
    assert_eq!(parse_ping_latency(&exact), format!("(output: {})", exact));

    let odd = format!("a{}", "é".repeat(60));
    let expected = format!("(output: a{}...)", "é".repeat(49));
    assert_eq!(parse_ping_latency(&odd), expected);

    let wide = "𝄞".repeat(26);
    let expected = format!("(output: {}...)", "𝄞".repeat(25));
    assert_eq!(parse_ping_latency(&wide), expected);

    let three = "—".repeat(34);
    let expected = format!("(output: {}...)", "—".repeat(33));
    assert_eq!(parse_ping_latency(&three), expected);
}

#[test]
fn posix_summary_average_is_second_figure() {
    let output = "3 packets transmitted, 3 received, 0% packet loss, time 2003ms\n\
                  rtt min/avg/max/mdev = 10.123/15.456/20.789/5.123 ms\n";
    let result = parse_ping_result(output, Dialect::Posix).unwrap();
    assert!(result.success);
    assert_eq!(result.message, "Ping成功");
    assert_eq!(result.latency_ms, Some(Milli(15_456)));
    assert_eq!(result.packet_loss_percent, Some(Milli(0)));
    assert!(result.hops.is_none());
}

#[test]
fn posix_summary_reads_the_loss() {
    let output = "4 packets transmitted, 3 received, 25% packet loss, time 3004ms\n\
                  rtt min/avg/max/mdev = 10.123/15.456/20.789/5.123 ms";
    let result = parse_ping_result(output, Dialect::Posix).unwrap();
    assert_eq!(result.latency_ms, Some(Milli(15_456)));
    assert_eq!(result.packet_loss_percent, Some(Milli(25_000)));
}

#[test]
fn posix_loss_is_the_last_word_before_the_marker() {
    let loss = |head: &str| -> Option<Milli> {
        let output = format!("{}packet loss\nrtt min/avg/max/mdev = 1/2/3/4 ms", head);
        parse_ping_result(&output, Dialect::Posix).unwrap().packet_loss_percent
    };
    assert_eq!(loss("5 received, 100% "), Some(Milli(100_000)));
    assert_eq!(loss("5 received, 33.3% "), Some(Milli(33_300)));
    assert_eq!(loss("5 received, +1 errors, 0.5%  \t"), Some(Milli(500)));
    assert_eq!(loss("25%"), Some(Milli(25_000)));
    assert_eq!(loss("25% "), Some(Milli(25_000)));
    assert_eq!(loss("first line\n25% "), Some(Milli(25_000)));
    assert_eq!(loss("loss:25%% "), Some(Milli(0)));
    assert_eq!(loss("some % "), Some(Milli(0)));
    assert_eq!(loss(""), Some(Milli(0)));
    assert_eq!(loss("   "), Some(Milli(0)));
    let no_marker = parse_ping_result("rtt min/avg/max/mdev = 1/2/3/4 ms", Dialect::Posix);
    assert_eq!(no_marker.unwrap().packet_loss_percent, Some(Milli(0)));
}

#[test]
fn windows_summary() {
    let output = "数据包: 已发送 = 4，已接收 = 3，丢失 = 1 (25% 丢失)，\n\
                  最短 = 10ms，最长 = 20ms，平均 = 15ms\n";
    let result = parse_ping_result(output, Dialect::Windows).unwrap();
    assert_eq!(result.latency_ms, Some(Milli(15_000)));
    assert_eq!(result.packet_loss_percent, Some(Milli(25_000)));
}

#[test]
fn windows_patterns_are_not_tried_under_posix() {
    let output = "(25% 丢失) 平均 = 15ms";
    let error = parse_ping_result(output, Dialect::Posix).unwrap_err();
    assert_eq!(error, format!("无法解析ping结果: {}", output));
}

#[test]
fn posix_patterns_are_tried_under_windows() {
    let output = "rtt min/avg/max/mdev = 1.5/2.25/3/4 ms";
    let result = parse_ping_result(output, Dialect::Windows).unwrap();
    assert_eq!(result.latency_ms, Some(Milli(2_250)));
}

#[test]
fn summary_failure_quotes_first_hundred_bytes() {
    let output = "z".repeat(130);
    let error = parse_ping_result(&output, Dialect::Posix).unwrap_err();
    assert_eq!(error, format!("无法解析ping结果: {}", "z".repeat(100)));
    let output = "é".repeat(60);
    let error = parse_ping_result(&output, Dialect::Posix).unwrap_err();
    assert_eq!(error, format!("无法解析ping结果: {}", "é".repeat(50)));
    let output = format!("{}é", "z".repeat(99));
    let error = parse_ping_result(&output, Dialect::Posix).unwrap_err();
    assert_eq!(error, format!("无法解析ping结果: {}", "z".repeat(99)));
}

#[test]
fn summary_with_single_figure_fails() {
    let output = "rtt min/avg/max/mdev = 12.5 ms";
    assert!(parse_ping_result(output, Dialect::Posix).is_err());
}

fn finished(success: bool, stdout: &str, stderr: &str) -> CommandOutcome {
    CommandOutcome::Finished {
        success,
        stdout: stdout.to_string(),
        stderr: stderr.to_string(),
    }
}

#[test]
fn ping_command_by_dialect() {
    let windows = ping_command("8.8.8.8", 1, Dialect::Windows);
    assert_eq!(windows.program, "ping");
    assert_eq!(windows.arguments, vec!["-n", "1", "-w", "5000", "8.8.8.8"]);
    let posix = ping_command("host", 12, Dialect::Posix);
    assert_eq!(posix.program, "ping");
    assert_eq!(posix.arguments, vec!["-c", "12", "-W", "5", "host"]);
    let default = diagnostic_ping_command("host", None, Dialect::Posix);
    assert_eq!(default.arguments, vec!["-c", "4", "-W", "5", "host"]);
    let chosen = diagnostic_ping_command("host", Some(0), Dialect::Windows);
    assert_eq!(chosen.arguments, vec!["-n", "0", "-w", "5000", "host"]);
}

#[test]
fn single_echo_outcome() {
    let ok = ping_host("h", &finished(true, "reply time=1.5 ms", ""));
    assert_eq!(ok, Ok("Ping h 成功: 1.5".to_string()));
    let unreadable = ping_host("h", &finished(true, "??", ""));
    assert_eq!(unreadable, Ok("Ping h 成功: (output: ??)".to_string()));
    let failed = ping_host("h", &finished(false, "out", "err"));
    assert_eq!(failed, Err("Ping h 失败: stdout=out, stderr=err".to_string()));
    let missing = ping_host("h", &CommandOutcome::NotStarted { reason: "no ping".to_string() });
    assert_eq!(missing, Err("无法执行ping命令: no ping".to_string()));
}

#[test]
fn several_echoes_outcome() {
    let ok = diagnose_network_ping(
        &finished(true, "rtt min/avg/max/mdev = 1/2/3/4 ms", ""),
        Dialect::Posix,
    )
    .unwrap();
    assert!(ok.success);
    assert_eq!(ok.latency_ms, Some(Milli(2_000)));
    let unreadable = diagnose_network_ping(&finished(true, "nothing", ""), Dialect::Posix);
    assert_eq!(unreadable.unwrap_err(), "无法解析ping结果: nothing");
    let failed = diagnose_network_ping(
        &finished(false, "rtt min/avg/max/mdev = 1/2/3/4 ms", "unknown host"),
        Dialect::Posix,
    )
    .unwrap();
    assert!(!failed.success);
    assert_eq!(failed.message, "Ping失败: unknown host");
    assert_eq!(failed.latency_ms, None);
    assert_eq!(failed.packet_loss_percent, None);
    assert!(failed.hops.is_none());
    let missing = diagnose_network_ping(
        &CommandOutcome::NotStarted { reason: "denied".to_string() },
        Dialect::Windows,
    )
    .unwrap();
    assert!(!missing.success);
    assert_eq!(missing.message, "无法执行ping命令: denied");
}
