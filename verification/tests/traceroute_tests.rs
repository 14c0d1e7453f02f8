use host_telemetry::diagnostics::{CommandOutcome, Dialect};
use host_telemetry::numbers::Milli;
use host_telemetry::traceroute::{
    diagnose_network_traceroute, extract_unix_traceroute_hop_info,
    extract_unix_traceroute_hop_number, extract_windows_tracert_hop_info,
    extract_windows_tracert_hop_number, parse_traceroute_hop, parse_traceroute_result,
    traceroute_command,
};

#[test]
fn hop_number_needs_a_second_word() {
    assert_eq!(extract_unix_traceroute_hop_number(" 3  10.0.0.1"), Some(3));
    assert_eq!(extract_unix_traceroute_hop_number("3"), None);
    assert_eq!(extract_unix_traceroute_hop_number("traceroute to host"), None);
    assert_eq!(extract_windows_tracert_hop_number("  12    <1 ms"), Some(12));
    assert_eq!(extract_windows_tracert_hop_number("4294967296 x"), None);
    assert_eq!(extract_windows_tracert_hop_number("4294967295 x"), Some(4294967295));
    assert_eq!(extract_windows_tracert_hop_number(""), None);
}

#[test]
fn posix_hop_with_hostname_and_joined_unit() {
    let hop =
        parse_traceroute_hop(" 2  gw.example (10.0.0.1)  1.5ms", Dialect::Posix).unwrap();
    assert_eq!(hop.hop_number, 2);
    assert_eq!(hop.address, "gw.example");
    assert_eq!(hop.hostname, Some("10.0.0.1".to_string()));
    assert_eq!(hop.latency_ms, Some(Milli(1_500)));
    assert_eq!(hop.packet_loss_percent, None);
}

#[test]
fn posix_hop_with_separate_unit_has_no_latency() {
    let hop = parse_traceroute_hop(
        " 1  192.168.1.1 (192.168.1.1)  1.123 ms  1.045 ms",
        Dialect::Posix,
    )
    .unwrap();
    assert_eq!(hop.address, "192.168.1.1");
    assert_eq!(hop.hostname, Some("192.168.1.1".to_string()));
    assert_eq!(hop.latency_ms, None);
}

#[test]
fn windows_hop_takes_third_word_as_hostname() {
    let hop =
        parse_traceroute_hop("  3  10.1.1.1  router  12ms", Dialect::Windows).unwrap();
    assert_eq!(hop.hop_number, 3);
    assert_eq!(hop.address, "10.1.1.1");
    assert_eq!(hop.hostname, Some("router".to_string()));
    assert_eq!(hop.latency_ms, Some(Milli(12_000)));
    let bracket =
        parse_traceroute_hop("3 host [10.1.1.1] 12ms", Dialect::Windows).unwrap();
    assert_eq!(bracket.hostname, None);
}

#[test]
fn hop_of_two_words_has_unknown_address() {
    let hop = parse_traceroute_hop("7 *", Dialect::Posix).unwrap();
    assert_eq!(hop.hop_number, 7);
    assert_eq!(hop.address, "unknown");
    assert_eq!(hop.hostname, None);
    assert_eq!(hop.latency_ms, None);
}

#[test]
fn blank_and_unnumbered_lines_give_no_hop() {
    assert!(parse_traceroute_hop("   ", Dialect::Posix).is_none());
    assert!(parse_traceroute_hop("over a maximum of 30 hops", Dialect::Windows).is_none());
}

#[test]
fn trace_collects_hops_in_order() {
    let output = "traceroute to example.org (1.2.3.4), 30 hops max\n \
                  1  a (10.0.0.1)  1ms\n\n 2  b (10.0.0.2)  2.5ms\nnoise\n 5  * * *\n";
    let result = parse_traceroute_result(output, Dialect::Posix).unwrap();
    assert!(result.success);
    assert_eq!(result.message, "Traceroute成功");
    assert_eq!(result.latency_ms, None);
    let hops = result.hops.unwrap();
    assert_eq!(hops.len(), 3);
    assert_eq!(hops[0].hop_number, 1);
    assert_eq!(hops[1].latency_ms, Some(Milli(2_500)));
    assert_eq!(hops[2].hop_number, 5);
    assert_eq!(hops[2].address, "*");
}

#[test]
fn trace_without_hops_fails() {
    let error = parse_traceroute_result("nothing here\n", Dialect::Posix).unwrap_err();
    assert_eq!(error, "无法解析traceroute结果: nothing here\n");
    let long = "w ".repeat(80);
    let error = parse_traceroute_result(&long, Dialect::Windows).unwrap_err();
    assert_eq!(error, format!("无法解析traceroute结果: {}", "w ".repeat(50)));
}

#[test]
fn hop_info_by_dialect() {
    assert_eq!(
        extract_unix_traceroute_hop_info("2 gw (10.0.0.1) 3.25ms"),
        ("gw".to_string(), Some("10.0.0.1".to_string()), Some(Milli(3_250)))
    );
    assert_eq!(
        extract_unix_traceroute_hop_info("2 gw ((a)) x"),
        ("gw".to_string(), Some("a".to_string()), None)
    );
    assert_eq!(extract_unix_traceroute_hop_info("2 gw name 7ms"), ("gw".to_string(), None, Some(Milli(7_000))));
    assert_eq!(extract_unix_traceroute_hop_info("2 gw (a)"), ("gw".to_string(), None, None));
    assert_eq!(
        extract_windows_tracert_hop_info("2 gw name 7ms"),
        ("gw".to_string(), Some("name".to_string()), Some(Milli(7_000)))
    );
    assert_eq!(
        extract_windows_tracert_hop_info("2 gw [a] 1msms"),
        ("gw".to_string(), None, Some(Milli(1_000)))
    );
    assert_eq!(extract_windows_tracert_hop_info("2 gw"), ("unknown".to_string(), None, None));
    assert_eq!(
        extract_windows_tracert_hop_info("1 <1 ms <1 ms 10.0.0.1"),
        ("<1".to_string(), Some("ms".to_string()), None)
    );
}

#[test]
fn trace_command_by_dialect() {
    let windows = traceroute_command("example.org", Dialect::Windows);
    assert_eq!(windows.program, "tracert");
    assert_eq!(windows.arguments, vec!["example.org"]);
    let posix = traceroute_command("example.org", Dialect::Posix);
    assert_eq!(posix.program, "traceroute");
    assert_eq!(posix.arguments, vec!["example.org"]);
}

fn finished(success: bool, stdout: &str, stderr: &str) -> CommandOutcome {
    CommandOutcome::Finished {
        success,
        stdout: stdout.to_string(),
        stderr: stderr.to_string(),
    }
}

#[test]
fn trace_outcome() {
    let ok = diagnose_network_traceroute(&finished(true, "1 a b 2ms\n", ""), Dialect::Posix).unwrap();
    assert!(ok.success);
    assert_eq!(ok.hops.unwrap().len(), 1);
    let printed =
        diagnose_network_traceroute(&finished(false, "1 a b 2ms\n", "x"), Dialect::Posix).unwrap();
    assert!(printed.success);
    let silent = diagnose_network_traceroute(&finished(false, "", "no route"), Dialect::Posix).unwrap();
    assert!(!silent.success);
    assert_eq!(silent.message, "Traceroute失败: no route");
    assert!(silent.hops.is_none() && silent.latency_ms.is_none());
    let empty_success = diagnose_network_traceroute(&finished(true, "", ""), Dialect::Posix);
    assert_eq!(empty_success.unwrap_err(), "无法解析traceroute结果: ");
    let missing = diagnose_network_traceroute(
        &CommandOutcome::NotStarted { reason: "not installed".to_string() },
        Dialect::Windows,
    )
    .unwrap();
    assert!(!missing.success);
    assert_eq!(missing.message, "无法执行traceroute命令: not installed");
}
