use host_telemetry::connections::{
    get_network_connections, netstat_command, parse_address_port, parse_network_connections,
    parse_unix_netstat_line, parse_windows_netstat_line,
};
use host_telemetry::diagnostics::{CommandOutcome, Dialect};

#[test]
fn posix_listening_line() {
    let line = "tcp 0 0 127.0.0.1:8080 0.0.0.0:* LISTEN 1234/myproc";
    let info = parse_unix_netstat_line(line).unwrap();
    assert_eq!(info.local_address, "127.0.0.1");
    assert_eq!(info.local_port, 8080);
    assert_eq!(info.protocol, "tcp");
    assert_eq!(info.pid, Some(1234));
    assert_eq!(info.process_name, Some("myproc".to_string()));
    assert_eq!(info.remote_address, Some("0.0.0.0".to_string()));
    assert_eq!(info.remote_port, Some(0));
    assert_eq!(info.state, "LISTEN");
}

#[test]
fn posix_line_without_owner() {
    let info = parse_unix_netstat_line("tcp6 0 0 :::22 :::* LISTEN").unwrap();
    assert_eq!(info.local_address, "::");
    assert_eq!(info.local_port, 22);
    assert_eq!(info.pid, None);
    assert_eq!(info.process_name, None);
}

#[test]
fn posix_line_with_dash_owner() {
    let info = parse_unix_netstat_line("tcp 0 0 10.0.0.1:53 0.0.0.0:* LISTEN -").unwrap();
    assert_eq!(info.pid, None);
    assert_eq!(info.process_name, Some("".to_string()));
}

#[test]
fn posix_owner_with_path() {
    let info =
        parse_unix_netstat_line("tcp 0 0 10.0.0.1:53 0.0.0.0:* LISTEN 77//usr/bin/x").unwrap();
    assert_eq!(info.pid, Some(77));
    assert_eq!(info.process_name, Some("usr/bin/x".to_string()));
}

#[test]
fn posix_short_line_is_skipped() {
    assert!(parse_unix_netstat_line("tcp 0 0 127.0.0.1:8080 0.0.0.0:*").is_none());
    assert!(parse_unix_netstat_line("").is_none());
}

#[test]
fn windows_established_line() {
    let line = "  TCP    192.168.1.5:49712     52.1.2.3:443     ESTABLISHED     4321";
    let info = parse_windows_netstat_line(line).unwrap();
    assert_eq!(info.protocol, "TCP");
    assert_eq!(info.local_address, "192.168.1.5");
    assert_eq!(info.local_port, 49712);
    assert_eq!(info.remote_address, Some("52.1.2.3".to_string()));
    assert_eq!(info.remote_port, Some(443));
    assert_eq!(info.state, "ESTABLISHED");
    assert_eq!(info.pid, Some(4321));
    assert_eq!(info.process_name, None);
}

#[test]
fn windows_line_without_ports() {
    let info = parse_windows_netstat_line("UDP host *:* LISTENING").unwrap();
    assert_eq!(info.local_address, "host");
    assert_eq!(info.local_port, 0);
    assert_eq!(info.remote_address, Some("*".to_string()));
    assert_eq!(info.remote_port, None);
    assert_eq!(info.pid, None);
}

#[test]
fn windows_port_out_of_range_is_zero() {
    let info = parse_windows_netstat_line("TCP a:70000 :80 X 12x").unwrap();
    assert_eq!(info.local_port, 0);
    assert_eq!(info.remote_address, None);
    assert_eq!(info.remote_port, Some(80));
    assert_eq!(info.pid, None);
}

#[test]
fn windows_short_line_is_skipped() {
    assert!(parse_windows_netstat_line("TCP 1.2.3.4:5 6.7.8.9:10").is_none());
}

#[test]
fn address_port_splits_at_last_colon() {
    assert_eq!(parse_address_port("127.0.0.1:8080"), ("127.0.0.1".to_string(), 8080));
    assert_eq!(parse_address_port(":::22"), ("::".to_string(), 22));
    assert_eq!(parse_address_port("0.0.0.0:*"), ("0.0.0.0".to_string(), 0));
    assert_eq!(parse_address_port("localhost"), ("localhost".to_string(), 0));
    assert_eq!(parse_address_port("h:65535"), ("h".to_string(), 65535));
    assert_eq!(parse_address_port("h:65536"), ("h".to_string(), 0));
    assert_eq!(parse_address_port("h:+80"), ("h".to_string(), 80));
    assert_eq!(parse_address_port(""), ("".to_string(), 0));
}

#[test]
fn listing_skips_four_title_lines() {
    let output = "Active Internet connections (only servers)\n\
                  Proto Recv-Q Send-Q Local Address Foreign Address State PID/Program name\n\
                  tcp 0 0 1.1.1.1:1 0.0.0.0:* LISTEN 1/a\n\
                  tcp 0 0 2.2.2.2:2 0.0.0.0:* LISTEN 2/b\n\
                  tcp 0 0 3.3.3.3:3 0.0.0.0:* LISTEN 3/c\r\n\
                  \n\
                  garbage\n\
                  \ttcp 0 0 4.4.4.4:4 0.0.0.0:* LISTEN 4/d  \n";
    let found = parse_network_connections(output, Dialect::Posix);
    assert_eq!(found.len(), 2);
    assert_eq!(found[0].local_address, "3.3.3.3");
    assert_eq!(found[0].process_name, Some("c".to_string()));
    assert_eq!(found[1].local_port, 4);
    assert_eq!(found[1].pid, Some(4));
}

#[test]
fn listing_of_windows_dialect() {
    let output = "\nActive Connections\n\n  Proto  Local Address  Foreign Address  State  PID\n  \
                  TCP    0.0.0.0:135    0.0.0.0:0    LISTENING    1060\n";
    let found = parse_network_connections(output, Dialect::Windows);
    assert_eq!(found.len(), 1);
    assert_eq!(found[0].local_port, 135);
    assert_eq!(found[0].remote_port, Some(0));
    assert_eq!(found[0].pid, Some(1060));
}

#[test]
fn listing_with_titles_only_is_empty() {
    assert!(parse_network_connections("a\nb\nc\nd\n", Dialect::Posix).is_empty());
    assert!(parse_network_connections("", Dialect::Windows).is_empty());
}

#[test]
fn listing_command_by_dialect() {
    let windows = netstat_command(Dialect::Windows);
    assert_eq!(windows.program, "netstat");
    assert_eq!(windows.arguments, vec!["-ano"]);
    let posix = netstat_command(Dialect::Posix);
    assert_eq!(posix.program, "netstat");
    assert_eq!(posix.arguments, vec!["-tunlp"]);
}

#[test]
fn listing_outcome() {
    let output = "a\nb\nc\nd\ntcp 0 0 1.1.1.1:1 0.0.0.0:* LISTEN 1/a\n";
    let run = |success: bool| CommandOutcome::Finished {
        success,
        stdout: output.to_string(),
        stderr: String::new(),
    };
    assert_eq!(get_network_connections(&run(true), Dialect::Posix).len(), 1);
    assert!(get_network_connections(&run(false), Dialect::Posix).is_empty());
    let missing = CommandOutcome::NotStarted { reason: "x".to_string() };
    assert!(get_network_connections(&missing, Dialect::Posix).is_empty());
}
