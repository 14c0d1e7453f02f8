use host_telemetry::numbers::Milli;
use host_telemetry::processes::{
    get_process_details, get_processes_enhanced, parse_pid, ProcessDetails, ProcessSortOptions,
};

fn process(pid: &str, name: &str, user: Option<&str>, cpu: u64, memory: u64) -> ProcessDetails {
    ProcessDetails {
        pid: pid.to_string(),
        name: name.to_string(),
        path: None,
        command_line: String::new(),
        exe: None,
        cpu_usage_percent: Milli(cpu),
        memory_usage_bytes: memory,
        thread_count: 0,
        priority: 0,
        status: "Run".to_string(),
        start_time: None,
        user: user.map(|u| u.to_string()),
        parent_pid: None,
        working_directory: None,
    }
}

fn sample() -> Vec<ProcessDetails> {
    vec![
        process("10", "nginx", Some("www"), 5_000, 300),
        process("9", "Bash", Some("alice"), 1_000, 100),
        process("100", "bash", None, 5_000, 200),
        process("2", "init", Some("root"), 0, 50),
    ]
}

fn options(by: &str, order: &str) -> ProcessSortOptions {
    ProcessSortOptions {
        sort_by: by.to_string(),
        sort_order: order.to_string(),
        filter_name: None,
        filter_user: None,
        min_cpu_usage: None,
        max_memory_usage: None,
    }
}

fn pids(list: &Vec<ProcessDetails>) -> Vec<&str> {
    list.iter().map(|p| p.pid.as_str()).collect()
}

#[test]
fn listing_without_options_is_unchanged() {
    let listed = get_processes_enhanced(&sample(), &None);
    assert_eq!(pids(&listed), vec!["10", "9", "100", "2"]);
    assert_eq!(listed[0].name, "nginx");
    assert_eq!(listed[0].user, Some("www".to_string()));
}

#[test]
fn listing_orders_by_the_key_asked() {
    let by = |key: &str, order: &str| -> Vec<String> {
        get_processes_enhanced(&sample(), &Some(options(key, order)))
            .iter()
            .map(|p| p.pid.clone())
            .collect()
    };
    assert_eq!(by("name", "asc"), vec!["9", "100", "2", "10"]);
    assert_eq!(by("name", "desc"), vec!["10", "2", "100", "9"]);
    assert_eq!(by("cpu", "asc"), vec!["2", "9", "10", "100"]);
    assert_eq!(by("cpu", "desc"), vec!["10", "100", "9", "2"]);
    assert_eq!(by("memory", "asc"), vec!["2", "9", "100", "10"]);
    assert_eq!(by("memory", "desc"), vec!["10", "100", "9", "2"]);
    assert_eq!(by("pid", "asc"), vec!["10", "100", "2", "9"]);
    assert_eq!(by("pid", "desc"), vec!["9", "2", "100", "10"]);
    assert_eq!(by("other", "asc"), vec!["10", "100", "9", "2"]);
    assert_eq!(by("", ""), vec!["10", "100", "9", "2"]);
    assert_eq!(by("cpu", "DESC"), vec!["2", "9", "10", "100"]);
}

#[test]
fn listing_orders_as_the_standard_sort_does() {
    let mut expected = sample();
    expected.sort_by(|a, b| a.name.cmp(&b.name));
    let listed = get_processes_enhanced(&sample(), &Some(options("name", "asc")));
    assert_eq!(pids(&listed), pids(&expected));
    let mut falling = sample();
    falling.sort_by(|a, b| b.pid.cmp(&a.pid));
    let listed = get_processes_enhanced(&sample(), &Some(options("pid", "desc")));
    assert_eq!(pids(&listed), pids(&falling));
}

#[test]
fn listing_filters_before_it_orders() {
    let mut by_name = options("pid", "asc");
    by_name.filter_name = Some("BASH".to_string());
    assert_eq!(pids(&get_processes_enhanced(&sample(), &Some(by_name))), vec!["100", "9"]);

    let mut by_user = options("pid", "asc");
    by_user.filter_user = Some("o".to_string());
    assert_eq!(pids(&get_processes_enhanced(&sample(), &Some(by_user))), vec!["2"]);

    let mut by_user_case = options("pid", "asc");
    by_user_case.filter_user = Some("ALICE".to_string());
    assert!(get_processes_enhanced(&sample(), &Some(by_user_case)).is_empty());

    let mut busy = options("memory", "asc");
    busy.min_cpu_usage = Some(Milli(1_000));
    assert_eq!(pids(&get_processes_enhanced(&sample(), &Some(busy))), vec!["9", "100", "10"]);

    let mut small = options("memory", "desc");
    small.max_memory_usage = Some(200);
    assert_eq!(pids(&get_processes_enhanced(&sample(), &Some(small))), vec!["100", "9", "2"]);

    let mut all = options("cpu", "asc");
    all.filter_name = Some(String::new());
    all.filter_user = Some(String::new());
    all.min_cpu_usage = Some(Milli(5_000));
    all.max_memory_usage = Some(300);
    assert_eq!(pids(&get_processes_enhanced(&sample(), &Some(all))), vec!["10"]);
}

#[test]
fn process_ids_are_read_as_numbers() {
    assert_eq!(parse_pid("42"), Ok(42));
    assert_eq!(parse_pid("4294967295"), Ok(u32::MAX));
    assert_eq!(parse_pid("4294967296"), Err("Invalid PID format".to_string()));
    assert_eq!(parse_pid("-1"), Err("Invalid PID format".to_string()));
    assert_eq!(parse_pid("pid"), Err("Invalid PID format".to_string()));
}

#[test]
fn missing_process_is_told() {
    let found = get_process_details(7, Some(process("7", "x", None, 1, 2))).unwrap();
    assert_eq!(found.pid, "7");
    assert_eq!(found.cpu_usage_percent, Milli(1));
    assert_eq!(
        get_process_details(4242, None).unwrap_err(),
        "Process with PID 4242 not found"
    );
}
