use host_telemetry::alerts::{AlertMetric, Severity};
use host_telemetry::diagnostics::{CommandOutcome, Dialect};
use host_telemetry::host::{
    get_audio_devices, get_cpu_info, get_disk_info, get_memory_info, get_network_status,
    get_system_info, usage_share, DiskReading,
};
use host_telemetry::numbers::Milli;
use host_telemetry::processes::{terminate_command, terminate_process};

#[test]
fn system_info_fills_unknown_parts() {
    let info = get_system_info(Some("Linux".to_string()), None, Some("box".to_string()), None);
    assert_eq!(info.os_name, "Linux");
    assert_eq!(info.os_version, "Unknown");
    assert_eq!(info.hostname, "box");
    assert_eq!(info.kernel_version, "Unknown");
}

#[test]
fn network_status_lists_each_interface() {
    let status = get_network_status(&vec!["lo".to_string(), "eth0".to_string()]);
    assert!(status.is_connected);
    assert_eq!(status.local_ip, Some("192.168.1.100".to_string()));
    assert_eq!(status.public_ip, None);
    assert_eq!(status.interfaces.len(), 2);
    assert_eq!(status.interfaces[1].name, "eth0");
    assert_eq!(status.interfaces[1].ip_address, Some("192.168.1.100".to_string()));
    assert_eq!(status.interfaces[1].description, None);
    assert_eq!(status.interfaces[1].mac_address, None);
    assert!(status.interfaces[1].is_up);
    let copy = status.clone();
    assert_eq!(copy.interfaces.len(), 2);
    assert_eq!(copy.interfaces[0].name, "lo");

    let none = get_network_status(&vec![]);
    assert!(!none.is_connected);
    assert_eq!(none.local_ip, None);
    assert!(none.interfaces.is_empty());
}

#[test]
fn audio_devices_list_inputs_before_outputs() {
    let inputs = vec![Some("mic".to_string()), None, Some("line".to_string())];
    let outputs = vec![Some("speakers".to_string()), Some("mic".to_string())];
    let devices = get_audio_devices(
        &inputs,
        &Some(Some("line".to_string())),
        &outputs,
        &Some(Some("mic".to_string())),
    );
    let names: Vec<&str> = devices.iter().map(|d| d.name.as_str()).collect();
    assert_eq!(names, vec!["mic", "line", "speakers", "mic"]);
    let defaults: Vec<bool> = devices.iter().map(|d| d.is_default).collect();
    assert_eq!(defaults, vec![false, true, false, true]);
    assert!(devices[0].is_input && !devices[0].is_output);
    assert!(!devices[2].is_input && devices[2].is_output);
    assert!(devices.iter().all(|d| d.volume == 0 && !d.is_muted));
}

#[test]
fn audio_default_without_name_matches_the_empty_name() {
    let inputs = vec![Some(String::new()), Some("mic".to_string())];
    let devices = get_audio_devices(&inputs, &Some(None), &vec![], &None);
    assert_eq!(devices.len(), 2);
    assert!(devices[0].is_default);
    assert!(!devices[1].is_default);
    let none = get_audio_devices(&inputs, &None, &inputs, &None);
    assert_eq!(none.len(), 4);
    assert!(none.iter().all(|d| !d.is_default));
}

#[test]
fn terminate_command_by_dialect_and_force() {
    let forced = terminate_command("42", true, Dialect::Windows).unwrap();
    assert_eq!(forced.program, "taskkill");
    assert_eq!(forced.arguments, vec!["/F", "/PID", "42"]);
    let asked = terminate_command("+042", false, Dialect::Windows).unwrap();
    assert_eq!(asked.arguments, vec!["/PID", "42"]);
    let killed = terminate_command("7", true, Dialect::Posix).unwrap();
    assert_eq!(killed.program, "kill");
    assert_eq!(killed.arguments, vec!["-9", "7"]);
    let plain = terminate_command("4294967295", false, Dialect::Posix).unwrap();
    assert_eq!(plain.arguments, vec!["4294967295"]);
    assert_eq!(terminate_command("4294967296", false, Dialect::Posix).unwrap_err(), "Invalid PID format");
    assert_eq!(terminate_command("init", true, Dialect::Posix).unwrap_err(), "Invalid PID format");
    assert_eq!(terminate_command("", true, Dialect::Windows).unwrap_err(), "Invalid PID format");
}

#[test]
fn terminate_outcome() {
    let done = CommandOutcome::Finished {
        success: true,
        stdout: String::new(),
        stderr: String::new(),
    };
    assert_eq!(terminate_process("42", &done), Ok("Process 42 terminated successfully".to_string()));
    let failed = CommandOutcome::Finished {
        success: false,
        stdout: "o".to_string(),
        stderr: "no such process".to_string(),
    };
    assert_eq!(
        terminate_process("42", &failed),
        Err("Failed to terminate process 42: stdout=o, stderr=no such process".to_string())
    );
    let missing = CommandOutcome::NotStarted { reason: "denied".to_string() };
    assert_eq!(
        terminate_process("42", &missing),
        Err("Failed to execute terminate command: denied".to_string())
    );
}

#[test]
fn metric_and_severity_names() {
    for metric in [AlertMetric::Cpu, AlertMetric::Memory, AlertMetric::Disk, AlertMetric::Network] {
        assert_eq!(AlertMetric::from_name(metric.name()), Some(metric));
    }
    assert_eq!(AlertMetric::Cpu.name(), "cpu");
    assert_eq!(AlertMetric::from_name("network"), Some(AlertMetric::Network));
    assert_eq!(AlertMetric::from_name("CPU"), None);
    assert_eq!(AlertMetric::from_name(""), None);
    for severity in [Severity::Info, Severity::Warning, Severity::Critical] {
        assert_eq!(Severity::from_name(severity.name()), Some(severity));
    }
    assert_eq!(Severity::Critical.name(), "critical");
    assert_eq!(Severity::from_name("fatal"), None);
}

#[test]
fn cpu_info_fills_what_is_not_told() {
    let cpu = get_cpu_info(
        "cpu0".to_string(),
        "Vendor".to_string(),
        "Brand".to_string(),
        8,
        None,
        3000,
        Milli(12_500),
    );
    assert_eq!(cpu.name, "cpu0");
    assert_eq!(cpu.vendor_id, "Vendor");
    assert_eq!(cpu.brand, "Brand");
    assert_eq!(cpu.cores, 8);
    assert_eq!(cpu.physical_cores, 0);
    assert_eq!(cpu.frequency, 3000);
    assert_eq!(cpu.usage, Milli(12_500));
    assert_eq!(cpu.temperature, None);
    let counted =
        get_cpu_info(String::new(), String::new(), String::new(), 8, Some(4), 1, Milli(0));
    assert_eq!(counted.physical_cores, 4);
    assert_eq!(counted.clone().cores, 8);
}

#[test]
fn memory_usage_is_the_share_in_use() {
    let memory = get_memory_info(8_589_934_592, 4_294_967_296, 2_147_483_648);
    assert_eq!(memory.total, 8_589_934_592);
    assert_eq!(memory.available, 4_294_967_296);
    assert_eq!(memory.used, 4_294_967_296);
    assert_eq!(memory.free, 2_147_483_648);
    assert_eq!(memory.usage_percent, Milli(50_000));
    let third = get_memory_info(3, 2, 0);
    assert_eq!(third.used, 1);
    assert_eq!(third.usage_percent, Milli(33_333));
    let none = get_memory_info(0, 0, 0);
    assert_eq!(none.used, 0);
    assert_eq!(none.usage_percent, Milli(0));
    let more_available = get_memory_info(10, 11, 0);
    assert_eq!(more_available.used, 0);
    assert_eq!(more_available.usage_percent, Milli(0));
    let full = get_memory_info(u64::MAX, 0, 0);
    assert_eq!(full.used, u64::MAX);
    assert_eq!(full.usage_percent, Milli(100_000));
}

#[test]
fn usage_share_rounds_down_and_saturates() {
    assert_eq!(usage_share(1, 3), Milli(33_333));
    assert_eq!(usage_share(2, 3), Milli(66_666));
    assert_eq!(usage_share(0, 7), Milli(0));
    assert_eq!(usage_share(7, 0), Milli(0));
    assert_eq!(usage_share(7, 7), Milli(100_000));
    assert_eq!(usage_share(u64::MAX, 1), Milli(u64::MAX));
    assert_eq!(usage_share(184_467_440_737_095, 1), Milli(18_446_744_073_709_500_000));
    assert_eq!(usage_share(184_467_440_737_096, 1), Milli(u64::MAX));
}

#[test]
fn disks_are_described_in_order() {
    let reading = |name: &str, total: u64, available: u64| DiskReading {
        name: name.to_string(),
        mount_point: format!("/{}", name),
        total_space: total,
        available_space: available,
        file_system: "ext4".to_string(),
        is_removable: name == "usb",
    };
    let disks = get_disk_info(&vec![reading("root", 1000, 250), reading("usb", 0, 0)]);
    assert_eq!(disks.len(), 2);
    assert_eq!(disks[0].name, "root");
    assert_eq!(disks[0].mount_point, "/root");
    assert_eq!(disks[0].total_space, 1000);
    assert_eq!(disks[0].available_space, 250);
    assert_eq!(disks[0].used_space, 750);
    assert_eq!(disks[0].usage_percent, Milli(75_000));
    assert_eq!(disks[0].file_system, "ext4");
    assert!(!disks[0].is_removable);
    assert_eq!(disks[1].used_space, 0);
    assert_eq!(disks[1].usage_percent, Milli(0));
    assert!(disks[1].is_removable);
    assert!(get_disk_info(&vec![]).is_empty());
}
