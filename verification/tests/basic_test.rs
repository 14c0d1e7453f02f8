use host_telemetry::host::{CpuInfo, MemoryInfo, SystemInfo};
use host_telemetry::numbers::Milli;

#[test]
fn test_system_info_validation() {
    let valid_info = SystemInfo {
        os_name: "Valid OS".to_string(),
        os_version: "1.0.0".to_string(),
        hostname: "valid-host".to_string(),
        kernel_version: "1.0.0-valid".to_string(),
    };

    assert!(!valid_info.os_name.is_empty());
    assert!(!valid_info.os_version.is_empty());
    assert!(!valid_info.hostname.is_empty());
    assert!(!valid_info.kernel_version.is_empty());

    let empty_info = SystemInfo {
        os_name: "".to_string(),
        os_version: "".to_string(),
        hostname: "".to_string(),
        kernel_version: "".to_string(),
    };

    assert!(empty_info.os_name.is_empty());
    assert!(empty_info.hostname.is_empty());
}

#[test]
fn test_clone_and_equality() {
    let system_info1 = SystemInfo {
        os_name: "Test OS".to_string(),
        os_version: "1.0.0".to_string(),
        hostname: "test-host".to_string(),
        kernel_version: "1.0.0-test".to_string(),
    };

    let system_info2 = system_info1.clone();

    assert_eq!(system_info1.os_name, system_info2.os_name);
    assert_eq!(system_info1.os_version, system_info2.os_version);
    assert_eq!(system_info1.hostname, system_info2.hostname);
    assert_eq!(system_info1.kernel_version, system_info2.kernel_version);

    assert_eq!(system_info1.os_name, system_info2.os_name);
}

#[test]
fn test_cpu_info_validation() {
    let valid_cpu = CpuInfo {
        name: "Valid CPU".to_string(),
        vendor_id: "ValidVendor".to_string(),
        brand: "Valid CPU Brand".to_string(),
        cores: 8,
        physical_cores: 4,
        frequency: 3000,
        usage: Milli(50_000),
        temperature: Some(Milli(45_000)),
    };

    assert!(!valid_cpu.name.is_empty());
    assert!(!valid_cpu.vendor_id.is_empty());
    assert!(valid_cpu.cores > 0);
    assert!(valid_cpu.physical_cores > 0);
    assert!(valid_cpu.frequency > 0);
    assert!(valid_cpu.usage.0 <= 100_000);

    let zero_cpu = CpuInfo {
        name: "Zero CPU".to_string(),
        vendor_id: "ZeroVendor".to_string(),
        brand: "Zero CPU Brand".to_string(),
        cores: 0,
        physical_cores: 0,
        frequency: 0,
        usage: Milli(0),
        temperature: None,
    };

    assert_eq!(zero_cpu.cores, 0);
    assert_eq!(zero_cpu.frequency, 0);
    assert_eq!(zero_cpu.usage, Milli(0));
}

#[test]
fn test_memory_info_validation() {
    let valid_memory = MemoryInfo {
        total: 8589934592,
        available: 4294967296,
        used: 4294967296,
        free: 2147483648,
        usage_percent: Milli(50_000),
    };

    assert!(valid_memory.total > 0);
    assert!(valid_memory.available > 0);
    assert!(valid_memory.used > 0);
    assert!(valid_memory.free > 0);
    assert!(valid_memory.usage_percent.0 <= 100_000);

    let calculated_used = valid_memory.total - valid_memory.available;
    assert_eq!(valid_memory.used, calculated_used);

    let calculated_usage_percent = (valid_memory.used as f32 / valid_memory.total as f32) * 100.0;
    let usage_percent = valid_memory.usage_percent.0 as f32 / 1000.0;
    assert!((usage_percent - calculated_usage_percent).abs() < 0.01);
}

#[test]
fn test_data_type_consistency() {
    let system_info = SystemInfo {
        os_name: "Test OS".to_string(),
        os_version: "1.0.0".to_string(),
        hostname: "test-host".to_string(),
        kernel_version: "1.0.0-test".to_string(),
    };

    assert_eq!(system_info.os_name, "Test OS");
    assert_eq!(system_info.os_version, "1.0.0");
    assert_eq!(system_info.hostname, "test-host");
    assert_eq!(system_info.kernel_version, "1.0.0-test");

    let memory_info = MemoryInfo {
        total: 8589934592,
        available: 4294967296,
        used: 4294967296,
        free: 2147483648,
        usage_percent: Milli(50_000),
    };

    assert_eq!(memory_info.total, 8589934592u64);
    assert_eq!(memory_info.usage_percent, Milli(50_000));
}
