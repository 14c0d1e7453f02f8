use host_telemetry::gpu::GpuInfo;
use host_telemetry::host::{
    AudioDevice, CpuInfo, DiskInfo, MemoryInfo, NetworkInterface, NetworkStatus, SystemInfo,
};
use host_telemetry::numbers::Milli;

fn mock_system_info() -> SystemInfo {
    SystemInfo {
        os_name: "Test OS".to_string(),
        os_version: "1.0.0".to_string(),
        hostname: "test-host".to_string(),
        kernel_version: "1.0.0-test".to_string(),
    }
}

fn mock_cpu_info() -> CpuInfo {
    CpuInfo {
        name: "Test CPU".to_string(),
        vendor_id: "TestVendor".to_string(),
        brand: "Test CPU Brand".to_string(),
        cores: 8,
        physical_cores: 4,
        frequency: 3000,
        usage: Milli(50_000),
        temperature: Some(Milli(45_000)),
    }
}

fn mock_memory_info() -> MemoryInfo {
    MemoryInfo {
        total: 8589934592,
        available: 4294967296,
        used: 4294967296,
        free: 2147483648,
        usage_percent: Milli(50_000),
    }
}

fn mock_disk_info() -> Vec<DiskInfo> {
    vec![DiskInfo {
        name: "Test Disk".to_string(),
        mount_point: "/test".to_string(),
        total_space: 107374182400,
        available_space: 53687091200,
        used_space: 53687091200,
        usage_percent: Milli(50_000),
        file_system: "ext4".to_string(),
        is_removable: false,
    }]
}

fn mock_network_status() -> NetworkStatus {
    NetworkStatus {
        is_connected: true,
        interfaces: vec![NetworkInterface {
            name: "eth0".to_string(),
            description: Some("Test Ethernet".to_string()),
            ip_address: Some("192.168.1.100".to_string()),
            mac_address: Some("00:11:22:33:44:55".to_string()),
            is_up: true,
        }],
        local_ip: Some("192.168.1.100".to_string()),
        public_ip: Some("203.0.113.1".to_string()),
    }
}

fn mock_audio_devices() -> Vec<AudioDevice> {
    vec![
        AudioDevice {
            name: "Test Speaker".to_string(),
            is_default: true,
            is_input: false,
            is_output: true,
            volume: 75,
            is_muted: false,
        },
        AudioDevice {
            name: "Test Microphone".to_string(),
            is_default: true,
            is_input: true,
            is_output: false,
            volume: 80,
            is_muted: false,
        },
    ]
}

fn mock_gpu_info() -> Vec<GpuInfo> {
    vec![GpuInfo {
        name: "Test GPU".to_string(),
        vendor: "Test Vendor".to_string(),
        vram_total: 4294967296,
        vram_used: 2147483648,
        vram_free: 2147483648,
        usage_percent: Milli(60_000),
        temperature: Some(Milli(70_000)),
    }]
}

fn approx_eq(a: f32, b: f32, epsilon: f32) -> bool {
    (a - b).abs() < epsilon
}

fn is_percentage(m: Milli) -> bool {
    m.0 <= 100_000
}

fn validate_system_info(info: &SystemInfo) -> bool {
    !info.os_name.is_empty() && !info.os_version.is_empty() && !info.hostname.is_empty()
}

fn validate_cpu_info(info: &CpuInfo) -> bool {
    !info.name.is_empty()
        && !info.vendor_id.is_empty()
        && info.cores > 0
        && info.frequency > 0
        && is_percentage(info.usage)
}

fn validate_memory_info(info: &MemoryInfo) -> bool {
    info.total > 0
        && info.available > 0
        && info.used > 0
        && info.free > 0
        && is_percentage(info.usage_percent)
}

fn validate_disk_info(disks: &[DiskInfo]) -> bool {
    disks.iter().all(|disk| {
        !disk.name.is_empty()
            && !disk.mount_point.is_empty()
            && disk.total_space > 0
            && is_percentage(disk.usage_percent)
    })
}

fn validate_network_status(status: &NetworkStatus) -> bool {
    status.interfaces.iter().all(|interface| !interface.name.is_empty())
}

fn validate_audio_devices(devices: &[AudioDevice]) -> bool {
    devices.iter().all(|device| !device.name.is_empty() && (device.is_input || device.is_output))
}

fn validate_gpu_info(gpus: &[GpuInfo]) -> bool {
    gpus.iter().all(|gpu| {
        !gpu.name.is_empty() && !gpu.vendor.is_empty() && is_percentage(gpu.usage_percent)
    })
}

#[test]
fn test_mock_data_generation() {
    let system_info = mock_system_info();
    assert!(validate_system_info(&system_info));

    let cpu_info = mock_cpu_info();
    assert!(validate_cpu_info(&cpu_info));

    let memory_info = mock_memory_info();
    assert!(validate_memory_info(&memory_info));

    let disk_info = mock_disk_info();
    assert!(validate_disk_info(&disk_info));

    let network_status = mock_network_status();
    assert!(validate_network_status(&network_status));

    let audio_devices = mock_audio_devices();
    assert!(validate_audio_devices(&audio_devices));

    let gpu_info = mock_gpu_info();
    assert!(validate_gpu_info(&gpu_info));
}

#[test]
fn test_approx_eq() {
    assert!(approx_eq(1.0, 1.0, 0.001));
    assert!(approx_eq(1.0, 1.001, 0.01));
    assert!(!approx_eq(1.0, 1.1, 0.01));
}
