use host_telemetry::host::{CpuInfo, MemoryInfo, SystemInfo};
use host_telemetry::numbers::Milli;
use serde_json::{Number, Value};

fn text(value: &Value, name: &str) -> Result<String, String> {
    value
        .get(name)
        .and_then(|v| v.as_str())
        .map(|s| s.to_string())
        .ok_or_else(|| format!("missing field `{}`", name))
}

fn count(value: &Value, name: &str) -> Result<u64, String> {
    value.get(name).and_then(|v| v.as_u64()).ok_or_else(|| format!("missing field `{}`", name))
}

fn figure(value: &Value) -> Option<Milli> {
    value.as_f64().map(|f| Milli((f * 1000.0).round() as u64))
}

fn number(m: Milli) -> Value {
    Value::Number(Number::from_f64(m.0 as f64 / 1000.0).unwrap())
}

fn system_info_to_json(info: &SystemInfo) -> String {
    let mut map = serde_json::Map::new();
    map.insert("os_name".to_string(), Value::String(info.os_name.clone()));
    map.insert("os_version".to_string(), Value::String(info.os_version.clone()));
    map.insert("hostname".to_string(), Value::String(info.hostname.clone()));
    map.insert("kernel_version".to_string(), Value::String(info.kernel_version.clone()));
    serde_json::to_string(&Value::Object(map)).unwrap()
}

fn system_info_from_json(json: &str) -> Result<SystemInfo, String> {
    let value: Value = serde_json::from_str(json).map_err(|e| e.to_string())?;
    Ok(SystemInfo {
        os_name: text(&value, "os_name")?,
        os_version: text(&value, "os_version")?,
        hostname: text(&value, "hostname")?,
        kernel_version: text(&value, "kernel_version")?,
    })
}

fn cpu_info_to_json(info: &CpuInfo) -> String {
    let mut map = serde_json::Map::new();
    map.insert("name".to_string(), Value::String(info.name.clone()));
    map.insert("vendor_id".to_string(), Value::String(info.vendor_id.clone()));
    map.insert("brand".to_string(), Value::String(info.brand.clone()));
    map.insert("cores".to_string(), Value::Number(Number::from(info.cores as u64)));
    map.insert(
        "physical_cores".to_string(),
        Value::Number(Number::from(info.physical_cores as u64)),
    );
    map.insert("frequency".to_string(), Value::Number(Number::from(info.frequency)));
    map.insert("usage".to_string(), number(info.usage));
    map.insert(
        "temperature".to_string(),
        match info.temperature {
            Some(t) => number(t),
            None => Value::Null,
        },
    );
    serde_json::to_string(&Value::Object(map)).unwrap()
}

fn cpu_info_from_json(json: &str) -> Result<CpuInfo, String> {
    let value: Value = serde_json::from_str(json).map_err(|e| e.to_string())?;
    Ok(CpuInfo {
        name: text(&value, "name")?,
        vendor_id: text(&value, "vendor_id")?,
        brand: text(&value, "brand")?,
        cores: count(&value, "cores")? as usize,
        physical_cores: count(&value, "physical_cores")? as usize,
        frequency: count(&value, "frequency")?,
        usage: value.get("usage").and_then(figure).ok_or("missing field `usage`")?,
        temperature: value.get("temperature").and_then(figure),
    })
}

fn memory_info_to_json(info: &MemoryInfo) -> String {
    let mut map = serde_json::Map::new();
    map.insert("total".to_string(), Value::Number(Number::from(info.total)));
    map.insert("available".to_string(), Value::Number(Number::from(info.available)));
    map.insert("used".to_string(), Value::Number(Number::from(info.used)));
    map.insert("free".to_string(), Value::Number(Number::from(info.free)));
    map.insert("usage_percent".to_string(), number(info.usage_percent));
    serde_json::to_string(&Value::Object(map)).unwrap()
}

fn memory_info_from_json(json: &str) -> Result<MemoryInfo, String> {
    let value: Value = serde_json::from_str(json).map_err(|e| e.to_string())?;
    Ok(MemoryInfo {
        total: count(&value, "total")?,
        available: count(&value, "available")?,
        used: count(&value, "used")?,
        free: count(&value, "free")?,
        usage_percent: value
            .get("usage_percent")
            .and_then(figure)
            .ok_or("missing field `usage_percent`")?,
    })
}

#[test]
fn test_system_info_serialization() {
    let system_info = SystemInfo {
        os_name: "Test OS".to_string(),
        os_version: "1.0.0".to_string(),
        hostname: "test-host".to_string(),
        kernel_version: "1.0.0-test".to_string(),
    };

    let json = system_info_to_json(&system_info);
    assert!(!json.is_empty());
    assert!(json.contains("Test OS"));
    assert!(json.contains("test-host"));

    let deserialized = system_info_from_json(&json).unwrap();
    assert_eq!(system_info.os_name, deserialized.os_name);
    assert_eq!(system_info.os_version, deserialized.os_version);
    assert_eq!(system_info.hostname, deserialized.hostname);
    assert_eq!(system_info.kernel_version, deserialized.kernel_version);
}

#[test]
fn test_cpu_info_serialization() {
    let cpu_info = CpuInfo {
        name: "Test CPU".to_string(),
        vendor_id: "TestVendor".to_string(),
        brand: "Test CPU Brand".to_string(),
        cores: 8,
        physical_cores: 4,
        frequency: 3000,
        usage: Milli(50_000),
        temperature: Some(Milli(45_000)),
    };

    let json = cpu_info_to_json(&cpu_info);
    assert!(!json.is_empty());
    assert!(json.contains("Test CPU"));
    assert!(json.contains("TestVendor"));

    let deserialized = cpu_info_from_json(&json).unwrap();
    assert_eq!(cpu_info.name, deserialized.name);
    assert_eq!(cpu_info.cores, deserialized.cores);
    assert_eq!(cpu_info.frequency, deserialized.frequency);
    assert_eq!(cpu_info.usage, deserialized.usage);
}

#[test]
fn test_memory_info_serialization() {
    let memory_info = MemoryInfo {
        total: 8589934592,
        available: 4294967296,
        used: 4294967296,
        free: 2147483648,
        usage_percent: Milli(50_000),
    };

    let json = memory_info_to_json(&memory_info);
    assert!(!json.is_empty());
    assert!(json.contains("8589934592"));

    let deserialized = memory_info_from_json(&json).unwrap();
    assert_eq!(memory_info.total, deserialized.total);
    assert_eq!(memory_info.available, deserialized.available);
    assert_eq!(memory_info.used, deserialized.used);
    assert_eq!(memory_info.usage_percent, deserialized.usage_percent);
}

#[test]
fn test_json_error_handling() {
    let invalid_json = "{ invalid json }";
    let result = system_info_from_json(invalid_json);
    assert!(result.is_err());

    let incomplete_json = r#"{"os_name": "Test OS"}"#;
    let result = system_info_from_json(incomplete_json);
    assert!(result.is_err());
}
