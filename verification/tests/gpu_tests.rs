use host_telemetry::diagnostics::{CommandOutcome, Dialect};
use host_telemetry::gpu::{
    first_gpu_command, gpus_from_nvidia, gpus_from_wmic, nvidia_command, parse_gpu_info,
    parse_nvidia_gpu_info, wmic_command,
};
use host_telemetry::numbers::Milli;

#[test]
fn nvidia_lines() {
    let output = "NVIDIA GeForce RTX 3080, 10240, 2048, 8192, 37, 54\r\n\n \
                  Second Card ,1,x, 3 ,12.5, \nshort, 1, 2\n";
    let gpus = parse_nvidia_gpu_info(output);
    assert_eq!(gpus.len(), 2);
    assert_eq!(gpus[0].name, "NVIDIA GeForce RTX 3080");
    assert_eq!(gpus[0].vendor, "NVIDIA");
    assert_eq!(gpus[0].vram_total, 10_240 * 1_048_576);
    assert_eq!(gpus[0].vram_used, 2_048 * 1_048_576);
    assert_eq!(gpus[0].vram_free, 8_192 * 1_048_576);
    assert_eq!(gpus[0].usage_percent, Milli(37_000));
    assert_eq!(gpus[0].temperature, Some(Milli(54_000)));
    assert_eq!(gpus[1].name, "Second Card");
    assert_eq!(gpus[1].vram_total, 1_048_576);
    assert_eq!(gpus[1].vram_used, 0);
    assert_eq!(gpus[1].vram_free, 3 * 1_048_576);
    assert_eq!(gpus[1].usage_percent, Milli(12_500));
    assert_eq!(gpus[1].temperature, Some(Milli(0)));
    assert!(parse_nvidia_gpu_info("").is_empty());
}

#[test]
fn nvidia_memory_is_held_within_range() {
    let gpus = parse_nvidia_gpu_info("card, 17592186044416, 17592186044415, 0, 0, 0");
    assert_eq!(gpus[0].vram_total, u64::MAX);
    assert_eq!(gpus[0].vram_used, 17_592_186_044_415 * 1_048_576);
}

#[test]
fn wmic_lines() {
    let output = "AdapterCompatibility  AdapterRAM  Name\r\n\
                  Intel(R) UHD Graphics 630  Intel  1073741824\r\n\
                  \r\n\
                  NVIDIA GeForce  NVIDIA  unknown\n\
                  two words\n";
    let gpus = parse_gpu_info(output);
    assert_eq!(gpus.len(), 2);
    assert_eq!(gpus[0].name, "Intel(R) UHD Graphics 630");
    assert_eq!(gpus[0].vendor, "Intel");
    assert_eq!(gpus[0].vram_total, 1_073_741_824);
    assert_eq!(gpus[0].vram_used, 0);
    assert_eq!(gpus[0].vram_free, 1_073_741_824);
    assert_eq!(gpus[0].usage_percent, Milli(0));
    assert_eq!(gpus[0].temperature, None);
    assert_eq!(gpus[1].name, "NVIDIA GeForce");
    assert_eq!(gpus[1].vendor, "NVIDIA");
    assert_eq!(gpus[1].vram_total, 0);
    assert!(parse_gpu_info("title only\n").is_empty());
    assert!(parse_gpu_info("").is_empty());
    assert_eq!(parse_gpu_info("title\na b 7").len(), 1);
    assert_eq!(parse_gpu_info("title\na b 7")[0].name, "a");
}

#[test]
fn gpu_commands() {
    let nvidia = nvidia_command();
    assert_eq!(nvidia.program, "nvidia-smi");
    assert_eq!(
        nvidia.arguments,
        vec![
            "--query-gpu=name,memory.total,memory.used,memory.free,utilization.gpu,temperature.gpu",
            "--format=csv,noheader,nounits",
        ]
    );
    let wmic = wmic_command();
    assert_eq!(wmic.program, "wmic");
    assert_eq!(
        wmic.arguments,
        vec!["path", "win32_VideoController", "get", "name,adaptercompatibility,adapterram"]
    );
    assert_eq!(first_gpu_command(Dialect::Windows).unwrap().program, "nvidia-smi");
    assert!(first_gpu_command(Dialect::Posix).is_none());
}

#[test]
fn gpu_steps() {
    let ran = |success: bool, stdout: &str| CommandOutcome::Finished {
        success,
        stdout: stdout.to_string(),
        stderr: String::new(),
    };
    let missing = CommandOutcome::NotStarted { reason: "none".to_string() };
    let found = gpus_from_nvidia(&ran(true, "a, 1, 2, 3, 4, 5")).unwrap();
    assert_eq!(found.len(), 1);
    assert!(gpus_from_nvidia(&ran(true, "")).unwrap().is_empty());
    assert!(gpus_from_nvidia(&ran(false, "a, 1, 2, 3, 4, 5")).is_none());
    assert!(gpus_from_nvidia(&missing).is_none());
    assert_eq!(gpus_from_wmic(&ran(true, "t\nname vendor 5")).len(), 1);
    assert!(gpus_from_wmic(&ran(false, "t\nname vendor 5")).is_empty());
    assert!(gpus_from_wmic(&missing).is_empty());
}
