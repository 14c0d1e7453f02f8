//! Descriptions of the host that collaborators hand through the library
//! unchanged.

use vstd::prelude::*;
use crate::numbers::Milli;
use crate::text::{clone_text, optional_text, texts};

verus! {

/// The operating system of the host.
#[derive(Debug)]
pub struct SystemInfo {
    pub os_name: String,
    pub os_version: String,
    pub hostname: String,
    pub kernel_version: String,
}

impl Clone for SystemInfo {
    fn clone(&self) -> (r: Self)
        ensures
            r == *self,
    {
        SystemInfo {
            os_name: self.os_name.clone(),
            os_version: self.os_version.clone(),
            hostname: self.hostname.clone(),
            kernel_version: self.kernel_version.clone(),
        }
    }
}

/// One network interface of the host.
#[derive(Debug)]
pub struct NetworkInterface {
    pub name: String,
    pub description: Option<String>,
    pub ip_address: Option<String>,
    pub mac_address: Option<String>,
    pub is_up: bool,
}

impl Clone for NetworkInterface {
    fn clone(&self) -> (r: Self)
        ensures
            r == *self,
    {
        NetworkInterface {
            name: self.name.clone(),
            description: clone_text(&self.description),
            ip_address: clone_text(&self.ip_address),
            mac_address: clone_text(&self.mac_address),
            is_up: self.is_up,
        }
    }
}

/// The network interfaces of the host and whether any of them is connected.
#[derive(Debug)]
pub struct NetworkStatus {
    pub is_connected: bool,
    pub interfaces: Vec<NetworkInterface>,
    pub local_ip: Option<String>,
    pub public_ip: Option<String>,
}

/// One audio endpoint of the host.
#[derive(Debug)]
pub struct AudioDevice {
    pub name: String,
    pub is_default: bool,
    pub is_input: bool,
    pub is_output: bool,
    pub volume: u32,
    pub is_muted: bool,
}

impl Clone for AudioDevice {
    fn clone(&self) -> (r: Self)
        ensures
            r == *self,
    {
        AudioDevice {
            name: self.name.clone(),
            is_default: self.is_default,
            is_input: self.is_input,
            is_output: self.is_output,
            volume: self.volume,
            is_muted: self.is_muted,
        }
    }
}

/// The characters of an optional string, `Unknown` for none.
pub open spec fn or_unknown(o: Option<String>) -> Seq<char> {
    match o {
        Some(s) => s@,
        None => "Unknown"@,
    }
}

fn text_or_unknown(o: Option<String>) -> (r: String)
    ensures
        r@ == or_unknown(o),
{
    match o {
        Some(s) => s,
        None => "Unknown".to_owned(),
    }
}

/// The operating system of the host, its texts as characters.
pub struct SystemInfoView {
    pub os_name: Seq<char>,
    pub os_version: Seq<char>,
    pub hostname: Seq<char>,
    pub kernel_version: Seq<char>,
}

impl View for SystemInfo {
    type V = SystemInfoView;

    open spec fn view(&self) -> SystemInfoView {
        SystemInfoView {
            os_name: self.os_name@,
            os_version: self.os_version@,
            hostname: self.hostname@,
            kernel_version: self.kernel_version@,
        }
    }
}

/// The description of the operating system from what the host could tell
/// of it: each part that it could not tell reads `Unknown`.
pub fn get_system_info(
    os_name: Option<String>,
    os_version: Option<String>,
    hostname: Option<String>,
    kernel_version: Option<String>,
) -> (r: SystemInfo)
    ensures
        r@ == (SystemInfoView {
            os_name: or_unknown(os_name),
            os_version: or_unknown(os_version),
            hostname: or_unknown(hostname),
            kernel_version: or_unknown(kernel_version),
        }),
{
    SystemInfo {
        os_name: text_or_unknown(os_name),
        os_version: text_or_unknown(os_version),
        hostname: text_or_unknown(hostname),
        kernel_version: text_or_unknown(kernel_version),
    }
}

/// A network interface, its texts as characters.
pub struct NetworkInterfaceView {
    pub name: Seq<char>,
    pub description: Option<Seq<char>>,
    pub ip_address: Option<Seq<char>>,
    pub mac_address: Option<Seq<char>>,
    pub is_up: bool,
}

impl View for NetworkInterface {
    type V = NetworkInterfaceView;

    open spec fn view(&self) -> NetworkInterfaceView {
        NetworkInterfaceView {
            name: self.name@,
            description: optional_text(self.description),
            ip_address: optional_text(self.ip_address),
            mac_address: optional_text(self.mac_address),
            is_up: self.is_up,
        }
    }
}

/// The network status of the host, its texts as characters.
pub struct NetworkStatusView {
    pub is_connected: bool,
    pub interfaces: Seq<NetworkInterfaceView>,
    pub local_ip: Option<Seq<char>>,
    pub public_ip: Option<Seq<char>>,
}

impl View for NetworkStatus {
    type V = NetworkStatusView;

    open spec fn view(&self) -> NetworkStatusView {
        NetworkStatusView {
            is_connected: self.is_connected,
            interfaces: self.interfaces@.map_values(|i: NetworkInterface| i@),
            local_ip: optional_text(self.local_ip),
            public_ip: optional_text(self.public_ip),
        }
    }
}

impl Clone for NetworkStatus {
    fn clone(&self) -> (r: Self)
        ensures
            r@ == self@,
    {
        let mut interfaces: Vec<NetworkInterface> = Vec::new();
        let mut i: usize = 0;
        while i < self.interfaces.len()
            invariant
                i <= self.interfaces.len(),
                interfaces@ == self.interfaces@.take(i as int),
            decreases self.interfaces.len() - i,
        {
            interfaces.push(self.interfaces[i].clone());
            assert(interfaces@ =~= self.interfaces@.take(i + 1));
            i += 1;
        }
        assert(self.interfaces@.take(i as int) =~= self.interfaces@);
        NetworkStatus {
            is_connected: self.is_connected,
            interfaces,
            local_ip: clone_text(&self.local_ip),
            public_ip: clone_text(&self.public_ip),
        }
    }
}

/// The address that stands for every interface while the host tells none.
pub open spec fn placeholder_address() -> Seq<char> {
    "192.168.1.100"@
}

/// The interface that a listed name stands for: up, with the placeholder
/// address.
pub open spec fn listed_interface(name: Seq<char>) -> NetworkInterfaceView {
    NetworkInterfaceView {
        name,
        description: None,
        ip_address: Some(placeholder_address()),
        mac_address: None,
        is_up: true,
    }
}

/// The network status that a list of interface names gives: one interface
/// for each name, and the host connected where there is any.
pub open spec fn status_of(names: Seq<Seq<char>>) -> NetworkStatusView {
    NetworkStatusView {
        is_connected: names.len() > 0,
        interfaces: names.map_values(|name: Seq<char>| listed_interface(name)),
        local_ip: if names.len() > 0 {
            Some(placeholder_address())
        } else {
            None
        },
        public_ip: None,
    }
}

/// The network status of a host with the interfaces `names`.
pub fn get_network_status(names: &Vec<String>) -> (r: NetworkStatus)
    ensures
        r@ == status_of(texts(names@)),
{
    let ghost listed = texts(names@);
    let mut interfaces: Vec<NetworkInterface> = Vec::new();
    let mut i: usize = 0;
    while i < names.len()
        invariant
            i <= names.len(),
            listed == texts(names@),
            interfaces.len() == i,
            forall|j: int| 0 <= j < i ==> (#[trigger] interfaces@[j])@ == listed_interface(listed[j]),
        decreases names.len() - i,
    {
        interfaces.push(
            NetworkInterface {
                name: names[i].clone(),
                description: None,
                ip_address: Some("192.168.1.100".to_owned()),
                mac_address: None,
                is_up: true,
            },
        );
        i += 1;
    }
    let local_ip = if names.len() > 0 {
        Some("192.168.1.100".to_owned())
    } else {
        None
    };
    let r = NetworkStatus { is_connected: names.len() > 0, interfaces, local_ip, public_ip: None };
    assert(r@.interfaces =~= status_of(listed).interfaces);
    r
}

/// An audio endpoint, its name as characters.
pub struct AudioDeviceView {
    pub name: Seq<char>,
    pub is_default: bool,
    pub is_input: bool,
    pub is_output: bool,
    pub volume: u32,
    pub is_muted: bool,
}

impl View for AudioDevice {
    type V = AudioDeviceView;

    open spec fn view(&self) -> AudioDeviceView {
        AudioDeviceView {
            name: self.name@,
            is_default: self.is_default,
            is_input: self.is_input,
            is_output: self.is_output,
            volume: self.volume,
            is_muted: self.is_muted,
        }
    }
}

/// The name of the default device of one direction: `None` where the host
/// has none, the empty name where it has one whose name cannot be read.
pub open spec fn default_name(default: Option<Option<String>>) -> Option<Seq<char>> {
    match default {
        Some(Some(name)) => Some(name@),
        Some(None) => Some(Seq::empty()),
        None => None,
    }
}

/// The device that a readable name stands for; `None` for a device whose
/// name cannot be read. Volume and mute state are not known and read zero
/// and unmuted.
pub open spec fn device_of(
    name: Option<String>,
    default: Option<Seq<char>>,
    is_input: bool,
) -> Option<AudioDeviceView> {
    match name {
        Some(n) => Some(
            AudioDeviceView {
                name: n@,
                is_default: default == Some(n@),
                is_input,
                is_output: !is_input,
                volume: 0,
                is_muted: false,
            },
        ),
        None => None,
    }
}

/// The devices of one direction, those without a readable name left out.
pub open spec fn devices_of(
    names: Seq<Option<String>>,
    default: Option<Seq<char>>,
    is_input: bool,
) -> Seq<AudioDeviceView> {
    names.filter_map(|name: Option<String>| device_of(name, default, is_input))
}

/// The views of a list of audio endpoints.
pub open spec fn audio_device_views(devices: Seq<AudioDevice>) -> Seq<AudioDeviceView> {
    devices.map_values(|d: AudioDevice| d@)
}

fn push_devices(
    out: &mut Vec<AudioDevice>,
    names: &Vec<Option<String>>,
    default: &Option<Option<String>>,
    is_input: bool,
)
    ensures
        audio_device_views(final(out)@) == audio_device_views(old(out)@) + devices_of(
            names@,
            default_name(*default),
            is_input,
        ),
{
    let ghost before = audio_device_views(out@);
    let ghost wanted = default_name(*default);
    let ghost f = |name: Option<String>| device_of(name, wanted, is_input);
    let missing = String::new();
    let mut i: usize = 0;
    assert(audio_device_views(out@) =~= before + names@.take(0).filter_map(f));
    while i < names.len()
        invariant
            i <= names.len(),
            missing@ == Seq::<char>::empty(),
            wanted == default_name(*default),
            f == |name: Option<String>| device_of(name, wanted, is_input),
            audio_device_views(out@) == before + names@.take(i as int).filter_map(f),
        decreases names.len() - i,
    {
        proof {
            names@.lemma_filter_map_take_succ(f, i as int);
        }
        let ghost held = out@;
        match &names[i] {
            Some(name) => {
                let is_default = match default {
                    Some(Some(d)) => *d == *name,
                    Some(None) => missing == *name,
                    None => false,
                };
                let device = AudioDevice {
                    name: name.clone(),
                    is_default,
                    is_input,
                    is_output: !is_input,
                    volume: 0,
                    is_muted: false,
                };
                out.push(device);
                assert(audio_device_views(out@) =~= audio_device_views(held).push(
                    device_of(names@[i as int], wanted, is_input).unwrap(),
                ));
            },
            None => {},
        }
        i += 1;
    }
    assert(names@.take(i as int) =~= names@);
}

/// The audio devices of the host: the inputs, then the outputs, each list
/// in the order given. A device is the default of its direction where its
/// name is that of the default device.
pub fn get_audio_devices(
    inputs: &Vec<Option<String>>,
    default_input: &Option<Option<String>>,
    outputs: &Vec<Option<String>>,
    default_output: &Option<Option<String>>,
) -> (r: Vec<AudioDevice>)
    ensures
        audio_device_views(r@) == devices_of(inputs@, default_name(*default_input), true)
            + devices_of(outputs@, default_name(*default_output), false),
{
    let mut devices: Vec<AudioDevice> = Vec::new();
    assert(audio_device_views(devices@) =~= Seq::<AudioDeviceView>::empty());
    push_devices(&mut devices, inputs, default_input, true);
    push_devices(&mut devices, outputs, default_output, false);
    devices
}

/// The processor of the host.
#[derive(Debug)]
pub struct CpuInfo {
    pub name: String,
    pub vendor_id: String,
    pub brand: String,
    pub cores: usize,
    pub physical_cores: usize,
    pub frequency: u64,
    pub usage: Milli,
    pub temperature: Option<Milli>,
}

/// The processor of the host, its texts as characters.
pub struct CpuInfoView {
    pub name: Seq<char>,
    pub vendor_id: Seq<char>,
    pub brand: Seq<char>,
    pub cores: usize,
    pub physical_cores: usize,
    pub frequency: u64,
    pub usage: Milli,
    pub temperature: Option<Milli>,
}

impl View for CpuInfo {
    type V = CpuInfoView;

    open spec fn view(&self) -> CpuInfoView {
        CpuInfoView {
            name: self.name@,
            vendor_id: self.vendor_id@,
            brand: self.brand@,
            cores: self.cores,
            physical_cores: self.physical_cores,
            frequency: self.frequency,
            usage: self.usage,
            temperature: self.temperature,
        }
    }
}

impl Clone for CpuInfo {
    fn clone(&self) -> (r: Self)
        ensures
            r == *self,
    {
        CpuInfo {
            name: self.name.clone(),
            vendor_id: self.vendor_id.clone(),
            brand: self.brand.clone(),
            cores: self.cores,
            physical_cores: self.physical_cores,
            frequency: self.frequency,
            usage: self.usage,
            temperature: self.temperature,
        }
    }
}

/// The description of the processor from what the host tells of it: a count
/// of physical cores that it cannot tell reads zero, and the temperature is
/// not known.
pub fn get_cpu_info(
    name: String,
    vendor_id: String,
    brand: String,
    cores: usize,
    physical_cores: Option<usize>,
    frequency: u64,
    usage: Milli,
) -> (r: CpuInfo)
    ensures
        r@ == (CpuInfoView {
            name: name@,
            vendor_id: vendor_id@,
            brand: brand@,
            cores,
            physical_cores: match physical_cores {
                Some(n) => n,
                None => 0,
            },
            frequency,
            usage,
            temperature: None,
        }),
{
    let counted = match physical_cores {
        Some(n) => n,
        None => 0,
    };
    CpuInfo {
        name,
        vendor_id,
        brand,
        cores,
        physical_cores: counted,
        frequency,
        usage,
        temperature: None,
    }
}

/// What is in use of `total` where `available` is not: their difference,
/// nothing where more is available than there is in all.
pub open spec fn used_of(total: u64, available: u64) -> u64 {
    if available <= total {
        (total - available) as u64
    } else {
        0
    }
}

/// The share of `used` in `total` as a percentage in thousandths, rounded
/// down and held within `u64`; zero where `total` is zero.
pub open spec fn share_of(used: u64, total: u64) -> Milli {
    if total == 0 {
        Milli(0)
    } else if used * 100_000 / (total as int) > u64::MAX {
        Milli(u64::MAX)
    } else {
        Milli((used * 100_000 / (total as int)) as u64)
    }
}

/// The share of `used` in `total` as a percentage.
pub fn usage_share(used: u64, total: u64) -> (r: Milli)
    ensures
        r == share_of(used, total),
{
    if total == 0 {
        return Milli(0);
    }
    let wide: u128 = used as u128 * 100_000 / total as u128;
    if wide > u64::MAX as u128 {
        Milli(u64::MAX)
    } else {
        Milli(wide as u64)
    }
}

/// The memory of the host.
#[derive(Clone, Copy, Debug, PartialEq, Eq, Structural)]
pub struct MemoryInfo {
    pub total: u64,
    pub available: u64,
    pub used: u64,
    pub free: u64,
    pub usage_percent: Milli,
}

/// The description of the memory from the three figures that the host
/// tells: what is in use is what is not available, and its share of the
/// total is the usage.
pub fn get_memory_info(total: u64, available: u64, free: u64) -> (r: MemoryInfo)
    ensures
        r == (MemoryInfo {
            total,
            available,
            used: used_of(total, available),
            free,
            usage_percent: share_of(used_of(total, available), total),
        }),
{
    let used: u64 = if available <= total {
        total - available
    } else {
        0
    };
    MemoryInfo { total, available, used, free, usage_percent: usage_share(used, total) }
}

/// What the host tells of one disk.
#[derive(Debug)]
pub struct DiskReading {
    pub name: String,
    pub mount_point: String,
    pub total_space: u64,
    pub available_space: u64,
    pub file_system: String,
    pub is_removable: bool,
}

/// One disk of the host.
#[derive(Debug)]
pub struct DiskInfo {
    pub name: String,
    pub mount_point: String,
    pub total_space: u64,
    pub available_space: u64,
    pub used_space: u64,
    pub usage_percent: Milli,
    pub file_system: String,
    pub is_removable: bool,
}

/// One disk of the host, its texts as characters.
pub struct DiskInfoView {
    pub name: Seq<char>,
    pub mount_point: Seq<char>,
    pub total_space: u64,
    pub available_space: u64,
    pub used_space: u64,
    pub usage_percent: Milli,
    pub file_system: Seq<char>,
    pub is_removable: bool,
}

impl View for DiskInfo {
    type V = DiskInfoView;

    open spec fn view(&self) -> DiskInfoView {
        DiskInfoView {
            name: self.name@,
            mount_point: self.mount_point@,
            total_space: self.total_space,
            available_space: self.available_space,
            used_space: self.used_space,
            usage_percent: self.usage_percent,
            file_system: self.file_system@,
            is_removable: self.is_removable,
        }
    }
}

impl Clone for DiskInfo {
    fn clone(&self) -> (r: Self)
        ensures
            r == *self,
    {
        DiskInfo {
            name: self.name.clone(),
            mount_point: self.mount_point.clone(),
            total_space: self.total_space,
            available_space: self.available_space,
            used_space: self.used_space,
            usage_percent: self.usage_percent,
            file_system: self.file_system.clone(),
            is_removable: self.is_removable,
        }
    }
}

/// The description of a disk from what the host tells of it.
pub open spec fn disk_of(reading: DiskReading) -> DiskInfoView {
    DiskInfoView {
        name: reading.name@,
        mount_point: reading.mount_point@,
        total_space: reading.total_space,
        available_space: reading.available_space,
        used_space: used_of(reading.total_space, reading.available_space),
        usage_percent: share_of(
            used_of(reading.total_space, reading.available_space),
            reading.total_space,
        ),
        file_system: reading.file_system@,
        is_removable: reading.is_removable,
    }
}

/// The views of a list of disks.
pub open spec fn disk_info_views(disks: Seq<DiskInfo>) -> Seq<DiskInfoView> {
    disks.map_values(|d: DiskInfo| d@)
}

/// The descriptions of the disks of the host, in the order in which the
/// host tells them.
pub fn get_disk_info(readings: &Vec<DiskReading>) -> (r: Vec<DiskInfo>)
    ensures
        disk_info_views(r@) == readings@.map_values(|reading: DiskReading| disk_of(reading)),
{
    let mut disks: Vec<DiskInfo> = Vec::new();
    let mut i: usize = 0;
    while i < readings.len()
        invariant
            i <= readings.len(),
            disks.len() == i,
            forall|j: int| 0 <= j < i ==> (#[trigger] disks@[j])@ == disk_of(readings@[j]),
        decreases readings.len() - i,
    {
        let reading = &readings[i];
        let used_space: u64 = if reading.available_space <= reading.total_space {
            reading.total_space - reading.available_space
        } else {
            0
        };
        disks.push(
            DiskInfo {
                name: reading.name.clone(),
                mount_point: reading.mount_point.clone(),
                total_space: reading.total_space,
                available_space: reading.available_space,
                used_space,
                usage_percent: usage_share(used_space, reading.total_space),
                file_system: reading.file_system.clone(),
                is_removable: reading.is_removable,
            },
        );
        i += 1;
    }
    assert(disk_info_views(disks@) =~= readings@.map_values(
        |reading: DiskReading| disk_of(reading),
    ));
    disks
}

} // verus!
