//! The records that the collectors fill and the interface shows.
use vstd::prelude::*;

verus! {

/// The kind of a mapped memory region of a process.
#[derive(Debug, Clone, Copy, PartialEq, Eq, Structural, Hash)]
pub enum RegionType {
    Stack,
    Heap,
    Code,
    Dylib,
    Anonymous,
    MappedFile,
}

/// The short name shown for a region kind.
pub open spec fn region_label(t: RegionType) -> Seq<char> {
    match t {
        RegionType::Stack => "Stack"@,
        RegionType::Heap => "Heap"@,
        RegionType::Code => "Code"@,
        RegionType::Dylib => "Dylib"@,
        RegionType::Anonymous => "Anon"@,
        RegionType::MappedFile => "File"@,
    }
}

impl RegionType {
    /// The short name shown for this region kind.
    pub fn label(&self) -> (r: &'static str)
        ensures
            r@ == region_label(*self),
    {
        match self {
            RegionType::Stack => "Stack",
            RegionType::Heap => "Heap",
            RegionType::Code => "Code",
            RegionType::Dylib => "Dylib",
            RegionType::Anonymous => "Anon",
            RegionType::MappedFile => "File",
        }
    }
}

/// The colour in which the interface draws something.
#[derive(Debug, Clone, Copy, PartialEq, Eq, Structural)]
pub enum Tint {
    Red,
    Green,
    Blue,
    Cyan,
    DarkGray,
    Yellow,
}

/// The colour of a region kind.
pub open spec fn region_tint(t: RegionType) -> Tint {
    match t {
        RegionType::Stack => Tint::Red,
        RegionType::Heap => Tint::Green,
        RegionType::Code => Tint::Blue,
        RegionType::Dylib => Tint::Cyan,
        RegionType::Anonymous => Tint::DarkGray,
        RegionType::MappedFile => Tint::Yellow,
    }
}

/// The character that stands for a region kind on the address-space map.
pub open spec fn region_glyph(t: RegionType) -> char {
    match t {
        RegionType::Stack => '█',
        RegionType::Heap => '▓',
        RegionType::Code => '▒',
        RegionType::Dylib => '░',
        RegionType::Anonymous => '·',
        RegionType::MappedFile => '▪',
    }
}

impl RegionType {
    /// The colour in which this region kind is drawn.
    pub fn color(&self) -> (r: Tint)
        ensures
            r == region_tint(*self),
    {
        match self {
            RegionType::Stack => Tint::Red,
            RegionType::Heap => Tint::Green,
            RegionType::Code => Tint::Blue,
            RegionType::Dylib => Tint::Cyan,
            RegionType::Anonymous => Tint::DarkGray,
            RegionType::MappedFile => Tint::Yellow,
        }
    }

    /// The character that stands for this region kind on the address-space
    /// map.
    pub fn glyph(&self) -> (r: char)
        ensures
            r == region_glyph(*self),
    {
        match self {
            RegionType::Stack => '█',
            RegionType::Heap => '▓',
            RegionType::Code => '▒',
            RegionType::Dylib => '░',
            RegionType::Anonymous => '·',
            RegionType::MappedFile => '▪',
        }
    }
}

/// Page counters reported by `vm_stat`.
#[derive(Debug, Clone)]
pub struct VmStatData {
    pub page_size: u64,
    pub free: u64,
    pub active: u64,
    pub inactive: u64,
    pub speculative: u64,
    pub wired: u64,
    pub compressor: u64,
    pub purgeable: u64,
    pub throttled: u64,
    pub reactivated: u64,
    pub pageins: u64,
    pub pageouts: u64,
    pub faults: u64,
    pub copy_on_write: u64,
    pub zero_fill: u64,
    pub compressions: u64,
    pub decompressions: u64,
    pub swapins: u64,
    pub swapouts: u64,
}

/// One mapped region of a process's address space.
#[derive(Debug, Clone)]
pub struct ProcessRegion {
    pub start: usize,
    pub end: usize,
    pub size: usize,
    pub perms: String,
    pub region_type: RegionType,
    pub name: String,
}

/// The summary that `top -l 1` prints. The CPU shares are kept as the text of
/// their numbers (without the `%` sign); the program reads them as decimals.
#[derive(Debug, Clone)]
pub struct TopStats {
    pub processes: u32,
    pub threads: u32,
    pub running: u32,
    pub sleeping: u32,
    pub cpu_user: String,
    pub cpu_sys: String,
    pub cpu_idle: String,
    pub sharedlibs_resident: String,
    pub sharedlibs_data: String,
    pub mem_regions_total: u64,
    pub mem_regions_resident: String,
    pub mem_regions_private: String,
    pub mem_regions_shared: String,
    pub phys_used: String,
    pub phys_wired: String,
    pub phys_compressor: String,
    pub phys_unused: String,
    pub vm_vsize: String,
    pub net_packets_in: String,
    pub net_bytes_in: String,
    pub net_packets_out: String,
    pub net_bytes_out: String,
    pub disk_reads: String,
    pub disk_read_bytes: String,
    pub disk_writes: String,
    pub disk_write_bytes: String,
    pub top_procs: Vec<(String, String, String)>,
}

/// Swap usage as `sysctl vm.swapusage` reports it.
#[derive(Debug, Clone)]
pub struct SwapInfo {
    pub total: String,
    pub used: String,
    pub free: String,
    pub encrypted: bool,
}

/// Processor details read from `sysctl`.
#[derive(Debug, Clone)]
pub struct CpuDetailedInfo {
    pub brand: String,
    pub arch: String,
    pub core_count: u64,
    pub thread_count: u64,
    pub cores_per_package: u64,
    pub cache_line_size: u64,
    pub l1i_cache: u64,
    pub l1d_cache: u64,
    pub l2_cache: u64,
    pub l3_cache: u64,
    pub num_perf_levels: u64,
    pub perf_cores: u64,
    pub efficiency_cores: u64,
    pub perf_l1i: u64,
    pub perf_l1d: u64,
    pub perf_l2: u64,
    pub eff_l1i: u64,
    pub eff_l1d: u64,
    pub eff_l2: u64,
    pub page_size: u64,
    pub phys_mem: u64,
    pub features: Vec<String>,
}

/// A mounted volume.
#[derive(Debug, Clone)]
pub struct DiskInfo {
    pub name: String,
    pub mount_point: String,
    pub fs_type: String,
    pub total: u64,
    pub used: u64,
    pub available: u64,
    pub is_removable: bool,
}

/// One entry of a directory listing.
#[derive(Debug, Clone)]
pub struct FileEntry {
    pub name: String,
    pub path: String,
    pub size: u64,
    pub is_dir: bool,
    pub is_system: bool,
}

/// What the disk tab shows.
#[derive(Debug, Clone, Copy, PartialEq, Eq, Structural)]
pub enum DiskMode {
    Partitions,
    Files,
}

/// The order of a directory listing.
#[derive(Debug, Clone, Copy, PartialEq, Eq, Structural)]
pub enum SortMode {
    SizeDsc,
    SizeAsc,
    NameAsc,
    NameDsc,
}

/// Hardware details of the boot disk, from `diskutil info`.
#[derive(Debug, Clone)]
pub struct DiskHwInfo {
    pub device_name: String,
    pub media_name: String,
    pub protocol: String,
    pub smart_status: String,
    pub disk_size: String,
    pub block_size: String,
    pub content: String,
}

/// A network interface with its counters.
#[derive(Debug, Clone)]
pub struct NetInterface {
    pub name: String,
    pub mtu: u32,
    pub ip: String,
    pub pkts_in: u64,
    pub bytes_in: u64,
    pub errs_in: u64,
    pub pkts_out: u64,
    pub bytes_out: u64,
    pub errs_out: u64,
    pub status: String,
}

/// An open network connection, from `lsof -i`.
#[derive(Debug, Clone)]
pub struct NetConnection {
    pub pid: u32,
    pub process: String,
    pub fd: String,
    pub proto: String,
    pub local_addr: String,
    pub remote_addr: String,
    pub state: String,
}

/// Graphics and display details.
#[derive(Debug, Clone)]
pub struct GpuInfo {
    pub chipset: String,
    pub gpu_type: String,
    pub bus: String,
    pub cores: String,
    pub vendor: String,
    pub metal: String,
    pub display_type: String,
    pub resolution: String,
    pub display_name: String,
}

/// Battery state and health.
#[derive(Debug, Clone)]
pub struct BatteryInfo {
    pub level: String,
    pub state: String,
    pub remaining: String,
    pub cycle_count: String,
    pub condition: String,
    pub voltage: String,
    pub amperage: String,
    pub temperature: String,
    pub max_capacity: String,
    pub design_capacity: String,
    pub present: bool,
}

/// Host and kernel identification.
#[derive(Debug, Clone)]
pub struct SysInfo {
    pub hostname: String,
    pub os_type: String,
    pub os_release: String,
    pub os_build: String,
    pub boot_time: String,
    pub uptime: String,
    pub hw_model: String,
}

/// A connected camera.
#[derive(Debug, Clone)]
pub struct CameraInfo {
    pub name: String,
    pub model_id: String,
    pub unique_id: String,
}

/// A process as `ps` lists it. The CPU and memory shares are kept as the text
/// of their numbers; the program reads them as decimals.
#[derive(Debug, Clone)]
pub struct ProcessInfo {
    pub pid: u32,
    pub ppid: u32,
    pub user: String,
    pub cpu: String,
    pub mem: String,
    pub rss: String,
    pub vsize: String,
    pub state: String,
    pub threads: u32,
    pub command: String,
    pub started: String,
}

/// The Bluetooth controller and its devices.
#[derive(Debug, Clone)]
pub struct BluetoothInfo {
    pub address: String,
    pub chipset: String,
    pub firmware: String,
    pub transport: String,
    pub discoverable: bool,
    pub state: String,
    pub vendor: String,
    pub services: String,
    pub devices: Vec<BtDevice>,
}

/// A Bluetooth device known to the controller.
#[derive(Debug, Clone)]
pub struct BtDevice {
    pub name: String,
    pub address: String,
    pub device_type: String,
    pub firmware: String,
    pub connected: bool,
}

/// A USB device.
#[derive(Debug, Clone)]
pub struct UsbDevice {
    pub name: String,
    pub vendor: String,
    pub product_id: String,
    pub vendor_id: String,
    pub speed: String,
    pub bus_power: String,
    pub serial: String,
    pub location: String,
}

/// A Thunderbolt device or port.
#[derive(Debug, Clone)]
pub struct ThunderboltInfo {
    pub device_name: String,
    pub speed: String,
    pub uuid: String,
    pub link_status: String,
}

/// An audio device.
#[derive(Debug, Clone)]
pub struct AudioDevice {
    pub name: String,
    pub manufacturer: String,
    pub sample_rate: u32,
    pub channels: u32,
    pub transport: String,
    pub is_input: bool,
    pub is_default: bool,
}

/// System protection settings.
#[derive(Debug, Clone)]
pub struct SecurityInfo {
    pub sip_enabled: bool,
    pub gatekeeper_enabled: bool,
    pub filevault_enabled: bool,
    pub firewall_enabled: bool,
    pub firewall_stealth: bool,
    pub firewall_block_all: bool,
    pub sip_status: String,
    pub gatekeeper_status: String,
    pub filevault_status: String,
    pub firewall_status: String,
}

/// A launchd job.
#[derive(Debug, Clone)]
pub struct ServiceInfo {
    pub pid: i32,
    pub label: String,
    pub last_exit: i32,
}

/// The Wi-Fi interface and its current network.
#[derive(Debug, Clone)]
pub struct WifiInfo {
    pub interface: String,
    pub ssid: String,
    pub bssid: String,
    pub channel: String,
    pub rssi: String,
    pub noise: String,
    pub tx_rate: String,
    pub security_type: String,
    pub phy_mode: String,
    pub country_code: String,
    pub hardware: String,
}

/// A temperature or thermal-level reading. `reading` is the text of the
/// number as the tool printed it, and the value shown is that number divided
/// by `scale`.
#[derive(Debug, Clone)]
pub struct ThermalEntry {
    pub name: String,
    pub reading: String,
    pub scale: u32,
    pub category: String,
}

/// Thermal readings and the memory-pressure level.
#[derive(Debug, Clone)]
pub struct ThermalInfo {
    pub entries: Vec<ThermalEntry>,
    pub thermal_pressure: String,
}

} // verus!

verus! {

/// The mathematical content of a [`CameraInfo`].
pub struct CameraInfoV {
    pub name: Seq<char>,
    pub model_id: Seq<char>,
    pub unique_id: Seq<char>,
}

impl View for CameraInfo {
    type V = CameraInfoV;

    open spec fn view(&self) -> CameraInfoV {
        CameraInfoV { name: self.name@, model_id: self.model_id@, unique_id: self.unique_id@ }
    }
}

} // verus!

verus! {

/// The mathematical content of a [`NetInterface`].
pub struct NetInterfaceV {
    pub name: Seq<char>,
    pub mtu: u32,
    pub ip: Seq<char>,
    pub pkts_in: u64,
    pub bytes_in: u64,
    pub errs_in: u64,
    pub pkts_out: u64,
    pub bytes_out: u64,
    pub errs_out: u64,
    pub status: Seq<char>,
}

impl View for NetInterface {
    type V = NetInterfaceV;

    open spec fn view(&self) -> NetInterfaceV {
        NetInterfaceV {
            name: self.name@,
            mtu: self.mtu,
            ip: self.ip@,
            pkts_in: self.pkts_in,
            bytes_in: self.bytes_in,
            errs_in: self.errs_in,
            pkts_out: self.pkts_out,
            bytes_out: self.bytes_out,
            errs_out: self.errs_out,
            status: self.status@,
        }
    }
}

/// The mathematical content of a [`NetConnection`].
pub struct NetConnectionV {
    pub pid: u32,
    pub process: Seq<char>,
    pub fd: Seq<char>,
    pub proto: Seq<char>,
    pub local_addr: Seq<char>,
    pub remote_addr: Seq<char>,
    pub state: Seq<char>,
}

impl View for NetConnection {
    type V = NetConnectionV;

    open spec fn view(&self) -> NetConnectionV {
        NetConnectionV {
            pid: self.pid,
            process: self.process@,
            fd: self.fd@,
            proto: self.proto@,
            local_addr: self.local_addr@,
            remote_addr: self.remote_addr@,
            state: self.state@,
        }
    }
}

/// The mathematical content of a [`ProcessInfo`].
pub struct ProcessInfoV {
    pub pid: u32,
    pub ppid: u32,
    pub user: Seq<char>,
    pub cpu: Seq<char>,
    pub mem: Seq<char>,
    pub rss: Seq<char>,
    pub vsize: Seq<char>,
    pub state: Seq<char>,
    pub threads: u32,
    pub command: Seq<char>,
    pub started: Seq<char>,
}

impl View for ProcessInfo {
    type V = ProcessInfoV;

    open spec fn view(&self) -> ProcessInfoV {
        ProcessInfoV {
            pid: self.pid,
            ppid: self.ppid,
            user: self.user@,
            cpu: self.cpu@,
            mem: self.mem@,
            rss: self.rss@,
            vsize: self.vsize@,
            state: self.state@,
            threads: self.threads,
            command: self.command@,
            started: self.started@,
        }
    }
}

/// The mathematical content of a [`ServiceInfo`].
pub struct ServiceInfoV {
    pub pid: i32,
    pub label: Seq<char>,
    pub last_exit: i32,
}

impl View for ServiceInfo {
    type V = ServiceInfoV;

    open spec fn view(&self) -> ServiceInfoV {
        ServiceInfoV {
            pid: self.pid,
            label: self.label@,
            last_exit: self.last_exit,
        }
    }
}

/// The mathematical content of a [`BtDevice`].
pub struct BtDeviceV {
    pub name: Seq<char>,
    pub address: Seq<char>,
    pub device_type: Seq<char>,
    pub firmware: Seq<char>,
    pub connected: bool,
}

impl View for BtDevice {
    type V = BtDeviceV;

    open spec fn view(&self) -> BtDeviceV {
        BtDeviceV {
            name: self.name@,
            address: self.address@,
            device_type: self.device_type@,
            firmware: self.firmware@,
            connected: self.connected,
        }
    }
}

/// The mathematical content of a [`UsbDevice`].
pub struct UsbDeviceV {
    pub name: Seq<char>,
    pub vendor: Seq<char>,
    pub product_id: Seq<char>,
    pub vendor_id: Seq<char>,
    pub speed: Seq<char>,
    pub bus_power: Seq<char>,
    pub serial: Seq<char>,
    pub location: Seq<char>,
}

impl View for UsbDevice {
    type V = UsbDeviceV;

    open spec fn view(&self) -> UsbDeviceV {
        UsbDeviceV {
            name: self.name@,
            vendor: self.vendor@,
            product_id: self.product_id@,
            vendor_id: self.vendor_id@,
            speed: self.speed@,
            bus_power: self.bus_power@,
            serial: self.serial@,
            location: self.location@,
        }
    }
}

/// The mathematical content of a [`ThunderboltInfo`].
pub struct ThunderboltInfoV {
    pub device_name: Seq<char>,
    pub speed: Seq<char>,
    pub uuid: Seq<char>,
    pub link_status: Seq<char>,
}

impl View for ThunderboltInfo {
    type V = ThunderboltInfoV;

    open spec fn view(&self) -> ThunderboltInfoV {
        ThunderboltInfoV {
            device_name: self.device_name@,
            speed: self.speed@,
            uuid: self.uuid@,
            link_status: self.link_status@,
        }
    }
}

/// The mathematical content of a [`AudioDevice`].
pub struct AudioDeviceV {
    pub name: Seq<char>,
    pub manufacturer: Seq<char>,
    pub sample_rate: u32,
    pub channels: u32,
    pub transport: Seq<char>,
    pub is_input: bool,
    pub is_default: bool,
}

impl View for AudioDevice {
    type V = AudioDeviceV;

    open spec fn view(&self) -> AudioDeviceV {
        AudioDeviceV {
            name: self.name@,
            manufacturer: self.manufacturer@,
            sample_rate: self.sample_rate,
            channels: self.channels,
            transport: self.transport@,
            is_input: self.is_input,
            is_default: self.is_default,
        }
    }
}

/// The mathematical content of a [`ThermalEntry`].
pub struct ThermalEntryV {
    pub name: Seq<char>,
    pub reading: Seq<char>,
    pub scale: u32,
    pub category: Seq<char>,
}

impl View for ThermalEntry {
    type V = ThermalEntryV;

    open spec fn view(&self) -> ThermalEntryV {
        ThermalEntryV {
            name: self.name@,
            reading: self.reading@,
            scale: self.scale,
            category: self.category@,
        }
    }
}

/// The mathematical content of a [`FileEntry`].
pub struct FileEntryV {
    pub name: Seq<char>,
    pub path: Seq<char>,
    pub size: u64,
    pub is_dir: bool,
    pub is_system: bool,
}

impl View for FileEntry {
    type V = FileEntryV;

    open spec fn view(&self) -> FileEntryV {
        FileEntryV {
            name: self.name@,
            path: self.path@,
            size: self.size,
            is_dir: self.is_dir,
            is_system: self.is_system,
        }
    }
}

} // verus!
