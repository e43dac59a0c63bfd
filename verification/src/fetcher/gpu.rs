//! The graphics adapter as the fetcher reports it.

use vstd::prelude::*;

verus! {

/// A fan of the adapter: its speed in percent.
#[derive(Debug)]
pub struct GpuFan {
    pub speed: u32,
}

/// The memory of the adapter in bytes.
#[derive(Debug)]
pub struct GpuMemory {
    pub free: u64,
    pub total: u64,
    pub used: u64,
}

/// What is reported of a graphics adapter.
#[derive(Debug)]
pub struct Gpu {
    pub name: String,
    pub arch: String,
    pub brand: String,
    pub graphic_clock: u32,
    pub memory_clock: u32,
    pub video_clock: u32,
    pub memory: GpuMemory,
    pub fans: Vec<GpuFan>,
    pub power_limit: u32,
    pub encoder_utilization: u32,
    pub bus_type: String,
    pub cores: u32,
    pub power_usage: u32,
    pub temperature: u32,
}

/// The kinds of bus that an adapter sits on.
#[derive(Clone, Copy, Debug, PartialEq, Eq, Structural)]
pub enum BusType {
    Agp,
    Pci,
    Fpci,
    Pcie,
    Unknown,
}

/// The brands of adapters.
#[derive(Clone, Copy, Debug, PartialEq, Eq, Structural)]
pub enum Brand {
    GeForce,
    Quadro,
    Tesla,
    NVS,
    GRID,
    CloudGaming,
    GeForceRTX,
    TitanRTX,
    QuadroRTX,
    Unknown,
    NvidiaRTX,
    VPC,
    VCS,
    VWS,
    VApps,
    VGaming,
    Nvidia,
    Titan,
}

/// The name of a kind of bus.
pub open spec fn bus_name(value: BusType) -> Seq<char> {
    match value {
        BusType::Agp => "AGP"@,
        BusType::Pci => "PCI"@,
        BusType::Fpci => "FPCI"@,
        BusType::Pcie => "PCIe"@,
        BusType::Unknown => "Unknown"@,
    }
}

/// Gives the name of a kind of bus.
pub fn bus_to_str(value: BusType) -> (name: String)
    ensures
        name@ == bus_name(value),
{
    match value {
        BusType::Agp => String::from_str("AGP"),
        BusType::Pci => String::from_str("PCI"),
        BusType::Fpci => String::from_str("FPCI"),
        BusType::Pcie => String::from_str("PCIe"),
        BusType::Unknown => String::from_str("Unknown"),
    }
}

/// The name of a brand.
pub open spec fn brand_name(value: Brand) -> Seq<char> {
    match value {
        Brand::GeForce => "GeForce"@,
        Brand::Quadro => "Quadro"@,
        Brand::Tesla => "Tesla"@,
        Brand::NVS => "NVS"@,
        Brand::GRID => "GRID"@,
        Brand::CloudGaming => "Cloud Gaming"@,
        Brand::GeForceRTX => "GeForce RTX"@,
        Brand::TitanRTX => "Titan RTX"@,
        Brand::QuadroRTX => "Quadro RTX"@,
        Brand::Unknown => "Unknown"@,
        Brand::NvidiaRTX => "Nvidia RTX"@,
        Brand::VPC => "VPC"@,
        Brand::VCS => "VCS"@,
        Brand::VWS => "VWS"@,
        Brand::VApps => "VApps"@,
        Brand::VGaming => "VGaming"@,
        Brand::Nvidia => "Nvidia"@,
        Brand::Titan => "Titan"@,
    }
}

/// Gives the name of a brand.
pub fn brand_to_str(value: Brand) -> (name: String)
    ensures
        name@ == brand_name(value),
{
    match value {
        Brand::GeForce => String::from_str("GeForce"),
        Brand::Quadro => String::from_str("Quadro"),
        Brand::Tesla => String::from_str("Tesla"),
        Brand::NVS => String::from_str("NVS"),
        Brand::GRID => String::from_str("GRID"),
        Brand::CloudGaming => String::from_str("Cloud Gaming"),
        Brand::GeForceRTX => String::from_str("GeForce RTX"),
        Brand::TitanRTX => String::from_str("Titan RTX"),
        Brand::QuadroRTX => String::from_str("Quadro RTX"),
        Brand::Unknown => String::from_str("Unknown"),
        Brand::NvidiaRTX => String::from_str("Nvidia RTX"),
        Brand::VPC => String::from_str("VPC"),
        Brand::VCS => String::from_str("VCS"),
        Brand::VWS => String::from_str("VWS"),
        Brand::VApps => String::from_str("VApps"),
        Brand::VGaming => String::from_str("VGaming"),
        Brand::Nvidia => String::from_str("Nvidia"),
        Brand::Titan => String::from_str("Titan"),
    }
}

/// Whether a report is the one that is made of an adapter of which nothing is
/// known: every text is `Unknown`, every number is 0, and there is one fan.
pub open spec fn is_unknown_gpu(gpu: Gpu) -> bool {
    &&& gpu.name@ == "Unknown"@
    &&& gpu.arch@ == "Unknown"@
    &&& gpu.brand@ == "Unknown"@
    &&& gpu.graphic_clock == 0
    &&& gpu.memory_clock == 0
    &&& gpu.video_clock == 0
    &&& gpu.memory.free == 0
    &&& gpu.memory.total == 0
    &&& gpu.memory.used == 0
    &&& gpu.fans@.len() == 1
    &&& gpu.fans@[0].speed == 0
    &&& gpu.power_limit == 0
    &&& gpu.encoder_utilization == 0
    &&& gpu.bus_type@ == "Unknown"@
    &&& gpu.cores == 0
    &&& gpu.power_usage == 0
    &&& gpu.temperature == 0
}

/// The adapter that was found, of the vendors that are looked for.
pub fn get_gpu(nvidia: Option<Gpu>) -> (gpu: Option<Gpu>)
    ensures
        gpu == nvidia,
{
    nvidia
}

/// The adapter that was found, or else the report of one of which nothing is known.
pub fn get_gpu_or_default(nvidia: Option<Gpu>) -> (gpu: Gpu)
    ensures
        match nvidia {
            Some(found) => gpu == found,
            None => is_unknown_gpu(gpu),
        },
{
    match get_gpu(nvidia) {
        Some(gpu) => gpu,
        None => Gpu {
            name: String::from_str("Unknown"),
            arch: String::from_str("Unknown"),
            brand: String::from_str("Unknown"),
            graphic_clock: 0,
            memory_clock: 0,
            video_clock: 0,
            memory: GpuMemory { free: 0, total: 0, used: 0 },
            fans: vec![GpuFan { speed: 0 }],
            power_limit: 0,
            encoder_utilization: 0,
            bus_type: String::from_str("Unknown"),
            cores: 0,
            power_usage: 0,
            temperature: 0,
        },
    }
}

} // verus!
