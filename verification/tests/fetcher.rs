use kifetch::fetcher::gpu::{
    brand_to_str, bus_to_str, get_gpu, get_gpu_or_default, Brand, BusType, Gpu, GpuFan, GpuMemory,
};
use kifetch::fetcher::{os, text_or_unknown, uptime, SystemUptime};

#[test]
fn gpu_that_was_found_is_kept() {
    let found = Gpu {
        name: "RTX".to_string(),
        arch: "Ampere".to_string(),
        brand: "GeForce".to_string(),
        graphic_clock: 1,
        memory_clock: 2,
        video_clock: 3,
        memory: GpuMemory { free: 4, total: 5, used: 6 },
        fans: vec![GpuFan { speed: 7 }, GpuFan { speed: 8 }],
        power_limit: 9,
        encoder_utilization: 10,
        bus_type: "PCIe".to_string(),
        cores: 11,
        power_usage: 12,
        temperature: 13,
    };
    let gpu = get_gpu_or_default(Some(found));
    assert_eq!(gpu.name, "RTX");
    assert_eq!(gpu.fans.len(), 2);
    assert_eq!(gpu.fans[1].speed, 8);
    assert_eq!(gpu.memory.used, 6);
    assert_eq!(gpu.temperature, 13);
    assert!(get_gpu(None).is_none());
}

#[test]
fn gpu_of_which_nothing_is_known() {
    let gpu = get_gpu_or_default(None);
    assert_eq!(gpu.name, "Unknown");
    assert_eq!(gpu.arch, "Unknown");
    assert_eq!(gpu.brand, "Unknown");
    assert_eq!(gpu.bus_type, "Unknown");
    assert_eq!((gpu.graphic_clock, gpu.memory_clock, gpu.video_clock), (0, 0, 0));
    assert_eq!((gpu.memory.free, gpu.memory.total, gpu.memory.used), (0, 0, 0));
    assert_eq!(gpu.fans.len(), 1);
    assert_eq!(gpu.fans[0].speed, 0);
    assert_eq!((gpu.power_limit, gpu.encoder_utilization, gpu.cores), (0, 0, 0));
    assert_eq!((gpu.power_usage, gpu.temperature), (0, 0));
}

#[test]
fn names_of_buses_and_brands() {
    assert_eq!(bus_to_str(BusType::Agp), "AGP");
    assert_eq!(bus_to_str(BusType::Pci), "PCI");
    assert_eq!(bus_to_str(BusType::Fpci), "FPCI");
    assert_eq!(bus_to_str(BusType::Pcie), "PCIe");
    assert_eq!(bus_to_str(BusType::Unknown), "Unknown");
    assert_eq!(brand_to_str(Brand::GeForce), "GeForce");
    assert_eq!(brand_to_str(Brand::CloudGaming), "Cloud Gaming");
    assert_eq!(brand_to_str(Brand::GeForceRTX), "GeForce RTX");
    assert_eq!(brand_to_str(Brand::TitanRTX), "Titan RTX");
    assert_eq!(brand_to_str(Brand::QuadroRTX), "Quadro RTX");
    assert_eq!(brand_to_str(Brand::NvidiaRTX), "Nvidia RTX");
    assert_eq!(brand_to_str(Brand::Unknown), "Unknown");
    assert_eq!(brand_to_str(Brand::VGaming), "VGaming");
    assert_eq!(brand_to_str(Brand::Titan), "Titan");
}

#[test]
fn uptime_in_hours_minutes_and_seconds() {
    assert_eq!(uptime(0), SystemUptime { hours: 0, minutes: 0, seconds: 0, total: 0 });
    assert_eq!(uptime(93784), SystemUptime { hours: 26, minutes: 3, seconds: 4, total: 93784 });
    assert_eq!(uptime(3599), SystemUptime { hours: 0, minutes: 59, seconds: 59, total: 3599 });
}

#[test]
fn what_was_not_read_is_unknown() {
    assert_eq!(text_or_unknown(None), "Unknown");
    assert_eq!(text_or_unknown(Some("x".to_string())), "x");
    let info = os(Some("Debian".to_string()), None, Some("6.1".to_string()), None);
    assert_eq!(info.name, "Debian");
    assert_eq!(info.version, "Unknown");
    assert_eq!(info.kernel, "6.1");
    assert_eq!(info.host, "Unknown");
}
