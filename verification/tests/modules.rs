use kifetch::config::Config;
use kifetch::modules::bios_info::{load_bios_info, BiosInfo};
use kifetch::modules::cpu_info::{load_cpu_info, CpuInfo};
use kifetch::modules::disk_info::load_disk_info;
use kifetch::modules::env_info::{load_env_info, path_base_name, EnvInfo};
use kifetch::modules::gpu_info::{load_gpu_info, GpuInfo};
use kifetch::modules::kernel_info::{load_kernel_info, KernelInfo};
use kifetch::modules::memory_info::{load_memory_info, MemoryText};
use kifetch::modules::net_info::{load_net_info, NetInfo};
use kifetch::modules::os_info::{load_os_info, OsInfo};
use kifetch::modules::packages_info::{load_packages_info, PackageCount, PackagesInfo};
use kifetch::modules::screen_info::{load_screen_info, ScreenInfo};
use kifetch::modules::uptime_info::load_uptime_info;
use kifetch::modules::{
    enabled_modules, find_module, get_system_info, load_custom_info, load_reading, CustomOutput,
    Module, Reading, SystemInfo,
};
use kifetch::utils::{insert_size, SizeText};

fn fact(info: &SystemInfo, key: &str) -> Option<String> {
    info.get(key).cloned()
}

fn some(value: &str) -> Option<String> {
    Some(value.to_string())
}

fn size(metric: &str, free: &str, used: &str, total: &str, percentage: &str) -> SizeText {
    SizeText {
        metric: metric.to_string(),
        free: free.to_string(),
        used: used.to_string(),
        total: total.to_string(),
        percentage: percentage.to_string(),
    }
}

fn output(key: &str, started: bool, succeeded: bool, stdout: &str) -> CustomOutput {
    CustomOutput { key: key.to_string(), started, succeeded, stdout: stdout.to_string() }
}

#[test]
fn table_starts_empty_and_keeps_the_last_write() {
    let mut info = SystemInfo::new();
    assert_eq!(info.get("a"), None);
    info.insert("a".to_string(), "1".to_string());
    info.insert("b".to_string(), "2".to_string());
    assert_eq!(fact(&info, "a"), some("1"));
    info.insert("a".to_string(), "3".to_string());
    assert_eq!(fact(&info, "a"), some("3"));
    assert_eq!(fact(&info, "b"), some("2"));
    assert_eq!(info.get("A"), None);
}

#[test]
fn module_names() {
    assert_eq!(find_module("os"), Some(Module::Os));
    assert_eq!(find_module("kernel"), Some(Module::Kernel));
    assert_eq!(find_module("uptime"), Some(Module::Uptime));
    assert_eq!(find_module("packages"), Some(Module::Packages));
    assert_eq!(find_module("env"), Some(Module::Env));
    assert_eq!(find_module("cpu"), Some(Module::Cpu));
    assert_eq!(find_module("gpu"), Some(Module::Gpu));
    assert_eq!(find_module("memory"), Some(Module::Memory));
    assert_eq!(find_module("screen"), Some(Module::Screen));
    assert_eq!(find_module("bios"), Some(Module::Bios));
    assert_eq!(find_module("disk"), Some(Module::Disk));
    assert_eq!(find_module("net"), Some(Module::Net));
    assert_eq!(find_module("shell"), None);
    assert_eq!(find_module("OS"), None);
    assert_eq!(find_module(""), None);
}

#[test]
fn unknown_module_names_are_passed_over() {
    let mut config = Config::default();
    assert_eq!(
        enabled_modules(&config),
        vec![
            Module::Os,
            Module::Kernel,
            Module::Uptime,
            Module::Packages,
            Module::Cpu,
            Module::Gpu,
            Module::Memory
        ]
    );
    config.modules.enabled = vec!["net".to_string(), "nope".to_string(), "os".to_string(), "net".to_string()];
    assert_eq!(enabled_modules(&config), vec![Module::Net, Module::Os, Module::Net]);
    config.modules.enabled = Vec::new();
    assert_eq!(enabled_modules(&config), Vec::<Module>::new());
}

#[test]
fn os_facts() {
    let mut info = SystemInfo::new();
    let os = OsInfo {
        name: "Debian GNU/Linux 12".to_string(),
        version: "Unknown".to_string(),
        hostname: "box".to_string(),
    };
    load_os_info(&mut info, &os);
    assert_eq!(fact(&info, "os_name"), some("Debian GNU/Linux 12"));
    assert_eq!(fact(&info, "os_version"), some("Unknown"));
    assert_eq!(fact(&info, "os_hostname"), some("box"));
}

#[test]
fn kernel_facts() {
    let mut info = SystemInfo::new();
    assert_eq!(KernelInfo::default().version, "Unknown");
    load_kernel_info(&mut info, &KernelInfo { version: "6.1.0".to_string() });
    assert_eq!(fact(&info, "kernel_version"), some("6.1.0"));
}

#[test]
fn uptime_facts_of_a_long_run() {
    let mut info = SystemInfo::new();
    load_uptime_info(&mut info, 93784);
    assert_eq!(fact(&info, "uptime_days"), some("1"));
    assert_eq!(fact(&info, "uptime_hours"), some("2"));
    assert_eq!(fact(&info, "uptime_hours_total"), some("26"));
    assert_eq!(fact(&info, "uptime_mins"), some("3"));
    assert_eq!(fact(&info, "uptime_mins_total"), some("1563"));
    assert_eq!(fact(&info, "uptime_secs"), some("4"));
    assert_eq!(fact(&info, "uptime_secs_total"), some("93784"));
    assert_eq!(fact(&info, "uptime"), some("1d 2h 3m 4s"));
}

#[test]
fn uptime_in_words_leaves_out_what_is_zero() {
    let mut info = SystemInfo::new();
    load_uptime_info(&mut info, 0);
    assert_eq!(fact(&info, "uptime"), some(""));
    assert_eq!(fact(&info, "uptime_days"), some("0"));
    load_uptime_info(&mut info, 3600);
    assert_eq!(fact(&info, "uptime"), some("1h "));
    load_uptime_info(&mut info, 86400 + 59);
    assert_eq!(fact(&info, "uptime"), some("1d 59s"));
    load_uptime_info(&mut info, 120);
    assert_eq!(fact(&info, "uptime"), some("2m "));
    load_uptime_info(&mut info, u64::MAX);
    assert_eq!(fact(&info, "uptime_days"), some("213503982334601"));
    assert_eq!(fact(&info, "uptime"), some("213503982334601d 7h 15s"));
    assert_eq!(fact(&info, "uptime_secs_total"), some("18446744073709551615"));
}

#[test]
fn packages_facts() {
    let mut info = SystemInfo::new();
    let unknown = PackagesInfo::default();
    assert_eq!(unknown.count, 0);
    assert_eq!(unknown.total_count, 0);
    assert_eq!(unknown.manager, "Unknown");
    assert!(unknown.packages.is_empty());
    let packages = PackagesInfo {
        count: 1500,
        total_count: 1512,
        manager: "dpkg".to_string(),
        packages: vec![
            PackageCount { manager: "dpkg".to_string(), count: 1500 },
            PackageCount { manager: "rpm".to_string(), count: 12 },
        ],
    };
    load_packages_info(&mut info, &packages);
    assert_eq!(fact(&info, "packages_total"), some("1512"));
    assert_eq!(fact(&info, "package_manager"), some("dpkg"));
    assert_eq!(fact(&info, "packages"), some("1500"));
    assert_eq!(fact(&info, "packages_dpkg"), some("1500"));
    assert_eq!(fact(&info, "packages_rpm"), some("12"));
    assert_eq!(fact(&info, "packages_pacman"), None);
}

#[test]
fn a_manager_named_total_replaces_the_total() {
    let mut info = SystemInfo::new();
    let packages = PackagesInfo {
        count: 1,
        total_count: 5,
        manager: "total".to_string(),
        packages: vec![PackageCount { manager: "total".to_string(), count: 1 }],
    };
    load_packages_info(&mut info, &packages);
    assert_eq!(fact(&info, "packages_total"), some("1"));
}

#[test]
fn env_facts_on_unix() {
    let mut info = SystemInfo::new();
    let env = EnvInfo {
        windows: false,
        shell: some("/usr/bin/zsh"),
        username: some("u"),
        home: some("/home/u"),
        lang: None,
        term: some("xterm"),
        editor: None,
        display: some(":0"),
        session: some("gnome"),
        arch: "x86_64".to_string(),
        os: "linux".to_string(),
    };
    load_env_info(&mut info, &env);
    assert_eq!(fact(&info, "env_shell"), some("zsh"));
    assert_eq!(fact(&info, "env_username"), some("u"));
    assert_eq!(fact(&info, "env_home"), some("/home/u"));
    assert_eq!(fact(&info, "env_lang"), some("unknown"));
    assert_eq!(fact(&info, "env_term"), some("xterm"));
    assert_eq!(fact(&info, "env_editor"), some("unknown"));
    assert_eq!(fact(&info, "env_display"), some(":0"));
    assert_eq!(fact(&info, "env_session"), some("gnome"));
    assert_eq!(fact(&info, "env_arch"), some("x86_64"));
    assert_eq!(fact(&info, "env_os"), some("linux"));
}

#[test]
fn env_facts_on_windows() {
    let mut info = SystemInfo::new();
    let env = EnvInfo {
        windows: true,
        shell: some("C:\\Windows\\System32\\cmd.exe"),
        username: some("u"),
        home: None,
        lang: None,
        term: some("ignored"),
        editor: None,
        display: some("ignored"),
        session: None,
        arch: "x86_64".to_string(),
        os: "windows".to_string(),
    };
    load_env_info(&mut info, &env);
    assert_eq!(fact(&info, "env_shell"), some("cmd.exe"));
    assert_eq!(fact(&info, "env_home"), some("unknown"));
    assert_eq!(fact(&info, "env_term"), None);
    assert_eq!(fact(&info, "env_display"), None);
    assert_eq!(fact(&info, "env_session"), some("unknown"));
    assert_eq!(fact(&info, "env_os"), some("windows"));
}

#[test]
fn env_shell_that_is_not_set() {
    let mut info = SystemInfo::new();
    let env = EnvInfo {
        windows: false,
        shell: None,
        username: None,
        home: None,
        lang: None,
        term: None,
        editor: None,
        display: None,
        session: None,
        arch: "aarch64".to_string(),
        os: "linux".to_string(),
    };
    load_env_info(&mut info, &env);
    assert_eq!(fact(&info, "env_shell"), some("unknown"));
    assert_eq!(fact(&info, "env_term"), some("unknown"));
    assert_eq!(fact(&info, "env_display"), some("unknown"));
}

#[test]
fn base_names() {
    assert_eq!(path_base_name("/bin/bash"), "bash");
    assert_eq!(path_base_name("bash"), "bash");
    assert_eq!(path_base_name(""), "");
    assert_eq!(path_base_name("/bin/"), "");
    assert_eq!(path_base_name("a\\b/c\\d"), "d");
    assert_eq!(path_base_name("/"), "");
    assert_eq!(path_base_name("/opt/\u{e9}t\u{e9}/\u{65e5}\u{672c}"), "\u{65e5}\u{672c}");
}

#[test]
fn cpu_facts() {
    let mut info = SystemInfo::new();
    let unknown = CpuInfo::default();
    assert_eq!(unknown.model, "");
    assert_eq!(unknown.cores, 0);
    assert_eq!(unknown.threads, 0);
    assert_eq!(unknown.freq_mhz, "");
    assert_eq!(unknown.freq_ghz, "");
    let cpu = CpuInfo {
        model: "Some CPU".to_string(),
        cores: 8,
        threads: 16,
        freq_mhz: "3600".to_string(),
        freq_ghz: "3.60".to_string(),
    };
    load_cpu_info(&mut info, &cpu);
    assert_eq!(fact(&info, "cpu_model"), some("Some CPU"));
    assert_eq!(fact(&info, "cpu_cores"), some("8"));
    assert_eq!(fact(&info, "cpu_threads"), some("16"));
    assert_eq!(fact(&info, "cpu_freq_mhz"), some("3600"));
    assert_eq!(fact(&info, "cpu_freq_ghz"), some("3.60"));
}

#[test]
fn gpu_facts() {
    let mut info = SystemInfo::new();
    let gpu = GpuInfo {
        model: "Some GPU".to_string(),
        vram: "8.00".to_string(),
        vram_metric: "GB".to_string(),
    };
    load_gpu_info(&mut info, &gpu);
    assert_eq!(fact(&info, "gpu_model"), some("Some GPU"));
    assert_eq!(fact(&info, "gpu_vram"), some("8.00"));
    assert_eq!(fact(&info, "gpu_vram_metric"), some("GB"));
}

#[test]
fn size_facts_are_named_by_the_prefix() {
    let mut info = SystemInfo::new();
    insert_size("disk", &size("GB", "1.50", "2.50", "4.00", "62.50"), &mut info);
    assert_eq!(fact(&info, "disk_metric"), some("GB"));
    assert_eq!(fact(&info, "disk_free"), some("1.50"));
    assert_eq!(fact(&info, "disk_used"), some("2.50"));
    assert_eq!(fact(&info, "disk_total"), some("4.00"));
    assert_eq!(fact(&info, "disk_percentage"), some("62.50"));
    assert_eq!(fact(&info, "disk"), None);
}

#[test]
fn memory_facts_with_available_memory() {
    let mut info = SystemInfo::new();
    let memory = MemoryText {
        memory: size("GB", "2.00", "14.00", "16.00", "87.50"),
        available: Some(size("GB", "8.00", "8.00", "16.00", "50.00")),
    };
    load_memory_info(&mut info, &memory);
    assert_eq!(fact(&info, "memory_metric"), some("GB"));
    assert_eq!(fact(&info, "memory_free"), some("2.00"));
    assert_eq!(fact(&info, "memory_used"), some("14.00"));
    assert_eq!(fact(&info, "memory_total"), some("16.00"));
    assert_eq!(fact(&info, "memory_percentage"), some("87.50"));
    assert_eq!(fact(&info, "memory_available_metric"), some("GB"));
    assert_eq!(fact(&info, "memory_available_free"), some("8.00"));
    assert_eq!(fact(&info, "memory_available_used"), some("8.00"));
    assert_eq!(fact(&info, "memory_available_total"), some("16.00"));
    assert_eq!(fact(&info, "memory_available_percentage"), some("50.00"));
}

#[test]
fn memory_facts_without_available_memory() {
    let mut info = SystemInfo::new();
    let memory = MemoryText { memory: size("B", "0.00", "0.00", "0.00", "0.00"), available: None };
    load_memory_info(&mut info, &memory);
    assert_eq!(fact(&info, "memory_metric"), some("B"));
    assert_eq!(fact(&info, "memory_available_free"), some("N/A"));
    assert_eq!(fact(&info, "memory_available_used"), some("N/A"));
    assert_eq!(fact(&info, "memory_available_total"), some("N/A"));
    assert_eq!(fact(&info, "memory_available_metric"), None);
    assert_eq!(fact(&info, "memory_available_percentage"), None);
}

#[test]
fn screen_facts() {
    let mut info = SystemInfo::new();
    let unknown = ScreenInfo::default();
    assert_eq!((unknown.width, unknown.height, unknown.refresh_rate), (0, 0, 0));
    load_screen_info(&mut info, &ScreenInfo { width: 1920, height: 1080, refresh_rate: 60 });
    assert_eq!(fact(&info, "screen_width"), some("1920"));
    assert_eq!(fact(&info, "screen_height"), some("1080"));
    assert_eq!(fact(&info, "screen_refresh_rate"), some("60"));
}

#[test]
fn bios_facts() {
    let mut info = SystemInfo::new();
    let unknown = BiosInfo::default();
    assert_eq!(unknown.vendor, "unknown");
    assert_eq!(unknown.version, "unknown");
    assert_eq!(unknown.motherboard, "unknown");
    let bios = BiosInfo {
        vendor: "V".to_string(),
        version: "1.2".to_string(),
        motherboard: "B".to_string(),
    };
    load_bios_info(&mut info, &bios);
    assert_eq!(fact(&info, "bios_vendor"), some("V"));
    assert_eq!(fact(&info, "bios_version"), some("1.2"));
    assert_eq!(fact(&info, "bios_motherboard"), some("B"));
}

#[test]
fn disk_facts() {
    let mut info = SystemInfo::new();
    load_disk_info(&mut info, &size("TB", "0.50", "1.50", "2.00", "75.00"));
    assert_eq!(fact(&info, "disk_metric"), some("TB"));
    assert_eq!(fact(&info, "disk_free"), some("0.50"));
    assert_eq!(fact(&info, "disk_used"), some("1.50"));
    assert_eq!(fact(&info, "disk_total"), some("2.00"));
    assert_eq!(fact(&info, "disk_percentage"), some("75.00"));
}

#[test]
fn net_facts() {
    let mut info = SystemInfo::new();
    let unknown = NetInfo::default();
    assert_eq!(unknown.ip, "unknown");
    assert_eq!(unknown.mac, "unknown");
    assert_eq!(unknown.iface, "unknown");
    assert_eq!(unknown.wifi_ssid, "unknown");
    assert_eq!(unknown.wifi_signal, "unknown");
    let net = NetInfo {
        ip: "10.0.0.2".to_string(),
        mac: "aa:bb:cc:dd:ee:ff".to_string(),
        iface: "wlan0".to_string(),
        wifi_ssid: "home".to_string(),
        wifi_signal: "-40".to_string(),
    };
    load_net_info(&mut info, &net);
    assert_eq!(fact(&info, "net_ip"), some("10.0.0.2"));
    assert_eq!(fact(&info, "net_mac"), some("aa:bb:cc:dd:ee:ff"));
    assert_eq!(fact(&info, "net_iface"), some("wlan0"));
    assert_eq!(fact(&info, "net_wifi_ssid"), some("home"));
    assert_eq!(fact(&info, "net_wifi_signal"), some("-40"));
}

#[test]
fn a_reading_sets_the_facts_of_its_module() {
    let mut info = SystemInfo::new();
    load_reading(&mut info, &Reading::Uptime(61));
    load_reading(&mut info, &Reading::Kernel(KernelInfo { version: "6.1.0".to_string() }));
    load_reading(&mut info, &Reading::Disk(size("GB", "1.00", "1.00", "2.00", "50.00")));
    assert_eq!(fact(&info, "uptime"), some("1m 1s"));
    assert_eq!(fact(&info, "kernel_version"), some("6.1.0"));
    assert_eq!(fact(&info, "disk_total"), some("2.00"));
}

#[test]
fn custom_module_sets_its_trimmed_output() {
    let mut info = SystemInfo::new();
    load_custom_info(&mut info, &output("weather", true, true, "  sunny, 21 C \n"));
    assert_eq!(fact(&info, "custom_weather"), some("sunny, 21 C"));
    assert_eq!(fact(&info, "weather"), None);
}

#[test]
fn failed_custom_module_adds_nothing() {
    let mut info = SystemInfo::new();
    info.insert("os_name".to_string(), "TestOS".to_string());
    info.insert("custom_a".to_string(), "kept".to_string());
    load_custom_info(&mut info, &output("a", true, false, "exit 1"));
    load_custom_info(&mut info, &output("b", false, false, ""));
    load_custom_info(&mut info, &output("c", false, true, "never ran"));
    assert_eq!(fact(&info, "custom_a"), some("kept"));
    assert_eq!(fact(&info, "custom_b"), None);
    assert_eq!(fact(&info, "custom_c"), None);
    assert_eq!(fact(&info, "os_name"), some("TestOS"));
}

#[test]
fn system_info_merges_readings_then_custom_modules() {
    let readings = vec![
        Reading::Os(OsInfo {
            name: "First".to_string(),
            version: "1".to_string(),
            hostname: "h".to_string(),
        }),
        Reading::Uptime(5),
        Reading::Os(OsInfo {
            name: "Second".to_string(),
            version: "2".to_string(),
            hostname: "h".to_string(),
        }),
    ];
    let outputs = vec![
        output("ok", true, true, "fine\n"),
        output("bad", true, false, "lost"),
        output("ok2", true, true, ""),
    ];
    let info = get_system_info(&readings, &outputs);
    assert_eq!(fact(&info, "os_name"), some("Second"));
    assert_eq!(fact(&info, "os_version"), some("2"));
    assert_eq!(fact(&info, "uptime"), some("5s"));
    assert_eq!(fact(&info, "custom_ok"), some("fine"));
    assert_eq!(fact(&info, "custom_bad"), None);
    assert_eq!(fact(&info, "custom_ok2"), some(""));
}

#[test]
fn system_info_of_nothing_is_empty() {
    let info = get_system_info(&[], &[]);
    assert_eq!(info.get("os_name"), None);
    assert_eq!(info.get(""), None);
}

#[test]
fn custom_modules_run_without_enabled_modules() {
    let info = get_system_info(&[], &[output("only", true, true, "x")]);
    assert_eq!(fact(&info, "custom_only"), some("x"));
}
