use melange::hardware::bandwidth::lookup;
use melange::hardware::cpu::{self, parse_chip_variant, CpuReadings};
use melange::hardware::disk::{self, DiskEntry};
use melange::hardware::engines::{self, package_version, EngineInfo, EngineProbes, InferenceEngines};
use melange::hardware::gpu::{self, extract_field, extract_gpu_cores, infer_gpu_cores_from_chip};
use melange::hardware::memory::{
    self, detect_top_processes, detect_wired_memory, is_apple_silicon, normalize_process_name, parse_memsize,
    MemoryReadings, ProcessMemory,
};
use melange::hardware::os_info::{self, macos_info, parse_os_release, unknown_os, OsReadings};
use melange::hardware::vpn::{
    self, active_info, detect_tunnel_interface, detection_order, interface_ip, is_vpn_ip, not_connected,
    strip_cidr, tailscale_info, wireguard_interface, zerotier_info, TailscaleStatus, VpnFindings, VpnInfo,
    VpnProvider, ZeroTierStatus,
};

fn chars(s: &str) -> Vec<char> {
    s.chars().collect()
}

// ---------------------------------------------------------------------------
// Bandwidth and GPU
// ---------------------------------------------------------------------------

#[test]
fn bandwidth_by_chip() {
    assert_eq!(lookup("Apple M4 Max"), 546);
    assert_eq!(lookup("Apple M4"), 120);
    assert_eq!(lookup("APPLE M3 PRO"), 150);
    assert_eq!(lookup("Apple M2 Ultra"), 800);
    assert_eq!(lookup("Apple M1"), 68);
    assert_eq!(lookup("Intel(R) Core(TM) i9"), 100);
}

#[test]
fn gpu_cores_by_chip() {
    assert_eq!(infer_gpu_cores_from_chip("apple m4 ultra"), 80);
    assert_eq!(infer_gpu_cores_from_chip("apple m3 max"), 40);
    assert_eq!(infer_gpu_cores_from_chip("apple m2 pro"), 19);
    assert_eq!(infer_gpu_cores_from_chip("apple m1"), 8);
    assert_eq!(infer_gpu_cores_from_chip("radeon"), 0);
}

const PROFILE: &str = "Graphics/Displays:\n\n    Apple M3 Max:\n\n      Chipset Model: Apple M3 Max\n      Type: GPU\n      Total Number of Cores: 40\n      Metal Support: Metal 3\n";

#[test]
fn extract_field_reads_first_matching_line() {
    assert_eq!(extract_field(PROFILE, "Chipset Model:"), Some("Apple M3 Max".to_string()));
    assert_eq!(extract_field(PROFILE, "Metal Support:"), Some("Metal 3".to_string()));
    assert_eq!(extract_field(PROFILE, "Vendor:"), None);
    assert_eq!(extract_field("  Key:Key: v  \n", "Key:"), Some("v".to_string()));
    assert_eq!(extract_field("  Key: Key: v  \n", "Key:"), Some("Key: v".to_string()));
}

#[test]
fn gpu_cores_from_field_or_chip_name() {
    assert_eq!(extract_gpu_cores(PROFILE), 40);
    assert_eq!(extract_gpu_cores("  Chipset Model: Apple M2 Pro\n  Total Number of Cores: many\n"), 19);
    assert_eq!(extract_gpu_cores("nothing here"), 0);
}

#[test]
fn gpu_from_profile() {
    let g = gpu::detect(PROFILE);
    assert_eq!(g.name, "Apple M3 Max");
    assert_eq!(g.metal_cores, 40);
    assert_eq!(g.metal_version, "Metal 3");
    let fam = gpu::detect("  Metal Family: Supported, Metal GPUFamily Apple 7\n");
    assert_eq!(fam.name, "Unknown GPU");
    assert_eq!(fam.metal_version, "Supported, Metal GPUFamily Apple 7");
    let none = gpu::detect("");
    assert_eq!(none.metal_version, "Unknown");
}

// ---------------------------------------------------------------------------
// CPU
// ---------------------------------------------------------------------------

#[test]
fn chip_variants() {
    assert_eq!(parse_chip_variant("Apple M3 Max"), "M3 Max");
    assert_eq!(parse_chip_variant("Apple M4 Pro"), "M4 Pro");
    assert_eq!(parse_chip_variant("Apple M2 Ultra"), "M2 Ultra");
    assert_eq!(parse_chip_variant("Apple M1"), "M1");
    assert_eq!(parse_chip_variant("Intel Xeon"), "Unknown");
}

#[test]
fn cpu_from_sysctl_readings() {
    let r = CpuReadings {
        brand: Some(b"Apple M3 Max\n".to_vec()),
        ncpu: Some(b"16\n".to_vec()),
        perf_cores: Some(b"12\n".to_vec()),
        eff_cores: Some(b"4\n".to_vec()),
    };
    let c = cpu::detect(&r);
    assert_eq!(c.brand, "Apple M3 Max");
    assert_eq!(c.total_cores, 16);
    assert_eq!(c.performance_cores, 12);
    assert_eq!(c.efficiency_cores, 4);
    assert_eq!(c.chip_variant, "M3 Max");
}

#[test]
fn cpu_split_falls_back_to_halves() {
    let r = CpuReadings { brand: None, ncpu: Some(b" 9 ".to_vec()), perf_cores: None, eff_cores: Some(b"4".to_vec()) };
    let c = cpu::detect(&r);
    assert_eq!(c.brand, "Unknown CPU");
    assert_eq!(c.total_cores, 9);
    assert_eq!(c.performance_cores, 4);
    assert_eq!(c.efficiency_cores, 5);
    assert_eq!(c.chip_variant, "Unknown");
    let bad = CpuReadings { brand: None, ncpu: Some(b"lots".to_vec()), perf_cores: None, eff_cores: None };
    assert_eq!(cpu::detect(&bad).total_cores, 0);
}

// ---------------------------------------------------------------------------
// Operating system
// ---------------------------------------------------------------------------

#[test]
fn os_release_pretty_name_wins() {
    let o = parse_os_release("NAME=\"Ubuntu\"\nVERSION=\"24.04 LTS (Noble)\"\nPRETTY_NAME=\"Ubuntu 24.04 LTS\"\nVERSION_ID=\"24.04\"\n").unwrap();
    assert_eq!(o.name, "Ubuntu");
    assert_eq!(o.version, "24.04 LTS (Noble)");
    assert_eq!(o.display, "Ubuntu 24.04 LTS");
}

#[test]
fn os_release_fallbacks() {
    let o = parse_os_release("PRETTY_NAME=Arch Linux\n").unwrap();
    assert_eq!(o.name, "Arch Linux");
    assert_eq!(o.version, "");
    assert!(parse_os_release("NAME=Debian\n").is_none());
}

#[test]
fn macos_from_sw_vers() {
    let o = macos_info(b"macOS\n", b"15.2\n").unwrap();
    assert_eq!(o.display, "macOS 15.2");
    assert!(macos_info(b"  \n", b"15.2").is_none());
}

#[test]
fn os_detect_order() {
    let mac = OsReadings {
        product_name: Some(b"macOS\n".to_vec()),
        product_version: Some(b"14.5\n".to_vec()),
        os_release: Some("PRETTY_NAME=Other\n".to_string()),
    };
    assert_eq!(os_info::detect(&mac).display, "macOS 14.5");
    let linux = OsReadings { product_name: None, product_version: None, os_release: Some("PRETTY_NAME=\"Fedora 40\"\n".to_string()) };
    assert_eq!(os_info::detect(&linux).display, "Fedora 40");
    let none = OsReadings { product_name: Some(Vec::new()), product_version: Some(Vec::new()), os_release: None };
    let u = os_info::detect(&none);
    assert_eq!(u.name, "Unknown OS");
    assert_eq!(u.version, "");
    assert_eq!(unknown_os().display, "Unknown OS");
}

// ---------------------------------------------------------------------------
// Memory
// ---------------------------------------------------------------------------

#[test]
fn memsize_parses_trimmed_bytes() {
    assert_eq!(parse_memsize(b"68719476736\n"), Some(68719476736));
    assert_eq!(parse_memsize(b"n/a"), None);
    assert!(is_apple_silicon(&Some(b"Apple M2".to_vec())));
    assert!(!is_apple_silicon(&Some(b"Intel".to_vec())));
    assert!(!is_apple_silicon(&None));
}

const VM_STAT: &str = "Mach Virtual Memory Statistics: (page size of 16384 bytes)\nPages free:                               12345.\nPages wired down:                         308367.\n";

#[test]
fn wired_memory_from_vm_stat() {
    assert_eq!(detect_wired_memory(VM_STAT.as_bytes()), Some(308367 * 16384));
    let small = "Mach Virtual Memory Statistics: (page size of 4096 bytes)\nPages wired down: 10.\n";
    assert_eq!(detect_wired_memory(small.as_bytes()), Some(40960));
    let no_size = "header\nPages wired down: 2.\n";
    assert_eq!(detect_wired_memory(no_size.as_bytes()), Some(32768));
    assert_eq!(detect_wired_memory(b"Pages free: 1.\n"), None);
    assert_eq!(detect_wired_memory(b"x\nPages wired down\n"), None);
    assert_eq!(detect_wired_memory(b"x\nPages wired down: lots\n"), None);
}

#[test]
fn process_names_are_normalized() {
    assert_eq!(normalize_process_name("Google Chrome Helper (Renderer)"), "Chrome");
    assert_eq!(normalize_process_name("Slack Helper (GPU)"), "Slack");
    assert_eq!(normalize_process_name("Code Helper (Plugin)"), "Code");
    assert_eq!(normalize_process_name("firefox"), "Firefox");
    assert_eq!(normalize_process_name("Docker Desktop"), "Docker");
    assert_eq!(normalize_process_name("python3"), "Python");
    assert_eq!(normalize_process_name("ollama_llama_server"), "Ollama");
    assert_eq!(normalize_process_name("Cursor Helper"), "Cursor");
    assert_eq!(normalize_process_name("Xcode.app"), "Xcode");
    assert_eq!(normalize_process_name("node"), "Node.js");
}

fn proc_mem(name: &str, bytes: u64) -> ProcessMemory {
    ProcessMemory { name: name.to_string(), memory_bytes: bytes }
}

#[test]
fn top_processes_group_filter_and_rank() {
    let mb = 1_000_000u64;
    let procs = vec![
        proc_mem("Google Chrome Helper (Renderer)", 300 * mb),
        proc_mem("kernel_task", 5000 * mb),
        proc_mem("WindowServer", 900 * mb),
        proc_mem("Google Chrome", 200 * mb),
        proc_mem("Slack", 400 * mb),
        proc_mem("tiny", 10 * mb),
        proc_mem("com.apple.WebKit", 800 * mb),
        proc_mem("python3", 700 * mb),
        proc_mem("ollama", 100 * mb),
        proc_mem("melange", 600 * mb),
        proc_mem("Xcode", 60 * mb),
    ];
    let top = detect_top_processes(&procs);
    let got: Vec<(String, u64)> = top.iter().map(|p| (p.name.clone(), p.memory_bytes)).collect();
    assert_eq!(
        got,
        vec![
            ("Python".to_string(), 700 * mb),
            ("Chrome".to_string(), 500 * mb),
            ("Slack".to_string(), 400 * mb),
            ("Ollama".to_string(), 100 * mb),
        ]
    );
}

#[test]
fn top_processes_with_few_apps() {
    let top = detect_top_processes(&vec![proc_mem("Slack", 60_000_000), proc_mem("launchd", 90_000_000)]);
    assert_eq!(top.len(), 1);
    assert_eq!(top[0].name, "Slack");
    assert!(detect_top_processes(&Vec::new()).is_empty());
}

#[test]
fn memory_from_readings() {
    let r = MemoryReadings {
        memsize: Some(b"34359738368\n".to_vec()),
        system_total: 1,
        used: 40_000_000_000,
        swap_total: 7,
        swap_used: 3,
        cpu_brand: Some(b"Apple M1 Pro".to_vec()),
        vm_stat: Some(VM_STAT.as_bytes().to_vec()),
        processes: vec![proc_mem("Slack", 60_000_000)],
    };
    let m = memory::detect(&r);
    assert_eq!(m.total_bytes, 34359738368);
    assert_eq!(m.used_bytes, 40_000_000_000);
    assert_eq!(m.available_bytes, 0);
    assert_eq!(m.wired_bytes, 308367 * 16384);
    assert_eq!(m.swap_total_bytes, 7);
    assert_eq!(m.swap_used_bytes, 3);
    assert!(m.is_unified);
    assert_eq!(m.top_processes.len(), 1);
    let r2 = MemoryReadings {
        memsize: None,
        system_total: 16,
        used: 10,
        swap_total: 0,
        swap_used: 0,
        cpu_brand: None,
        vm_stat: None,
        processes: Vec::new(),
    };
    let m2 = memory::detect(&r2);
    assert_eq!(m2.total_bytes, 16);
    assert_eq!(m2.available_bytes, 6);
    assert_eq!(m2.wired_bytes, 4294967296);
    assert!(!m2.is_unified);
}

// ---------------------------------------------------------------------------
// Disk
// ---------------------------------------------------------------------------

#[test]
fn disk_prefers_root() {
    let ds = vec![
        DiskEntry { is_root: false, total_space: 500, available_space: 100 },
        DiskEntry { is_root: true, total_space: 1000, available_space: 250 },
        DiskEntry { is_root: true, total_space: 9, available_space: 9 },
    ];
    let d = disk::detect(&ds);
    assert_eq!((d.total_bytes, d.free_bytes, d.model_storage_bytes), (1000, 250, 0));
}

#[test]
fn disk_sums_without_root() {
    let ds = vec![
        DiskEntry { is_root: false, total_space: 500, available_space: 100 },
        DiskEntry { is_root: false, total_space: 300, available_space: 30 },
    ];
    let d = disk::detect(&ds);
    assert_eq!((d.total_bytes, d.free_bytes), (800, 130));
    let empty_root = vec![
        DiskEntry { is_root: true, total_space: 0, available_space: 5 },
        DiskEntry { is_root: false, total_space: 300, available_space: 30 },
    ];
    let e = disk::detect(&empty_root);
    assert_eq!((e.total_bytes, e.free_bytes), (300, 40));
    let none = disk::detect(&Vec::new());
    assert_eq!((none.total_bytes, none.free_bytes), (0, 0));
}

// ---------------------------------------------------------------------------
// Engines
// ---------------------------------------------------------------------------

fn probes() -> EngineProbes {
    EngineProbes {
        llama_server: false,
        llama_cli: true,
        llama_bench: false,
        mlx_lm: true,
        mlx_version: Some("0.21.0".to_string()),
        ollama: false,
        vllm_command: false,
        vllm_package: false,
        exllamav2: true,
    }
}

#[test]
fn engines_from_probes() {
    let e = engines::detect(probes());
    let names: Vec<&str> = e.engines.iter().map(|x| x.name.as_str()).collect();
    assert_eq!(names, vec!["llama.cpp", "MLX", "Ollama", "vLLM", "ExLlamaV2"]);
    let found: Vec<bool> = e.engines.iter().map(|x| x.found).collect();
    assert_eq!(found, vec![true, true, false, false, true]);
    assert_eq!(e.engines[1].version, Some("0.21.0".to_string()));
    assert_eq!(e.display(), "llama.cpp, MLX, ExLlamaV2");
}

#[test]
fn engines_display_none() {
    let e = InferenceEngines {
        engines: vec![EngineInfo { name: "Ollama".to_string(), version: None, found: false }],
    };
    assert_eq!(e.display(), "None detected");
    let mut p = probes();
    p.mlx_lm = false;
    assert_eq!(engines::detect(p).engines[1].version, None);
}

#[test]
fn package_version_trims() {
    assert_eq!(package_version(b"0.21.0\n"), Some("0.21.0".to_string()));
    assert_eq!(package_version(b" \n"), None);
}

// ---------------------------------------------------------------------------
// VPN
// ---------------------------------------------------------------------------

fn vpn_info(name: &str, active: bool, ip: Option<&str>) -> VpnInfo {
    VpnInfo { name: name.to_string(), active, ip: ip.map(|s| s.to_string()) }
}

#[test]
fn vpn_display_masks_address() {
    let v = vpn_info("Tailscale", true, Some("100.64.1.23"));
    assert_eq!(v.display(true), "Tailscale  100.64.1.23");
    assert_eq!(v.display(false), "Tailscale  100.••.••.••");
    assert_eq!(vpn_info("ZeroTier", true, None).display(false), "ZeroTier");
    assert_eq!(vpn_info("Tailscale", false, Some("1.2.3.4")).display(true), "Not connected");
    let nc = not_connected();
    assert_eq!((nc.name.as_str(), nc.active, nc.ip), ("None", false, None));
}

#[test]
fn overlay_addresses() {
    assert!(is_vpn_ip(&chars("100.64.0.1")));
    assert!(is_vpn_ip(&chars("100.127.255.1")));
    assert!(!is_vpn_ip(&chars("100.128.0.1")));
    assert!(is_vpn_ip(&chars("10.1.2.3")));
    assert!(is_vpn_ip(&chars("172.16.0.9")));
    assert!(!is_vpn_ip(&chars("172.32.0.9")));
    assert!(!is_vpn_ip(&chars("192.168.1.1")));
    assert!(!is_vpn_ip(&chars("10.1.2")));
    assert!(is_vpn_ip(&chars("10.x.1.2.3")));
    assert!(!is_vpn_ip(&chars("")));
}

#[test]
fn provider_order() {
    assert_eq!(detection_order(None).len(), 5);
    let z = detection_order(Some("ZeroTier"));
    assert!(z.len() == 1 && matches!(z[0], VpnProvider::ZeroTier));
    assert!(detection_order(Some("openvpn")).is_empty());
}

fn findings() -> VpnFindings {
    VpnFindings { tailscale: None, zerotier: None, nebula: None, wireguard: None, tunnel: None }
}

#[test]
fn vpn_detect_picks_first_found() {
    let mut f = findings();
    f.nebula = Some(vpn_info("Nebula", true, None));
    f.tunnel = Some(vpn_info("VPN", true, Some("10.0.0.2")));
    assert_eq!(vpn::detect(None, f).name, "Nebula");
    let mut g = findings();
    g.tailscale = Some(vpn_info("Tailscale", false, None));
    g.wireguard = Some(vpn_info("WireGuard", true, None));
    assert_eq!(vpn::detect(Some("WIREGUARD"), g).name, "WireGuard");
    let mut h = findings();
    h.tunnel = Some(vpn_info("VPN", true, None));
    assert_eq!(vpn::detect(Some("tailscale"), h).name, "None");
    assert_eq!(vpn::detect(None, findings()).name, "None");
}

#[test]
fn provider_status_readers() {
    let t = tailscale_info(TailscaleStatus { backend_state: Some("Running".to_string()), first_ip: Some("100.1.2.3".to_string()) }).unwrap();
    assert!(t.active);
    assert_eq!(t.ip, Some("100.1.2.3".to_string()));
    let stopped = tailscale_info(TailscaleStatus { backend_state: Some("Stopped".to_string()), first_ip: None }).unwrap();
    assert!(!stopped.active);
    assert!(tailscale_info(TailscaleStatus { backend_state: None, first_ip: None }).is_none());
    let z = zerotier_info(ZeroTierStatus { has_online: true, online: Some(true), first_address: Some("10.147.17.5/24".to_string()) }).unwrap();
    assert_eq!(z.name, "ZeroTier");
    assert!(z.active);
    assert_eq!(z.ip, Some("10.147.17.5".to_string()));
    let off = zerotier_info(ZeroTierStatus { has_online: true, online: None, first_address: None }).unwrap();
    assert!(!off.active);
    assert!(zerotier_info(ZeroTierStatus { has_online: false, online: Some(true), first_address: None }).is_none());
    assert_eq!(strip_cidr("fd00::1/88"), "fd00::1");
    let n = active_info(VpnProvider::Nebula, None);
    assert_eq!((n.name.as_str(), n.active), ("Nebula", true));
}

#[test]
fn interface_addresses() {
    let out = b"utun4: flags=8051<UP,POINTOPOINT>\n\tinet 100.101.102.103 --> 100.101.102.103 netmask 0xffffffff\n";
    assert_eq!(interface_ip(out), Some("100.101.102.103".to_string()));
    assert_eq!(interface_ip(b"en0: flags\n\tinet6 fe80::1\n"), None);
    assert_eq!(interface_ip(b"x\n  inet   \n  inet 1.2.3.4\n"), Some("1.2.3.4".to_string()));
}

#[test]
fn wireguard_show() {
    assert_eq!(wireguard_interface(b"interface: wg0\n  public key: abc\n"), Some(Some("wg0".to_string())));
    assert_eq!(wireguard_interface(b"peer: x\n"), Some(None));
    assert_eq!(wireguard_interface(b" \n\n"), None);
}

#[test]
fn tunnel_interfaces() {
    let out = b"lo0: flags=8049\n\tinet 127.0.0.1 netmask 0xff000000\nen0: flags=8863\n\tinet 10.0.0.5 netmask 0xffffff00\nutun3: flags=8051\n\tinet 192.168.0.2 --> 192.168.0.2\n\tinet 100.90.1.1 --> 100.90.1.1\n";
    let v = detect_tunnel_interface(out).unwrap();
    assert_eq!(v.name, "VPN");
    assert!(v.active);
    assert_eq!(v.ip, Some("100.90.1.1".to_string()));
    assert!(detect_tunnel_interface(b"en0: flags\n\tinet 10.0.0.5\n").is_none());
}
