use sysmon::builder::{build_disks, build_networks, DiskSample, IpEntry, NetSample};
use sysmon::model::{Memory, CPU};
use sysmon::rate::rate;
use sysmon::snapshot::Sample;
use sysmon::model::SystemInfo;
use sysmon::units::{auto_bits, auto_size};

fn net_sample(name: &str, ip: &str, v4: bool, sent: u64, received: u64) -> NetSample {
    NetSample {
        name: name.to_owned(),
        ips: vec![IpEntry { addr: ip.to_owned(), is_v4: v4 }],
        mac: "aa:bb:cc:dd:ee:ff".to_owned(),
        mac_unspecified: false,
        total_sent: sent,
        total_received: received,
        delta_sent: sent,
        delta_received: received,
    }
}

fn disk_sample(name: &str, mount: &str, total: u64, available: u64) -> DiskSample {
    DiskSample {
        name: name.to_owned(),
        mount_point: mount.to_owned(),
        total,
        available,
        read_bytes: 512,
        written_bytes: 512,
    }
}

#[test]
fn auto_size_zero() {
    assert_eq!(auto_size(0), "0 B");
    assert_eq!(auto_bits(0), "0 bps");
}

#[test]
fn auto_size_exact_units() {
    assert_eq!(auto_size(1023), "1023 B");
    assert_eq!(auto_size(1024), "1 KB");
    assert_eq!(auto_size(1048576), "1 MB");
    assert_eq!(auto_size(1073741824), "1 GB");
    assert_eq!(auto_bits(1024), "1 Kbps");
    assert_eq!(auto_bits(1048576), "1 Mbps");
    assert_eq!(auto_bits(1073741824), "1 Gbps");
}

#[test]
fn auto_size_fractions() {
    assert_eq!(auto_size(1536), "1.5 KB");
    assert_eq!(auto_size(1000000000), "953.67 MB");
    assert_eq!(auto_bits(1000000000), "953.67 Mbps");
    assert_eq!(auto_size(17179869184), "16 GB");
}

#[test]
fn auto_size_reparse_accuracy() {
    // The printed prefix, scaled back by its unit, lands within half a
    // hundredth of a unit of the input.
    let cases: [u64; 6] = [0, 1023, 1024, 5000000, 1000000000, u64::MAX];
    for b in cases {
        let s = auto_size(b);
        let (prefix, unit_name) = s.split_once(' ').unwrap();
        let unit: f64 = match unit_name {
            "B" => 1.0,
            "KB" => 1024.0,
            "MB" => 1048576.0,
            "GB" => 1073741824.0,
            _ => panic!("unexpected unit"),
        };
        let value: f64 = prefix.parse::<f64>().unwrap() * unit;
        let err = (value - b as f64).abs();
        assert!(err <= unit * 0.005 + 1e-3, "{s} reparses to {value}, want {b}");
    }
}

#[test]
fn rate_zero_elapsed() {
    assert_eq!(rate(5, 7, 0), 0);
    assert_eq!(rate(123, 456, -1000), 0);
    assert_eq!(rate(u64::MAX, u64::MAX, -1), 0);
}

#[test]
fn rate_zero_counters() {
    assert_eq!(rate(0, 0, 1), 0);
    assert_eq!(rate(0, 0, 1000), 0);
    assert_eq!(rate(0, 0, 987654321), 0);
}

#[test]
fn rate_gigabit() {
    // 125 MB moved in one second is one gigabit per second.
    assert_eq!(rate(0, 125000000, 1000), 1000000000);
    assert_eq!(rate(125000000, 0, 1000), 1000000000);
}

#[test]
fn rate_truncates() {
    // (3 + 4) * 8 * 1000 / 3000 = 18.66... truncated.
    assert_eq!(rate(3, 4, 3000), 18);
}

#[test]
fn memory_invariant_and_text() {
    let m = Memory::new("Memory", 17179869184, 8589934592);
    assert_eq!(m.total, 17179869184);
    assert_eq!(m.used, 8589934592);
    assert_eq!(m.free, 8589934592);
    assert_eq!(m.free + m.used, m.total);
    assert_eq!(m.text, "Memory: 8 GB/16 GB free");
}

#[test]
fn swap_text() {
    let s = Memory::new("Swap", 100, 40);
    assert_eq!(s.free, 60);
    assert_eq!(s.free + s.used, s.total);
    assert_eq!(s.text, "Swap: 60 B/100 B free");
}

#[test]
fn cpu_text_two_decimals() {
    let c = CPU::new(8, 1234);
    assert_eq!(c.cores, 8);
    assert_eq!(c.text, "CPU Usage: 12.34%");
    let idle = CPU::new(4, 5);
    assert_eq!(idle.text, "CPU Usage: 0.05%");
    let full = CPU::new(4, 10000);
    assert_eq!(full.text, "CPU Usage: 100.00%");
}

#[test]
fn disk_duplicate_mount_dropped() {
    let samples = vec![
        disk_sample("sda1", "/", 1000, 400),
        disk_sample("sdb1", "/", 2000, 800),
        disk_sample("sdc1", "/data", 3000, 1200),
    ];
    let disks = build_disks(&samples, 1000);
    assert_eq!(disks.len(), 2);
    assert_eq!(disks[0].name, "sda1");
    assert_eq!(disks[0].total, 1000);
    assert_eq!(disks[0].used, 600);
    assert_eq!(disks[0].free, 400);
    assert_eq!(disks[1].name, "sdc1");
}

#[test]
fn disk_zero_total_excluded() {
    let samples = vec![
        disk_sample("loop0", "/snap", 0, 0),
        disk_sample("sda1", "/", 1000, 400),
    ];
    let disks = build_disks(&samples, 1000);
    assert_eq!(disks.len(), 1);
    assert_eq!(disks[0].name, "sda1");
}

#[test]
fn disk_text_and_throughput() {
    let samples = vec![disk_sample("sda1", "/", 1000, 400)];
    let disks = build_disks(&samples, 1000);
    // 512 read + 512 written bytes over one second: 8192 bits per second.
    assert_eq!(disks[0].throughput, 8192);
    assert_eq!(disks[0].read, 512);
    assert_eq!(disks[0].write, 512);
    assert_eq!(
        disks[0].text,
        "Disk: sda1\nTotal: 1000 B\nUsed: 600 B\nFree: 400 B\nUsage: 8 Kbps"
    );
}

#[test]
fn networks_sorted_strictly_by_name() {
    let samples = vec![
        net_sample("wlan0", "10.0.0.3", true, 10, 20),
        net_sample("eth1", "10.0.0.2", true, 30, 40),
        net_sample("eth0", "10.0.0.1", true, 50, 60),
    ];
    let nets = build_networks(&samples, 1000);
    assert_eq!(nets.len(), 3);
    assert_eq!(nets[0].name, "eth0");
    assert_eq!(nets[1].name, "eth1");
    assert_eq!(nets[2].name, "wlan0");
    assert!(nets[0].name < nets[1].name && nets[1].name < nets[2].name);
}

#[test]
fn network_zero_counters_excluded() {
    let samples = vec![
        net_sample("eth0", "10.0.0.1", true, 0, 0),
        net_sample("eth1", "10.0.0.2", true, 1, 0),
    ];
    let nets = build_networks(&samples, 1000);
    assert_eq!(nets.len(), 1);
    assert_eq!(nets[0].name, "eth1");
}

#[test]
fn network_without_ip_or_mac_excluded() {
    let mut no_ip = net_sample("eth0", "10.0.0.1", true, 5, 5);
    no_ip.ips.clear();
    let mut no_mac = net_sample("eth1", "10.0.0.2", true, 5, 5);
    no_mac.mac_unspecified = true;
    let samples = vec![no_ip, no_mac, net_sample("eth2", "10.0.0.3", true, 5, 5)];
    let nets = build_networks(&samples, 1000);
    assert_eq!(nets.len(), 1);
    assert_eq!(nets[0].name, "eth2");
}

#[test]
fn network_prefers_ipv4_over_ipv6() {
    let mut s = net_sample("eth0", "fe80::1", false, 5, 5);
    s.ips.push(IpEntry { addr: "10.0.0.1".to_owned(), is_v4: true });
    let nets = build_networks(&vec![s], 1000);
    assert_eq!(nets[0].ip, "10.0.0.1");

    let v6_only = net_sample("eth0", "fe80::1", false, 5, 5);
    let nets = build_networks(&vec![v6_only], 1000);
    assert_eq!(nets[0].ip, "fe80::1");
}

#[test]
fn network_gigabit_scenario() {
    // One interface, samples one second apart, 125000000 cumulative sent
    // bytes: one gigabit per second.
    let s = net_sample("eth0", "192.168.1.2", true, 125000000, 0);
    let nets = build_networks(&vec![s], 1000);
    assert_eq!(nets[0].throughput, 1000000000);
    assert_eq!(nets[0].sent, 125000000);
    assert_eq!(nets[0].received, 0);
    assert_eq!(auto_bits(nets[0].throughput), "953.67 Mbps");
    assert_eq!(
        nets[0].text,
        "Network: eth0\nIP: 192.168.1.2\nMAC: aa:bb:cc:dd:ee:ff\nSent: 119.21 MB\nReceived: 0 B\nUsage: 953.67 Mbps"
    );
}

fn sample_16gb() -> Sample {
    Sample {
        mem_total: 17179869184,
        mem_used: 8589934592,
        swap_total: 1024,
        swap_used: 512,
        cpu_cores: 8,
        cpu_utilization: 1234,
        networks: vec![net_sample("eth0", "10.0.0.1", true, 125000000, 0)],
        disks: vec![disk_sample("sda1", "/", 1000, 400)],
    }
}

#[test]
fn snapshot_build_consistent() {
    let info = SystemInfo::build(&sample_16gb(), 1000);
    assert_eq!(info.memory.free, 8589934592);
    assert_eq!(info.memory.free + info.memory.used, info.memory.total);
    assert_eq!(info.memory.text, "Memory: 8 GB/16 GB free");
    assert_eq!(info.swap.free + info.swap.used, info.swap.total);
    assert_eq!(info.swap.text, "Swap: 512 B/1 KB free");
    assert_eq!(info.cpu.cores, 8);
    assert_eq!(info.cpu.text, "CPU Usage: 12.34%");
    assert_eq!(info.networks.len(), 1);
    assert_eq!(info.disks.len(), 1);
}

#[test]
fn memory_field_matches_full_snapshot() {
    // The memory sub-object served on its own is the very field of the full
    // snapshot: one build, no cross-field staleness.
    let info = SystemInfo::build(&sample_16gb(), 1000);
    let alone = &info.memory;
    let dump = info.to_string();
    assert!(dump.starts_with(&format!(
        "Memory: {}/{} free\n",
        auto_size(alone.free),
        auto_size(alone.total)
    )));
    assert_eq!(alone.text, "Memory: 8 GB/16 GB free");
}

#[test]
fn snapshot_dump_exact() {
    let info = SystemInfo::build(&sample_16gb(), 1000);
    let expected = "Memory: 8 GB/16 GB free\nSwap: 512 B/1 KB free\nCPU Cores: 8\nCPU Usage: 12.34%\n-----------------------------------------------------\nNetwork: eth0\nIP: 10.0.0.1\nMAC: aa:bb:cc:dd:ee:ff\nSent: 119.21 MB\nReceived: 0 B\nUsage: 953.67 Mbps\n-----------------------------------------------------\nDisk: sda1\nTotal: 1000 B\nUsed: 600 B\nFree: 400 B\nUsage: 8 Kbps\n";
    assert_eq!(info.to_string(), expected);
}
