//! The snapshot data model: memory, CPU, network-interface and disk-volume
//! statistics, and the aggregate snapshot, each with its formatted text and
//! its view at the specification level.
use vstd::prelude::*;
use vstd::string::StringExecFns;
use crate::units::{auto_size_spec, auto_bits_spec, fixed2_str, dec_str};
use crate::units::{auto_size, auto_bits, format_fixed2, u64_to_dec};

verus! {

/// Absolute memory (or swap) figures in bytes, with a formatted summary.
pub struct Memory {
    pub total: u64,
    pub used: u64,
    pub free: u64,
    pub text: String,
}

pub struct MemoryV {
    pub total: u64,
    pub used: u64,
    pub free: u64,
    pub text: Seq<char>,
}

impl View for Memory {
    type V = MemoryV;

    open spec fn view(&self) -> MemoryV {
        MemoryV { total: self.total, used: self.used, free: self.free, text: self.text@ }
    }
}

/// Instantaneous global CPU load. `utilization` is the load percentage in
/// hundredths of a percent, so 1234 stands for 12.34 %.
pub struct CPU {
    pub cores: u32,
    pub utilization: u32,
    pub text: String,
}

pub struct CpuV {
    pub cores: u32,
    pub utilization: u32,
    pub text: Seq<char>,
}

impl View for CPU {
    type V = CpuV;

    open spec fn view(&self) -> CpuV {
        CpuV { cores: self.cores, utilization: self.utilization, text: self.text@ }
    }
}

/// One network interface: its addresses, cumulative counters and derived
/// throughput.
pub struct Network {
    pub name: String,
    pub ip: String,
    pub mac: String,
    pub sent: u64,
    pub received: u64,
    pub throughput: u64,
    pub text: String,
}

pub struct NetworkV {
    pub name: Seq<char>,
    pub ip: Seq<char>,
    pub mac: Seq<char>,
    pub sent: u64,
    pub received: u64,
    pub throughput: u64,
    pub text: Seq<char>,
}

impl View for Network {
    type V = NetworkV;

    open spec fn view(&self) -> NetworkV {
        NetworkV {
            name: self.name@,
            ip: self.ip@,
            mac: self.mac@,
            sent: self.sent,
            received: self.received,
            throughput: self.throughput,
            text: self.text@,
        }
    }
}

/// One disk volume: capacity figures and cumulative read/write counters.
pub struct Disk {
    pub name: String,
    pub total: u64,
    pub used: u64,
    pub free: u64,
    pub throughput: u64,
    pub read: u64,
    pub write: u64,
    pub text: String,
}

pub struct DiskV {
    pub name: Seq<char>,
    pub total: u64,
    pub used: u64,
    pub free: u64,
    pub throughput: u64,
    pub read: u64,
    pub write: u64,
    pub text: Seq<char>,
}

impl View for Disk {
    type V = DiskV;

    open spec fn view(&self) -> DiskV {
        DiskV {
            name: self.name@,
            total: self.total,
            used: self.used,
            free: self.free,
            throughput: self.throughput,
            read: self.read,
            write: self.write,
            text: self.text@,
        }
    }
}

/// One immutable, fully populated snapshot of the host.
pub struct SystemInfo {
    pub memory: Memory,
    pub swap: Memory,
    pub cpu: CPU,
    pub networks: Vec<Network>,
    pub disks: Vec<Disk>,
}

pub struct SystemInfoV {
    pub memory: MemoryV,
    pub swap: MemoryV,
    pub cpu: CpuV,
    pub networks: Seq<NetworkV>,
    pub disks: Seq<DiskV>,
}

/// The views of a sequence of network interfaces.
pub open spec fn net_views(s: Seq<Network>) -> Seq<NetworkV> {
    s.map_values(|n: Network| n@)
}

/// The views of a sequence of disk volumes.
pub open spec fn disk_views(s: Seq<Disk>) -> Seq<DiskV> {
    s.map_values(|d: Disk| d@)
}

impl View for SystemInfo {
    type V = SystemInfoV;

    open spec fn view(&self) -> SystemInfoV {
        SystemInfoV {
            memory: self.memory@,
            swap: self.swap@,
            cpu: self.cpu@,
            networks: net_views(self.networks@),
            disks: disk_views(self.disks@),
        }
    }
}

/// The memory summary line: `"Memory: 8 GB/16 GB free"`.
pub open spec fn memory_text_spec(label: Seq<char>, total: u64, free: u64) -> Seq<char> {
    label + ": "@ + auto_size_spec(free) + "/"@ + auto_size_spec(total) + " free"@
}

/// The CPU summary: `"CPU Usage: 12.34%"`.
pub open spec fn cpu_text_spec(utilization: u32) -> Seq<char> {
    "CPU Usage: "@ + fixed2_str(utilization as nat) + "%"@
}

/// The per-interface summary block.
pub open spec fn network_text_spec(
    name: Seq<char>,
    ip: Seq<char>,
    mac: Seq<char>,
    sent: u64,
    received: u64,
    throughput: u64,
) -> Seq<char> {
    "Network: "@ + name + "\nIP: "@ + ip + "\nMAC: "@ + mac + "\nSent: "@ + auto_size_spec(sent)
        + "\nReceived: "@ + auto_size_spec(received) + "\nUsage: "@ + auto_bits_spec(throughput)
}

/// The per-volume summary block.
pub open spec fn disk_text_spec(
    name: Seq<char>,
    total: u64,
    used: u64,
    free: u64,
    throughput: u64,
) -> Seq<char> {
    "Disk: "@ + name + "\nTotal: "@ + auto_size_spec(total) + "\nUsed: "@ + auto_size_spec(used)
        + "\nFree: "@ + auto_size_spec(free) + "\nUsage: "@ + auto_bits_spec(throughput)
}

/// The memory stat a label and two absolute byte figures determine.
pub open spec fn memory_stat_v(label: Seq<char>, total: u64, used: u64) -> MemoryV
    recommends
        used <= total,
{
    MemoryV {
        total,
        used,
        free: (total - used) as u64,
        text: memory_text_spec(label, total, (total - used) as u64),
    }
}

/// The CPU stat a core count and a load figure determine.
pub open spec fn cpu_stat_v(cores: u32, utilization: u32) -> CpuV {
    CpuV { cores, utilization, text: cpu_text_spec(utilization) }
}

impl Memory {
    /// A memory (or swap) stat never holds more used than total bytes, and
    /// its free figure is exactly the remainder.
    pub open spec fn wf(self) -> bool {
        &&& self.used <= self.total
        &&& self.free + self.used == self.total
    }

    /// Builds the stat from the absolute totals of one sample.
    pub fn new(label: &str, total: u64, used: u64) -> (m: Memory)
        requires
            used <= total,
        ensures
            m@ == memory_stat_v(label@, total, used),
            m.wf(),
    {
        let free = total - used;
        let mut text = label.to_owned();
        text.append(": ");
        let free_s = auto_size(free);
        text.append(free_s.as_str());
        text.append("/");
        let total_s = auto_size(total);
        text.append(total_s.as_str());
        text.append(" free");
        proof {
            assert(text@ =~= memory_text_spec(label@, total, free));
        }
        Memory { total, used, free, text }
    }
}

impl CPU {
    /// Builds the stat from a core count and a load in hundredths of a
    /// percent.
    pub fn new(cores: u32, utilization: u32) -> (c: CPU)
        ensures
            c@ == cpu_stat_v(cores, utilization),
    {
        let mut text = String::new();
        text.append("CPU Usage: ");
        let u = format_fixed2(utilization as u64);
        text.append(u.as_str());
        text.append("%");
        proof {
            assert(text@ =~= cpu_text_spec(utilization));
        }
        CPU { cores, utilization, text }
    }
}

} // verus!
