//! Assembly of one immutable snapshot from one OS sample, and the plain-text
//! dump of a snapshot.
use vstd::prelude::*;
use vstd::string::StringExecFns;
use crate::builder::{NetSample, DiskSample, net_names_distinct, disks_wf};
use crate::builder::{build_networks, build_disks, kept_nets, kept_disks};
use crate::builder::{net_views_of, disk_views_of, sorted_strictly_by_name, view_names_distinct};
use crate::model::{Memory, CPU, SystemInfo, SystemInfoV, NetworkV, DiskV};
use crate::model::{memory_stat_v, cpu_stat_v, net_views};
use crate::units::{auto_size, auto_size_spec, auto_bits, auto_bits_spec};
use crate::units::{dec_str, fixed2_str, u64_to_dec, format_fixed2};

verus! {

/// One full OS sample: absolute memory and swap totals, CPU figures, and the
/// per-interface and per-volume readings of the builder's second internal
/// sample.
pub struct Sample {
    pub mem_total: u64,
    pub mem_used: u64,
    pub swap_total: u64,
    pub swap_used: u64,
    pub cpu_cores: u32,
    pub cpu_utilization: u32,
    pub networks: Vec<NetSample>,
    pub disks: Vec<DiskSample>,
}

impl Sample {
    /// What a coherent sample promises: used never exceeds total, no volume
    /// reports more available than total bytes, and interface names are
    /// unique keys.
    pub open spec fn wf(self) -> bool {
        &&& self.mem_used <= self.mem_total
        &&& self.swap_used <= self.swap_total
        &&& disks_wf(self.disks@)
        &&& net_names_distinct(self.networks@)
    }
}

impl SystemInfo {
    /// Assembles one snapshot from one sample and the elapsed settle time:
    /// memory, swap and CPU from the sample's absolute figures, interfaces
    /// filtered and sorted strictly ascending by name, volumes filtered and
    /// deduplicated by mount point in sample order.
    pub fn build(sample: &Sample, elapsed_millis: i64) -> (s: SystemInfo)
        requires
            sample.wf(),
        ensures
            s@.memory == memory_stat_v("Memory"@, sample.mem_total, sample.mem_used),
            s@.swap == memory_stat_v("Swap"@, sample.swap_total, sample.swap_used),
            s@.cpu == cpu_stat_v(sample.cpu_cores, sample.cpu_utilization),
            s@.networks.to_multiset()
                == net_views_of(kept_nets(sample.networks@), elapsed_millis).to_multiset(),
            sorted_strictly_by_name(s@.networks),
            view_names_distinct(s@.networks),
            s@.disks == disk_views_of(kept_disks(sample.disks@), elapsed_millis),
            s.memory.wf(),
            s.swap.wf(),
    {
        let memory = Memory::new("Memory", sample.mem_total, sample.mem_used);
        let swap = Memory::new("Swap", sample.swap_total, sample.swap_used);
        let cpu = CPU::new(sample.cpu_cores, sample.cpu_utilization);
        let networks = build_networks(&sample.networks, elapsed_millis);
        let disks = build_disks(&sample.disks, elapsed_millis);
        SystemInfo { memory, swap, cpu, networks, disks }
    }
}

/// One interface's section of the plain-text dump.
pub open spec fn net_dump_one(n: NetworkV) -> Seq<char> {
    "-----------------------------------------------------\n"@ + "Network: "@ + n.name + "\n"@
        + "IP: "@ + n.ip + "\n"@ + "MAC: "@ + n.mac + "\n"@ + "Sent: "@ + auto_size_spec(n.sent)
        + "\n"@ + "Received: "@ + auto_size_spec(n.received) + "\n"@ + "Usage: "@
        + auto_bits_spec(n.throughput) + "\n"@
}

/// The interface sections of the dump, in snapshot order.
pub open spec fn net_dump(nets: Seq<NetworkV>) -> Seq<char>
    decreases nets.len(),
{
    if nets.len() == 0 {
        Seq::empty()
    } else {
        net_dump(nets.drop_last()) + net_dump_one(nets.last())
    }
}

/// One volume's section of the plain-text dump.
pub open spec fn disk_dump_one(d: DiskV) -> Seq<char> {
    "Disk: "@ + d.name + "\n"@ + "Total: "@ + auto_size_spec(d.total) + "\n"@ + "Used: "@
        + auto_size_spec(d.used) + "\n"@ + "Free: "@ + auto_size_spec(d.free) + "\n"@
        + "Usage: "@ + auto_bits_spec(d.throughput) + "\n"@
}

/// The volume sections of the dump, in snapshot order.
pub open spec fn disk_dump(disks: Seq<DiskV>) -> Seq<char>
    decreases disks.len(),
{
    if disks.len() == 0 {
        Seq::empty()
    } else {
        disk_dump(disks.drop_last()) + disk_dump_one(disks.last())
    }
}

/// The headline of the dump: memory, swap, core count and CPU load.
pub open spec fn dump_header(v: SystemInfoV) -> Seq<char> {
    "Memory: "@ + auto_size_spec(v.memory.free) + "/"@ + auto_size_spec(v.memory.total)
        + " free\n"@ + "Swap: "@ + auto_size_spec(v.swap.free) + "/"@
        + auto_size_spec(v.swap.total) + " free\n"@ + "CPU Cores: "@ + dec_str(v.cpu.cores as nat)
        + "\n"@ + "CPU Usage: "@ + fixed2_str(v.cpu.utilization as nat) + "%\n"@
}

/// The whole plain-text dump of a snapshot.
pub open spec fn dump_spec(v: SystemInfoV) -> Seq<char> {
    dump_header(v) + net_dump(v.networks)
        + "-----------------------------------------------------\n"@ + disk_dump(v.disks)
}

impl SystemInfo {
    /// The whole snapshot as plain text, one line per figure.
    #[verifier::rlimit(100)]
    pub fn to_string(&self) -> (r: String)
        ensures
            r@ == dump_spec(self@),
    {
        let mut r = String::new();
        r.append("Memory: ");
        let m_free = auto_size(self.memory.free);
        r.append(m_free.as_str());
        r.append("/");
        let m_total = auto_size(self.memory.total);
        r.append(m_total.as_str());
        r.append(" free\n");
        r.append("Swap: ");
        let s_free = auto_size(self.swap.free);
        r.append(s_free.as_str());
        r.append("/");
        let s_total = auto_size(self.swap.total);
        r.append(s_total.as_str());
        r.append(" free\n");
        r.append("CPU Cores: ");
        let cores_s = u64_to_dec(self.cpu.cores as u64);
        r.append(cores_s.as_str());
        r.append("\n");
        r.append("CPU Usage: ");
        let load_s = format_fixed2(self.cpu.utilization as u64);
        r.append(load_s.as_str());
        r.append("%\n");
        proof {
            assert(r@ =~= dump_header(self@));
        }
        let ghost header = r@;
        let mut i: usize = 0;
        proof {
            assert(net_views(self.networks@).take(0) =~= Seq::<NetworkV>::empty());
            assert(r@ =~= header + net_dump(net_views(self.networks@).take(0)));
        }
        while i < self.networks.len()
            invariant
                i <= self.networks@.len(),
                r@ == header + net_dump(net_views(self.networks@).take(i as int)),
            decreases self.networks@.len() - i,
        {
            let n = &self.networks[i];
            r.append("-----------------------------------------------------\n");
            r.append("Network: ");
            r.append(n.name.as_str());
            r.append("\n");
            r.append("IP: ");
            r.append(n.ip.as_str());
            r.append("\n");
            r.append("MAC: ");
            r.append(n.mac.as_str());
            r.append("\n");
            r.append("Sent: ");
            let sent_s = auto_size(n.sent);
            r.append(sent_s.as_str());
            r.append("\n");
            r.append("Received: ");
            let recv_s = auto_size(n.received);
            r.append(recv_s.as_str());
            r.append("\n");
            r.append("Usage: ");
            let rate_s = auto_bits(n.throughput);
            r.append(rate_s.as_str());
            r.append("\n");
            proof {
                let nv = net_views(self.networks@);
                assert(nv.take(i + 1).drop_last() =~= nv.take(i as int));
                assert(nv.take(i + 1).last() == n@);
                assert(r@ =~= header + net_dump(nv.take(i + 1)));
            }
            i = i + 1;
        }
        proof {
            assert(net_views(self.networks@).take(self.networks@.len() as int)
                =~= net_views(self.networks@));
        }
        r.append("-----------------------------------------------------\n");
        let ghost middle = r@;
        let mut j: usize = 0;
        proof {
            assert(crate::model::disk_views(self.disks@).take(0) =~= Seq::<DiskV>::empty());
            assert(r@ =~= middle + disk_dump(crate::model::disk_views(self.disks@).take(0)));
        }
        while j < self.disks.len()
            invariant
                j <= self.disks@.len(),
                middle == header + net_dump(net_views(self.networks@))
                    + "-----------------------------------------------------\n"@,
                r@ == middle + disk_dump(crate::model::disk_views(self.disks@).take(j as int)),
            decreases self.disks@.len() - j,
        {
            let d = &self.disks[j];
            r.append("Disk: ");
            r.append(d.name.as_str());
            r.append("\n");
            r.append("Total: ");
            let total_s = auto_size(d.total);
            r.append(total_s.as_str());
            r.append("\n");
            r.append("Used: ");
            let used_s = auto_size(d.used);
            r.append(used_s.as_str());
            r.append("\n");
            r.append("Free: ");
            let free_s = auto_size(d.free);
            r.append(free_s.as_str());
            r.append("\n");
            r.append("Usage: ");
            let rate_s = auto_bits(d.throughput);
            r.append(rate_s.as_str());
            r.append("\n");
            proof {
                let dv = crate::model::disk_views(self.disks@);
                assert(dv.take(j + 1).drop_last() =~= dv.take(j as int));
                assert(dv.take(j + 1).last() == d@);
                assert(r@ =~= middle + disk_dump(dv.take(j + 1)));
            }
            j = j + 1;
        }
        proof {
            assert(crate::model::disk_views(self.disks@).take(self.disks@.len() as int)
                =~= crate::model::disk_views(self.disks@));
            assert(r@ =~= dump_spec(self@));
        }
        r
    }
}

} // verus!
