//! Snapshot builder: turns the raw readings of one OS sample into the
//! filtered, deduplicated and ordered collections of a snapshot.
use vstd::prelude::*;
use vstd::string::StringExecFns;
use vstd::seq_lib::lemma_multiset_commutative;
use crate::model::{Disk, DiskV, disk_views, disk_text_spec};
use crate::model::{Network, NetworkV, net_views, network_text_spec};
use crate::order::{lex_lt, str_lt, lemma_lex_lt_trichotomy, lemma_lex_lt_trans};
use crate::rate::{rate, rate_sat};
use crate::units::{auto_size, auto_bits};

verus! {

/// One IP network assigned to an interface, as the sampling layer hands it
/// over: the textual address and whether it is an IPv4 address.
pub struct IpEntry {
    pub addr: String,
    pub is_v4: bool,
}

/// Raw per-interface readings of one OS sample. The `total_*` counters are
/// cumulative over the interface's lifetime; the `delta_*` counters cover
/// the settle interval between the builder's two internal samples.
pub struct NetSample {
    pub name: String,
    pub ips: Vec<IpEntry>,
    pub mac: String,
    pub mac_unspecified: bool,
    pub total_sent: u64,
    pub total_received: u64,
    pub delta_sent: u64,
    pub delta_received: u64,
}

/// Raw per-volume readings of one OS sample.
pub struct DiskSample {
    pub name: String,
    pub mount_point: String,
    pub total: u64,
    pub available: u64,
    pub read_bytes: u64,
    pub written_bytes: u64,
}

/// The disk stat one sample determines: capacity split into used and free,
/// throughput over the settle interval, and the formatted summary.
pub open spec fn disk_view_of(d: DiskSample, elapsed_millis: i64) -> DiskV
    recommends
        d.available <= d.total,
{
    DiskV {
        name: d.name@,
        total: d.total,
        used: (d.total - d.available) as u64,
        free: d.available,
        throughput: rate_sat(d.written_bytes, d.read_bytes, elapsed_millis),
        read: d.read_bytes,
        write: d.written_bytes,
        text: disk_text_spec(
            d.name@,
            d.total,
            (d.total - d.available) as u64,
            d.available,
            rate_sat(d.written_bytes, d.read_bytes, elapsed_millis),
        ),
    }
}

/// The disk stats of a whole sequence of samples.
pub open spec fn disk_views_of(s: Seq<DiskSample>, elapsed_millis: i64) -> Seq<DiskV> {
    s.map_values(|d: DiskSample| disk_view_of(d, elapsed_millis))
}

/// Whether some sample in `s` sits on mount point `m`.
pub open spec fn contains_mount(s: Seq<DiskSample>, m: Seq<char>) -> bool {
    exists|k: int| 0 <= k < s.len() && s[k].mount_point@ == m
}

/// The volume samples one snapshot keeps: those with a non-zero total
/// capacity, the first occurrence of each mount point winning.
pub open spec fn kept_disks(s: Seq<DiskSample>) -> Seq<DiskSample>
    decreases s.len(),
{
    if s.len() == 0 {
        Seq::empty()
    } else {
        let prefix = kept_disks(s.drop_last());
        let d = s.last();
        if d.total > 0 && !contains_mount(prefix, d.mount_point@) {
            prefix.push(d)
        } else {
            prefix
        }
    }
}

/// Every sample reports no more available than total bytes.
pub open spec fn disks_wf(s: Seq<DiskSample>) -> bool {
    forall|k: int| 0 <= k < s.len() ==> #[trigger] s[k].available <= s[k].total
}

/// Law of the deduplication: within one snapshot the kept volumes' mount
/// points are unique — a second occurrence of a mount point is dropped, the
/// first occurrence wins.
pub proof fn lemma_kept_disks_mounts_unique(s: Seq<DiskSample>)
    ensures
        forall|i: int, j: int|
            0 <= i < j < kept_disks(s).len()
                ==> kept_disks(s)[i].mount_point@ != kept_disks(s)[j].mount_point@,
    decreases s.len(),
{
    if s.len() > 0 {
        lemma_kept_disks_mounts_unique(s.drop_last());
        let prefix = kept_disks(s.drop_last());
        let d = s.last();
        if d.total > 0 && !contains_mount(prefix, d.mount_point@) {
            assert forall|i: int, j: int| 0 <= i < j < kept_disks(s).len() implies
                kept_disks(s)[i].mount_point@ != kept_disks(s)[j].mount_point@ by {
                if j == prefix.len() {
                    assert(kept_disks(s)[i] == prefix[i]);
                    assert(!(prefix[i].mount_point@ == d.mount_point@));
                }
            }
        }
    }
}

/// Law of the filter: a volume with zero total capacity is never kept.
pub proof fn lemma_kept_disks_total_positive(s: Seq<DiskSample>)
    ensures
        forall|i: int| 0 <= i < kept_disks(s).len() ==> #[trigger] kept_disks(s)[i].total > 0,
    decreases s.len(),
{
    if s.len() > 0 {
        lemma_kept_disks_total_positive(s.drop_last());
        let prefix = kept_disks(s.drop_last());
        assert forall|i: int| 0 <= i < kept_disks(s).len() implies
            #[trigger] kept_disks(s)[i].total > 0 by {
            if i < prefix.len() {
                assert(kept_disks(s)[i] == prefix[i]);
            }
        }
    }
}

fn contains_string(v: &Vec<String>, s: &String) -> (r: bool)
    ensures
        r == exists|k: int| 0 <= k < v@.len() && #[trigger] v@[k]@ == s@,
{
    let mut i: usize = 0;
    while i < v.len()
        invariant
            i <= v@.len(),
            forall|k: int| 0 <= k < i ==> #[trigger] v@[k]@ != s@,
        decreases v@.len() - i,
    {
        if s.eq(&v[i]) {
            return true;
        }
        i = i + 1;
    }
    false
}

fn disk_of(d: &DiskSample, elapsed_millis: i64) -> (r: Disk)
    requires
        d.available <= d.total,
    ensures
        r@ == disk_view_of(*d, elapsed_millis),
{
    let used = d.total - d.available;
    let throughput = rate(d.written_bytes, d.read_bytes, elapsed_millis);
    let mut text = String::new();
    text.append("Disk: ");
    text.append(d.name.as_str());
    text.append("\nTotal: ");
    let total_s = auto_size(d.total);
    text.append(total_s.as_str());
    text.append("\nUsed: ");
    let used_s = auto_size(used);
    text.append(used_s.as_str());
    text.append("\nFree: ");
    let free_s = auto_size(d.available);
    text.append(free_s.as_str());
    text.append("\nUsage: ");
    let rate_s = auto_bits(throughput);
    text.append(rate_s.as_str());
    proof {
        assert(text@ =~= disk_text_spec(d.name@, d.total, used, d.available, throughput));
    }
    Disk {
        name: d.name.clone(),
        total: d.total,
        used,
        free: d.available,
        throughput,
        read: d.read_bytes,
        write: d.written_bytes,
        text,
    }
}

/// Builds the disk collection of one snapshot: volumes with zero total
/// capacity are excluded, and of several volumes sharing a mount point only
/// the first survives, in sample order.
pub fn build_disks(samples: &Vec<DiskSample>, elapsed_millis: i64) -> (r: Vec<Disk>)
    requires
        disks_wf(samples@),
    ensures
        disk_views(r@) == disk_views_of(kept_disks(samples@), elapsed_millis),
{
    let mut out: Vec<Disk> = Vec::new();
    let mut seen: Vec<String> = Vec::new();
    let mut i: usize = 0;
    proof {
        assert(samples@.take(0) =~= Seq::<DiskSample>::empty());
        assert(disk_views(out@) =~= disk_views_of(kept_disks(samples@.take(0)), elapsed_millis));
    }
    while i < samples.len()
        invariant
            i <= samples@.len(),
            disks_wf(samples@),
            disk_views(out@) == disk_views_of(kept_disks(samples@.take(i as int)), elapsed_millis),
            seen@.len() == kept_disks(samples@.take(i as int)).len(),
            forall|k: int| 0 <= k < seen@.len()
                ==> #[trigger] seen@[k]@ == kept_disks(samples@.take(i as int))[k].mount_point@,
        decreases samples@.len() - i,
    {
        let ghost prefix = kept_disks(samples@.take(i as int));
        proof {
            assert(samples@.take(i + 1).drop_last() =~= samples@.take(i as int));
            assert(samples@.take(i + 1).last() == samples@[i as int]);
            assert(samples@[i as int].available <= samples@[i as int].total);
        }
        let d = &samples[i];
        if d.total > 0 {
            let dup = contains_string(&seen, &d.mount_point);
            proof {
                if dup {
                    let k = choose|k: int| 0 <= k < seen@.len() && #[trigger] seen@[k]@
                        == d.mount_point@;
                    assert(prefix[k].mount_point@ == d.mount_point@);
                    assert(contains_mount(prefix, d.mount_point@));
                } else {
                    if contains_mount(prefix, d.mount_point@) {
                        let k = choose|k: int| 0 <= k < prefix.len() && #[trigger] prefix[k].mount_point@
                            == d.mount_point@;
                        assert(seen@[k]@ == d.mount_point@);
                    }
                }
            }
            if !dup {
                let ghost out0 = out@;
                let nd = disk_of(d, elapsed_millis);
                out.push(nd);
                seen.push(d.mount_point.clone());
                proof {
                    assert(kept_disks(samples@.take(i + 1)) == prefix.push(samples@[i as int]));
                    let target = disk_views_of(kept_disks(samples@.take(i + 1)), elapsed_millis);
                    assert(out@ == out0.push(nd));
                    assert(disk_views(out0).len() == disk_views_of(prefix, elapsed_millis).len());
                    assert(out0.len() == prefix.len());
                    assert forall|k: int| 0 <= k < out@.len() implies
                        disk_views(out@)[k] == target[k] by {
                        if k < out0.len() {
                            assert(out@[k] == out0[k]);
                            assert(disk_views(out0)[k] == disk_views_of(prefix, elapsed_millis)[k]);
                        } else {
                            assert(out@[k] == nd);
                            assert(prefix.push(samples@[i as int])[k] == samples@[i as int]);
                        }
                    }
                    assert(disk_views(out@) =~= target);
                }
            } else {
                proof {
                    assert(kept_disks(samples@.take(i + 1)) == prefix);
                }
            }
        } else {
            proof {
                assert(kept_disks(samples@.take(i + 1)) == prefix);
            }
        }
        i = i + 1;
    }
    proof {
        assert(samples@.take(samples@.len() as int) =~= samples@);
    }
    out
}

/// An interface is included only if it has at least one assigned IP network,
/// at least one non-zero cumulative counter, and a non-unspecified MAC
/// address.
pub open spec fn net_included(s: NetSample) -> bool {
    s.ips@.len() > 0 && (s.total_received > 0 || s.total_sent > 0) && !s.mac_unspecified
}

/// The address of the first entry of the wanted protocol version, if any.
pub open spec fn first_ip(ips: Seq<IpEntry>, v4: bool) -> Option<Seq<char>>
    decreases ips.len(),
{
    if ips.len() == 0 {
        None
    } else if ips[0].is_v4 == v4 {
        Some(ips[0].addr@)
    } else {
        first_ip(ips.drop_first(), v4)
    }
}

/// The interface's displayed address: the first IPv4 address if there is
/// one, else the first IPv6 address, else `"Unknown"`.
pub open spec fn chosen_ip(ips: Seq<IpEntry>) -> Seq<char> {
    match first_ip(ips, true) {
        Some(a) => a,
        None => match first_ip(ips, false) {
            Some(a) => a,
            None => "Unknown"@,
        },
    }
}

/// The interface stat one sample determines: resolved address, cumulative
/// counters, throughput over the settle interval, and the formatted summary.
pub open spec fn net_view_of(s: NetSample, elapsed_millis: i64) -> NetworkV {
    NetworkV {
        name: s.name@,
        ip: chosen_ip(s.ips@),
        mac: s.mac@,
        sent: s.total_sent,
        received: s.total_received,
        throughput: rate_sat(s.delta_received, s.delta_sent, elapsed_millis),
        text: network_text_spec(
            s.name@,
            chosen_ip(s.ips@),
            s.mac@,
            s.total_sent,
            s.total_received,
            rate_sat(s.delta_received, s.delta_sent, elapsed_millis),
        ),
    }
}

/// The interface stats of a whole sequence of samples.
pub open spec fn net_views_of(s: Seq<NetSample>, elapsed_millis: i64) -> Seq<NetworkV> {
    s.map_values(|n: NetSample| net_view_of(n, elapsed_millis))
}

/// The interface samples one snapshot keeps.
pub open spec fn kept_nets(s: Seq<NetSample>) -> Seq<NetSample> {
    s.filter(|n: NetSample| net_included(n))
}

/// Interface names are unique within a sample set.
pub open spec fn net_names_distinct(s: Seq<NetSample>) -> bool {
    forall|i: int, j: int| 0 <= i < j < s.len() ==> s[i].name@ != s[j].name@
}

/// Interface names are unique within a snapshot's view.
pub open spec fn view_names_distinct(v: Seq<NetworkV>) -> bool {
    forall|i: int, j: int| 0 <= i < j < v.len() ==> v[i].name != v[j].name
}

/// Interfaces are sorted strictly ascending by name.
pub open spec fn sorted_strictly_by_name(v: Seq<NetworkV>) -> bool {
    forall|i: int, j: int| 0 <= i < j < v.len() ==> lex_lt(v[i].name, v[j].name)
}

/// The first `n` interfaces are sorted strictly ascending by name.
spec fn sorted_prefix(v: Seq<NetworkV>, n: int) -> bool {
    forall|i: int, j: int| 0 <= i < j < n && j < v.len() ==> lex_lt(v[i].name, v[j].name)
}

/// Whether some sample in `nets` bears the name `n`.
pub open spec fn name_in_samples(nets: Seq<NetSample>, n: Seq<char>) -> bool {
    exists|m: int| 0 <= m < nets.len() && nets[m].name@ == n
}

/// The kept interfaces all pass the inclusion filter, bear names drawn from
/// the sample set, and — when sample names are unique — keep them unique.
pub proof fn lemma_kept_nets_distinct(nets: Seq<NetSample>)
    requires
        net_names_distinct(nets),
    ensures
        forall|k: int| 0 <= k < kept_nets(nets).len()
            ==> name_in_samples(nets, #[trigger] kept_nets(nets)[k].name@),
        forall|k: int| 0 <= k < kept_nets(nets).len()
            ==> net_included(#[trigger] kept_nets(nets)[k]),
        forall|i: int, j: int| 0 <= i < j < kept_nets(nets).len()
            ==> kept_nets(nets)[i].name@ != kept_nets(nets)[j].name@,
    decreases nets.len(),
{
    reveal(Seq::filter);
    if nets.len() > 0 {
        let pre = nets.drop_last();
        let d = nets.last();
        assert(net_names_distinct(pre)) by {
            assert forall|i: int, j: int| 0 <= i < j < pre.len() implies
                pre[i].name@ != pre[j].name@ by {
                assert(nets[i].name@ != nets[j].name@);
            }
        }
        lemma_kept_nets_distinct(pre);
        let fpre = kept_nets(pre);
        let f = kept_nets(nets);
        if net_included(d) {
            assert(f == fpre.push(d));
            assert forall|k: int| 0 <= k < f.len() implies
                name_in_samples(nets, #[trigger] f[k].name@) by {
                if k < fpre.len() {
                    assert(f[k] == fpre[k]);
                    let m = choose|m: int| 0 <= m < pre.len() && pre[m].name@ == fpre[k].name@;
                    assert(nets[m].name@ == f[k].name@);
                } else {
                    assert(f[k] == d);
                    assert(nets[nets.len() - 1].name@ == d.name@);
                }
            }
            assert forall|k: int| 0 <= k < f.len() implies
                net_included(#[trigger] f[k]) by {
                if k < fpre.len() {
                    assert(f[k] == fpre[k]);
                }
            }
            assert forall|i: int, j: int| 0 <= i < j < f.len() implies
                f[i].name@ != f[j].name@ by {
                if j < fpre.len() {
                    assert(f[i] == fpre[i] && f[j] == fpre[j]);
                } else {
                    assert(f[i] == fpre[i] && f[j] == d);
                    let m = choose|m: int| 0 <= m < pre.len() && pre[m].name@ == fpre[i].name@;
                    assert(nets[m].name@ != nets[nets.len() - 1].name@);
                }
            }
        } else {
            assert(f == fpre);
            assert forall|k: int| 0 <= k < f.len() implies
                name_in_samples(nets, #[trigger] f[k].name@) by {
                let m = choose|m: int| 0 <= m < pre.len() && pre[m].name@ == fpre[k].name@;
                assert(nets[m].name@ == f[k].name@);
            }
        }
    }
}

fn find_ip(ips: &Vec<IpEntry>, v4: bool) -> (r: Option<String>)
    ensures
        match r {
            Some(s) => first_ip(ips@, v4) == Some(s@),
            None => first_ip(ips@, v4) is None,
        },
{
    let mut i: usize = 0;
    proof {
        assert(ips@.skip(0) =~= ips@);
    }
    while i < ips.len()
        invariant
            i <= ips@.len(),
            first_ip(ips@, v4) == first_ip(ips@.skip(i as int), v4),
        decreases ips@.len() - i,
    {
        proof {
            assert(ips@.skip(i as int)[0] == ips@[i as int]);
        }
        if ips[i].is_v4 == v4 {
            return Some(ips[i].addr.clone());
        }
        proof {
            assert(ips@.skip(i as int).drop_first() =~= ips@.skip(i + 1));
        }
        i = i + 1;
    }
    None
}

fn resolve_ip(ips: &Vec<IpEntry>) -> (r: String)
    ensures
        r@ == chosen_ip(ips@),
{
    match find_ip(ips, true) {
        Some(s) => s,
        None => match find_ip(ips, false) {
            Some(s) => s,
            None => "Unknown".to_owned(),
        },
    }
}

fn net_of(s: &NetSample, elapsed_millis: i64) -> (n: Network)
    ensures
        n@ == net_view_of(*s, elapsed_millis),
{
    let ip = resolve_ip(&s.ips);
    let throughput = rate(s.delta_received, s.delta_sent, elapsed_millis);
    let mut text = String::new();
    text.append("Network: ");
    text.append(s.name.as_str());
    text.append("\nIP: ");
    text.append(ip.as_str());
    text.append("\nMAC: ");
    text.append(s.mac.as_str());
    text.append("\nSent: ");
    let sent_s = auto_size(s.total_sent);
    text.append(sent_s.as_str());
    text.append("\nReceived: ");
    let recv_s = auto_size(s.total_received);
    text.append(recv_s.as_str());
    text.append("\nUsage: ");
    let rate_s = auto_bits(throughput);
    text.append(rate_s.as_str());
    proof {
        assert(text@ =~= network_text_spec(s.name@, ip@, s.mac@, s.total_sent, s.total_received,
            throughput));
    }
    Network {
        name: s.name.clone(),
        ip,
        mac: s.mac.clone(),
        sent: s.total_sent,
        received: s.total_received,
        throughput,
        text,
    }
}

proof fn lemma_insert_to_multiset<A>(s: Seq<A>, p: int, x: A)
    requires
        0 <= p <= s.len(),
    ensures
        s.insert(p, x).to_multiset() == s.to_multiset().insert(x),
{
    broadcast use vstd::seq_lib::group_to_multiset_ensures;

    let a = s.subrange(0, p);
    let b = s.subrange(p, s.len() as int);
    assert(s.insert(p, x) == a.push(x) + b);
    lemma_multiset_commutative(a.push(x), b);
    assert(a.push(x).to_multiset() =~= a.to_multiset().insert(x));
    assert(s =~= a + b);
    lemma_multiset_commutative(a, b);
    assert(a.to_multiset().insert(x).add(b.to_multiset())
        =~= a.to_multiset().add(b.to_multiset()).insert(x));
}

/// Sorts the interfaces of one snapshot ascending by name. Names unique on
/// the way in stay unique, and the order out is strictly ascending.
fn sort_networks(v: &mut Vec<Network>)
    requires
        view_names_distinct(net_views(old(v)@)),
    ensures
        final(v)@.len() == old(v)@.len(),
        net_views(final(v)@).to_multiset() == net_views(old(v)@).to_multiset(),
        view_names_distinct(net_views(final(v)@)),
        sorted_strictly_by_name(net_views(final(v)@)),
{
    let mut i: usize = 1;
    while i < v.len()
        invariant
            v@.len() == old(v)@.len(),
            1 <= i || v@.len() == 0,
            i <= v@.len() || v@.len() <= 1,
            net_views(v@).to_multiset() == net_views(old(v)@).to_multiset(),
            view_names_distinct(net_views(v@)),
            sorted_prefix(net_views(v@), i as int),
        decreases v@.len() - i,
    {
        let ghost s0 = net_views(v@);
        let mut p: usize = i;
        while p > 0 && str_lt(v[i].name.as_str(), v[p - 1].name.as_str())
            invariant
                p <= i < v@.len(),
                s0 == net_views(v@),
                forall|k: int| p <= k < i ==> lex_lt(s0[i as int].name, #[trigger] s0[k].name),
            decreases p,
        {
            p = p - 1;
        }
        let ghost x = s0[i as int];
        proof {
            // Everything before the insertion point precedes the element.
            assert forall|k: int| 0 <= k < p implies lex_lt(#[trigger] s0[k].name, x.name) by {
                lemma_lex_lt_trichotomy(s0[p - 1].name, x.name);
                assert(s0[p - 1].name != x.name);
                assert(lex_lt(s0[p - 1].name, x.name));
                if k < p - 1 {
                    assert(lex_lt(s0[k].name, s0[p - 1].name));
                    lemma_lex_lt_trans(s0[k].name, s0[p - 1].name, x.name);
                }
            }
        }
        let ghost w0 = v@;
        let e = v.remove(i);
        v.insert(p, e);
        proof {
            let rem_n = w0.remove(i as int);
            assert(v@ == rem_n.insert(p as int, e));
            rem_n.insert_ensures(p as int, e);
            let t = net_views(v@);
            let rem = s0.remove(i as int);
            rem.insert_ensures(p as int, x);
            assert forall|c: int| 0 <= c < rem.len() implies rem[c] == rem_n[c]@ by {}
            assert(t =~= rem.insert(p as int, x)) by {
                assert forall|c: int| 0 <= c < t.len() implies
                    t[c] == rem.insert(p as int, x)[c] by {
                    assert(t[c] == v@[c]@);
                    assert(v@[c] == rem_n.insert(p as int, e)[c]);
                }
            }
            broadcast use vstd::seq_lib::group_to_multiset_ensures;
            assert(rem.to_multiset() =~= s0.to_multiset().remove(x));
            lemma_insert_to_multiset(rem, p as int, x);
            assert(s0.contains(x));
            assert(s0.to_multiset().count(x) > 0);
            assert(t.to_multiset() =~= s0.to_multiset());
            // Pointwise the new order is the old one with the element moved.
            assert forall|c: int| 0 <= c < t.len() implies t[c] == (if c < p {
                s0[c]
            } else if c == p {
                x
            } else if c <= i {
                s0[c - 1]
            } else {
                s0[c]
            }) by {
                rem.insert_ensures(p as int, x);
            }
            assert(view_names_distinct(t)) by {
                assert forall|a: int, b: int| 0 <= a < b < t.len() implies
                    t[a].name != t[b].name by {
                    let ma: int = if a < p { a } else if a == p { i as int } else if a <= i { a - 1 } else { a };
                    let mb: int = if b < p { b } else if b == p { i as int } else if b <= i { b - 1 } else { b };
                    assert(t[a] == s0[ma] && t[b] == s0[mb]);
                    assert(ma != mb);
                    if ma < mb {
                        assert(s0[ma].name != s0[mb].name);
                    } else {
                        assert(s0[mb].name != s0[ma].name);
                    }
                }
            }
            assert(sorted_prefix(t, i + 1)) by {
                assert forall|a: int, b: int| 0 <= a < b < i + 1 && b < t.len() implies
                    lex_lt(#[trigger] t[a].name, #[trigger] t[b].name) by {
                    if b < p {
                        assert(lex_lt(s0[a].name, s0[b].name));
                    } else if b == p {
                        assert(lex_lt(s0[a].name, x.name));
                    } else if a < p {
                        if a < b - 1 {
                            assert(lex_lt(s0[a].name, s0[b - 1].name));
                        }
                    } else if a == p {
                        assert(lex_lt(x.name, s0[b - 1].name));
                    } else {
                        assert(lex_lt(s0[a - 1].name, s0[b - 1].name));
                    }
                }
            }
        }
        i = i + 1;
    }
}

/// Builds the interface collection of one snapshot: interfaces without an
/// address, without traffic, or without a proper MAC address are excluded,
/// and the rest come out sorted strictly ascending by name.
pub fn build_networks(samples: &Vec<NetSample>, elapsed_millis: i64) -> (r: Vec<Network>)
    requires
        net_names_distinct(samples@),
    ensures
        net_views(r@).to_multiset()
            == net_views_of(kept_nets(samples@), elapsed_millis).to_multiset(),
        sorted_strictly_by_name(net_views(r@)),
        view_names_distinct(net_views(r@)),
        forall|k: int| 0 <= k < r@.len()
            ==> #[trigger] net_views(r@)[k].sent > 0 || net_views(r@)[k].received > 0,
{
    let mut out: Vec<Network> = Vec::new();
    let mut i: usize = 0;
    proof {
        reveal(Seq::filter);
        assert(samples@.take(0) =~= Seq::<NetSample>::empty());
        assert(net_views(out@) =~= net_views_of(kept_nets(samples@.take(0)), elapsed_millis));
    }
    while i < samples.len()
        invariant
            i <= samples@.len(),
            net_views(out@) == net_views_of(kept_nets(samples@.take(i as int)), elapsed_millis),
        decreases samples@.len() - i,
    {
        let ghost fpre = kept_nets(samples@.take(i as int));
        proof {
            reveal(Seq::filter);
            assert(samples@.take(i + 1).drop_last() =~= samples@.take(i as int));
            assert(samples@.take(i + 1).last() == samples@[i as int]);
        }
        let s = &samples[i];
        let included = net_included_check(s);
        if included {
            let ghost out0 = out@;
            let n = net_of(s, elapsed_millis);
            out.push(n);
            proof {
                assert(kept_nets(samples@.take(i + 1)) == fpre.push(samples@[i as int]));
                let target = net_views_of(kept_nets(samples@.take(i + 1)), elapsed_millis);
                assert(net_views(out0).len() == net_views_of(fpre, elapsed_millis).len());
                assert(out0.len() == fpre.len());
                assert forall|k: int| 0 <= k < out@.len() implies
                    net_views(out@)[k] == target[k] by {
                    if k < out0.len() {
                        assert(out@[k] == out0[k]);
                        assert(net_views(out0)[k] == net_views_of(fpre, elapsed_millis)[k]);
                    } else {
                        assert(out@[k] == n);
                        assert(fpre.push(samples@[i as int])[k] == samples@[i as int]);
                    }
                }
                assert(net_views(out@) =~= target);
            }
        } else {
            proof {
                assert(kept_nets(samples@.take(i + 1)) == fpre);
            }
        }
        i = i + 1;
    }
    proof {
        assert(samples@.take(samples@.len() as int) =~= samples@);
        lemma_kept_nets_distinct(samples@);
        let kept = kept_nets(samples@);
        let kv = net_views_of(kept, elapsed_millis);
        assert(view_names_distinct(net_views(out@))) by {
            assert forall|a: int, b: int| 0 <= a < b < kv.len() implies
                kv[a].name != kv[b].name by {
                assert(kept[a].name@ != kept[b].name@);
            }
        }
    }
    sort_networks(&mut out);
    proof {
        broadcast use vstd::seq_lib::group_to_multiset_ensures;
        let kept = kept_nets(samples@);
        let kv = net_views_of(kept, elapsed_millis);
        let t = net_views(out@);
        assert forall|k: int| 0 <= k < out@.len() implies
            #[trigger] net_views(out@)[k].sent > 0 || net_views(out@)[k].received > 0 by {
            let x = t[k];
            assert(t.contains(x));
            assert(t.to_multiset().count(x) > 0);
            assert(kv.to_multiset().count(x) > 0);
            assert(kv.contains(x));
            let m = choose|m: int| 0 <= m < kv.len() && kv[m] == x;
            assert(net_included(kept[m]));
            assert(kv[m].sent == kept[m].total_sent && kv[m].received == kept[m].total_received);
        }
    }
    out
}

fn net_included_check(s: &NetSample) -> (r: bool)
    ensures
        r == net_included(*s),
{
    s.ips.len() > 0 && (s.total_received > 0 || s.total_sent > 0) && !s.mac_unspecified
}

} // verus!
