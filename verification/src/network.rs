//! The network manager: a simulated scan of the local network, ping
//! latencies, and aggregate statistics.

use vstd::prelude::*;

use crate::authflow::{find_char, first_idx, lemma_first_idx};
use crate::strutil::{str_eq, str_starts_with};

verus! {

/// One device a scan found.
#[derive(Debug)]
pub struct NetworkDevice {
    pub ip: String,
    pub mac: String,
    pub hostname: String,
    pub online: bool,
    pub latency: u32,
}

/// Field-for-field sameness of two device records.
pub open spec fn net_device_eq(a: NetworkDevice, b: NetworkDevice) -> bool {
    &&& a.ip@ == b.ip@
    &&& a.mac@ == b.mac@
    &&& a.hostname@ == b.hostname@
    &&& a.online == b.online
    &&& a.latency == b.latency
}

impl Clone for NetworkDevice {
    fn clone(&self) -> (r: Self)
        ensures
            net_device_eq(r, *self),
    {
        NetworkDevice {
            ip: self.ip.clone(),
            mac: self.mac.clone(),
            hostname: self.hostname.clone(),
            online: self.online,
            latency: self.latency,
        }
    }
}

/// Aggregate statistics over the last scan.
#[derive(Debug)]
pub struct NetworkStats {
    pub devices_online: u32,
    pub devices_offline: u32,
    pub average_latency: u32,
    pub network_status: String,
}

/// Field-for-field sameness of two statistics records.
pub open spec fn stats_eq(a: NetworkStats, b: NetworkStats) -> bool {
    &&& a.devices_online == b.devices_online
    &&& a.devices_offline == b.devices_offline
    &&& a.average_latency == b.average_latency
    &&& a.network_status@ == b.network_status@
}

impl Clone for NetworkStats {
    fn clone(&self) -> (r: Self)
        ensures
            stats_eq(r, *self),
    {
        NetworkStats {
            devices_online: self.devices_online,
            devices_offline: self.devices_offline,
            average_latency: self.average_latency,
            network_status: self.network_status.clone(),
        }
    }
}

/// How many devices are online.
pub open spec fn count_online(s: Seq<NetworkDevice>) -> nat
    decreases s.len(),
{
    if s.len() == 0 {
        0
    } else {
        count_online(s.drop_last()) + if s.last().online {
            1nat
        } else {
            0nat
        }
    }
}

/// The summed latency of the online devices.
pub open spec fn latency_sum(s: Seq<NetworkDevice>) -> nat
    decreases s.len(),
{
    if s.len() == 0 {
        0
    } else {
        latency_sum(s.drop_last()) + if s.last().online {
            s.last().latency as nat
        } else {
            0nat
        }
    }
}

/// The health label for a number of online devices.
pub open spec fn net_status(online: nat) -> Seq<char> {
    if online >= 3 {
        "normal"@
    } else if online >= 1 {
        "warning"@
    } else {
        "critical"@
    }
}

/// The simulated scan's fixtures: a gateway, a desktop and an offline
/// laptop.
pub open spec fn is_sim_device(d: NetworkDevice, k: int) -> bool {
    if k == 0 {
        d.ip@ == "192.168.1.1"@ && d.mac@ == "00:1A:2B:3C:4D:5E"@ && d.hostname@ == "gateway"@
            && d.online && d.latency == 1
    } else if k == 1 {
        d.ip@ == "192.168.1.100"@ && d.mac@ == "00:1A:2B:3C:4D:5F"@ && d.hostname@ == "desktop"@
            && d.online && d.latency == 5
    } else {
        d.ip@ == "192.168.1.101"@ && d.mac@ == "00:1A:2B:3C:4D:60"@ && d.hostname@ == "laptop"@
            && !d.online && d.latency == 0
    }
}

/// The filter a subnet argument asks for: its part before any `/`, as
/// an ip prefix; an empty subnet keeps everything.
pub open spec fn scan_prefix(subnet: Seq<char>) -> Seq<char> {
    subnet.subrange(0, first_idx(subnet, '/'))
}

/// Is `p` a leading prefix of `s`?
pub open spec fn is_prefix(p: Seq<char>, s: Seq<char>) -> bool {
    p.len() <= s.len() && s.subrange(0, p.len() as int) == p
}

/// Does the simulated device `k` survive the subnet filter?
pub open spec fn scan_keeps(subnet: Seq<char>, k: int) -> bool {
    subnet.len() == 0 || is_prefix(scan_prefix(subnet), sim_ip(k))
}

/// The fixture indices the subnet filter keeps among the first `k`, in
/// fixture order.
pub open spec fn kept_fixtures(subnet: Seq<char>, k: int) -> Seq<int>
    decreases k,
{
    if k <= 0 {
        Seq::empty()
    } else {
        kept_fixtures(subnet, k - 1) + if scan_keeps(subnet, k - 1) {
            seq![k - 1]
        } else {
            Seq::empty()
        }
    }
}

/// The simulated devices' addresses.
pub open spec fn sim_ip(k: int) -> Seq<char> {
    if k == 0 {
        "192.168.1.1"@
    } else if k == 1 {
        "192.168.1.100"@
    } else {
        "192.168.1.101"@
    }
}

/// Manages the scan results and their statistics.
#[derive(Debug)]
pub struct NetworkManager {
    pub name: String,
    pub devices: Vec<NetworkDevice>,
    pub stats: NetworkStats,
}

impl NetworkManager {
    /// A manager that has scanned nothing yet.
    pub fn new() -> (r: NetworkManager)
        ensures
            r.name@ == "NetworkManager"@,
            r.devices@.len() == 0,
            r.stats.devices_online == 0,
            r.stats.devices_offline == 0,
            r.stats.average_latency == 0,
            r.stats.network_status@ == "normal"@,
    {
        NetworkManager {
            name: String::from_str("NetworkManager"),
            devices: Vec::new(),
            stats: NetworkStats {
                devices_online: 0,
                devices_offline: 0,
                average_latency: 0,
                network_status: String::from_str("normal"),
            },
        }
    }

    /// Run the simulated scan: the fixtures whose address starts with
    /// the subnet's prefix (everything, for an empty subnet) become the
    /// device list, and the statistics are recomputed from it.
    pub fn scan_network(&mut self, subnet: &str) -> (r: Result<Vec<NetworkDevice>, String>)
        ensures
            r is Ok,
            ({
                let v = r->Ok_0;
                {
                        &&& v@.len() <= 3
                        &&& v@.len() == kept_fixtures(subnet@, 3).len()
                        &&& forall|i: int|
                            0 <= i < v@.len() ==> is_sim_device(
                                #[trigger] v@[i],
                                kept_fixtures(subnet@, 3)[i],
                            )
                        &&& final(self).devices@.len() == v@.len()
                        &&& forall|i: int|
                            0 <= i < v@.len() ==> net_device_eq(
                                #[trigger] final(self).devices@[i],
                                v@[i],
                            )
                        &&& final(self).stats.devices_online == count_online(final(self).devices@)
                        &&& final(self).stats.devices_offline == final(self).devices@.len()
                            - count_online(final(self).devices@)
                        &&& final(self).stats.average_latency == (
                        if count_online(final(self).devices@) > 0 {
                            latency_sum(final(self).devices@) / count_online(final(self).devices@)
                        } else {
                            0nat
                        })
                        &&& final(self).stats.network_status@ == net_status(
                            count_online(final(self).devices@),
                        )
                }
            }),
    {
        let mut candidates: Vec<NetworkDevice> = Vec::new();
        candidates.push(
            NetworkDevice {
                ip: String::from_str("192.168.1.1"),
                mac: String::from_str("00:1A:2B:3C:4D:5E"),
                hostname: String::from_str("gateway"),
                online: true,
                latency: 1,
            },
        );
        candidates.push(
            NetworkDevice {
                ip: String::from_str("192.168.1.100"),
                mac: String::from_str("00:1A:2B:3C:4D:5F"),
                hostname: String::from_str("desktop"),
                online: true,
                latency: 5,
            },
        );
        candidates.push(
            NetworkDevice {
                ip: String::from_str("192.168.1.101"),
                mac: String::from_str("00:1A:2B:3C:4D:60"),
                hostname: String::from_str("laptop"),
                online: false,
                latency: 0,
            },
        );
        proof {
            assert(is_sim_device(candidates@[0], 0));
            assert(is_sim_device(candidates@[1], 1));
            assert(is_sim_device(candidates@[2], 2));
            assert(candidates@[0].ip@ == sim_ip(0));
            assert(candidates@[1].ip@ == sim_ip(1));
            assert(candidates@[2].ip@ == sim_ip(2));
        }
        let empty = subnet.is_empty();
        let slash = find_char(subnet, '/');
        let prefix: &str = subnet.substring_char(0, slash);
        proof {
            lemma_first_idx(subnet@, '/');
            assert(prefix@ =~= scan_prefix(subnet@));
        }
        let mut kept: Vec<NetworkDevice> = Vec::new();
        let mut k: usize = 0;
        while k < 3
            invariant
                candidates@.len() == 3,
                is_sim_device(candidates@[0], 0),
                is_sim_device(candidates@[1], 1),
                is_sim_device(candidates@[2], 2),
                candidates@[0].ip@ == sim_ip(0),
                candidates@[1].ip@ == sim_ip(1),
                candidates@[2].ip@ == sim_ip(2),
                empty == (subnet@.len() == 0),
                prefix@ == scan_prefix(subnet@),
                k <= 3,
                kept@.len() <= k,
                kept@.len() == kept_fixtures(subnet@, k as int).len(),
                forall|i: int|
                    0 <= i < kept@.len() ==> is_sim_device(
                        #[trigger] kept@[i],
                        kept_fixtures(subnet@, k as int)[i],
                    ),
            decreases 3 - k,
        {
            let ghost pre = kept@;
            let keep = if empty {
                true
            } else {
                str_starts_with(candidates[k].ip.as_str(), prefix)
            };
            proof {
                assert(keep == scan_keeps(subnet@, k as int));
            }
            if keep {
                kept.push(candidates[k].clone());
                proof {
                    assert(is_sim_device(kept@[pre.len() as int], k as int));
                    assert(forall|i: int| 0 <= i < pre.len() ==> kept@[i] == pre[i]);
                }
            }
            proof {
                let kf_old = kept_fixtures(subnet@, k as int);
                let kf_new = kept_fixtures(subnet@, k + 1);
                if keep {
                    assert(kf_new =~= kf_old + seq![k as int]);
                    assert(kf_new[kf_old.len() as int] == k);
                } else {
                    assert(kf_new =~= kf_old + Seq::<int>::empty());
                    assert(kf_new =~= kf_old);
                }
                assert forall|i: int| 0 <= i < kept@.len() implies is_sim_device(
                    #[trigger] kept@[i],
                    kf_new[i],
                ) by {
                    if i < pre.len() {
                        assert(kept@[i] == pre[i]);
                        assert(kf_new[i] == kf_old[i]);
                    } else {
                        assert(keep);
                        assert(i == pre.len());
                        assert(kf_new[i] == k);
                    }
                }
            }
            k = k + 1;
        }
        let stored = clone_net_devices(&kept);
        self.devices = stored;
        self.update_stats();
        proof {
            assert(forall|i: int|
                0 <= i < kept@.len() ==> net_device_eq(#[trigger] self.devices@[i], kept@[i]));
        }
        Ok(kept)
    }

    /// The simulated round-trip time to an address: fixed answers for
    /// the gateway and the two well-known resolvers, a default
    /// otherwise.
    pub fn ping_device(&self, ip: &str) -> (r: Result<u32, String>)
        ensures
            r == Ok::<u32, String>(
                if ip@ == "192.168.1.1"@ {
                    1u32
                } else if ip@ == "8.8.8.8"@ {
                    15u32
                } else if ip@ == "1.1.1.1"@ {
                    12u32
                } else {
                    10u32
                },
            ),
    {
        if str_eq(ip, "192.168.1.1") {
            Ok(1)
        } else if str_eq(ip, "8.8.8.8") {
            Ok(15)
        } else if str_eq(ip, "1.1.1.1") {
            Ok(12)
        } else {
            Ok(10)
        }
    }

    /// The statistics of the last scan.
    pub fn get_network_stats(&self) -> (r: Result<NetworkStats, String>)
        ensures
            r matches Ok(s) && stats_eq(s, self.stats),
    {
        Ok(self.stats.clone())
    }

    /// Recompute the statistics from the current device list: online
    /// and offline counts, the mean latency of the online devices, and
    /// the health label (`normal` from three devices online, `warning`
    /// from one, `critical` otherwise).
    pub fn update_stats(&mut self)
        requires
            old(self).devices@.len() <= 0xffff_ffff,
        ensures
            final(self).devices@ == old(self).devices@,
            final(self).name == old(self).name,
            final(self).stats.devices_online == count_online(old(self).devices@),
            final(self).stats.devices_offline == old(self).devices@.len() - count_online(
                old(self).devices@,
            ),
            final(self).stats.average_latency == (
            if count_online(old(self).devices@) > 0 {
                latency_sum(old(self).devices@) / count_online(old(self).devices@)
            } else {
                0nat
            }),
            final(self).stats.network_status@ == net_status(count_online(old(self).devices@)),
    {
        let n = self.devices.len();
        let mut online: u32 = 0;
        let mut total: u64 = 0;
        let mut i: usize = 0;
        proof {
            assert(self.devices@.subrange(0, 0) =~= Seq::<NetworkDevice>::empty());
        }
        while i < n
            invariant
                *self == *old(self),
                n == self.devices@.len(),
                n <= 0xffff_ffff,
                i <= n,
                online == count_online(self.devices@.subrange(0, i as int)),
                total == latency_sum(self.devices@.subrange(0, i as int)),
                online <= i,
                total <= online * 0xffff_ffff,
            decreases n - i,
        {
            proof {
                assert(self.devices@.subrange(0, i + 1).drop_last() =~= self.devices@.subrange(
                    0,
                    i as int,
                ));
                assert(self.devices@.subrange(0, i + 1).last() == self.devices@[i as int]);
                assert((online + 1) * 0xffff_ffff == online * 0xffff_ffff + 0xffff_ffff)
                    by (nonlinear_arith);
                assert(online * 0xffff_ffff <= 0xffff_ffff * 0xffff_ffff) by (nonlinear_arith)
                    requires
                        online <= 0xffff_ffff,
                ;
            }
            if self.devices[i].online {
                online = online + 1;
                total = total + self.devices[i].latency as u64;
            }
            i = i + 1;
        }
        proof {
            assert(self.devices@.subrange(0, n as int) =~= self.devices@);
        }
        let avg: u32 = if online > 0 {
            proof {
                assert(total as nat / online as nat <= 0xffff_ffff) by (nonlinear_arith)
                    requires
                        online > 0,
                        total <= online * 0xffff_ffff,
                ;
                assert(total as u64 / online as u64 == total as nat / online as nat);
            }
            (total / online as u64) as u32
        } else {
            0
        };
        let offline: u32 = (n as u32) - online;
        let status: &str = if online >= 3 {
            "normal"
        } else if online >= 1 {
            "warning"
        } else {
            "critical"
        };
        self.stats = NetworkStats {
            devices_online: online,
            devices_offline: offline,
            average_latency: avg,
            network_status: String::from_str(status),
        };
    }
}

/// Clone a device list, keeping values and order.
fn clone_net_devices(devices: &Vec<NetworkDevice>) -> (r: Vec<NetworkDevice>)
    ensures
        r@.len() == devices@.len(),
        forall|j: int| 0 <= j < r@.len() ==> net_device_eq(#[trigger] r@[j], devices@[j]),
{
    let mut out: Vec<NetworkDevice> = Vec::new();
    let mut i: usize = 0;
    while i < devices.len()
        invariant
            i <= devices@.len(),
            out@.len() == i,
            forall|j: int| 0 <= j < i ==> net_device_eq(#[trigger] out@[j], devices@[j]),
        decreases devices@.len() - i,
    {
        out.push(devices[i].clone());
        i = i + 1;
    }
    out
}

} // verus!
