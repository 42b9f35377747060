//! Conversion of the adapter list a Windows host enumerates.
//!
//! `GetAdaptersAddresses` yields one entry per adapter, each with a
//! friendly name, a hardware type, an operational status, a physical
//! address and a per-family unicast address list with prefix lengths. A
//! platform front end reads those entries into plain [`WinAdapter`]
//! values; [`walk_adapters`] turns each into one interface record, in
//! adapter order, deriving netmasks from prefix lengths and broadcast
//! addresses for Ethernet-like adapters.
use vstd::prelude::*;
use vstd::string::StringExecFns;
use crate::error::{Error, ErrorKind};
use crate::interface::{Addr, IfView, NetworkInterface, Status, V4IfAddr, V6IfAddr, addr_wf,
    record_wf, views};
use crate::ip::{Ipv4Address, Ipv6Address, broadcast_v4, mask_from_prefix_v4, mask_from_prefix_v6,
    spec_broadcast32, spec_mask32, spec_mask128};
use crate::mac::{format_mac, lemma_mac_text_wf};
use crate::unix::spec_mac_option;

verus! {

/// The Ethernet hardware type (IANA ifType value).
pub const IF_TYPE_ETHERNET: u32 = 6;

/// The point-to-point protocol hardware type (IANA ifType value).
pub const IF_TYPE_PPP: u32 = 23;

/// The software loopback hardware type (IANA ifType value).
pub const IF_TYPE_SOFTWARE_LOOPBACK: u32 = 24;

/// The IEEE 802.11 wireless hardware type (IANA ifType value).
pub const IF_TYPE_IEEE80211: u32 = 71;

/// The tunnel hardware type (IANA ifType value).
pub const IF_TYPE_TUNNEL: u32 = 131;

/// The flag word of an Ethernet adapter on the Windows flag vocabulary.
pub const WIN_IFF_ETH: i32 = 0x1;

/// The flag word of a wireless adapter on the Windows flag vocabulary.
pub const WIN_IFF_WIRELESS: i32 = 0x2;

/// The flag word of a tunnel adapter on the Windows flag vocabulary.
pub const WIN_IFF_TUN: i32 = 0x1 | 0x4;

/// The flag word of a loopback adapter on the Windows flag vocabulary.
pub const WIN_IFF_LOOPBACK: i32 = 0x8;

/// The operational-status code of a running adapter.
pub const OPER_STATUS_UP: u32 = 1;

/// The operational-status code of a stopped adapter.
pub const OPER_STATUS_DOWN: u32 = 2;

/// The operational-status code of an adapter whose state is unknown.
pub const OPER_STATUS_UNKNOWN: u32 = 4;

/// One unicast address of an adapter, with its on-link prefix length.
#[derive(Debug, Clone, Copy, PartialEq, Eq)]
pub enum WinUnicast {
    /// A v4 unicast address.
    V4 { ip: Ipv4Address, prefix: u8 },
    /// A v6 unicast address.
    V6 { ip: Ipv6Address, prefix: u8 },
}

/// One adapter as the host enumeration reports it, with the friendly
/// name already decoded to text.
#[derive(Debug, Clone, PartialEq, Eq)]
pub struct WinAdapter {
    /// The adapter's friendly name.
    pub name: String,
    /// The adapter's hardware type.
    pub if_type: u32,
    /// The adapter's operational-status code.
    pub oper_status: u32,
    /// The adapter's IPv6 interface index; zero when absent.
    pub index_v6: u32,
    /// The adapter's IPv4 interface index; zero when absent.
    pub index_v4: u32,
    /// The adapter's physical address bytes; empty when absent.
    pub physical: Vec<u8>,
    /// The adapter's unicast addresses, in list order.
    pub unicast: Vec<WinUnicast>,
}

/// The mathematical reading of one adapter entry.
pub ghost struct WinAdapterView {
    pub name: Seq<char>,
    pub if_type: u32,
    pub oper_status: u32,
    pub index_v6: u32,
    pub index_v4: u32,
    pub physical: Seq<u8>,
    pub unicast: Seq<WinUnicast>,
}

impl View for WinAdapter {
    type V = WinAdapterView;

    open spec fn view(&self) -> WinAdapterView {
        WinAdapterView {
            name: self.name@,
            if_type: self.if_type,
            oper_status: self.oper_status,
            index_v6: self.index_v6,
            index_v4: self.index_v4,
            physical: self.physical@,
            unicast: self.unicast@,
        }
    }
}

/// The readings of a whole adapter list, in order.
pub open spec fn adapter_views(s: Seq<WinAdapter>) -> Seq<WinAdapterView> {
    s.map_values(|a: WinAdapter| a@)
}

/// The flag word an adapter's hardware type maps to.
pub open spec fn spec_win_flags(if_type: u32) -> i32 {
    if if_type == IF_TYPE_ETHERNET {
        WIN_IFF_ETH
    } else if if_type == IF_TYPE_IEEE80211 {
        WIN_IFF_WIRELESS
    } else if if_type == IF_TYPE_TUNNEL {
        WIN_IFF_TUN
    } else if if_type == IF_TYPE_SOFTWARE_LOOPBACK {
        WIN_IFF_LOOPBACK
    } else {
        0
    }
}

/// The status an operational-status code maps to.
pub open spec fn spec_win_status(oper: u32) -> Status {
    if oper == OPER_STATUS_UP {
        Status::Up
    } else if oper == OPER_STATUS_DOWN {
        Status::Down
    } else if oper == OPER_STATUS_UNKNOWN {
        Status::Unknown
    } else {
        Status::Unavailable
    }
}

/// Whether a v4 broadcast address applies to the adapter: it is
/// Ethernet-like, neither loopback nor point-to-point.
pub open spec fn spec_broadcast_applies(if_type: u32) -> bool {
    if_type != IF_TYPE_SOFTWARE_LOOPBACK && if_type != IF_TYPE_PPP && if_type != IF_TYPE_TUNNEL
}

/// Whether a unicast entry's prefix length fits its address family.
pub open spec fn unicast_ok(u: WinUnicast) -> bool {
    match u {
        WinUnicast::V4 { ip: _, prefix } => prefix <= 32,
        WinUnicast::V6 { ip: _, prefix } => prefix <= 128,
    }
}

/// Whether every unicast entry of the adapter is well formed.
pub open spec fn adapter_ok(a: WinAdapterView) -> bool {
    forall|i: int| 0 <= i < a.unicast.len() ==> unicast_ok(#[trigger] a.unicast[i])
}

/// The index an adapter reports: the IPv6 interface index when it is
/// non-zero, else the IPv4 one.
pub open spec fn spec_win_index(a: WinAdapterView) -> u32 {
    if a.index_v6 != 0 {
        a.index_v6
    } else {
        a.index_v4
    }
}

/// The address record one unicast entry maps to: the netmask is derived
/// from the prefix length, and a v4 entry of an Ethernet-like adapter
/// gains the broadcast address of its network.
pub open spec fn spec_win_addr(if_type: u32, u: WinUnicast) -> Addr {
    match u {
        WinUnicast::V4 { ip, prefix } => Addr::V4(
            V4IfAddr {
                ip,
                broadcast: if spec_broadcast_applies(if_type) {
                    Some(Ipv4Address { bits: spec_broadcast32(ip.bits, spec_mask32(prefix as nat)) })
                } else {
                    None
                },
                netmask: Some(Ipv4Address { bits: spec_mask32(prefix as nat) }),
            },
        ),
        WinUnicast::V6 { ip, prefix } => Addr::V6(
            V6IfAddr {
                ip,
                broadcast: None,
                netmask: Some(Ipv6Address { bits: spec_mask128(prefix as nat) }),
            },
        ),
    }
}

/// The interface record one adapter maps to.
pub open spec fn spec_adapter_record(a: WinAdapterView) -> IfView {
    IfView {
        name: a.name,
        addr: a.unicast.map_values(|u: WinUnicast| spec_win_addr(a.if_type, u)),
        mac_addr: spec_mac_option(a.physical),
        index: spec_win_index(a),
        status: spec_win_status(a.oper_status),
        flags: spec_win_flags(a.if_type),
    }
}

/// The snapshot a whole adapter list maps to, in adapter order.
pub open spec fn spec_walk(s: Seq<WinAdapterView>) -> Seq<IfView> {
    s.map_values(|a: WinAdapterView| spec_adapter_record(a))
}

/// Turns one adapter entry into its interface record, or fails with a
/// `Parse` error when a prefix length does not fit its address family.
fn adapter_record(a: WinAdapter) -> (r: Result<NetworkInterface, Error>)
    ensures
        match r {
            Ok(rec) => adapter_ok(a@) && rec@ == spec_adapter_record(a@) && record_wf(rec@),
            Err(e) => e.kind == ErrorKind::Parse && !adapter_ok(a@),
        },
{
    let vn = a.unicast.len();
    let mut vj: usize = 0;
    while vj < vn
        invariant
            vj <= vn,
            vn == a.unicast@.len(),
            forall|k: int| 0 <= k < vj ==> unicast_ok(#[trigger] a.unicast@[k]),
        decreases vn - vj,
    {
        match a.unicast[vj] {
            WinUnicast::V4 { ip: _, prefix } => {
                if prefix > 32 {
                    proof {
                        assert(!unicast_ok(a.unicast@[vj as int]));
                        assert(!adapter_ok(a@));
                    }
                    return Err(
                        Error::new(
                            ErrorKind::Parse,
                            String::from_str("GetAdaptersAddresses reported a v4 prefix above 32"),
                        ),
                    );
                }
            },
            WinUnicast::V6 { ip: _, prefix } => {
                if prefix > 128 {
                    proof {
                        assert(!unicast_ok(a.unicast@[vj as int]));
                        assert(!adapter_ok(a@));
                    }
                    return Err(
                        Error::new(
                            ErrorKind::Parse,
                            String::from_str("GetAdaptersAddresses reported a v6 prefix above 128"),
                        ),
                    );
                }
            },
        }
        vj = vj + 1;
    }
    proof {
        assert(adapter_ok(a@));
    }
    let ghost av = a@;
    let WinAdapter { name, if_type, oper_status, index_v6, index_v4, physical, unicast } = a;
    let index = if index_v6 != 0 {
        index_v6
    } else {
        index_v4
    };
    let flags: i32 = if if_type == IF_TYPE_ETHERNET {
        WIN_IFF_ETH
    } else if if_type == IF_TYPE_IEEE80211 {
        WIN_IFF_WIRELESS
    } else if if_type == IF_TYPE_TUNNEL {
        WIN_IFF_TUN
    } else if if_type == IF_TYPE_SOFTWARE_LOOPBACK {
        WIN_IFF_LOOPBACK
    } else {
        0
    };
    let status = if oper_status == OPER_STATUS_UP {
        Status::Up
    } else if oper_status == OPER_STATUS_DOWN {
        Status::Down
    } else if oper_status == OPER_STATUS_UNKNOWN {
        Status::Unknown
    } else {
        Status::Unavailable
    };
    let mac_addr = format_mac(physical.as_slice());
    proof {
        if mac_addr is Some {
            lemma_mac_text_wf(av.physical);
        }
    }
    let bcast_applies = if_type != IF_TYPE_SOFTWARE_LOOPBACK && if_type != IF_TYPE_PPP && if_type
        != IF_TYPE_TUNNEL;
    let n = unicast.len();
    let mut addrs: Vec<Addr> = Vec::new();
    let mut j: usize = 0;
    while j < n
        invariant
            j <= n,
            n == av.unicast.len(),
            unicast@ == av.unicast,
            bcast_applies == spec_broadcast_applies(av.if_type),
            addrs@.len() == j,
            adapter_ok(av),
            forall|i: int|
                0 <= i < j ==> #[trigger] addrs@[i] == spec_win_addr(av.if_type, av.unicast[i]),
            forall|i: int| 0 <= i < j ==> addr_wf(#[trigger] addrs@[i]),
        decreases n - j,
    {
        let u = unicast[j];
        proof {
            assert(unicast_ok(av.unicast[j as int]));
        }
        match u {
            WinUnicast::V4 { ip, prefix } => {
                let mask = mask_from_prefix_v4(prefix);
                let broadcast = if bcast_applies {
                    Some(broadcast_v4(ip, mask))
                } else {
                    None
                };
                addrs.push(Addr::V4(V4IfAddr { ip, broadcast, netmask: Some(mask) }));
            },
            WinUnicast::V6 { ip, prefix } => {
                let mask = mask_from_prefix_v6(prefix);
                addrs.push(Addr::V6(V6IfAddr { ip, broadcast: None, netmask: Some(mask) }));
            },
        }
        j = j + 1;
    }
    let rec = NetworkInterface { name, addr: addrs, mac_addr, index, status, flags };
    proof {
        assert(rec@.addr =~= av.unicast.map_values(
            |u: WinUnicast| spec_win_addr(av.if_type, u),
        ));
        assert(rec@ == spec_adapter_record(av));
        assert(record_wf(rec@));
    }
    Ok(rec)
}

/// Turns the enumerated adapter list into interface records, one per
/// adapter, in adapter order. A prefix length that does not fit its
/// address family fails the whole call with a `Parse` error.
pub fn walk_adapters(adapters: Vec<WinAdapter>) -> (r: Result<Vec<NetworkInterface>, Error>)
    ensures
        match r {
            Ok(v) => {
                &&& forall|i: int|
                    0 <= i < adapters@.len() ==> adapter_ok(
                        #[trigger] adapter_views(adapters@)[i],
                    )
                &&& views(v@) == spec_walk(adapter_views(adapters@))
                &&& forall|i: int| 0 <= i < v@.len() ==> record_wf(#[trigger] views(v@)[i])
            },
            Err(e) => {
                &&& e.kind == ErrorKind::Parse
                &&& exists|i: int|
                    0 <= i < adapters@.len() && !adapter_ok(
                        #[trigger] adapter_views(adapters@)[i],
                    )
            },
        },
{
    let ghost all = adapter_views(adapters@);
    let mut rest = adapters;
    let mut out: Vec<NetworkInterface> = Vec::new();
    let ghost mut seen: Seq<WinAdapterView> = Seq::empty();
    proof {
        assert(all =~= seen + adapter_views(rest@));
    }
    while rest.len() > 0
        invariant
            all == adapter_views(adapters@),
            all == seen + adapter_views(rest@),
            out@.len() == seen.len(),
            forall|i: int| 0 <= i < seen.len() ==> adapter_ok(#[trigger] seen[i]),
            forall|i: int|
                0 <= i < seen.len() ==> #[trigger] views(out@)[i] == spec_adapter_record(seen[i]),
            forall|i: int| 0 <= i < out@.len() ==> record_wf(#[trigger] views(out@)[i]),
        decreases rest.len(),
    {
        let ghost o = rest@;
        let a = rest.remove(0);
        let ghost av = a@;
        proof {
            assert(adapter_views(o) =~= seq![av] + adapter_views(rest@));
            assert(all[seen.len() as int] == av);
        }
        match adapter_record(a) {
            Ok(rec) => {
                let ghost prev = views(out@);
                out.push(rec);
                proof {
                    seen = seen.push(av);
                    assert(views(out@) =~= prev.push(rec@));
                    assert(all =~= seen + adapter_views(rest@));
                }
            },
            Err(e) => {
                proof {
                    let k = seen.len() as int;
                    assert(!adapter_ok(all[k]));
                    assert(all.len() == adapters@.len());
                    assert(0 <= k < adapters@.len());
                    assert(adapter_views(adapters@)[k] == all[k]);
                    assert(!adapter_ok(adapter_views(adapters@)[k]));
                }
                return Err(e);
            },
        }
    }
    proof {
        assert(adapter_views(rest@) =~= Seq::<WinAdapterView>::empty());
        assert(seen =~= all);
        assert(views(out@) =~= spec_walk(all));
        assert forall|i: int| 0 <= i < adapters@.len() implies adapter_ok(
            #[trigger] adapter_views(adapters@)[i],
        ) by {
            assert(all[i] == seen[i]);
        }
    }
    Ok(out)
}

} // verus!
