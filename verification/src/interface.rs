//! The platform-independent interface record and its address values.
use vstd::prelude::*;
use crate::ip::{Ipv4Address, Ipv6Address, is_contiguous_mask32, is_contiguous_mask128};
use crate::mac::mac_text_wf;

verus! {

/// An `Option` wrapping the netmask of an address record.
pub type Netmask<T> = Option<T>;

/// The derived operational status of an interface.
#[derive(Debug, PartialEq, Eq, Hash, Clone, Copy, Structural)]
pub enum Status {
    /// The status could not be retrieved.
    Unknown,
    /// The device is up.
    Up,
    /// The device is down.
    Down,
    /// The device is neither up nor down.
    Unavailable,
}

/// The host's UP bit (the value the flag word carries on Linux).
pub const IFF_UP_BIT: i32 = 0x1;

/// The host's BROADCAST bit (Linux value).
pub const IFF_BROADCAST_BIT: i32 = 0x2;

/// The host's LOOPBACK bit (Linux value).
pub const IFF_LOOPBACK_BIT: i32 = 0x8;

/// The host's POINTOPOINT bit (Linux value).
pub const IFF_POINTOPOINT_BIT: i32 = 0x10;

/// The host's RUNNING bit (Linux value).
pub const IFF_RUNNING_BIT: i32 = 0x40;

/// The host's MULTICAST bit (Linux value).
pub const IFF_MULTICAST_BIT: i32 = 0x1000;

/// Mask that keeps running devices.
pub const IFF_RUNNING: i32 = IFF_RUNNING_BIT;

/// Mask that keeps Ethernet-style interfaces: up, broadcast-capable and
/// multicast-capable.
pub const IFF_ETH: i32 = IFF_UP_BIT | IFF_BROADCAST_BIT | IFF_MULTICAST_BIT;

/// Mask that keeps wireless interfaces; on this flag vocabulary it cannot
/// be told apart from Ethernet.
pub const IFF_WIRELESS: i32 = IFF_UP_BIT | IFF_BROADCAST_BIT | IFF_MULTICAST_BIT;

/// Mask that keeps tunnel-style point-to-point interfaces.
pub const IFF_TUN: i32 = IFF_UP_BIT | IFF_POINTOPOINT_BIT;

/// Mask that keeps loopback interfaces.
pub const IFF_LOOPBACK: i32 = IFF_UP_BIT | IFF_LOOPBACK_BIT;

/// An IPv4 address record: the address with its optional broadcast
/// address and netmask.
#[derive(Debug, Clone, Copy, PartialEq, Eq, Hash)]
pub struct V4IfAddr {
    /// The IP address bound to the interface.
    pub ip: Ipv4Address,
    /// The broadcast address of the network, when one applies.
    pub broadcast: Option<Ipv4Address>,
    /// The netmask of the network, when the host reported one.
    pub netmask: Netmask<Ipv4Address>,
}

/// An IPv6 address record: the address with its optional broadcast
/// address and netmask.
#[derive(Debug, Clone, Copy, PartialEq, Eq, Hash)]
pub struct V6IfAddr {
    /// The IP address bound to the interface.
    pub ip: Ipv6Address,
    /// The broadcast address; absent for IPv6 networks.
    pub broadcast: Option<Ipv6Address>,
    /// The netmask of the network, when the host reported one.
    pub netmask: Netmask<Ipv6Address>,
}

/// An address bound to an interface, either family.
#[derive(Debug, Clone, Copy, PartialEq, Eq, Hash)]
pub enum Addr {
    /// An IPv4 address record.
    V4(V4IfAddr),
    /// An IPv6 address record.
    V6(V6IfAddr),
}

/// A family-erased IP value.
#[derive(Debug, Clone, Copy, PartialEq, Eq, Hash)]
pub enum IpAddress {
    /// An IPv4 value.
    V4(Ipv4Address),
    /// An IPv6 value.
    V6(Ipv6Address),
}

/// One network interface of the host.
#[derive(Debug, Clone, PartialEq, Eq, Hash)]
pub struct NetworkInterface {
    /// The OS-visible name of the interface.
    pub name: String,
    /// The addresses bound to the interface, in the order reported.
    pub addr: Vec<Addr>,
    /// The MAC address text, when the OS reported a non-zero link-layer
    /// address.
    pub mac_addr: Option<String>,
    /// The OS-assigned interface index; zero when unknown.
    pub index: u32,
    /// The derived operational status.
    pub status: Status,
    /// The platform flag word of the interface.
    pub flags: i32,
}

/// The mathematical reading of an interface record.
pub ghost struct IfView {
    pub name: Seq<char>,
    pub addr: Seq<Addr>,
    pub mac_addr: Option<Seq<char>>,
    pub index: u32,
    pub status: Status,
    pub flags: i32,
}

impl View for NetworkInterface {
    type V = IfView;

    open spec fn view(&self) -> IfView {
        IfView {
            name: self.name@,
            addr: self.addr@,
            mac_addr: match self.mac_addr {
                Some(s) => Some(s@),
                None => None,
            },
            index: self.index,
            status: self.status,
            flags: self.flags,
        }
    }
}

/// The reading of a whole snapshot: each record's mathematical value, in
/// order.
pub open spec fn views(s: Seq<NetworkInterface>) -> Seq<IfView> {
    s.map_values(|r: NetworkInterface| r@)
}

/// Well-formedness of one address record: a reported netmask is a
/// contiguous high-order-ones mask, and IPv6 records carry no broadcast
/// address.
pub open spec fn addr_wf(a: Addr) -> bool {
    match a {
        Addr::V4(v) => match v.netmask {
            Some(m) => is_contiguous_mask32(m.bits),
            None => true,
        },
        Addr::V6(v) => v.broadcast is None && match v.netmask {
            Some(m) => is_contiguous_mask128(m.bits),
            None => true,
        },
    }
}

/// Well-formedness of one interface record as an enumeration returns it:
/// MAC text, when present, is colon-separated lowercase hex, and every
/// address record is well formed.
pub open spec fn record_wf(r: IfView) -> bool {
    &&& match r.mac_addr {
        Some(cs) => mac_text_wf(cs),
        None => true,
    }
    &&& forall|i: int| 0 <= i < r.addr.len() ==> addr_wf(#[trigger] r.addr[i])
}

impl NetworkInterface {
    /// Builds a record holding one IPv4 address with explicit fields and
    /// no MAC address.
    pub fn new_afinet(
        name: &str,
        addr: Ipv4Address,
        netmask: Netmask<Ipv4Address>,
        broadcast: Option<Ipv4Address>,
        index: u32,
        status: Status,
        flags: i32,
    ) -> (r: NetworkInterface)
        ensures
            r@.name == name@,
            r@.addr == seq![Addr::V4((V4IfAddr { ip: addr, broadcast, netmask }))],
            r@.mac_addr is None,
            r@.index == index,
            r@.status == status,
            r@.flags == flags,
    {
        let ifaddr_v4 = V4IfAddr { ip: addr, broadcast, netmask };
        let mut addrs: Vec<Addr> = Vec::new();
        addrs.push(Addr::V4(ifaddr_v4));
        proof {
            assert(addrs@ =~= seq![Addr::V4((V4IfAddr { ip: addr, broadcast, netmask }))]);
        }
        NetworkInterface {
            name: name.to_owned(),
            addr: addrs,
            mac_addr: None,
            index,
            status,
            flags,
        }
    }

    /// Builds a record holding one IPv6 address with explicit fields and
    /// no MAC address.
    pub fn new_afinet6(
        name: &str,
        addr: Ipv6Address,
        netmask: Netmask<Ipv6Address>,
        broadcast: Option<Ipv6Address>,
        index: u32,
        status: Status,
        flags: i32,
    ) -> (r: NetworkInterface)
        ensures
            r@.name == name@,
            r@.addr == seq![Addr::V6((V6IfAddr { ip: addr, broadcast, netmask }))],
            r@.mac_addr is None,
            r@.index == index,
            r@.status == status,
            r@.flags == flags,
    {
        let ifaddr_v6 = V6IfAddr { ip: addr, broadcast, netmask };
        let mut addrs: Vec<Addr> = Vec::new();
        addrs.push(Addr::V6(ifaddr_v6));
        proof {
            assert(addrs@ =~= seq![Addr::V6((V6IfAddr { ip: addr, broadcast, netmask }))]);
        }
        NetworkInterface {
            name: name.to_owned(),
            addr: addrs,
            mac_addr: None,
            index,
            status,
            flags,
        }
    }

    /// Replaces the MAC address of the record, leaving every other field
    /// unchanged.
    pub fn with_mac_addr(self, mac_addr: Option<String>) -> (r: Self)
        ensures
            r@.mac_addr == (match mac_addr {
                Some(s) => Some(s@),
                None => None::<Seq<char>>,
            }),
            r@.name == self@.name,
            r@.addr == self@.addr,
            r@.index == self@.index,
            r@.status == self@.status,
            r@.flags == self@.flags,
    {
        let NetworkInterface { name, addr, mac_addr: _, index, status, flags } = self;
        NetworkInterface { name, addr, mac_addr, index, status, flags }
    }

    /// Whether the derived status of the interface is `Up`.
    pub fn is_up(&self) -> (r: bool)
        ensures
            r == (self.status == Status::Up),
    {
        self.status == Status::Up
    }
}

impl Addr {
    /// The family-erased IP value of the address record.
    pub fn ip(self) -> (r: IpAddress)
        ensures
            r == (match self {
                Addr::V4(a) => IpAddress::V4(a.ip),
                Addr::V6(a) => IpAddress::V6(a.ip),
            }),
    {
        match self {
            Addr::V4(a) => IpAddress::V4(a.ip),
            Addr::V6(a) => IpAddress::V6(a.ip),
        }
    }

    /// The family-erased broadcast address, when one is present.
    pub fn broadcast(self) -> (r: Option<IpAddress>)
        ensures
            r == (match self {
                Addr::V4(a) => match a.broadcast {
                    Some(b) => Some(IpAddress::V4(b)),
                    None => None::<IpAddress>,
                },
                Addr::V6(a) => match a.broadcast {
                    Some(b) => Some(IpAddress::V6(b)),
                    None => None::<IpAddress>,
                },
            }),
    {
        match self {
            Addr::V4(a) => match a.broadcast {
                Some(b) => Some(IpAddress::V4(b)),
                None => None,
            },
            Addr::V6(a) => match a.broadcast {
                Some(b) => Some(IpAddress::V6(b)),
                None => None,
            },
        }
    }

    /// The family-erased netmask, when one is present.
    pub fn netmask(self) -> (r: Netmask<IpAddress>)
        ensures
            r == (match self {
                Addr::V4(a) => match a.netmask {
                    Some(m) => Some(IpAddress::V4(m)),
                    None => None::<IpAddress>,
                },
                Addr::V6(a) => match a.netmask {
                    Some(m) => Some(IpAddress::V6(m)),
                    None => None::<IpAddress>,
                },
            }),
    {
        match self {
            Addr::V4(a) => match a.netmask {
                Some(m) => Some(IpAddress::V4(m)),
                None => None,
            },
            Addr::V6(a) => match a.netmask {
                Some(m) => Some(IpAddress::V6(m)),
                None => None,
            },
        }
    }
}

} // verus!
