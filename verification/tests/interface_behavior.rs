use network_interface::{
    Addr, Error, ErrorKind, IpAddress, NetworkInterface, NetworkInterfaceConfig, Status,
    UnixEntry, UnixFamilyData, WinAdapter, WinUnicast, fold_entries,
    format_mac, walk_adapters,
};
use network_interface::filter::filter;
use network_interface::ip::{
    Ipv4Address, Ipv6Address, broadcast_v4, mask_from_prefix_v4, mask_from_prefix_v6,
    prefix_of_mask_v4, prefix_of_mask_v6,
};
use network_interface::unix::status_from_flags;
use network_interface::interface::{
    IFF_RUNNING_BIT, IFF_UP_BIT, IFF_ETH, IFF_LOOPBACK,
};
use network_interface::windows::{
    IF_TYPE_ETHERNET, IF_TYPE_SOFTWARE_LOOPBACK, OPER_STATUS_UP, WIN_IFF_ETH, WIN_IFF_LOOPBACK,
};

fn v4(a: u8, b: u8, c: u8, d: u8) -> Ipv4Address {
    Ipv4Address::from_octets(a, b, c, d)
}

fn sample(name: &str, flags: i32) -> NetworkInterface {
    NetworkInterface::new_afinet(
        name,
        v4(10, 0, 0, 1),
        Some(v4(255, 255, 255, 0)),
        None,
        1,
        Status::Up,
        flags,
    )
}

#[test]
fn v4_helper_round_trip() {
    let ip = v4(192, 168, 7, 9);
    let mask = v4(255, 255, 254, 0);
    let bcast = v4(192, 168, 7, 255);
    let rec = NetworkInterface::new_afinet("eth0", ip, Some(mask), Some(bcast), 5, Status::Up, 0x43);
    assert_eq!(rec.name, "eth0");
    assert_eq!(rec.index, 5);
    assert_eq!(rec.status, Status::Up);
    assert_eq!(rec.flags, 0x43);
    assert_eq!(rec.mac_addr, None);
    assert_eq!(rec.addr.len(), 1);
    match rec.addr[0] {
        Addr::V4(a) => {
            assert_eq!(a.ip, ip);
            assert_eq!(a.netmask, Some(mask));
            assert_eq!(a.broadcast, Some(bcast));
        }
        Addr::V6(_) => panic!("expected a v4 address"),
    }
}

#[test]
fn v6_helper_round_trip() {
    let ip = Ipv6Address { bits: 0x2001_0db8_0000_0000_0000_0000_0000_0001 };
    let mask = Ipv6Address { bits: 0xffff_ffff_ffff_ffff_0000_0000_0000_0000 };
    let rec = NetworkInterface::new_afinet6("wlan0", ip, Some(mask), None, 7, Status::Down, 0x11);
    assert_eq!(rec.name, "wlan0");
    assert_eq!(rec.index, 7);
    assert_eq!(rec.status, Status::Down);
    assert_eq!(rec.flags, 0x11);
    assert_eq!(rec.mac_addr, None);
    assert_eq!(rec.addr.len(), 1);
    match rec.addr[0] {
        Addr::V6(a) => {
            assert_eq!(a.ip, ip);
            assert_eq!(a.netmask, Some(mask));
            assert_eq!(a.broadcast, None);
        }
        Addr::V4(_) => panic!("expected a v6 address"),
    }
}

#[test]
fn with_mac_addr_round_trip() {
    let rec = sample("eth0", 0);
    let rec = rec.with_mac_addr(Some(String::from("02:00:00:11:22:33")));
    assert_eq!(rec.mac_addr, Some(String::from("02:00:00:11:22:33")));
    let rec = rec.with_mac_addr(None);
    assert_eq!(rec.mac_addr, None);
}

#[test]
fn is_up_reads_status() {
    assert!(sample("eth0", 0).is_up());
    let down = NetworkInterface::new_afinet("eth1", v4(10, 0, 0, 2), None, None, 2, Status::Down, 0);
    assert!(!down.is_up());
}

#[test]
fn addr_accessors_erase_the_family() {
    let rec = sample("eth0", 0);
    let a = rec.addr[0];
    assert_eq!(a.ip(), IpAddress::V4(v4(10, 0, 0, 1)));
    assert_eq!(a.broadcast(), None);
    assert_eq!(a.netmask(), Some(IpAddress::V4(v4(255, 255, 255, 0))));
}

#[test]
fn mac_formatting() {
    let text = format_mac(&[0x00, 0x1a, 0x2b, 0x3c, 0x4d, 0x5e]);
    assert_eq!(text, Some(String::from("00:1a:2b:3c:4d:5e")));
    assert_eq!(format_mac(&[0, 0, 0, 0, 0, 0]), None);
    assert_eq!(format_mac(&[]), None);
}

#[test]
fn mac_text_is_colon_separated_lowercase_hex() {
    let text = format_mac(&[0xde, 0xad, 0xbe, 0xef, 0x00, 0x01]).unwrap();
    let chars: Vec<char> = text.chars().collect();
    assert_eq!(chars.len(), 17);
    for (i, c) in chars.iter().enumerate() {
        if i % 3 == 2 {
            assert_eq!(*c, ':');
        } else {
            assert!(c.is_ascii_hexdigit() && !c.is_ascii_uppercase());
        }
    }
    assert!(text.contains(':'));
}

#[test]
fn mac_formatting_keeps_natural_length() {
    let text = format_mac(&[0x01, 0x02, 0x03, 0x04, 0x05, 0x06, 0x07, 0x08]);
    assert_eq!(text, Some(String::from("01:02:03:04:05:06:07:08")));
    let text = format_mac(&[0x7f]);
    assert_eq!(text, Some(String::from("7f")));
}

#[test]
fn prefix_to_mask() {
    assert_eq!(mask_from_prefix_v4(24), v4(255, 255, 255, 0));
    assert_eq!(mask_from_prefix_v4(0).bits, 0);
    assert_eq!(mask_from_prefix_v4(32).bits, 0xffff_ffff);
    assert_eq!(
        mask_from_prefix_v6(64).bits,
        0xffff_ffff_ffff_ffff_0000_0000_0000_0000u128,
    );
    assert_eq!(mask_from_prefix_v6(0).bits, 0);
    assert_eq!(mask_from_prefix_v6(128).bits, u128::MAX);
}

#[test]
fn prefix_of_mask_inverts_mask_of_prefix() {
    assert_eq!(prefix_of_mask_v4(v4(255, 255, 255, 0).bits), Some(24));
    assert_eq!(prefix_of_mask_v4(0), Some(0));
    assert_eq!(prefix_of_mask_v4(0xffff_ffff), Some(32));
    assert_eq!(prefix_of_mask_v4(v4(255, 0, 255, 0).bits), None);
    assert_eq!(
        prefix_of_mask_v6(0xffff_ffff_ffff_ffff_0000_0000_0000_0000u128),
        Some(64),
    );
    assert_eq!(prefix_of_mask_v6(0x0000_0000_0000_0001u128), None);
}

#[test]
fn broadcast_derivation() {
    let bcast = broadcast_v4(v4(192, 168, 1, 37), mask_from_prefix_v4(24));
    assert_eq!(bcast, v4(192, 168, 1, 255));
}

#[test]
fn ipv6_from_octets_is_big_endian() {
    let o: [u8; 16] = [0x20, 0x01, 0x0d, 0xb8, 0, 0, 0, 0, 0, 0, 0, 0, 0, 0, 0, 1];
    let ip = Ipv6Address::from_octets(&o);
    assert_eq!(ip.bits, 0x2001_0db8_0000_0000_0000_0000_0000_0001u128);
}

#[test]
fn ipv4_octets_round_trip() {
    let ip = v4(127, 0, 0, 1);
    assert_eq!(ip.octets(), (127, 0, 0, 1));
    assert_eq!(ip.bits, 0x7f00_0001);
}

#[test]
fn status_from_flags_follows_up_and_running() {
    assert_eq!(status_from_flags(IFF_UP_BIT | IFF_RUNNING_BIT), Status::Up);
    assert_eq!(status_from_flags(IFF_UP_BIT), Status::Unavailable);
    assert_eq!(status_from_flags(0), Status::Down);
    assert_eq!(status_from_flags(IFF_RUNNING_BIT), Status::Down);
}

#[test]
fn filter_semantics() {
    let first = sample("a", 0b1011);
    let second = sample("b", 0b0010);
    let xs = vec![first.clone(), second];
    let kept = filter(xs, 0b1010);
    assert_eq!(kept, vec![first]);
}

#[test]
fn filter_zero_mask_keeps_everything() {
    let xs = vec![sample("a", 0b1011), sample("b", 0b0010), sample("c", 0)];
    let kept = filter(xs.clone(), 0);
    assert_eq!(kept, xs);
}

#[test]
fn filter_composes_as_mask_union() {
    let xs = vec![
        sample("a", 0b1111),
        sample("b", 0b0011),
        sample("c", 0b1100),
        sample("d", 0b1010),
    ];
    let twice = filter(filter(xs.clone(), 0b0010), 0b1000);
    let once = filter(xs, 0b1010);
    assert_eq!(twice, once);
}

#[test]
fn filter_preserves_relative_order() {
    let xs = vec![
        sample("a", 0b01),
        sample("b", 0b10),
        sample("c", 0b01),
        sample("d", 0b11),
    ];
    let kept = filter(xs, 0b01);
    let names: Vec<&str> = kept.iter().map(|r| r.name.as_str()).collect();
    assert_eq!(names, vec!["a", "c", "d"]);
}

struct EmptyHost;

impl NetworkInterfaceConfig for EmptyHost {
    fn show() -> Result<Vec<NetworkInterface>, Error> {
        Ok(Vec::new())
    }
}

#[test]
fn trait_filter_uses_the_shared_semantics() {
    let shown = EmptyHost::show().unwrap();
    assert!(shown.is_empty());
    let xs = vec![sample("a", 0b1011), sample("b", 0b0010)];
    let kept = EmptyHost::filter(xs, 0b1010);
    assert_eq!(kept.len(), 1);
    assert_eq!(kept[0].name, "a");
}

fn eth0_entry(data: UnixFamilyData) -> UnixEntry {
    UnixEntry {
        name: String::from("eth0"),
        flags: IFF_UP_BIT | IFF_RUNNING_BIT,
        index: 2,
        data,
    }
}

#[test]
fn unix_folding_groups_by_name() {
    let entries = vec![
        eth0_entry(UnixFamilyData::V4 {
            ip: v4(10, 1, 2, 3),
            netmask: Some(v4(255, 255, 255, 0)),
            broadcast: Some(v4(10, 1, 2, 255)),
        }),
        eth0_entry(UnixFamilyData::V6 {
            ip: Ipv6Address { bits: 0xfe80_0000_0000_0000_0000_0000_0000_0001 },
            netmask: Some(Ipv6Address { bits: 0xffff_ffff_ffff_ffff_0000_0000_0000_0000 }),
        }),
        eth0_entry(UnixFamilyData::Link { bytes: vec![0x02, 0x00, 0x00, 0x00, 0x00, 0x01] }),
    ];
    let folded = fold_entries(entries).unwrap();
    assert_eq!(folded.len(), 1);
    let rec = &folded[0];
    assert_eq!(rec.name, "eth0");
    assert_eq!(rec.addr.len(), 2);
    assert_eq!(rec.mac_addr, Some(String::from("02:00:00:00:00:01")));
    assert_eq!(rec.index, 2);
    assert_eq!(rec.status, Status::Up);
}

#[test]
fn unix_folding_keeps_first_seen_name_order() {
    let mk = |name: &str| UnixEntry {
        name: String::from(name),
        flags: 0,
        index: 0,
        data: UnixFamilyData::V4 { ip: v4(10, 0, 0, 1), netmask: None, broadcast: None },
    };
    let entries = vec![mk("lo"), mk("eth0"), mk("lo"), mk("eth0"), mk("wlan0")];
    let folded = fold_entries(entries).unwrap();
    let names: Vec<&str> = folded.iter().map(|r| r.name.as_str()).collect();
    assert_eq!(names, vec!["lo", "eth0", "wlan0"]);
    assert_eq!(folded[0].addr.len(), 2);
    assert_eq!(folded[1].addr.len(), 2);
    assert_eq!(folded[2].addr.len(), 1);
}

#[test]
fn unix_folding_discards_all_zero_mac() {
    let entries = vec![eth0_entry(UnixFamilyData::Link { bytes: vec![0, 0, 0, 0, 0, 0] })];
    let folded = fold_entries(entries).unwrap();
    assert_eq!(folded.len(), 1);
    assert_eq!(folded[0].mac_addr, None);
}

#[test]
fn unix_folding_rejects_ragged_netmask() {
    let entries = vec![eth0_entry(UnixFamilyData::V4 {
        ip: v4(10, 1, 2, 3),
        netmask: Some(v4(255, 0, 255, 0)),
        broadcast: None,
    })];
    let err = fold_entries(entries).unwrap_err();
    assert_eq!(err.kind(), ErrorKind::Parse);
    assert!(!err.message().is_empty());
}

fn ethernet_adapter(unicast: Vec<WinUnicast>) -> WinAdapter {
    WinAdapter {
        name: String::from("Ethernet 2"),
        if_type: IF_TYPE_ETHERNET,
        oper_status: OPER_STATUS_UP,
        index_v6: 0,
        index_v4: 11,
        physical: vec![0x00, 0x1a, 0x2b, 0x3c, 0x4d, 0x5e],
        unicast,
    }
}

#[test]
fn windows_broadcast_derivation() {
    let adapters = vec![ethernet_adapter(vec![WinUnicast::V4 {
        ip: v4(192, 168, 1, 37),
        prefix: 24,
    }])];
    let shown = walk_adapters(adapters).unwrap();
    assert_eq!(shown.len(), 1);
    let rec = &shown[0];
    assert_eq!(rec.name, "Ethernet 2");
    assert_eq!(rec.flags, WIN_IFF_ETH);
    assert_eq!(rec.index, 11);
    assert_eq!(rec.status, Status::Up);
    assert_eq!(rec.mac_addr, Some(String::from("00:1a:2b:3c:4d:5e")));
    match rec.addr[0] {
        Addr::V4(a) => {
            assert_eq!(a.netmask, Some(v4(255, 255, 255, 0)));
            assert_eq!(a.broadcast, Some(v4(192, 168, 1, 255)));
        }
        Addr::V6(_) => panic!("expected a v4 address"),
    }
}

#[test]
fn windows_loopback_has_no_broadcast() {
    let adapters = vec![WinAdapter {
        name: String::from("Loopback Pseudo-Interface 1"),
        if_type: IF_TYPE_SOFTWARE_LOOPBACK,
        oper_status: OPER_STATUS_UP,
        index_v6: 3,
        index_v4: 1,
        physical: Vec::new(),
        unicast: vec![WinUnicast::V4 { ip: v4(192, 168, 1, 37), prefix: 24 }],
    }];
    let shown = walk_adapters(adapters).unwrap();
    let rec = &shown[0];
    assert_eq!(rec.flags, WIN_IFF_LOOPBACK);
    assert_eq!(rec.index, 3);
    assert_eq!(rec.mac_addr, None);
    match rec.addr[0] {
        Addr::V4(a) => {
            assert_eq!(a.netmask, Some(v4(255, 255, 255, 0)));
            assert_eq!(a.broadcast, None);
        }
        Addr::V6(_) => panic!("expected a v4 address"),
    }
}

#[test]
fn windows_rejects_oversized_prefix() {
    let adapters = vec![ethernet_adapter(vec![WinUnicast::V4 {
        ip: v4(192, 168, 1, 37),
        prefix: 33,
    }])];
    let err = walk_adapters(adapters).unwrap_err();
    assert_eq!(err.kind(), ErrorKind::Parse);
}

#[test]
fn error_carries_kind_and_message() {
    let e = Error::new(ErrorKind::Read, String::from("getifaddrs failed"));
    assert_eq!(e.kind(), ErrorKind::Read);
    assert_eq!(e.message(), "getifaddrs failed");
    let e = Error::new(ErrorKind::Resource, String::from("buffer growth exhausted"));
    assert_eq!(e.kind(), ErrorKind::Resource);
}

#[test]
fn loopback_record_filters_as_loopback() {
    let lo = NetworkInterface::new_afinet(
        "lo",
        v4(127, 0, 0, 1),
        Some(v4(255, 0, 0, 0)),
        None,
        1,
        Status::Up,
        IFF_LOOPBACK | IFF_RUNNING_BIT,
    );
    let eth = sample("eth0", IFF_ETH | IFF_RUNNING_BIT);
    let shown = vec![lo, eth];
    let kept = filter(shown, IFF_LOOPBACK);
    assert_eq!(kept.len(), 1);
    assert_eq!(kept[0].name, "lo");
    assert!(kept[0].is_up());
}
