//! Enumeration-support library for describing the network interfaces of a
//! host: a platform-independent data model (interface records, v4/v6
//! addresses, netmasks, MAC text), the pure logic both platform enumerators
//! share (MAC formatting, prefix-to-mask derivation, grouping of per-address
//! records, flag filtering), and the contracts that pin that logic down.
//!
//! The operating-system calls themselves (`getifaddrs`,
//! `GetAdaptersAddresses`) live outside this crate; a platform front end
//! gathers raw per-address records as plain values and hands them to the
//! fold/walk functions here, which produce the finished interface records.
use vstd::prelude::*;

pub mod error;
pub mod filter;
pub mod interface;
pub mod ip;
pub mod mac;
pub mod unix;
pub mod windows;

pub use error::{Error, ErrorKind};
pub use interface::{Addr, IfView, IpAddress, NetworkInterface, Netmask, Status, V4IfAddr,
    V6IfAddr, IFF_ETH, IFF_LOOPBACK, IFF_RUNNING, IFF_TUN, IFF_WIRELESS};
pub use ip::{Ipv4Address, Ipv6Address};
pub use mac::format_mac;
pub use unix::{UnixEntry, UnixFamilyData, fold_entries};
pub use windows::{WinAdapter, WinUnicast, walk_adapters};

verus! {

/// The capability a platform front end offers: produce a snapshot of the
/// host's interfaces, and narrow a snapshot by a flag mask.
pub trait NetworkInterfaceConfig {
    /// Returns all interfaces visible to the calling process, as one
    /// fresh snapshot, or the error the enumeration ran into.
    fn show() -> Result<Vec<interface::NetworkInterface>, error::Error>;

    /// Keeps the records whose flag word has every bit of `flags` set,
    /// preserving their relative order.
    fn filter(
        ifas: Vec<interface::NetworkInterface>,
        flags: i32,
    ) -> (r: Vec<interface::NetworkInterface>)
        ensures
            r@ == filter::spec_filter(ifas@, flags),
    {
        filter::filter(ifas, flags)
    }
}

} // verus!
