//! Grouping of the per-address records a Unix-family host enumerates.
//!
//! `getifaddrs` yields one record per bound address: AF_INET, AF_INET6 and
//! link-layer records for one interface arrive separately, each carrying
//! the interface name. A platform front end reads those records into
//! plain [`UnixEntry`] values; [`fold_entries`] groups them into one
//! interface record per name, preserving the first-seen order of names.
use vstd::prelude::*;
use vstd::string::StringExecFns;
use crate::error::{Error, ErrorKind};
use crate::interface::{
    Addr, IfView, NetworkInterface, Status, V4IfAddr, V6IfAddr, addr_wf, record_wf, views,
    IFF_UP_BIT, IFF_RUNNING_BIT,
};
use crate::ip::{Ipv4Address, Ipv6Address, is_contiguous_mask32, is_contiguous_mask128,
    prefix_of_mask_v4, prefix_of_mask_v6};
use crate::mac::{format_mac, lemma_mac_text_wf, spec_all_zero, spec_mac_text};

verus! {

/// The family-specific payload of one enumerated per-address record.
#[derive(Debug, Clone, PartialEq, Eq)]
pub enum UnixFamilyData {
    /// An AF_INET payload: the v4 address with its optional netmask and
    /// broadcast address.
    V4 { ip: Ipv4Address, netmask: Option<Ipv4Address>, broadcast: Option<Ipv4Address> },
    /// An AF_INET6 payload: the v6 address with its optional netmask.
    V6 { ip: Ipv6Address, netmask: Option<Ipv6Address> },
    /// A link-layer payload: the raw link-layer bytes.
    Link { bytes: Vec<u8> },
}

/// One per-address record as the host enumeration reports it.
#[derive(Debug, Clone, PartialEq, Eq)]
pub struct UnixEntry {
    /// The interface name the record belongs to.
    pub name: String,
    /// The platform flag word of the interface.
    pub flags: i32,
    /// The OS-assigned interface index; zero when unavailable.
    pub index: u32,
    /// The family-specific payload.
    pub data: UnixFamilyData,
}

/// The mathematical reading of a family payload.
pub ghost enum UnixFamilyView {
    V4 { ip: Ipv4Address, netmask: Option<Ipv4Address>, broadcast: Option<Ipv4Address> },
    V6 { ip: Ipv6Address, netmask: Option<Ipv6Address> },
    Link { bytes: Seq<u8> },
}

/// The mathematical reading of one enumerated record.
pub ghost struct UnixEntryView {
    pub name: Seq<char>,
    pub flags: i32,
    pub index: u32,
    pub data: UnixFamilyView,
}

/// The reading of a family payload.
pub open spec fn data_view(d: UnixFamilyData) -> UnixFamilyView {
    match d {
        UnixFamilyData::V4 { ip, netmask, broadcast } => UnixFamilyView::V4 {
            ip,
            netmask,
            broadcast,
        },
        UnixFamilyData::V6 { ip, netmask } => UnixFamilyView::V6 { ip, netmask },
        UnixFamilyData::Link { bytes } => UnixFamilyView::Link { bytes: bytes@ },
    }
}

impl View for UnixEntry {
    type V = UnixEntryView;

    open spec fn view(&self) -> UnixEntryView {
        UnixEntryView {
            name: self.name@,
            flags: self.flags,
            index: self.index,
            data: data_view(self.data),
        }
    }
}

/// The readings of a whole enumeration, in order.
pub open spec fn entry_views(s: Seq<UnixEntry>) -> Seq<UnixEntryView> {
    s.map_values(|e: UnixEntry| e@)
}

/// Whether a payload is well formed: a reported netmask must be a
/// contiguous high-order-ones mask.
pub open spec fn data_ok(d: UnixFamilyView) -> bool {
    match d {
        UnixFamilyView::V4 { ip: _, netmask, broadcast: _ } => match netmask {
            Some(m) => is_contiguous_mask32(m.bits),
            None => true,
        },
        UnixFamilyView::V6 { ip: _, netmask } => match netmask {
            Some(m) => is_contiguous_mask128(m.bits),
            None => true,
        },
        UnixFamilyView::Link { bytes: _ } => true,
    }
}

/// Whether one record is well formed.
pub open spec fn entry_ok(e: UnixEntryView) -> bool {
    data_ok(e.data)
}

/// The status a Unix flag word denotes: up and running is `Up`, up
/// without running is `Unavailable`, otherwise `Down`.
pub open spec fn spec_status_from_flags(flags: i32) -> Status {
    if flags & IFF_UP_BIT == IFF_UP_BIT {
        if flags & IFF_RUNNING_BIT == IFF_RUNNING_BIT {
            Status::Up
        } else {
            Status::Unavailable
        }
    } else {
        Status::Down
    }
}

/// Derives the cross-platform status of an interface from its Unix flag
/// word.
pub fn status_from_flags(flags: i32) -> (s: Status)
    ensures
        s == spec_status_from_flags(flags),
{
    if flags & IFF_UP_BIT == IFF_UP_BIT {
        if flags & IFF_RUNNING_BIT == IFF_RUNNING_BIT {
            Status::Up
        } else {
            Status::Unavailable
        }
    } else {
        Status::Down
    }
}

/// The MAC text a link-layer byte sequence produces: none when the
/// sequence is empty or all zero.
pub open spec fn spec_mac_option(bytes: Seq<u8>) -> Option<Seq<char>> {
    if bytes.len() == 0 || spec_all_zero(bytes) {
        None
    } else {
        Some(spec_mac_text(bytes))
    }
}

/// One payload folded into an interface record: an address is appended,
/// a non-zero link-layer address replaces the MAC text.
pub open spec fn spec_apply_data(r: IfView, d: UnixFamilyView) -> IfView {
    match d {
        UnixFamilyView::V4 { ip, netmask, broadcast } => IfView {
            name: r.name,
            addr: r.addr.push(Addr::V4(V4IfAddr { ip, broadcast, netmask })),
            mac_addr: r.mac_addr,
            index: r.index,
            status: r.status,
            flags: r.flags,
        },
        UnixFamilyView::V6 { ip, netmask } => IfView {
            name: r.name,
            addr: r.addr.push(Addr::V6(V6IfAddr { ip, broadcast: None, netmask })),
            mac_addr: r.mac_addr,
            index: r.index,
            status: r.status,
            flags: r.flags,
        },
        UnixFamilyView::Link { bytes } => IfView {
            name: r.name,
            addr: r.addr,
            mac_addr: match spec_mac_option(bytes) {
                Some(t) => Some(t),
                None => r.mac_addr,
            },
            index: r.index,
            status: r.status,
            flags: r.flags,
        },
    }
}

/// The interface record a first-seen name starts: name, flags, index and
/// derived status from the record, with the payload folded in.
pub open spec fn spec_new_record(e: UnixEntryView) -> IfView {
    spec_apply_data(
        IfView {
            name: e.name,
            addr: Seq::empty(),
            mac_addr: None,
            index: e.index,
            status: spec_status_from_flags(e.flags),
            flags: e.flags,
        },
        e.data,
    )
}

/// The first position holding an interface of the given name, or -1.
pub open spec fn spec_find_name(s: Seq<IfView>, name: Seq<char>) -> int
    decreases s.len(),
{
    if s.len() == 0 {
        -1
    } else if s[0].name == name {
        0
    } else {
        let r = spec_find_name(s.drop_first(), name);
        if r == -1 {
            -1
        } else {
            r + 1
        }
    }
}

/// What `spec_find_name` returns: -1 exactly when the name is absent,
/// else the first position holding it.
pub proof fn lemma_find_name(s: Seq<IfView>, name: Seq<char>)
    ensures
        spec_find_name(s, name) == -1 ==> forall|i: int|
            0 <= i < s.len() ==> (#[trigger] s[i]).name != name,
        spec_find_name(s, name) != -1 ==> {
            let r = spec_find_name(s, name);
            &&& 0 <= r < s.len()
            &&& s[r].name == name
            &&& forall|i: int| 0 <= i < r ==> (#[trigger] s[i]).name != name
        },
    decreases s.len(),
{
    if s.len() == 0 {
    } else if s[0].name == name {
    } else {
        let t = s.drop_first();
        lemma_find_name(t, name);
        let rt = spec_find_name(t, name);
        if rt == -1 {
            assert forall|i: int| 0 <= i < s.len() implies (#[trigger] s[i]).name != name by {
                if i > 0 {
                    assert(s[i] == t[i - 1]);
                }
            }
        } else {
            assert(s[rt + 1] == t[rt]);
            assert forall|i: int| 0 <= i < rt + 1 implies (#[trigger] s[i]).name != name by {
                if i > 0 {
                    assert(s[i] == t[i - 1]);
                }
            }
        }
    }
}

/// One enumerated record folded into the accumulated snapshot: it joins
/// the record of its interface, or starts a new one at the end.
pub open spec fn spec_fold_step(acc: Seq<IfView>, e: UnixEntryView) -> Seq<IfView> {
    let i = spec_find_name(acc, e.name);
    if i == -1 {
        acc.push(spec_new_record(e))
    } else {
        acc.update(i, spec_apply_data(acc[i], e.data))
    }
}

/// The enumeration folded left to right onto an accumulated snapshot.
pub open spec fn spec_fold_from(acc: Seq<IfView>, entries: Seq<UnixEntryView>) -> Seq<IfView>
    decreases entries.len(),
{
    if entries.len() == 0 {
        acc
    } else {
        spec_fold_from(spec_fold_step(acc, entries.first()), entries.drop_first())
    }
}

/// The snapshot a whole enumeration folds to.
pub open spec fn spec_fold(entries: Seq<UnixEntryView>) -> Seq<IfView> {
    spec_fold_from(Seq::empty(), entries)
}

/// Whether no two records of a snapshot share a name.
pub open spec fn names_distinct(s: Seq<IfView>) -> bool {
    forall|i: int, j: int|
        0 <= i < j < s.len() ==> (#[trigger] s[i]).name != (#[trigger] s[j]).name
}

/// Whether one record's payload is well formed, decided at run time.
fn check_entry(e: &UnixEntry) -> (r: bool)
    ensures
        r == entry_ok(e@),
{
    match &e.data {
        UnixFamilyData::V4 { ip: _, netmask, broadcast: _ } => match netmask {
            Some(m) => prefix_of_mask_v4(m.bits).is_some(),
            None => true,
        },
        UnixFamilyData::V6 { ip: _, netmask } => match netmask {
            Some(m) => prefix_of_mask_v6(m.bits).is_some(),
            None => true,
        },
        UnixFamilyData::Link { bytes: _ } => true,
    }
}

/// Folds one well-formed payload into an owned interface record.
fn apply_data(rec: NetworkInterface, data: UnixFamilyData) -> (r: NetworkInterface)
    requires
        data_ok(data_view(data)),
        record_wf(rec@),
    ensures
        r@ == spec_apply_data(rec@, data_view(data)),
        record_wf(r@),
{
    let ghost rv = rec@;
    match data {
        UnixFamilyData::V4 { ip, netmask, broadcast } => {
            let mut rec = rec;
            rec.addr.push(Addr::V4(V4IfAddr { ip, broadcast, netmask }));
            proof {
                assert forall|i: int| 0 <= i < rec@.addr.len() implies addr_wf(
                    #[trigger] rec@.addr[i],
                ) by {
                    if i < rv.addr.len() {
                        assert(rec@.addr[i] == rv.addr[i]);
                    }
                }
            }
            rec
        },
        UnixFamilyData::V6 { ip, netmask } => {
            let mut rec = rec;
            rec.addr.push(Addr::V6(V6IfAddr { ip, broadcast: None, netmask }));
            proof {
                assert forall|i: int| 0 <= i < rec@.addr.len() implies addr_wf(
                    #[trigger] rec@.addr[i],
                ) by {
                    if i < rv.addr.len() {
                        assert(rec@.addr[i] == rv.addr[i]);
                    }
                }
            }
            rec
        },
        UnixFamilyData::Link { bytes } => {
            match format_mac(bytes.as_slice()) {
                Some(s) => {
                    proof {
                        lemma_mac_text_wf(bytes@);
                    }
                    let mut rec = rec;
                    rec.mac_addr = Some(s);
                    rec
                },
                None => rec,
            }
        },
    }
}

/// The first position in the accumulated snapshot holding the name, if
/// any.
fn find_name(v: &Vec<NetworkInterface>, name: &String) -> (r: Option<usize>)
    ensures
        match r {
            Some(j) => j < v@.len() && spec_find_name(views(v@), name@) == j as int,
            None => spec_find_name(views(v@), name@) == -1,
        },
{
    let n = v.len();
    let mut j: usize = 0;
    while j < n
        invariant
            j <= n,
            n == v@.len(),
            forall|k: int| 0 <= k < j ==> (#[trigger] views(v@)[k]).name != name@,
        decreases n - j,
    {
        if v[j].name == *name {
            proof {
                lemma_find_name(views(v@), name@);
                assert(views(v@)[j as int].name == name@);
            }
            return Some(j);
        }
        j = j + 1;
    }
    proof {
        lemma_find_name(views(v@), name@);
    }
    None
}

/// Groups the enumerated per-address records into one interface record
/// per name, in first-seen name order: addresses append in arrival
/// order, a non-zero link-layer record sets the MAC text, and the first
/// record of a name fixes its flags, index and derived status. A record
/// whose netmask is not a contiguous mask fails the whole call with a
/// `Parse` error.
pub fn fold_entries(entries: Vec<UnixEntry>) -> (r: Result<Vec<NetworkInterface>, Error>)
    ensures
        match r {
            Ok(v) => {
                &&& forall|i: int|
                    0 <= i < entries@.len() ==> entry_ok(#[trigger] entry_views(entries@)[i])
                &&& views(v@) == spec_fold(entry_views(entries@))
                &&& forall|i: int| 0 <= i < v@.len() ==> record_wf(#[trigger] views(v@)[i])
                &&& names_distinct(views(v@))
            },
            Err(e) => {
                &&& e.kind == ErrorKind::Parse
                &&& exists|i: int|
                    0 <= i < entries@.len() && !entry_ok(#[trigger] entry_views(entries@)[i])
            },
        },
{
    let ghost all = entry_views(entries@);
    let mut rest = entries;
    let mut out: Vec<NetworkInterface> = Vec::new();
    let ghost mut seen: Seq<UnixEntryView> = Seq::empty();
    proof {
        assert(all =~= seen + entry_views(rest@));
        assert(views(out@) =~= Seq::<IfView>::empty());
    }
    while rest.len() > 0
        invariant
            all == entry_views(entries@),
            all == seen + entry_views(rest@),
            forall|i: int| 0 <= i < seen.len() ==> entry_ok(#[trigger] seen[i]),
            spec_fold_from(views(out@), entry_views(rest@)) == spec_fold(all),
            forall|i: int| 0 <= i < out@.len() ==> record_wf(#[trigger] views(out@)[i]),
            names_distinct(views(out@)),
        decreases rest.len(),
    {
        let ghost o = rest@;
        let ghost acc0 = views(out@);
        let e = rest.remove(0);
        let ghost ev = e@;
        proof {
            assert(entry_views(o) =~= seq![ev] + entry_views(rest@));
            assert(entry_views(o)[0] == ev);
        }
        if !check_entry(&e) {
            proof {
                let k = seen.len() as int;
                assert(all[k] == ev);
                assert(!entry_ok(all[k]));
            }
            return Err(
                Error::new(
                    ErrorKind::Parse,
                    String::from_str("getifaddrs reported a netmask that is not a contiguous mask"),
                ),
            );
        }
        proof {
            assert(entry_views(o).drop_first() =~= entry_views(rest@));
            assert(entry_views(o).first() == ev);
            assert(spec_fold_from(acc0, entry_views(o)) == spec_fold_from(
                spec_fold_step(acc0, ev),
                entry_views(rest@),
            ));
        }
        let idx = find_name(&out, &e.name);
        match idx {
            None => {
                let UnixEntry { name, flags, index, data } = e;
                let base = NetworkInterface {
                    name,
                    addr: Vec::new(),
                    mac_addr: None,
                    index,
                    status: status_from_flags(flags),
                    flags,
                };
                proof {
                    assert(base@.addr =~= Seq::<Addr>::empty());
                    assert(record_wf(base@));
                    assert(data_view(data) == ev.data);
                }
                let rec = apply_data(base, data);
                proof {
                    assert(rec@ == spec_new_record(ev));
                }
                out.push(rec);
                proof {
                    assert(views(out@) =~= acc0.push(rec@));
                    assert(views(out@) == spec_fold_step(acc0, ev));
                    assert(rec@.name == ev.name);
                    lemma_find_name(acc0, ev.name);
                    assert forall|x: int, y: int|
                        0 <= x < y < views(out@).len() implies (#[trigger] views(out@)[x]).name
                        != (#[trigger] views(out@)[y]).name by {
                        if y < acc0.len() {
                            assert(views(out@)[x] == acc0[x] && views(out@)[y] == acc0[y]);
                        } else {
                            assert(views(out@)[x] == acc0[x] && views(out@)[y] == rec@);
                            assert(acc0[x].name != ev.name);
                        }
                    }
                }
            },
            Some(j) => {
                let ghost out0 = out@;
                let rec = out.remove(j);
                proof {
                    assert(rec@ == acc0[j as int]);
                    assert(record_wf(rec@));
                }
                let UnixEntry { name: _, flags: _, index: _, data } = e;
                proof {
                    assert(data_view(data) == ev.data);
                }
                let rec2 = apply_data(rec, data);
                out.insert(j, rec2);
                proof {
                    assert(out@ =~= out0.update(j as int, rec2));
                    assert(views(out@) =~= acc0.update(j as int, rec2@));
                    assert(views(out@) == spec_fold_step(acc0, ev));
                    assert(rec2@.name == acc0[j as int].name);
                    assert forall|x: int, y: int|
                        0 <= x < y < views(out@).len() implies (#[trigger] views(out@)[x]).name
                        != (#[trigger] views(out@)[y]).name by {
                        assert(views(out@)[x].name == acc0[x].name);
                        assert(views(out@)[y].name == acc0[y].name);
                        assert(acc0[x].name != acc0[y].name);
                    }
                }
            },
        }
        proof {
            seen = seen.push(ev);
            assert(all =~= seen + entry_views(rest@));
        }
    }
    proof {
        assert(entry_views(rest@) =~= Seq::<UnixEntryView>::empty());
        assert(seen =~= all);
        assert(spec_fold_from(views(out@), entry_views(rest@)) == views(out@));
        assert forall|i: int| 0 <= i < entries@.len() implies entry_ok(
            #[trigger] entry_views(entries@)[i],
        ) by {
            assert(all[i] == seen[i]);
        }
    }
    Ok(out)
}

} // verus!
