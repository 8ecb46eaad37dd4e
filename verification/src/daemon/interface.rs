//! Finding network interfaces and their addresses.

use vstd::prelude::*;

use crate::numbers::decimal_text;
use crate::numbers::law_written_number_has_no_padding;
use crate::numbers::law_written_number_reads_back;
use crate::numbers::parse_u32;
use crate::numbers::unsigned_text;
use crate::text::is_whitespace;
use crate::text::law_trimmed_is_what_stands_between;
use crate::text::trim;
use crate::text::trimmed;

verus! {

/// How many seconds pass between two looks for an interface.
pub const IFACE_POLL_SECS: u64 = 5;

/// What happened while an interface was waited for.
#[derive(Clone, Copy, PartialEq, Eq, Structural, Debug)]
pub enum WaitEvent {
    /// A look at the interface: it is there, or not.
    Looked { exists: bool },
    /// The poll interval went by.
    IntervalElapsed,
    /// The process was interrupted.
    Interrupted,
    /// The process was told to terminate.
    Terminated,
}

/// What to do while an interface is waited for.
#[derive(Clone, Copy, PartialEq, Eq, Structural, Debug)]
pub enum WaitAction {
    /// The interface is there.
    Ready,
    /// Wait for the poll interval or a signal.
    Wait { secs: u64 },
    /// Look again.
    Look,
    /// Stop, because of an interrupt.
    StopInterrupted,
    /// Stop, because of a termination request.
    StopTerminated,
}

/// Decide what to do while an interface is waited for.
pub fn wait_for_interface(event: WaitEvent) -> (action: WaitAction)
    ensures
        action == match event {
            WaitEvent::Looked { exists } => if exists {
                WaitAction::Ready
            } else {
                WaitAction::Wait { secs: IFACE_POLL_SECS }
            },
            WaitEvent::IntervalElapsed => WaitAction::Look,
            WaitEvent::Interrupted => WaitAction::StopInterrupted,
            WaitEvent::Terminated => WaitAction::StopTerminated,
        },
{
    match event {
        WaitEvent::Looked { exists } => {
            if exists {
                WaitAction::Ready
            } else {
                WaitAction::Wait { secs: IFACE_POLL_SECS }
            }
        },
        WaitEvent::IntervalElapsed => WaitAction::Look,
        WaitEvent::Interrupted => WaitAction::StopInterrupted,
        WaitEvent::Terminated => WaitAction::StopTerminated,
    }
}

/// Where the system describes an interface.
pub fn sysfs_path(name: &str) -> (path: String)
    ensures
        path@ == "/sys/class/net/"@ + name@,
{
    String::from_str("/sys/class/net/").concat(name)
}

/// Where the system tells the index of an interface.
pub fn ifindex_path(name: &str) -> (path: String)
    ensures
        path@ == "/sys/class/net/"@ + name@ + "/ifindex"@,
{
    sysfs_path(name).concat("/ifindex")
}

/// Read an interface index.
pub fn ifindex(text: &str) -> (index: Option<u32>)
    ensures
        match unsigned_text(trimmed(text@)) {
            Some(n) => if n <= u32::MAX {
                index == Some(n as u32)
            } else {
                index is None
            },
            None => index is None,
        },
{
    parse_u32(trim(text))
}

/// An address of an interface.
pub struct InterfaceAddr {
    pub interface: String,
    /// The address, if it is an IPv6 address.
    pub ipv6: Option<[u8; 16]>,
}

/// A link-local unicast address, that is, one in `fe80::/10`.
pub open spec fn is_link_local(addr: Seq<u8>) -> bool {
    addr[0] == 0xfe && 0x80 <= addr[1] <= 0xbf
}

/// An IPv6 address of the named interface that is not link-local.
pub open spec fn is_global_on(addr: InterfaceAddr, name: Seq<char>) -> bool {
    &&& addr.interface@ == name
    &&& addr.ipv6 is Some
    &&& !is_link_local(addr.ipv6->0@)
}

/// No address of the named interface is one that is not link-local.
pub open spec fn no_global(addrs: Seq<InterfaceAddr>, name: Seq<char>) -> bool {
    forall|j: int| 0 <= j < addrs.len() ==> !#[trigger] is_global_on(addrs[j], name)
}

/// Find the first IPv6 address of an interface that is not link-local.
pub fn get_wan_ipv6(addrs: &Vec<InterfaceAddr>, name: &String) -> (addr: Option<[u8; 16]>)
    ensures
        addr is None <==> no_global(addrs@, name@),
        match addr {
            Some(a) => exists|i: int|
                {
                    &&& 0 <= i < addrs@.len()
                    &&& #[trigger] is_global_on(addrs@[i], name@)
                    &&& addrs@[i].ipv6 == Some(a)
                    &&& forall|j: int| 0 <= j < i ==> !#[trigger] is_global_on(addrs@[j], name@)
                },
            None => forall|j: int|
                0 <= j < addrs@.len() ==> !#[trigger] is_global_on(addrs@[j], name@),
        },
{
    let mut i: usize = 0;
    while i < addrs.len()
        invariant
            i <= addrs.len(),
            forall|j: int| 0 <= j < i ==> !#[trigger] is_global_on(addrs@[j], name@),
        decreases addrs.len() - i,
    {
        if addrs[i].interface == *name {
            if let Some(a) = addrs[i].ipv6 {
                if !(a[0] == 0xfe && 0x80 <= a[1] && a[1] <= 0xbf) {
                    assert(is_global_on(addrs@[i as int], name@));
                    return Some(a);
                }
            }
        }
        i = i + 1;
    }
    None
}

/// The link-local addresses are those whose first ten bits are `1111_1110_10`.
pub proof fn law_link_local_by_bits(addr: Seq<u8>)
    ensures
        is_link_local(addr) <==> (addr[0] * 256 + addr[1]) / 64 == 0b1111_1110_10,
{
}

/// An address is taken for a name's just if the interface has that very name and the address
/// is an IPv6 address whose first ten bits are not `1111_1110_10`.
pub proof fn law_global_addresses_by_bits(addr: InterfaceAddr, name: Seq<char>)
    ensures
        is_global_on(addr, name) <==> {
            &&& addr.interface@ == name
            &&& addr.ipv6 matches Some(a)
            &&& (a@[0] * 256 + a@[1]) / 64 != 0b1111_1110_10
        },
{
}

/// What waiting for an interface comes to: nothing but its being there ends the wait well, and
/// each signal ends it in its own way. The looks are five seconds apart.
pub proof fn law_waiting_by_event(event: WaitEvent, action: WaitAction)
    requires
        call_ensures(wait_for_interface, (event,), action),
    ensures
        action == WaitAction::Ready <==> event == (WaitEvent::Looked { exists: true }),
        action is Wait <==> event == (WaitEvent::Looked { exists: false }),
        action is Wait ==> action->secs == 5,
        action == WaitAction::Look <==> event == WaitEvent::IntervalElapsed,
        action == WaitAction::StopInterrupted <==> event == WaitEvent::Interrupted,
        action == WaitAction::StopTerminated <==> event == WaitEvent::Terminated,
{
}

/// The paths of an interface end with its whole name, and with the name and `/ifindex`. Paths
/// of different interfaces differ.
pub proof fn law_paths_carry_whole_name(
    name: &str,
    path: String,
    index_path: String,
    other: &str,
    other_path: String,
)
    requires
        call_ensures(sysfs_path, (name,), path),
        call_ensures(ifindex_path, (name,), index_path),
        call_ensures(sysfs_path, (other,), other_path),
    ensures
        path@.len() == 15 + name@.len(),
        path@.subrange(15, path@.len() as int) == name@,
        index_path@ == path@ + "/ifindex"@,
        path@ == other_path@ ==> name@ == other@,
{
    reveal_strlit("/sys/class/net/");
    assert(path@.subrange(15, path@.len() as int) =~= name@);
    assert(other_path@.subrange(15, other_path@.len() as int) =~= other@);
}

/// An index that is written, with any whitespace around it, is read as itself if it fits.
pub proof fn law_index_says_its_number(
    text: &str,
    before: Seq<char>,
    n: nat,
    after: Seq<char>,
    index: Option<u32>,
)
    requires
        call_ensures(ifindex, (text,), index),
        text@ == before + decimal_text(n) + after,
        forall|i: int| 0 <= i < before.len() ==> is_whitespace(#[trigger] before[i]),
        forall|i: int| 0 <= i < after.len() ==> is_whitespace(#[trigger] after[i]),
    ensures
        index == if n <= 0xffff_ffff {
            Some(n as u32)
        } else {
            None::<u32>
        },
{
    law_written_number_has_no_padding(n);
    law_written_number_reads_back(n);
    let d = decimal_text(n);
    assert(48 <= d[0] as u32 <= 57);
    assert(48 <= d[d.len() - 1] as u32 <= 57);
    law_trimmed_is_what_stands_between(before, d, after);
}

/// The WAN address is the first address under the interface's name whose first ten bits are not
/// `1111_1110_10`, and there is none only if no address is such.
pub proof fn law_wan_address_is_first_global(
    addrs: &Vec<InterfaceAddr>,
    name: &String,
    addr: Option<[u8; 16]>,
    n: int,
)
    requires
        call_ensures(get_wan_ipv6, (addrs, name), addr),
        0 <= n < addrs@.len(),
        addrs@[n].interface@ == name@,
        addrs@[n].ipv6 is Some,
        (addrs@[n].ipv6->0@[0] * 256 + addrs@[n].ipv6->0@[1]) / 64 != 0b1111_1110_10,
        forall|j: int|
            0 <= j < n ==> (#[trigger] addrs@[j]).interface@ != name@ || addrs@[j].ipv6 is None || (
            addrs@[j].ipv6->0@[0] * 256 + addrs@[j].ipv6->0@[1]) / 64 == 0b1111_1110_10,
    ensures
        addr == addrs@[n].ipv6,
{
    law_global_addresses_by_bits(addrs@[n], name@);
    assert forall|j: int| 0 <= j < n implies !#[trigger] is_global_on(addrs@[j], name@) by {
        law_global_addresses_by_bits(addrs@[j], name@);
    }
    assert(is_global_on(addrs@[n], name@));
    if addr is None {
        assert(no_global(addrs@, name@));
        assert(!is_global_on(addrs@[n], name@));
    }
    let i = choose|i: int|
        {
            &&& 0 <= i < addrs@.len()
            &&& #[trigger] is_global_on(addrs@[i], name@)
            &&& addrs@[i].ipv6 == addr
            &&& forall|j: int| 0 <= j < i ==> !#[trigger] is_global_on(addrs@[j], name@)
        };
    assert(i == n);
}

} // verus!
