//! Picking the LAN address nearby devices can reach: the platform reports
//! its interfaces, and the first non-loopback IPv4 address outside
//! `127.0.0.0/8` is the one put into the access URL.

use vstd::prelude::*;
use vstd::string::*;

verus! {

/// What the selection logic reads of one network interface: whether it is a
/// loopback interface, and its IPv4 address rendered as dotted decimal, if
/// it has one.
pub struct InterfaceInfo {
    pub is_loopback: bool,
    pub ipv4: Option<String>,
}

/// Whether a rendered address lies in `127.0.0.0/8`.
pub open spec fn starts_with_127(s: Seq<char>) -> bool {
    s.len() >= 4 && s[0] == '1' && s[1] == '2' && s[2] == '7' && s[3] == '.'
}

/// An interface whose address belongs in the access URL: not loopback, IPv4,
/// and not a `127.x.x.x` address.
pub open spec fn lan_candidate(i: InterfaceInfo) -> bool {
    &&& !i.is_loopback
    &&& i.ipv4 is Some
    &&& !starts_with_127(i.ipv4.unwrap()@)
}

/// Relies on `get_if_addrs::get_if_addrs` for the machine's interface list,
/// reading of each only its loopback flag and its IPv4 address; which
/// interfaces exist depends on the machine, so nothing is promised of the
/// list. A failure to enumerate reads as no interfaces.
#[verifier::external_body]
fn list_interfaces() -> (r: Vec<InterfaceInfo>)
{
    match get_if_addrs::get_if_addrs() {
        Ok(ifaces) => ifaces
            .into_iter()
            .map(|i| InterfaceInfo {
                is_loopback: i.is_loopback(),
                ipv4: match i.addr {
                    get_if_addrs::IfAddr::V4(a) => Some(a.ip.to_string()),
                    get_if_addrs::IfAddr::V6(_) => None,
                },
            })
            .collect(),
        Err(_) => Vec::new(),
    }
}

/// Whether this rendered address lies in `127.0.0.0/8`.
fn ip_starts_with_127(s: &String) -> (r: bool)
    ensures
        r == starts_with_127(s@),
{
    let str = s.as_str();
    if str.unicode_len() < 4 {
        return false;
    }
    str.get_char(0) == '1' && str.get_char(1) == '2' && str.get_char(2) == '7' && str.get_char(3)
        == '.'
}

/// The first interface address fit for the access URL, scanning the list in
/// order; none if no interface qualifies.
pub fn select_lan_ip(ifaces: &Vec<InterfaceInfo>) -> (r: Option<String>)
    ensures
        match r {
            None => forall|j: int| 0 <= j < ifaces@.len() ==> !lan_candidate(#[trigger] ifaces@[j]),
            Some(ip) => exists|j: int|
                0 <= j < ifaces@.len() && #[trigger] lan_candidate(ifaces@[j]) && ip
                    == ifaces@[j].ipv4.unwrap() && forall|m: int|
                    0 <= m < j ==> !lan_candidate(#[trigger] ifaces@[m]),
        },
{
    let mut k: usize = 0;
    while k < ifaces.len()
        invariant
            k <= ifaces@.len(),
            forall|m: int| 0 <= m < k ==> !lan_candidate(#[trigger] ifaces@[m]),
        decreases ifaces@.len() - k,
    {
        let entry = &ifaces[k];
        if !entry.is_loopback {
            match &entry.ipv4 {
                Some(ip) => {
                    if !ip_starts_with_127(ip) {
                        assert(lan_candidate(ifaces@[k as int]));
                        return Some(ip.clone());
                    }
                },
                None => {},
            }
        }
        assert(!lan_candidate(ifaces@[k as int]));
        k = k + 1;
    }
    None
}

/// The machine's LAN address for the access URL, if it has one: never a
/// loopback `127.x.x.x` address. Which address comes back depends on the
/// machine's interfaces.
pub fn get_local_ip() -> (r: Option<String>)
    ensures
        r matches Some(ip) ==> !starts_with_127(ip@),
{
    let ifaces = list_interfaces();
    select_lan_ip(&ifaces)
}

} // verus!
