//! Access control by client address: a deny list that always wins, and an
//! allow list that, where it has entries, admits nobody else.

use crate::networking::addr::IpAddr;
use vstd::prelude::*;

verus! {

/// A network as the range of its addresses, from the network address to the
/// broadcast address.
#[derive(Clone, Copy, Debug, PartialEq, Eq, Structural)]
pub struct Range {
    pub v6: bool,
    pub low: u128,
    pub high: u128,
}

impl Range {
    /// Whether the address is of the network's family and within its range.
    pub open spec fn spec_contains(self, ip: IpAddr) -> bool {
        ip.spec_key().0 == self.v6 && self.low <= ip.spec_key().1 <= self.high
    }

    /// The network with this family, network address and broadcast address.
    pub fn of_net(net: (bool, u128, u128)) -> (range: Range)
        ensures
            range == (Range { v6: net.0, low: net.1, high: net.2 }),
    {
        Range { v6: net.0, low: net.1, high: net.2 }
    }

    /// The network of one address.
    pub fn of_host(host: (bool, u128)) -> (range: Range)
        ensures
            range == (Range { v6: host.0, low: host.1, high: host.1 }),
    {
        Range { v6: host.0, low: host.1, high: host.1 }
    }

    pub fn contains(&self, ip: IpAddr) -> (inside: bool)
        ensures
            inside == self.spec_contains(ip),
    {
        let (v6, bits) = ip.key();
        v6 == self.v6 && self.low <= bits && bits <= self.high
    }
}

/// What `ipnet` reads a text in CIDR notation as: the family, the network
/// address and the broadcast address; `None` where it does not read it.
pub uninterp spec fn parsed_net(text: Seq<char>) -> Option<(bool, u128, u128)>;

/// What the standard library reads a text as that holds one address: the
/// family and the address; `None` where it does not read it.
pub uninterp spec fn parsed_host(text: Seq<char>) -> Option<(bool, u128)>;

/// `IpNet::from_str`, with `network` and `broadcast` of what it returns as
/// numbers.
#[verifier::external_body]
fn parse_net(text: &str) -> (net: Option<(bool, u128, u128)>)
    ensures
        net == parsed_net(text@),
{
    match text.parse::<ipnet::IpNet>() {
        Ok(ipnet::IpNet::V4(n)) => Some(
            (false, u128::from(u32::from(n.network())), u128::from(u32::from(n.broadcast()))),
        ),
        Ok(ipnet::IpNet::V6(n)) => Some(
            (true, u128::from(n.network()), u128::from(n.broadcast())),
        ),
        Err(_) => None,
    }
}

/// `str::parse` to an address, as a number. The address passes through
/// `IpNet::new` with prefix length 0, which keeps it as it is and tells its
/// family.
#[verifier::external_body]
fn parse_host(text: &str) -> (host: Option<(bool, u128)>)
    ensures
        host == parsed_host(text@),
{
    let net = match text.parse() {
        Ok(ip) => ipnet::IpNet::new(ip, 0).ok(),
        Err(_) => None,
    };
    match net {
        Some(ipnet::IpNet::V4(n)) => Some((false, u128::from(u32::from(n.addr())))),
        Some(ipnet::IpNet::V6(n)) => Some((true, u128::from(n.addr()))),
        None => None,
    }
}

/// The network that an entry of a list stands for: what it says in CIDR
/// notation, or else the single address that it names; `None` where it is
/// neither.
pub open spec fn range_of(text: Seq<char>) -> Option<Range> {
    match parsed_net(text) {
        Some((v6, low, high)) => Some(Range { v6, low, high }),
        None => match parsed_host(text) {
            Some((v6, bits)) => Some(Range { v6, low: bits, high: bits }),
            None => None,
        },
    }
}

/// The networks of the first `n` entries, in order, without the entries that
/// stand for none.
pub open spec fn ranges_of(texts: Seq<String>, n: int) -> Seq<Range>
    decreases n,
{
    if n <= 0 {
        Seq::empty()
    } else {
        match range_of(texts[n - 1]@) {
            Some(range) => ranges_of(texts, n - 1).push(range),
            None => ranges_of(texts, n - 1),
        }
    }
}

/// The networks of a list that may be absent.
pub open spec fn listed(input: Option<Vec<String>>) -> Seq<Range> {
    match input {
        Some(texts) => ranges_of(texts@, texts@.len() as int),
        None => Seq::empty(),
    }
}

/// Reads one entry of a list.
pub fn parse_cidr(text: &str) -> (range: Option<Range>)
    ensures
        range == range_of(text@),
{
    match parse_net(text) {
        Some(net) => Some(Range::of_net(net)),
        None => match parse_host(text) {
            Some(host) => Some(Range::of_host(host)),
            None => None,
        },
    }
}

/// Reads a list; an entry that cannot be read is left out.
pub fn parse_cidrs(input: Option<Vec<String>>) -> (ranges: Vec<Range>)
    ensures
        ranges@ == listed(input),
{
    let mut ranges: Vec<Range> = Vec::new();
    match input {
        None => {},
        Some(texts) => {
            let mut i: usize = 0;
            while i < texts.len()
                invariant
                    i <= texts@.len(),
                    ranges@ == ranges_of(texts@, i as int),
                decreases texts@.len() - i,
            {
                match parse_cidr(texts[i].as_str()) {
                    Some(range) => ranges.push(range),
                    None => {},
                }
                i = i + 1;
            }
        },
    }
    ranges
}

/// Whether one of the first `n` networks contains the address.
pub open spec fn any_contains(ranges: Seq<Range>, ip: IpAddr) -> bool {
    exists|i: int| 0 <= i < ranges.len() && (#[trigger] ranges[i]).spec_contains(ip)
}

/// Whether a client at `ip` is let in: not if a network of the deny list
/// contains it; otherwise always where there is no allow list, and else only
/// if a network of the allow list contains it.
pub open spec fn allowed(allow: Seq<Range>, deny: Seq<Range>, ip: IpAddr) -> bool {
    !any_contains(deny, ip) && (allow.len() == 0 || any_contains(allow, ip))
}

fn contained(ranges: &Vec<Range>, ip: IpAddr) -> (found: bool)
    ensures
        found == any_contains(ranges@, ip),
{
    let mut i: usize = 0;
    while i < ranges.len()
        invariant
            i <= ranges@.len(),
            forall|j: int| 0 <= j < i ==> !(#[trigger] ranges@[j]).spec_contains(ip),
        decreases ranges@.len() - i,
    {
        if ranges[i].contains(ip) {
            return true;
        }
        i = i + 1;
    }
    false
}

/// The access rules of a listener.
#[derive(Clone, Debug)]
pub struct AccessControl {
    allow_list: Vec<Range>,
    deny_list: Vec<Range>,
}

impl AccessControl {
    /// The networks of the allow list.
    pub closed spec fn allow(&self) -> Seq<Range> {
        self.allow_list@
    }

    /// The networks of the deny list.
    pub closed spec fn deny(&self) -> Seq<Range> {
        self.deny_list@
    }

    /// The rules for these networks.
    pub fn from_ranges(allow: Vec<Range>, deny: Vec<Range>) -> (acl: AccessControl)
        ensures
            acl.allow() == allow@,
            acl.deny() == deny@,
    {
        AccessControl { allow_list: allow, deny_list: deny }
    }

    /// The rules for the two lists as configured.
    pub fn new(allow_strs: Option<Vec<String>>, deny_strs: Option<Vec<String>>) -> (acl:
        AccessControl)
        ensures
            acl.allow() == listed(allow_strs),
            acl.deny() == listed(deny_strs),
    {
        AccessControl { allow_list: parse_cidrs(allow_strs), deny_list: parse_cidrs(deny_strs) }
    }

    /// Whether a client at `ip` is let in.
    pub fn is_allowed(&self, ip: IpAddr) -> (ok: bool)
        ensures
            ok == allowed(self.allow(), self.deny(), ip),
    {
        if contained(&self.deny_list, ip) {
            return false;
        }
        if self.allow_list.len() == 0 {
            return true;
        }
        contained(&self.allow_list, ip)
    }
}

} // verus!
