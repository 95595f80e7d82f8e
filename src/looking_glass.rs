use vstd::prelude::*;
use vstd::arithmetic::power2::pow2;
use crate::cache::Cache;

verus! {

/// An IP address, as its bits.
#[derive(Debug, Clone, Copy, PartialEq, Eq, Structural)]
pub enum IpAddress {
    V4(u32),
    V6(u128),
}

/// An IP prefix: an address and how many of its leading bits make up the network.
#[derive(Debug, Clone, Copy, PartialEq, Eq, Structural)]
pub struct IpPrefix {
    pub addr: IpAddress,
    pub prefix_len: u8,
}

/// Whether `addr` lies in the network `net`: both of one family, and their leading
/// `prefix_len` bits equal (all of them where the length exceeds the width).
pub open spec fn prefix_contains(net: IpPrefix, addr: IpAddress) -> bool {
    match (net.addr, addr) {
        (IpAddress::V4(n), IpAddress::V4(a)) => {
            let len: nat = if net.prefix_len >= 32 { 32 } else { net.prefix_len as nat };
            len == 0 || n as nat / pow2((32 - len) as nat) == a as nat / pow2((32 - len) as nat)
        },
        (IpAddress::V6(n), IpAddress::V6(a)) => {
            let len: nat = if net.prefix_len >= 128 { 128 } else { net.prefix_len as nat };
            len == 0 || n as nat / pow2((128 - len) as nat) == a as nat / pow2((128 - len) as nat)
        },
        _ => false,
    }
}

impl IpPrefix {
    /// Whether `addr` lies in this network.
    pub fn contains(&self, addr: IpAddress) -> (r: bool)
        ensures
            r == prefix_contains(*self, addr),
    {
        match (self.addr, addr) {
            (IpAddress::V4(n), IpAddress::V4(a)) => {
                let len: u32 = if self.prefix_len >= 32 { 32 } else { self.prefix_len as u32 };
                if len == 0 {
                    return true;
                }
                let shift: u32 = 32 - len;
                proof {
                    vstd::bits::lemma_u32_shr_is_div(n, shift);
                    vstd::bits::lemma_u32_shr_is_div(a, shift);
                }
                (n >> shift) == (a >> shift)
            },
            (IpAddress::V6(n), IpAddress::V6(a)) => {
                let len: u32 = if self.prefix_len >= 128 { 128 } else { self.prefix_len as u32 };
                if len == 0 {
                    return true;
                }
                let shift: u128 = (128 - len) as u128;
                proof {
                    vstd::bits::lemma_u128_shr_is_div(n, shift);
                    vstd::bits::lemma_u128_shr_is_div(a, shift);
                }
                (n >> shift) == (a >> shift)
            },
            _ => false,
        }
    }
}

/// Whether `addr` lies in any of the networks `routes`.
pub fn is_address_in_network(routes: &[IpPrefix], addr: IpAddress) -> (r: bool)
    ensures
        r == exists|i: int| 0 <= i < routes@.len() && prefix_contains(#[trigger] routes@[i], addr),
{
    let mut i: usize = 0;
    while i < routes.len()
        invariant
            i <= routes@.len(),
            forall|k: int| 0 <= k < i ==> !prefix_contains(#[trigger] routes@[k], addr),
        decreases routes.len() - i,
    {
        if routes[i].contains(addr) {
            return true;
        }
        i = i + 1;
    }
    false
}

/// Whether a client belongs to the member network.
pub struct NetworkInformation {
    pub is_connected: bool,
}

/// The prefixes announced to the route server, cached.
pub struct LookingGlass {
    pub routes: Cache<Vec<IpPrefix>>,
}

impl LookingGlass {
    /// The prefixes cached, if any.
    pub open spec fn cached_routes(&self) -> Seq<IpPrefix> {
        match self.routes.slot() {
            Some((_, rs)) => rs@,
            None => Seq::empty(),
        }
    }

    /// Whether `addr` is inside the cached prefix set; `None` while nothing is cached.
    pub fn connected(&self, addr: IpAddress) -> (r: Option<NetworkInformation>)
        ensures
            r is None <==> self.routes.slot() is None,
            r is Some ==> r->0.is_connected == exists|i: int|
                0 <= i < self.cached_routes().len() && prefix_contains(#[trigger] self.cached_routes()[i], addr),
    {
        match self.routes.peek() {
            None => None,
            Some(routes) => {
                let list: &Vec<IpPrefix> = &routes;
                assert(list@ == self.cached_routes());
                let connected = is_address_in_network(list.as_slice(), addr);
                Some(NetworkInformation { is_connected: connected })
            },
        }
    }
}

/// The address families that routes are fetched for, in this order.
#[derive(Debug, Clone, Copy, PartialEq, Eq, Structural)]
pub enum AddressFamily {
    V4,
    V6,
}

/// The family at `index` in the order of the crawl.
pub open spec fn family_at(index: int) -> AddressFamily {
    if index == 0 {
        AddressFamily::V4
    } else {
        AddressFamily::V6
    }
}

impl AddressFamily {
    /// The name of the family in route-server paths: `v4` or `v6`.
    pub fn code(&self) -> (r: &'static str)
        ensures
            r@ == (match *self {
                AddressFamily::V4 => seq!['v', '4'],
                AddressFamily::V6 => seq!['v', '6'],
            }),
    {
        match self {
            AddressFamily::V4 => {
                let r = "v4";
                proof {
                    reveal_strlit("v4");
                }
                r
            },
            AddressFamily::V6 => {
                let r = "v6";
                proof {
                    reveal_strlit("v6");
                }
                r
            },
        }
    }
}

/// A request that the crawl asks for next.
#[derive(Debug, Clone, Copy, PartialEq, Eq, Structural)]
pub enum CrawlStep {
    /// Fetch one page of the routes received from `asn` in `family`.
    Fetch { family: AddressFamily, asn: i32, page: u32 },
    /// Every page of every neighbor in both families has been asked for.
    Done,
}

/// The walk over the paginated route lists of a route server: for each family (IPv4,
/// then IPv6) and each neighbor ASN in order, pages from 0 until the page count that the
/// server last reported. A page that the server refuses is skipped.
pub struct RouteCrawl {
    asns: Vec<i32>,
    family: usize,
    asn_index: usize,
    page: u32,
    total_pages: u32,
    routes: Vec<IpPrefix>,
}

impl RouteCrawl {
    pub closed spec fn asns_spec(&self) -> Seq<i32> {
        self.asns@
    }

    /// Which family is being walked: 0 for IPv4, 1 for IPv6, 2 when done.
    pub closed spec fn family_spec(&self) -> int {
        self.family as int
    }

    pub closed spec fn asn_index_spec(&self) -> int {
        self.asn_index as int
    }

    pub closed spec fn page_spec(&self) -> u32 {
        self.page
    }

    pub closed spec fn total_pages_spec(&self) -> u32 {
        self.total_pages
    }

    /// The routes gathered so far.
    pub closed spec fn routes_spec(&self) -> Seq<IpPrefix> {
        self.routes@
    }

    pub open spec fn well_formed(&self) -> bool {
        &&& 0 <= self.family_spec() <= 2
        &&& self.asns_spec().len() == 0 ==> self.family_spec() == 2
        &&& self.family_spec() < 2 ==> 0 <= self.asn_index_spec() < self.asns_spec().len()
        &&& self.family_spec() < 2 ==> self.page_spec() < self.total_pages_spec()
    }

    /// The request that a well-formed crawl asks for.
    pub open spec fn step_spec(&self) -> CrawlStep {
        if self.family_spec() >= 2 {
            CrawlStep::Done
        } else {
            CrawlStep::Fetch {
                family: family_at(self.family_spec()),
                asn: self.asns_spec()[self.asn_index_spec()],
                page: self.page_spec(),
            }
        }
    }

    /// Where the crawl goes after the current page, once the page count is `total`: the
    /// next page, else the first page of the next neighbor, else the next family.
    pub open spec fn advanced(&self, total: u32) -> (int, int, u32, u32) {
        if self.page_spec() + 1 < total {
            (self.family_spec(), self.asn_index_spec(), (self.page_spec() + 1) as u32, total)
        } else if self.asn_index_spec() + 1 < self.asns_spec().len() {
            (self.family_spec(), self.asn_index_spec() + 1, 0, 1)
        } else {
            (self.family_spec() + 1, 0, 0, 1)
        }
    }

    pub open spec fn position(&self) -> (int, int, u32, u32) {
        (self.family_spec(), self.asn_index_spec(), self.page_spec(), self.total_pages_spec())
    }

    /// A crawl over the neighbors `asns`, at page 0 of the first neighbor in IPv4.
    pub fn new(asns: Vec<i32>) -> (r: RouteCrawl)
        ensures
            r.well_formed(),
            r.asns_spec() == asns@,
            r.position() == (if asns@.len() == 0 {
                (2int, 0int, 0u32, 1u32)
            } else {
                (0int, 0int, 0u32, 1u32)
            }),
            r.routes_spec().len() == 0,
    {
        let family: usize = if asns.len() == 0 { 2 } else { 0 };
        RouteCrawl { asns, family, asn_index: 0, page: 0, total_pages: 1, routes: Vec::new() }
    }

    /// The request to make next.
    pub fn next_step(&self) -> (r: CrawlStep)
        requires
            self.well_formed(),
        ensures
            r == self.step_spec(),
    {
        if self.family >= 2 {
            CrawlStep::Done
        } else {
            let family = if self.family == 0 { AddressFamily::V4 } else { AddressFamily::V6 };
            CrawlStep::Fetch { family, asn: self.asns[self.asn_index], page: self.page }
        }
    }

    fn advance(&mut self, total: u32)
        requires
            old(self).well_formed(),
            old(self).family_spec() < 2,
        ensures
            final(self).position() == old(self).advanced(total),
            final(self).asns_spec() == old(self).asns_spec(),
            final(self).routes_spec() == old(self).routes_spec(),
            final(self).well_formed(),
    {
        if total > 0 && self.page < total - 1 {
            self.page = self.page + 1;
            self.total_pages = total;
        } else if self.asn_index < self.asns.len() - 1 {
            self.asn_index = self.asn_index + 1;
            self.page = 0;
            self.total_pages = 1;
        } else {
            self.family = self.family + 1;
            self.asn_index = 0;
            self.page = 0;
            self.total_pages = 1;
        }
    }

    /// Records the page asked for: the server reported `total_pages` pages and sent
    /// `routes`, which are kept.
    pub fn page_received(&mut self, total_pages: u32, routes: Vec<IpPrefix>)
        requires
            old(self).well_formed(),
            old(self).family_spec() < 2,
        ensures
            final(self).well_formed(),
            final(self).asns_spec() == old(self).asns_spec(),
            final(self).routes_spec() == old(self).routes_spec() + routes@,
            final(self).position() == old(self).advanced(total_pages),
    {
        let mut routes = routes;
        self.routes.append(&mut routes);
        self.advance(total_pages);
    }

    /// Records that the server refused the page asked for: it is skipped, and the page
    /// count stays as last reported.
    pub fn page_failed(&mut self)
        requires
            old(self).well_formed(),
            old(self).family_spec() < 2,
        ensures
            final(self).well_formed(),
            final(self).asns_spec() == old(self).asns_spec(),
            final(self).routes_spec() == old(self).routes_spec(),
            final(self).position() == old(self).advanced(old(self).total_pages_spec()),
    {
        let total = self.total_pages;
        self.advance(total);
    }

    /// The routes gathered.
    pub fn into_routes(self) -> (r: Vec<IpPrefix>)
        ensures
            r@ == self.routes_spec(),
    {
        self.routes
    }
}

} // verus!
