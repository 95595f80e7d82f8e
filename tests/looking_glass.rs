use foundation_api::cache::Cache;
use foundation_api::looking_glass::{
    is_address_in_network, AddressFamily, CrawlStep, IpAddress, IpPrefix, LookingGlass, RouteCrawl,
};

fn v4(a: u8, b: u8, c: u8, d: u8) -> IpAddress {
    IpAddress::V4(u32::from_be_bytes([a, b, c, d]))
}

#[test]
fn prefixes_contain_their_addresses() {
    let net = IpPrefix { addr: v4(10, 1, 0, 0), prefix_len: 16 };
    assert!(net.contains(v4(10, 1, 200, 3)));
    assert!(!net.contains(v4(10, 2, 0, 1)));
    assert!(!net.contains(IpAddress::V6(1)));
    assert!(IpPrefix { addr: v4(1, 2, 3, 4), prefix_len: 0 }.contains(v4(9, 9, 9, 9)));
    assert!(IpPrefix { addr: v4(1, 2, 3, 4), prefix_len: 32 }.contains(v4(1, 2, 3, 4)));
    assert!(!IpPrefix { addr: v4(1, 2, 3, 4), prefix_len: 32 }.contains(v4(1, 2, 3, 5)));
    let v6 = IpPrefix { addr: IpAddress::V6(0x2001_0db8u128 << 96), prefix_len: 32 };
    assert!(v6.contains(IpAddress::V6((0x2001_0db8u128 << 96) | 0xffff)));
    assert!(!v6.contains(IpAddress::V6(0x2001_0db9u128 << 96)));
}

#[test]
fn address_in_any_route() {
    let routes = vec![
        IpPrefix { addr: v4(192, 0, 2, 0), prefix_len: 24 },
        IpPrefix { addr: v4(198, 51, 100, 0), prefix_len: 24 },
    ];
    assert!(is_address_in_network(&routes, v4(198, 51, 100, 7)));
    assert!(!is_address_in_network(&routes, v4(203, 0, 113, 1)));
    assert!(!is_address_in_network(&[], v4(203, 0, 113, 1)));
}

#[test]
fn connected_needs_cached_routes() {
    let mut lg = LookingGlass { routes: Cache::new(100) };
    assert!(lg.connected(v4(192, 0, 2, 1)).is_none());
    let _ = lg.routes.begin_refresh();
    lg.routes.complete(0, Some(vec![IpPrefix { addr: v4(192, 0, 2, 0), prefix_len: 24 }]));
    assert!(lg.connected(v4(192, 0, 2, 1)).unwrap().is_connected);
    assert!(!lg.connected(v4(192, 0, 3, 1)).unwrap().is_connected);
}

#[test]
fn crawl_walks_pages_neighbors_and_families() {
    let mut crawl = RouteCrawl::new(vec![65001, 65002]);
    let mut seen = Vec::new();
    loop {
        match crawl.next_step() {
            CrawlStep::Done => break,
            CrawlStep::Fetch { family, asn, page } => {
                seen.push((family, asn, page));
                if asn == 65001 && page == 1 {
                    crawl.page_failed();
                } else {
                    let total = if asn == 65001 { 3 } else { 1 };
                    crawl.page_received(total, vec![IpPrefix { addr: IpAddress::V4(asn as u32), prefix_len: 32 }]);
                }
            }
        }
    }
    let (f4, f6) = (AddressFamily::V4, AddressFamily::V6);
    assert_eq!(
        seen,
        vec![
            (f4, 65001, 0),
            (f4, 65001, 1),
            (f4, 65001, 2),
            (f4, 65002, 0),
            (f6, 65001, 0),
            (f6, 65001, 1),
            (f6, 65001, 2),
            (f6, 65002, 0)
        ]
    );
    assert_eq!(crawl.into_routes().len(), 6);
    assert_eq!(AddressFamily::V6.code(), "v6");
}

#[test]
fn crawl_without_neighbors_is_done() {
    assert_eq!(RouteCrawl::new(Vec::new()).next_step(), CrawlStep::Done);
}
