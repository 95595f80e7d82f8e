use vstd::prelude::*;
use crate::order::{is_sorted_by_name, lemma_sort_by_name_is_sorted, sort_by_name, sort_by_name_exec, Named};

verus! {

/// The kind of a member in a Euro-IX member export.
#[derive(Debug, Clone, Copy, PartialEq, Eq, Structural)]
pub enum MemberType {
    Peering,
    /// The exchange's own infrastructure: not a peer.
    Ixp,
    Other,
}

/// A VLAN attachment of a connection: whether it carries an IPv4 and an IPv6 setup.
#[derive(Debug, Clone, Copy, PartialEq, Eq, Structural)]
pub struct VlanAttachment {
    pub has_ipv4: bool,
    pub has_ipv6: bool,
}

/// A physical or virtual connection of a member: the speed of each of its interfaces,
/// and its VLAN attachments.
pub struct Connection {
    pub if_speeds: Vec<u64>,
    pub vlans: Vec<VlanAttachment>,
}

/// A member as the membership registry exports it.
pub struct Member {
    pub asnum: i32,
    pub member_type: MemberType,
    pub name: String,
    pub url: String,
    pub connections: Vec<Connection>,
}

/// A sponsor listed by the operators.
pub struct Supporter {
    pub name: String,
    pub url: String,
}

/// What the operators maintain by hand: the sponsors, and the ASNs of peers that
/// support the exchange.
pub struct StaticSupporterInformation {
    pub supporters: Vec<Supporter>,
    pub supporting_peers: Vec<i32>,
}

/// How many interfaces of a member run at one speed.
#[derive(Debug, Clone, Copy, PartialEq, Eq, Structural)]
pub struct ConnectionSpeed {
    pub speed: u64,
    pub amount: u64,
}

/// One entry of the merged peer and supporter list.
pub struct FoundationEntity {
    pub supporter: bool,
    pub rs_v4: bool,
    pub rs_v6: bool,
    pub asn: Option<i32>,
    pub name: String,
    pub url: String,
    pub speed: Vec<ConnectionSpeed>,
}

impl Named for FoundationEntity {
    open spec fn name_spec(&self) -> Seq<char> {
        self.name@
    }

    fn name_str(&self) -> (r: &str) {
        self.name.as_str()
    }
}

/// The interface speeds of all connections, in order.
pub open spec fn speeds_of(conns: Seq<Connection>) -> Seq<u64>
    decreases conns.len(),
{
    if conns.len() == 0 {
        Seq::empty()
    } else {
        speeds_of(conns.drop_last()) + conns.last().if_speeds@
    }
}

/// Where `speed` stands in a histogram: its entry, or the end if it has none.
pub open spec fn speed_slot(h: Seq<ConnectionSpeed>, speed: u64) -> int
    decreases h.len(),
{
    if h.len() == 0 {
        0
    } else if h[0].speed == speed {
        0
    } else {
        1 + speed_slot(h.drop_first(), speed)
    }
}

/// One more than `n`, staying at the largest count once it is reached.
pub open spec fn count_up(n: u64) -> u64 {
    if n < u64::MAX {
        (n + 1) as u64
    } else {
        n
    }
}

/// The frequency histogram of `speeds`: one entry per distinct speed, in order of first
/// appearance, with the number of its occurrences.
pub open spec fn speed_histogram(speeds: Seq<u64>) -> Seq<ConnectionSpeed>
    decreases speeds.len(),
{
    if speeds.len() == 0 {
        Seq::empty()
    } else {
        let h = speed_histogram(speeds.drop_last());
        let x = speeds.last();
        let p = speed_slot(h, x);
        if p < h.len() {
            h.update(p, ConnectionSpeed { speed: x, amount: count_up(h[p].amount) })
        } else {
            h.push(ConnectionSpeed { speed: x, amount: 1 })
        }
    }
}

/// Whether some VLAN of some connection carries IPv4.
pub open spec fn offers_ipv4(conns: Seq<Connection>) -> bool {
    exists|c: int, v: int|
        0 <= c < conns.len() && 0 <= v < conns[c].vlans@.len() && (#[trigger] conns[c].vlans@[v]).has_ipv4
}

/// Whether some VLAN of some connection carries IPv6.
pub open spec fn offers_ipv6(conns: Seq<Connection>) -> bool {
    exists|c: int, v: int|
        0 <= c < conns.len() && 0 <= v < conns[c].vlans@.len() && (#[trigger] conns[c].vlans@[v]).has_ipv6
}

/// The members that are actual peers: all but the exchange's own infrastructure.
pub open spec fn peer_members(members: Seq<Member>) -> Seq<Member> {
    members.filter(|m: Member| m.member_type != MemberType::Ixp)
}

/// Whether `e` is the entry for peer `m`.
pub open spec fn entity_of_member(e: FoundationEntity, m: Member, info: StaticSupporterInformation) -> bool {
    &&& e.supporter == info.supporting_peers@.contains(m.asnum)
    &&& e.rs_v4 == offers_ipv4(m.connections@)
    &&& e.rs_v6 == offers_ipv6(m.connections@)
    &&& e.asn == Some(m.asnum)
    &&& e.name == m.name
    &&& e.url == m.url
    &&& e.speed@ == speed_histogram(speeds_of(m.connections@))
}

/// Whether `e` is the entry for the sponsor `s`: a supporter with no network presence.
pub open spec fn entity_of_supporter(e: FoundationEntity, s: Supporter) -> bool {
    &&& e.supporter
    &&& !e.rs_v4
    &&& !e.rs_v6
    &&& e.asn is None
    &&& e.name == s.name
    &&& e.url == s.url
    &&& e.speed@.len() == 0
}

proof fn lemma_speed_slot_at(h: Seq<ConnectionSpeed>, x: u64, j: int)
    requires
        0 <= j <= h.len(),
        forall|k: int| 0 <= k < j ==> h[k].speed != x,
        j < h.len() ==> h[j].speed == x,
    ensures
        speed_slot(h, x) == j,
    decreases j,
{
    if j > 0 {
        assert forall|k: int| 0 <= k < j - 1 implies h.drop_first()[k].speed != x by {
            assert(h.drop_first()[k] == h[k + 1]);
        }
        lemma_speed_slot_at(h.drop_first(), x, j - 1);
    }
}

/// Counts one more interface at `speed`.
fn count_speed(hist: &mut Vec<ConnectionSpeed>, speed: u64)
    ensures
        final(hist)@ == ({
            let h = old(hist)@;
            let p = speed_slot(h, speed);
            if p < h.len() {
                h.update(p, ConnectionSpeed { speed, amount: count_up(h[p].amount) })
            } else {
                h.push(ConnectionSpeed { speed, amount: 1 })
            }
        }),
{
    let ghost h = hist@;
    let mut j: usize = 0;
    while j < hist.len() && hist[j].speed != speed
        invariant
            j <= hist@.len(),
            hist@ == h,
            forall|k: int| 0 <= k < j ==> h[k].speed != speed,
        decreases hist.len() - j,
    {
        j = j + 1;
    }
    proof {
        lemma_speed_slot_at(h, speed, j as int);
    }
    if j < hist.len() {
        let amount = hist[j].amount;
        let next = if amount < u64::MAX {
            amount + 1
        } else {
            amount
        };
        hist.set(j, ConnectionSpeed { speed, amount: next });
    } else {
        hist.push(ConnectionSpeed { speed, amount: 1 });
    }
}

fn contains_asn(list: &Vec<i32>, asn: i32) -> (r: bool)
    ensures
        r == list@.contains(asn),
{
    let mut i: usize = 0;
    while i < list.len()
        invariant
            i <= list@.len(),
            forall|k: int| 0 <= k < i ==> list@[k] != asn,
        decreases list.len() - i,
    {
        if list[i] == asn {
            assert(list@[i as int] == asn);
            return true;
        }
        i = i + 1;
    }
    false
}

/// The entry of one peer: supporter status by ASN, the histogram of its interface
/// speeds, and whether any of its VLANs carries IPv4 or IPv6.
fn member_entity(m: Member, info: &StaticSupporterInformation) -> (r: FoundationEntity)
    ensures
        entity_of_member(r, m, *info),
{
    let ghost mm = m;
    let Member { asnum, member_type: _, name, url, connections } = m;
    let supporter = contains_asn(&info.supporting_peers, asnum);
    let ghost conns = connections@;
    let mut hist: Vec<ConnectionSpeed> = Vec::new();
    let mut v4 = false;
    let mut v6 = false;
    let mut c: usize = 0;
    assert(conns.take(0) =~= Seq::<Connection>::empty());
    while c < connections.len()
        invariant
            conns == connections@,
            c <= conns.len(),
            hist@ == speed_histogram(speeds_of(conns.take(c as int))),
            v4 == exists|a: int, v: int|
                0 <= a < c && 0 <= v < conns[a].vlans@.len() && (#[trigger] conns[a].vlans@[v]).has_ipv4,
            v6 == exists|a: int, v: int|
                0 <= a < c && 0 <= v < conns[a].vlans@.len() && (#[trigger] conns[a].vlans@[v]).has_ipv6,
        decreases connections.len() - c,
    {
        let conn = &connections[c];
        let ghost before = speeds_of(conns.take(c as int));
        assert(conns.take(c + 1).drop_last() =~= conns.take(c as int));
        assert(speeds_of(conns.take(c + 1)) == before + conn.if_speeds@);
        let mut j: usize = 0;
        assert(before + conn.if_speeds@.take(0) =~= before);
        while j < conn.if_speeds.len()
            invariant
                j <= conn.if_speeds@.len(),
                hist@ == speed_histogram(before + conn.if_speeds@.take(j as int)),
            decreases conn.if_speeds.len() - j,
        {
            let s = conn.if_speeds[j];
            let ghost cur = before + conn.if_speeds@.take(j + 1);
            assert(cur.drop_last() =~= before + conn.if_speeds@.take(j as int));
            assert(cur.last() == s);
            count_speed(&mut hist, s);
            j = j + 1;
        }
        assert(before + conn.if_speeds@.take(j as int) =~= before + conn.if_speeds@);
        let mut v: usize = 0;
        let ghost v4_before = v4;
        let ghost v6_before = v6;
        while v < conn.vlans.len()
            invariant
                v <= conn.vlans@.len(),
                conn == conns[c as int],
                v4 == (v4_before || exists|w: int| 0 <= w < v && (#[trigger] conn.vlans@[w]).has_ipv4),
                v6 == (v6_before || exists|w: int| 0 <= w < v && (#[trigger] conn.vlans@[w]).has_ipv6),
            decreases conn.vlans.len() - v,
        {
            let vlan = conn.vlans[v];
            v4 = v4 || vlan.has_ipv4;
            v6 = v6 || vlan.has_ipv6;
            v = v + 1;
        }
        c = c + 1;
    }
    assert(conns.take(c as int) =~= conns);
    FoundationEntity {
        supporter,
        rs_v4: v4,
        rs_v6: v6,
        asn: Some(asnum),
        name,
        url,
        speed: hist,
    }
}

/// Merges the registry's member export with the operators' list: every member but the
/// exchange's own infrastructure becomes a peer entry, every sponsor is appended as a
/// supporter entry, and the whole list is sorted by name (entries of equal name keep
/// their order).
pub fn merge_members(members: Vec<Member>, info: &StaticSupporterInformation) -> (r: Vec<FoundationEntity>)
    ensures
        exists|unsorted: Seq<FoundationEntity>|
            #![trigger sort_by_name(unsorted)]
            {
                &&& unsorted.len() == peer_members(members@).len() + info.supporters@.len()
                &&& forall|k: int|
                    0 <= k < peer_members(members@).len() ==> entity_of_member(
                        #[trigger] unsorted[k],
                        peer_members(members@)[k],
                        *info,
                    )
                &&& forall|k: int|
                    0 <= k < info.supporters@.len() ==> entity_of_supporter(
                        #[trigger] unsorted[peer_members(members@).len() + k],
                        info.supporters@[k],
                    )
                &&& r@ == sort_by_name(unsorted)
            },
        is_sorted_by_name(r@),
{
    let ghost all = members@;
    let mut rest = members;
    let mut entities: Vec<FoundationEntity> = Vec::new();
    let ghost mut i: int = 0;
    assert(all.take(0) =~= Seq::<Member>::empty());
    assert(all.skip(0) =~= all);
    proof {
        reveal(Seq::filter);
    }
    while rest.len() > 0
        invariant
            all == members@,
            0 <= i <= all.len(),
            rest@ == all.skip(i),
            entities@.len() == peer_members(all.take(i)).len(),
            forall|k: int|
                0 <= k < entities@.len() ==> entity_of_member(
                    #[trigger] entities@[k],
                    peer_members(all.take(i))[k],
                    *info,
                ),
        decreases rest.len(),
    {
        let m = rest.remove(0);
        assert(all.skip(i)[0] == m);
        assert(rest@ =~= all.skip(i + 1));
        proof {
            reveal(Seq::filter);
            assert(all.take(i + 1).drop_last() =~= all.take(i));
            assert(all.take(i + 1).last() == m);
        }
        if m.member_type != MemberType::Ixp {
            let ghost before = entities@;
            let e = member_entity(m, info);
            entities.push(e);
            assert forall|k: int| 0 <= k < entities@.len() implies entity_of_member(
                #[trigger] entities@[k],
                peer_members(all.take(i + 1))[k],
                *info,
            ) by {
                if k < before.len() {
                    assert(entities@[k] == before[k]);
                }
            }
        }
        proof {
            i = i + 1;
        }
    }
    assert(all.take(i) =~= all);
    let ghost peers = entities@.len();
    let mut s: usize = 0;
    while s < info.supporters.len()
        invariant
            s <= info.supporters@.len(),
            entities@.len() == peers + s,
            peers == peer_members(members@).len(),
            forall|k: int|
                0 <= k < peers ==> entity_of_member(#[trigger] entities@[k], peer_members(members@)[k], *info),
            forall|k: int|
                0 <= k < s ==> entity_of_supporter(#[trigger] entities@[peers + k], info.supporters@[k]),
        decreases info.supporters.len() - s,
    {
        let sup = &info.supporters[s];
        let ghost before = entities@;
        entities.push(
            FoundationEntity {
                supporter: true,
                rs_v4: false,
                rs_v6: false,
                asn: None,
                name: sup.name.clone(),
                url: sup.url.clone(),
                speed: Vec::new(),
            },
        );
        assert forall|k: int| 0 <= k < peers implies entity_of_member(
            #[trigger] entities@[k],
            peer_members(members@)[k],
            *info,
        ) by {
            assert(entities@[k] == before[k]);
        }
        assert forall|k: int| 0 <= k < s + 1 implies entity_of_supporter(
            #[trigger] entities@[peers + k],
            info.supporters@[k],
        ) by {
            if k < s {
                assert(entities@[peers + k] == before[peers + k]);
            }
        }
        s = s + 1;
    }
    let ghost unsorted = entities@;
    let r = sort_by_name_exec(entities);
    assert(r@ == sort_by_name(unsorted));
    proof {
        lemma_sort_by_name_is_sorted(unsorted);
    }
    r
}

} // verus!
