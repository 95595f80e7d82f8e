use foundation_api::peers::{
    merge_members, Connection, ConnectionSpeed, Member, MemberType, StaticSupporterInformation, Supporter,
    VlanAttachment,
};

fn member(asn: i32, kind: MemberType, name: &str, speeds: Vec<u64>, v4: bool, v6: bool) -> Member {
    Member {
        asnum: asn,
        member_type: kind,
        name: name.to_string(),
        url: format!("https://{}.example", name),
        connections: vec![
            Connection { if_speeds: speeds, vlans: vec![VlanAttachment { has_ipv4: v4, has_ipv6: false }] },
            Connection { if_speeds: vec![10000], vlans: vec![VlanAttachment { has_ipv4: false, has_ipv6: v6 }] },
        ],
    }
}

#[test]
fn members_and_supporters_are_merged_and_sorted() {
    let info = StaticSupporterInformation {
        supporters: vec![Supporter { name: "Backer".to_string(), url: "https://backer.example".to_string() }],
        supporting_peers: vec![64500],
    };
    let members = vec![
        member(64501, MemberType::Peering, "Zeta", vec![1000, 10000, 1000], true, false),
        member(64502, MemberType::Ixp, "Exchange", vec![100], true, true),
        member(64500, MemberType::Other, "Alpha", vec![], false, true),
    ];
    let out = merge_members(members, &info);
    let names: Vec<&str> = out.iter().map(|e| e.name.as_str()).collect();
    assert_eq!(names, vec!["Alpha", "Backer", "Zeta"]);

    let alpha = &out[0];
    assert!(alpha.supporter && !alpha.rs_v4 && alpha.rs_v6);
    assert_eq!(alpha.asn, Some(64500));
    assert_eq!(alpha.speed, vec![ConnectionSpeed { speed: 10000, amount: 1 }]);

    let backer = &out[1];
    assert!(backer.supporter && !backer.rs_v4 && !backer.rs_v6);
    assert_eq!(backer.asn, None);
    assert!(backer.speed.is_empty());
    assert_eq!(backer.url, "https://backer.example");

    let zeta = &out[2];
    assert!(!zeta.supporter && zeta.rs_v4 && !zeta.rs_v6);
    assert_eq!(
        zeta.speed,
        vec![ConnectionSpeed { speed: 1000, amount: 2 }, ConnectionSpeed { speed: 10000, amount: 2 }]
    );
}
