use easyto_init::backoff::Wait;
use easyto_init::dhcp::{AddressConfig, DhcpLease, ResolverConfig};
use easyto_init::network::{
    apply_primary_naming, bootstrap_candidates, configure_primary_dhcp, desired_name_for_primary,
    device_number_path, discover_primary_mac_via_imds, ensure_loopback,
    establish_bootstrap_connectivity, extract_interface, family_info, find_by_mac,
    get_interface_address_config, has_carrier, initialize_network, is_ignored_name,
    is_virtual_kind, mac_candidates, mac_to_string, name_in_use, next_family_index, parse_family,
    persist_interfaces, primary_after_rename, rename_interface_collision, restore_interfaces,
    select_primary_interface, wait_for_carrier, AddressRecord, Attempt, Bootstrap, DhcpPlan,
    FamilyIndex, IfFamily, InfoKind, InterfaceEntry, InterfaceInfo, IpAddress, LinkAttribute,
    LoopbackPlan, NetError, PersistedNetworkState, Rename, RouteAttribute, RouteRecord,
};
use easyto_init::vmspec::NameValue;

fn iface(name: &str, ifindex: u32, mac_last: u8) -> InterfaceInfo {
    InterfaceInfo {
        name: name.to_string(),
        mac: Some([0, 0x11, 0x22, 0x33, 0x44, mac_last]),
        is_virtual: false,
        ifindex,
    }
}

fn entry(name: &str, family: &str, primary: bool) -> InterfaceEntry {
    InterfaceEntry {
        iface: name.to_string(),
        mac: Some("00:11:22:33:44:55".to_string()),
        family: family.to_string(),
        index: Some(0),
        primary,
        present: true,
        last_seen: "2026-01-01T00:00:00Z".to_string(),
        ip_address: None,
        prefix_len: None,
        gateway: None,
        dns_servers: None,
        domain_name: None,
        search_list: None,
    }
}

#[test]
fn test_mac_to_string() {
    assert_eq!(
        mac_to_string([0x00, 0x11, 0x22, 0x33, 0x44, 0x55]),
        "00:11:22:33:44:55"
    );
    assert_eq!(
        mac_to_string([0xff, 0xff, 0xff, 0xff, 0xff, 0xff]),
        "ff:ff:ff:ff:ff:ff"
    );
    assert_eq!(
        mac_to_string([0x00, 0x00, 0x00, 0x00, 0x00, 0x00]),
        "00:00:00:00:00:00"
    );
    assert_eq!(
        mac_to_string([0x0a, 0x0b, 0x0c, 0x0d, 0x0e, 0x0f]),
        "0a:0b:0c:0d:0e:0f"
    );
}

#[test]
fn test_parse_family_simple() {
    assert_eq!(
        parse_family("eth0"),
        IfFamily::Simple {
            prefix: "eth".to_string(),
            index: 0
        }
    );
    assert_eq!(
        parse_family("eth123"),
        IfFamily::Simple {
            prefix: "eth".to_string(),
            index: 123
        }
    );
    assert_eq!(
        parse_family("ens5"),
        IfFamily::Simple {
            prefix: "ens".to_string(),
            index: 5
        }
    );
}

#[test]
fn test_parse_family_protected() {
    assert_eq!(parse_family("lo"), IfFamily::Protected);
    assert_eq!(parse_family("eth"), IfFamily::Protected);
    assert_eq!(parse_family("docker0bridge"), IfFamily::Protected);
}

#[test]
fn test_desired_name_for_primary_simple() {
    assert_eq!(desired_name_for_primary("eth0"), Some("eth0".to_string()));
    assert_eq!(desired_name_for_primary("eth5"), Some("eth0".to_string()));
    assert_eq!(desired_name_for_primary("ens192"), Some("ens0".to_string()));
}

#[test]
fn test_desired_name_for_primary_protected() {
    assert_eq!(desired_name_for_primary("lo"), None);
    assert_eq!(desired_name_for_primary("docker0bridge"), None);
}

#[test]
fn test_family_info_simple() {
    assert_eq!(family_info("eth0"), ("eth".to_string(), Some(0)));
    assert_eq!(family_info("ens5"), ("ens".to_string(), Some(5)));
}

#[test]
fn test_family_info_protected() {
    assert_eq!(family_info("lo"), ("protected".to_string(), None));
}

#[test]
fn test_is_virtual_kind() {
    assert!(is_virtual_kind(&InfoKind::Veth));
    assert!(is_virtual_kind(&InfoKind::Bridge));
    assert!(is_virtual_kind(&InfoKind::Vlan));
    assert!(is_virtual_kind(&InfoKind::Wireguard));
    assert!(!is_virtual_kind(&InfoKind::Dummy));
}

#[test]
fn test_get_primary_dhcp_lease_present() {
    let state = PersistedNetworkState {
        interfaces: vec![InterfaceEntry {
            iface: "eth0".to_string(),
            mac: Some("00:11:22:33:44:55".to_string()),
            family: "eth".to_string(),
            index: Some(0),
            primary: true,
            present: true,
            last_seen: "2026-01-01T00:00:00Z".to_string(),
            ip_address: Some("10.0.2.15".to_string()),
            prefix_len: Some(24),
            gateway: Some("10.0.2.2".to_string()),
            dns_servers: Some(vec!["8.8.8.8".to_string(), "8.8.4.4".to_string()]),
            domain_name: Some("example.com".to_string()),
            search_list: Some(vec!["example.com".to_string()]),
        }],
    };

    let lease = state.get_primary_dhcp_lease();
    assert!(lease.is_some());
    let lease = lease.unwrap();
    assert_eq!(lease.address.address, [10, 0, 2, 15]);
    assert_eq!(lease.address.prefix_len, 24);
    assert_eq!(lease.address.gateway, [10, 0, 2, 2]);
    assert_eq!(lease.resolver.dns_servers.len(), 2);
    assert_eq!(lease.resolver.dns_servers[0], [8, 8, 8, 8]);
    assert_eq!(lease.resolver.domain_name, Some("example.com".to_string()));
    assert_eq!(lease.resolver.search_list, vec!["example.com".to_string()]);
}

#[test]
fn test_get_primary_dhcp_lease_missing_ip() {
    let state = PersistedNetworkState {
        interfaces: vec![InterfaceEntry {
            iface: "eth0".to_string(),
            mac: Some("00:11:22:33:44:55".to_string()),
            family: "eth".to_string(),
            index: Some(0),
            primary: true,
            present: true,
            last_seen: "2026-01-01T00:00:00Z".to_string(),
            ip_address: None,
            prefix_len: None,
            gateway: None,
            dns_servers: None,
            domain_name: None,
            search_list: None,
        }],
    };

    assert!(state.get_primary_dhcp_lease().is_none());
}

#[test]
fn test_get_primary_dhcp_lease_no_primary() {
    let state = PersistedNetworkState {
        interfaces: vec![InterfaceEntry {
            iface: "eth0".to_string(),
            mac: Some("00:11:22:33:44:55".to_string()),
            family: "eth".to_string(),
            index: Some(0),
            primary: false,
            present: true,
            last_seen: "2026-01-01T00:00:00Z".to_string(),
            ip_address: Some("10.0.2.15".to_string()),
            prefix_len: Some(24),
            gateway: Some("10.0.2.2".to_string()),
            dns_servers: None,
            domain_name: None,
            search_list: None,
        }],
    };

    assert!(state.get_primary_dhcp_lease().is_none());
}

#[test]
fn persisted_lease_needs_readable_figures() {
    let mut e = entry("eth0", "eth", true);
    e.ip_address = Some("10.0.2.15".to_string());
    e.prefix_len = Some(33);
    e.gateway = Some("10.0.2.2".to_string());
    let state = PersistedNetworkState { interfaces: vec![e] };
    assert!(state.get_primary_dhcp_lease().is_none());

    let mut e = entry("eth0", "eth", true);
    e.ip_address = Some("10.0.2.256".to_string());
    e.prefix_len = Some(24);
    e.gateway = Some("10.0.2.2".to_string());
    let state = PersistedNetworkState { interfaces: vec![e] };
    assert!(state.get_primary_dhcp_lease().is_none());

    let mut e = entry("eth0", "eth", true);
    e.ip_address = Some("10.0.2.15".to_string());
    e.prefix_len = Some(24);
    e.gateway = Some("10.0.2.2".to_string());
    e.dns_servers = Some(vec!["x".to_string(), "1.1.1.1".to_string(), "01.1.1.1".to_string()]);
    let state = PersistedNetworkState { interfaces: vec![e] };
    let lease = state.get_primary_dhcp_lease().unwrap();
    assert_eq!(lease.resolver.dns_servers, vec![[1, 1, 1, 1]]);
    assert_eq!(lease.resolver.search_list, Vec::<String>::new());
}

#[test]
fn family_needs_letters_then_a_number() {
    assert_eq!(parse_family(""), IfFamily::Protected);
    assert_eq!(parse_family("eth-1"), IfFamily::Protected);
    assert_eq!(parse_family("e1th2"), IfFamily::Protected);
    assert_eq!(parse_family("eth4294967296"), IfFamily::Protected);
    assert_eq!(
        parse_family("eth4294967295"),
        IfFamily::Simple { prefix: "eth".to_string(), index: u32::MAX }
    );
    assert_eq!(parse_family("7"), IfFamily::Protected);
    assert_eq!(parse_family("007"), IfFamily::Protected);
    assert_eq!(parse_family("a7"), IfFamily::Simple { prefix: "a".to_string(), index: 7 });
    assert_eq!(parse_family("eth+5"), IfFamily::Protected);
    assert_eq!(desired_name_for_primary("7"), None);
    assert_eq!(parse_family("eth007"), IfFamily::Simple { prefix: "eth".to_string(), index: 7 });
}

#[test]
fn primary_name_policy_is_idempotent() {
    for name in ["eth5", "ens192", "eth0", "lo", "docker0bridge", "7", "", "eth4294967296"] {
        let once = desired_name_for_primary(name).unwrap_or(name.to_string());
        let twice = desired_name_for_primary(&once).unwrap_or(once.clone());
        assert_eq!(once, twice);
        if parse_family(name) == IfFamily::Protected {
            assert_eq!(once, name);
        }
    }
}

#[test]
fn name_and_mac_find_the_first_interface() {
    let interfaces = vec![iface("eth0", 2, 1), iface("eth1", 3, 2), iface("eth0", 4, 2)];
    assert_eq!(name_in_use(&interfaces, "eth0").unwrap().ifindex, 2);
    assert_eq!(name_in_use(&interfaces, "eth1").unwrap().ifindex, 3);
    assert!(name_in_use(&interfaces, "eth2").is_none());
    assert_eq!(find_by_mac(&interfaces, "00:11:22:33:44:02").unwrap().ifindex, 3);
    assert!(find_by_mac(&interfaces, "00:11:22:33:44:03").is_none());
}

#[test]
fn next_index_follows_the_greatest_in_use_or_remembered() {
    let interfaces = vec![iface("eth0", 2, 1), iface("eth7", 3, 2), iface("ens9", 4, 3)];
    let none: Vec<FamilyIndex> = vec![];
    assert_eq!(next_family_index(&interfaces, "eth", &none), 8);
    assert_eq!(next_family_index(&interfaces, "ens", &none), 10);
    assert_eq!(next_family_index(&interfaces, "wlan", &none), 1);
    let remembered = vec![
        FamilyIndex { family: "eth".to_string(), index: 11 },
        FamilyIndex { family: "ens".to_string(), index: 3 },
    ];
    assert_eq!(next_family_index(&interfaces, "eth", &remembered), 12);
    assert_eq!(next_family_index(&interfaces, "ens", &remembered), 10);
    let top = vec![FamilyIndex { family: "eth".to_string(), index: u32::MAX }];
    assert_eq!(next_family_index(&interfaces, "eth", &top), u32::MAX);
}

#[test]
fn next_index_counts_the_names_of_the_family_only() {
    let none: Vec<FamilyIndex> = vec![];
    let signed = vec![iface("eth+5", 2, 1)];
    assert_eq!(next_family_index(&signed, "eth", &none), 1);
    let longer = vec![iface("ethx9", 2, 1), iface("eth-3", 3, 2), iface("eth4294967296", 4, 3)];
    assert_eq!(next_family_index(&longer, "eth", &none), 1);
    assert_eq!(next_family_index(&longer, "ethx", &none), 10);
    let digits = vec![iface("eth15", 2, 1), iface("7", 3, 2)];
    assert_eq!(next_family_index(&digits, "eth1", &none), 1);
    assert_eq!(next_family_index(&digits, "", &none), 1);
    assert_eq!(next_family_index(&digits, "eth", &none), 16);
    let padded = vec![iface("eth007", 2, 1)];
    assert_eq!(next_family_index(&padded, "eth", &none), 8);
}

#[test]
fn renaming_moves_the_holder_of_the_name_first() {
    let interfaces = vec![iface("eth0", 2, 1), iface("eth5", 3, 2)];
    let none: Vec<FamilyIndex> = vec![];
    assert_eq!(
        rename_interface_collision(&interfaces, 3, "eth0", &none),
        Ok(vec![
            Rename { ifindex: 2, new_name: "eth6".to_string() },
            Rename { ifindex: 3, new_name: "eth0".to_string() },
        ])
    );
    assert_eq!(rename_interface_collision(&interfaces, 2, "eth0", &none), Ok(vec![]));
    assert_eq!(
        rename_interface_collision(&interfaces, 3, "eth1", &none),
        Ok(vec![Rename { ifindex: 3, new_name: "eth1".to_string() }])
    );
    let odd = vec![iface("lo", 1, 1), iface("eth5", 3, 2)];
    assert_eq!(
        rename_interface_collision(&odd, 3, "lo", &none),
        Err(NetError::ProtectedName)
    );
}

#[test]
fn primary_naming_renames_only_when_needed() {
    let interfaces = vec![iface("ens0", 2, 1), iface("ens192", 3, 2), iface("lo", 1, 3)];
    let none: Vec<FamilyIndex> = vec![];
    assert_eq!(apply_primary_naming(&interfaces, &interfaces[0], &none), Ok(vec![]));
    assert_eq!(apply_primary_naming(&interfaces, &interfaces[2], &none), Ok(vec![]));
    assert_eq!(
        apply_primary_naming(&interfaces, &interfaces[1], &none),
        Ok(vec![
            Rename { ifindex: 2, new_name: "ens193".to_string() },
            Rename { ifindex: 3, new_name: "ens0".to_string() },
        ])
    );
    let after = vec![iface("ens193", 2, 1), iface("ens0", 3, 2)];
    assert_eq!(primary_after_rename(&after, &interfaces[1]).ifindex, 3);
    assert_eq!(primary_after_rename(&after, &interfaces[1]).name, "ens0");
    assert_eq!(primary_after_rename(&[], &interfaces[1]), interfaces[1]);
}

#[test]
fn bootstrap_tries_real_interfaces_by_index() {
    let mut veth = iface("eth9", 1, 9);
    veth.is_virtual = true;
    let interfaces = vec![
        iface("lo", 1, 1),
        iface("eth1", 7, 2),
        veth,
        iface("docker0", 3, 3),
        iface("ens5", 2, 4),
        iface("eth0", 5, 5),
        iface("wg0", 4, 6),
    ];
    let names: Vec<String> = bootstrap_candidates(&interfaces).into_iter().map(|i| i.name).collect();
    assert_eq!(names, vec!["ens5", "eth0", "eth1"]);
    for ignored in ["lo", "veth1", "docker0", "br0", "virbr0", "vlan1", "tun0", "tap0", "macvtap0",
        "bond0", "team0", "wg0", "ppp0", "dummy0", "brx"] {
        assert!(is_ignored_name(ignored));
    }
    assert!(!is_ignored_name("eth0"));
    assert!(!is_ignored_name("b"));
}

#[test]
fn candidates_of_one_index_keep_their_order() {
    let interfaces = vec![iface("b", 2, 1), iface("a", 2, 2), iface("c", 1, 3)];
    let names: Vec<String> = bootstrap_candidates(&interfaces).into_iter().map(|i| i.name).collect();
    assert_eq!(names, vec!["c", "b", "a"]);
}

#[test]
fn only_a_lease_on_an_interface_with_a_mac_connects() {
    let with = iface("eth0", 2, 1);
    let mut without = iface("eth1", 3, 2);
    without.mac = None;
    assert_eq!(establish_bootstrap_connectivity(&with, Attempt::Configured), Bootstrap::Connected(2));
    assert_eq!(establish_bootstrap_connectivity(&without, Attempt::Configured), Bootstrap::Next);
    assert_eq!(establish_bootstrap_connectivity(&with, Attempt::DhcpFailed), Bootstrap::Next);
    assert_eq!(establish_bootstrap_connectivity(&with, Attempt::NoCarrier), Bootstrap::Next);
    assert_eq!(establish_bootstrap_connectivity(&with, Attempt::LinkUpFailed), Bootstrap::Next);
}

#[test]
fn address_config_comes_from_the_first_v4_address_and_the_default_route() {
    let addresses = vec![
        AddressRecord { inet: false, prefix_len: 64, addresses: vec![IpAddress::V4([1, 1, 1, 1])] },
        AddressRecord { inet: true, prefix_len: 8, addresses: vec![IpAddress::V6([0; 16])] },
        AddressRecord {
            inet: true,
            prefix_len: 24,
            addresses: vec![IpAddress::V6([0; 16]), IpAddress::V4([10, 0, 0, 15]), IpAddress::V4([10, 0, 0, 16])],
        },
        AddressRecord { inet: true, prefix_len: 16, addresses: vec![IpAddress::V4([10, 1, 0, 1])] },
    ];
    let routes = vec![
        RouteRecord {
            destination_prefix_length: 24,
            attributes: vec![RouteAttribute::Oif(2), RouteAttribute::Gateway([9, 9, 9, 9])],
        },
        RouteRecord {
            destination_prefix_length: 0,
            attributes: vec![RouteAttribute::Oif(3), RouteAttribute::Gateway([8, 8, 8, 8])],
        },
        RouteRecord {
            destination_prefix_length: 0,
            attributes: vec![
                RouteAttribute::Gateway([10, 0, 0, 254]),
                RouteAttribute::Other,
                RouteAttribute::Oif(2),
                RouteAttribute::Gateway([10, 0, 0, 1]),
            ],
        },
    ];
    assert_eq!(
        get_interface_address_config(2, &addresses, &routes),
        Ok(AddressConfig { address: [10, 0, 0, 15], prefix_len: 24, gateway: [10, 0, 0, 1] })
    );
    assert_eq!(get_interface_address_config(4, &addresses, &routes), Err(NetError::NoGateway));
    assert_eq!(get_interface_address_config(2, &vec![], &routes), Err(NetError::NoAddress));
    let bare = vec![RouteRecord { destination_prefix_length: 0, attributes: vec![RouteAttribute::Oif(2)] }];
    assert_eq!(get_interface_address_config(2, &addresses, &bare), Err(NetError::NoGateway));
}

#[test]
fn primary_gets_its_address_by_the_way_it_was_found() {
    let primary = iface("eth0", 2, 1);
    let mac = primary.mac.unwrap();
    let mut bare = iface("eth0", 2, 1);
    bare.mac = None;
    let lease = || DhcpLease {
        address: AddressConfig { address: [10, 0, 0, 15], prefix_len: 24, gateway: [10, 0, 0, 1] },
        resolver: ResolverConfig::default(),
    };
    assert_eq!(configure_primary_dhcp(&primary, Some(2), None), Ok(DhcpPlan::Reuse));
    assert_eq!(configure_primary_dhcp(&primary, Some(2), Some(lease())), Ok(DhcpPlan::Reuse));
    assert_eq!(
        configure_primary_dhcp(&primary, Some(3), None),
        Ok(DhcpPlan::FlushThenDhcp { bootstrap: 3, mac })
    );
    assert_eq!(
        configure_primary_dhcp(&bare, Some(3), None),
        Ok(DhcpPlan::FlushThenReuse { bootstrap: 3 })
    );
    assert_eq!(
        configure_primary_dhcp(&primary, None, Some(lease())),
        Ok(DhcpPlan::UsePersisted(lease()))
    );
    assert_eq!(configure_primary_dhcp(&primary, None, None), Ok(DhcpPlan::Dhcp { mac }));
    assert_eq!(configure_primary_dhcp(&bare, None, None), Err(NetError::NoMac));
}

#[test]
fn loopback_gets_the_addresses_it_lacks() {
    let interfaces = vec![iface("eth0", 2, 1), iface("lo", 1, 2)];
    let mut v6 = [0u8; 16];
    v6[15] = 1;
    assert_eq!(
        ensure_loopback(&interfaces, &vec![]),
        Some(LoopbackPlan { ifindex: 1, add_v4: true, add_v6: true })
    );
    assert_eq!(
        ensure_loopback(&interfaces, &vec![IpAddress::V4([127, 0, 0, 1])]),
        Some(LoopbackPlan { ifindex: 1, add_v4: false, add_v6: true })
    );
    assert_eq!(
        ensure_loopback(&interfaces, &vec![IpAddress::V4([127, 0, 0, 2]), IpAddress::V6(v6)]),
        Some(LoopbackPlan { ifindex: 1, add_v4: true, add_v6: false })
    );
    assert_eq!(
        ensure_loopback(&interfaces, &vec![IpAddress::V6(v6), IpAddress::V4([127, 0, 0, 1])]),
        Some(LoopbackPlan { ifindex: 1, add_v4: false, add_v6: false })
    );
    assert_eq!(ensure_loopback(&interfaces[..1], &vec![]), None);
}

#[test]
fn waits_end_with_success_or_with_the_timeout() {
    assert_eq!(wait_for_carrier(true, 40_000, 30_000), Wait::Done);
    assert_eq!(wait_for_carrier(false, 29_999, 30_000), Wait::Retry);
    assert_eq!(wait_for_carrier(false, 30_000, 30_000), Wait::TimedOut);
    assert_eq!(initialize_network(true, 0, 60_000), Wait::Done);
    assert_eq!(initialize_network(false, 59_999, 60_000), Wait::Retry);
    assert_eq!(initialize_network(false, 60_000, 60_000), Wait::TimedOut);
    assert!(has_carrier(&vec![LinkAttribute::Other, LinkAttribute::Carrier(1)]));
    assert!(!has_carrier(&vec![LinkAttribute::Carrier(0), LinkAttribute::Carrier(2)]));
    assert!(!has_carrier(&vec![]));
}

#[test]
fn interface_is_read_from_the_attributes_of_its_link() {
    let attrs = vec![
        LinkAttribute::IfName("old".to_string()),
        LinkAttribute::Address(vec![1, 2, 3]),
        LinkAttribute::Address(vec![1, 2, 3, 4, 5, 6]),
        LinkAttribute::LinkInfo(vec![]),
        LinkAttribute::Carrier(1),
        LinkAttribute::IfName("eth0".to_string()),
        LinkAttribute::Other,
    ];
    assert_eq!(
        extract_interface(7, &attrs),
        InterfaceInfo { name: "eth0".to_string(), mac: Some([1, 2, 3, 4, 5, 6]), is_virtual: false, ifindex: 7 }
    );
    let veth = vec![LinkAttribute::LinkInfo(vec![InfoKind::Veth, InfoKind::Dummy])];
    assert!(extract_interface(1, &veth).is_virtual);
    let dummy = vec![
        LinkAttribute::LinkInfo(vec![InfoKind::Veth]),
        LinkAttribute::LinkInfo(vec![InfoKind::Dummy, InfoKind::Veth]),
    ];
    assert!(!extract_interface(1, &dummy).is_virtual);
    assert_eq!(
        extract_interface(3, &vec![]),
        InterfaceInfo { name: "".to_string(), mac: None, is_virtual: false, ifindex: 3 }
    );
    for kind in [InfoKind::Dummy, InfoKind::Ifb, InfoKind::Tun, InfoKind::Nlmon, InfoKind::Vxlan, InfoKind::Bond,
        InfoKind::Unlisted] {
        assert!(!is_virtual_kind(&kind));
    }
    for kind in [InfoKind::IpVlan, InfoKind::IpVtap, InfoKind::MacVlan, InfoKind::MacVtap, InfoKind::GreTap,
        InfoKind::GreTap6, InfoKind::IpIp, InfoKind::Ip6Tnl, InfoKind::SitTun, InfoKind::GreTun,
        InfoKind::GreTun6, InfoKind::Vti, InfoKind::Vrf, InfoKind::Gtp, InfoKind::Xfrm, InfoKind::MacSec,
        InfoKind::Hsr, InfoKind::Geneve, InfoKind::Netkit, InfoKind::Other] {
        assert!(is_virtual_kind(&kind));
    }
}

#[test]
fn state_remembers_the_greatest_index_of_each_family() {
    let mut a = entry("eth3", "eth", false);
    a.index = Some(3);
    let mut b = entry("ens1", "ens", false);
    b.index = Some(1);
    let mut c = entry("eth9", "eth", false);
    c.index = Some(9);
    let mut d = entry("eth5", "eth", false);
    d.index = Some(5);
    let mut e = entry("lo", "protected", false);
    e.index = Some(70);
    let mut f = entry("x", "", false);
    f.index = Some(80);
    let mut g = entry("wl", "wl", false);
    g.index = None;
    let state = PersistedNetworkState { interfaces: vec![a, b, c, d, e, f, g] };
    assert_eq!(
        state.get_family_max_indices(),
        vec![
            FamilyIndex { family: "eth".to_string(), index: 9 },
            FamilyIndex { family: "ens".to_string(), index: 1 },
        ]
    );
}

#[test]
fn state_names_the_primary_and_maps_macs_to_names() {
    let mut a = entry("eth0", "eth", false);
    a.mac = Some("aa".to_string());
    let mut b = entry("eth1", "eth", true);
    b.mac = Some("bb".to_string());
    let mut c = entry("eth2", "eth", true);
    c.mac = Some("cc".to_string());
    let mut d = entry("lo", "protected", false);
    d.mac = Some("dd".to_string());
    let mut e = entry("eth9", "eth", false);
    e.mac = Some("aa".to_string());
    let mut f = entry("", "eth", false);
    f.mac = Some("ff".to_string());
    let mut g = entry("eth7", "eth", false);
    g.mac = Some("".to_string());
    let state = PersistedNetworkState { interfaces: vec![a, b, c, d, e, f, g] };
    assert_eq!(state.get_primary_mac(), Some("bb".to_string()));
    assert_eq!(
        state.get_names(),
        vec![
            NameValue { name: "aa".to_string(), value: "eth9".to_string() },
            NameValue { name: "bb".to_string(), value: "eth1".to_string() },
            NameValue { name: "cc".to_string(), value: "eth2".to_string() },
        ]
    );
    assert_eq!(PersistedNetworkState::default().get_primary_mac(), None);
    let mut h = entry("eth0", "eth", true);
    h.mac = Some("".to_string());
    assert_eq!(PersistedNetworkState { interfaces: vec![h] }.get_primary_mac(), None);
}

#[test]
fn persisted_primary_is_found_again_by_its_mac() {
    let interfaces = vec![iface("eth0", 2, 1), iface("eth1", 3, 0x55)];
    let state = PersistedNetworkState { interfaces: vec![entry("eth0", "eth", true)] };
    assert_eq!(select_primary_interface(&interfaces, &state).unwrap().ifindex, 3);
    let none = PersistedNetworkState { interfaces: vec![entry("eth0", "eth", false)] };
    assert_eq!(select_primary_interface(&interfaces, &none), None);
    assert_eq!(select_primary_interface(&interfaces[..1], &state), None);
}

#[test]
fn interfaces_are_written_down_with_the_lease_of_the_primary() {
    let mut lo = iface("lo", 1, 1);
    lo.mac = None;
    let interfaces = vec![lo, iface("eth0", 2, 0x55), iface("docker0bridge", 3, 2)];
    let lease = Some(DhcpLease {
        address: AddressConfig { address: [10, 0, 2, 15], prefix_len: 24, gateway: [10, 0, 2, 2] },
        resolver: ResolverConfig {
            dns_servers: vec![[8, 8, 8, 8], [8, 8, 4, 4]],
            domain_name: Some("example.com".to_string()),
            search_list: vec!["example.com".to_string()],
        },
    });
    let state = persist_interfaces(&interfaces, "eth0", &lease, "2026-01-01T00:00:00Z");
    assert_eq!(state.interfaces.len(), 3);
    assert_eq!(
        state.interfaces[0],
        InterfaceEntry {
            iface: "lo".to_string(),
            mac: None,
            family: "protected".to_string(),
            index: None,
            primary: false,
            present: true,
            last_seen: "2026-01-01T00:00:00Z".to_string(),
            ip_address: None,
            prefix_len: None,
            gateway: None,
            dns_servers: None,
            domain_name: None,
            search_list: None,
        }
    );
    assert_eq!(
        state.interfaces[1],
        InterfaceEntry {
            iface: "eth0".to_string(),
            mac: Some("00:11:22:33:44:55".to_string()),
            family: "eth".to_string(),
            index: Some(0),
            primary: true,
            present: true,
            last_seen: "2026-01-01T00:00:00Z".to_string(),
            ip_address: Some("10.0.2.15".to_string()),
            prefix_len: Some(24),
            gateway: Some("10.0.2.2".to_string()),
            dns_servers: Some(vec!["8.8.8.8".to_string(), "8.8.4.4".to_string()]),
            domain_name: Some("example.com".to_string()),
            search_list: Some(vec!["example.com".to_string()]),
        }
    );
    assert_eq!(state.interfaces[2].family, "protected");
    assert_eq!(state.interfaces[2].ip_address, None);
    assert_eq!(state.interfaces.iter().filter(|e| e.primary).count(), 1);
    assert_eq!(state.get_primary_dhcp_lease(), lease);

    let bare = Some(DhcpLease {
        address: AddressConfig { address: [10, 0, 2, 15], prefix_len: 24, gateway: [10, 0, 2, 2] },
        resolver: ResolverConfig::default(),
    });
    let state = persist_interfaces(&interfaces, "eth0", &bare, "now");
    assert_eq!(state.interfaces[1].dns_servers, None);
    assert_eq!(state.interfaces[1].search_list, None);
    assert_eq!(state.interfaces[1].domain_name, None);
    let state = persist_interfaces(&interfaces, "eth0", &None, "now");
    assert_eq!(state.interfaces[1].ip_address, None);
    assert!(state.interfaces[1].primary);
}

#[test]
fn interface_gets_its_remembered_name_back() {
    let names = vec![
        NameValue { name: "00:11:22:33:44:01".to_string(), value: "eth0".to_string() },
        NameValue { name: "00:11:22:33:44:02".to_string(), value: "eth1".to_string() },
    ];
    assert_eq!(restore_interfaces(&iface("eth1", 2, 1), &names), Some("eth0".to_string()));
    assert_eq!(restore_interfaces(&iface("eth1", 3, 2), &names), None);
    assert_eq!(restore_interfaces(&iface("eth1", 3, 3), &names), None);
    let mut bare = iface("eth5", 4, 1);
    bare.mac = None;
    assert_eq!(restore_interfaces(&bare, &names), None);
}

#[test]
fn primary_mac_is_the_one_with_device_number_zero() {
    assert_eq!(
        mac_candidates("0a:00:00:00:00:01/\n0a:00:00:00:00:02/\r\n\n/\n0a:00:00:00:00:03"),
        vec!["0a:00:00:00:00:01", "0a:00:00:00:00:02", "0a:00:00:00:00:03"]
    );
    assert_eq!(mac_candidates(""), Vec::<String>::new());
    assert_eq!(
        device_number_path("0a:00:00:00:00:01"),
        "network/interfaces/macs/0a:00:00:00:00:01/device-number"
    );
    assert!(discover_primary_mac_via_imds("0"));
    assert!(discover_primary_mac_via_imds(" 0\n"));
    assert!(!discover_primary_mac_via_imds("1"));
    assert!(!discover_primary_mac_via_imds("00"));
    assert!(!discover_primary_mac_via_imds(""));
}
