use dhcproto::v4::{DhcpOption, HType, Message, OptionCode};
use dhcproto::{Decodable, Decoder, Encodable};
use easyto_init::dhcp::{
    apply_dhcp_config, dhcp_step, ipv4_to_string, is_error_retryable, parse_ipv4, resolv_conf,
    run_dhcp_on_interface, subnet_mask_to_prefix, write_resolver_config, AddressConfig,
    option_length_fits, options_sized, wait_for_dhcp_message, DhcpAction, DhcpError, DhcpEvent,
    DhcpLease, DhcpReply, DhcpState, MessageType, RecvErrorKind, ResolverConfig, Retry,
};

fn reply(xid: u32, msg_type: MessageType) -> DhcpReply {
    DhcpReply {
        xid,
        msg_type: Some(msg_type),
        yiaddr: [10, 0, 0, 15],
        server_id: Some([10, 0, 0, 2]),
        subnet_mask: Some([255, 255, 255, 0]),
        routers: vec![[10, 0, 0, 1], [10, 0, 0, 3]],
        dns_servers: vec![[8, 8, 8, 8]],
        domain_name: None,
        domain_search: vec![],
    }
}

#[test]
fn exchange_ends_with_the_lease_of_the_acknowledgement() {
    let (state, action) = dhcp_step(DhcpState::Init, DhcpEvent::Enter(77));
    assert!(matches!(state, DhcpState::DiscoverSent { xid: 77 }));
    assert!(matches!(action, DhcpAction::SendDiscover { xid: 77 }));
    let (state, action) = dhcp_step(state, DhcpEvent::Reply(reply(77, MessageType::Offer)));
    assert!(matches!(
        state,
        DhcpState::RequestSent { xid: 77, offered: [10, 0, 0, 15], server: [10, 0, 0, 2] }
    ));
    assert!(matches!(
        action,
        DhcpAction::SendRequest { xid: 77, offered: [10, 0, 0, 15], server: [10, 0, 0, 2] }
    ));
    let (state, action) = dhcp_step(state, DhcpEvent::Reply(reply(77, MessageType::Ack)));
    assert!(matches!(state, DhcpState::Configured));
    let lease = match action {
        DhcpAction::Apply(lease) => lease,
        _ => panic!("no lease"),
    };
    assert_eq!(
        lease,
        DhcpLease {
            address: AddressConfig { address: [10, 0, 0, 15], prefix_len: 24, gateway: [10, 0, 0, 1] },
            resolver: ResolverConfig { dns_servers: vec![[8, 8, 8, 8]], domain_name: None, search_list: vec![] },
        }
    );
    let text = write_resolver_config(&lease.resolver).unwrap();
    assert_eq!(text, "nameserver 8.8.8.8\n");
    assert_eq!(text.lines().filter(|l| l.starts_with("nameserver")).count(), 1);
    let (state, action) = dhcp_step(state, DhcpEvent::Reply(reply(77, MessageType::Ack)));
    assert!(matches!(state, DhcpState::Configured));
    assert!(matches!(action, DhcpAction::Nothing));
}

#[test]
fn other_messages_are_passed_over() {
    let sent = || DhcpState::DiscoverSent { xid: 5 };
    for r in [reply(6, MessageType::Offer), reply(5, MessageType::Ack), reply(5, MessageType::Other)] {
        let (state, action) = dhcp_step(sent(), DhcpEvent::Reply(r));
        assert!(matches!(state, DhcpState::DiscoverSent { xid: 5 }));
        assert!(matches!(action, DhcpAction::Receive));
    }
    let mut untyped = reply(5, MessageType::Offer);
    untyped.msg_type = None;
    let (state, action) = dhcp_step(sent(), DhcpEvent::Reply(untyped));
    assert!(matches!(state, DhcpState::DiscoverSent { xid: 5 }));
    assert!(matches!(action, DhcpAction::Receive));
    let requested = || DhcpState::RequestSent { xid: 5, offered: [1, 1, 1, 1], server: [2, 2, 2, 2] };
    for r in [reply(6, MessageType::Ack), reply(5, MessageType::Offer)] {
        let (state, action) = dhcp_step(requested(), DhcpEvent::Reply(r));
        assert!(matches!(state, DhcpState::RequestSent { xid: 5, .. }));
        assert!(matches!(action, DhcpAction::Receive));
    }
    let (state, action) = dhcp_step(DhcpState::Init, DhcpEvent::Reply(reply(5, MessageType::Offer)));
    assert!(matches!(state, DhcpState::Init));
    assert!(matches!(action, DhcpAction::Nothing));
    let (state, action) = dhcp_step(sent(), DhcpEvent::Enter(9));
    assert!(matches!(state, DhcpState::DiscoverSent { xid: 5 }));
    assert!(matches!(action, DhcpAction::Nothing));
}

#[test]
fn waits_back_off_until_ten_seconds_have_passed() {
    let (state, action) = dhcp_step(DhcpState::DiscoverSent { xid: 5 }, DhcpEvent::RecvTimeout(9_999));
    assert!(matches!(state, DhcpState::DiscoverSent { xid: 5 }));
    assert!(matches!(action, DhcpAction::Backoff));
    let (state, action) = dhcp_step(state, DhcpEvent::RecvTimeout(10_000));
    assert!(matches!(state, DhcpState::Failed(DhcpError::Timeout)));
    assert!(matches!(action, DhcpAction::Nothing));
    let requested = DhcpState::RequestSent { xid: 5, offered: [1, 1, 1, 1], server: [2, 2, 2, 2] };
    let (state, action) = dhcp_step(requested, DhcpEvent::RecvTimeout(3_000));
    assert!(matches!(state, DhcpState::RequestSent { .. }));
    assert!(matches!(action, DhcpAction::Backoff));
    let (state, _) = dhcp_step(state, DhcpEvent::SocketError);
    assert!(matches!(state, DhcpState::Failed(DhcpError::Socket)));
    let (state, action) = dhcp_step(state, DhcpEvent::Enter(1));
    assert!(matches!(state, DhcpState::Failed(DhcpError::Socket)));
    assert!(matches!(action, DhcpAction::Nothing));
    let (state, _) = dhcp_step(DhcpState::DiscoverSent { xid: 5 }, DhcpEvent::SocketError);
    assert!(matches!(state, DhcpState::Failed(DhcpError::Socket)));
    assert_eq!(run_dhcp_on_interface(29_999), Retry::Again);
    assert_eq!(run_dhcp_on_interface(30_000), Retry::GiveUp);
    assert!(is_error_retryable(RecvErrorKind::WouldBlock));
    assert!(is_error_retryable(RecvErrorKind::TimedOut));
    assert!(!is_error_retryable(RecvErrorKind::Other));
}

#[test]
fn incomplete_offers_and_acknowledgements_fail() {
    let mut offer = reply(5, MessageType::Offer);
    offer.server_id = None;
    let (state, action) = dhcp_step(DhcpState::DiscoverSent { xid: 5 }, DhcpEvent::Reply(offer));
    assert!(matches!(state, DhcpState::Failed(DhcpError::NoServerId)));
    assert!(matches!(action, DhcpAction::Nothing));
    let requested = || DhcpState::RequestSent { xid: 5, offered: [1, 1, 1, 1], server: [2, 2, 2, 2] };
    let mut ack = reply(5, MessageType::Ack);
    ack.subnet_mask = None;
    ack.routers = vec![];
    let (state, _) = dhcp_step(requested(), DhcpEvent::Reply(ack));
    assert!(matches!(state, DhcpState::Failed(DhcpError::NoSubnet)));
    let mut ack = reply(5, MessageType::Ack);
    ack.routers = vec![];
    let (state, _) = dhcp_step(requested(), DhcpEvent::Reply(ack));
    assert!(matches!(state, DhcpState::Failed(DhcpError::NoGateway)));
    let mut ack = reply(5, MessageType::Ack);
    ack.subnet_mask = None;
    assert_eq!(apply_dhcp_config(ack), Err(DhcpError::NoSubnet));
    let mut ack = reply(5, MessageType::Ack);
    ack.domain_name = Some("example.com".to_string());
    ack.domain_search = vec!["a.example.com".to_string(), "b.example.com".to_string()];
    ack.dns_servers = vec![];
    let lease = apply_dhcp_config(ack).unwrap();
    assert_eq!(lease.resolver.domain_name, Some("example.com".to_string()));
    assert_eq!(lease.resolver.search_list.len(), 2);
    assert_eq!(write_resolver_config(&lease.resolver), None);
}

#[test]
fn prefix_is_the_number_of_bits_of_the_mask() {
    assert_eq!(subnet_mask_to_prefix(&[255, 255, 255, 0]), 24);
    assert_eq!(subnet_mask_to_prefix(&[0, 0, 0, 0]), 0);
    assert_eq!(subnet_mask_to_prefix(&[255, 255, 255, 255]), 32);
    assert_eq!(subnet_mask_to_prefix(&[255, 255, 240, 0]), 20);
    assert_eq!(subnet_mask_to_prefix(&[255, 128, 0, 0]), 9);
    assert_eq!(subnet_mask_to_prefix(&[1, 2, 4, 0x55]), 7);
}

#[test]
fn addresses_are_written_and_read_in_dotted_decimal() {
    assert_eq!(ipv4_to_string(&[10, 0, 2, 15]), "10.0.2.15");
    assert_eq!(ipv4_to_string(&[0, 0, 0, 0]), "0.0.0.0");
    assert_eq!(ipv4_to_string(&[255, 255, 255, 255]), "255.255.255.255");
    assert_eq!(parse_ipv4("10.0.2.15"), Some([10, 0, 2, 15]));
    assert_eq!(parse_ipv4("255.255.255.255"), Some([255, 255, 255, 255]));
    assert_eq!(parse_ipv4("0.0.0.0"), Some([0, 0, 0, 0]));
    for bad in ["", "10.0.2", "10.0.2.15.1", "10.0.2.256", "10.0.02.15", "10.0.2.", ".0.2.15",
        "10.0.2.+5", "10.0.2.1 ", "a.b.c.d", "1000.0.0.1", "10..2.15", "00.0.0.0"] {
        assert_eq!(parse_ipv4(bad), None);
    }
    for a in [[1u8, 20, 210, 9], [127, 0, 0, 1], [100, 10, 1, 0]] {
        assert_eq!(parse_ipv4(&ipv4_to_string(&a)), Some(a));
    }
}

#[test]
fn resolver_configuration_has_a_line_for_each_part() {
    let full = ResolverConfig {
        dns_servers: vec![[8, 8, 8, 8], [1, 1, 1, 1]],
        domain_name: Some("example.com".to_string()),
        search_list: vec!["a.example.com".to_string(), "b.example.com".to_string()],
    };
    assert_eq!(
        resolv_conf(&full),
        "domain example.com\nsearch a.example.com b.example.com\nnameserver 8.8.8.8\nnameserver 1.1.1.1\n"
    );
    assert_eq!(write_resolver_config(&full), Some(resolv_conf(&full)));
    assert_eq!(resolv_conf(&ResolverConfig::default()), "");
    let one = ResolverConfig { dns_servers: vec![], domain_name: None, search_list: vec!["x".to_string()] };
    assert_eq!(resolv_conf(&one), "search x\n");
}

#[test]
fn discovery_and_request_are_what_the_server_expects() {
    let mac = [2u8, 0, 0, 0, 0, 9];
    let bytes = easyto_init::dhcp::send_dhcpdiscover(0xdead_beef, &mac).unwrap();
    let m = Message::decode(&mut Decoder::new(&bytes)).unwrap();
    assert_eq!(m.xid(), 0xdead_beef);
    assert_eq!(m.htype(), HType::Eth);
    assert!(m.flags().broadcast());
    assert_eq!(&m.chaddr()[..6], &mac);
    assert_eq!(m.opts().msg_type(), Some(dhcproto::v4::MessageType::Discover));
    assert_eq!(
        m.opts().get(OptionCode::ParameterRequestList),
        Some(&DhcpOption::ParameterRequestList(vec![
            OptionCode::SubnetMask,
            OptionCode::Router,
            OptionCode::DomainNameServer,
            OptionCode::DomainName,
            OptionCode::DomainSearch,
        ]))
    );
    assert_eq!(m.opts().get(OptionCode::MaxMessageSize), Some(&DhcpOption::MaxMessageSize(1500)));

    let bytes = easyto_init::dhcp::send_dhcprequest(7, &mac, &[10, 0, 0, 15], &[10, 0, 0, 2]).unwrap();
    let m = Message::decode(&mut Decoder::new(&bytes)).unwrap();
    assert_eq!(m.xid(), 7);
    assert_eq!(m.htype(), HType::Eth);
    assert!(m.flags().broadcast());
    assert_eq!(u16::from(m.flags()), easyto_init::dhcp::FLAGS_BROADCAST);
    assert_eq!(&m.chaddr()[..6], &mac);
    assert_eq!(m.opts().msg_type(), Some(dhcproto::v4::MessageType::Request));
    assert_eq!(
        m.opts().get(OptionCode::RequestedIpAddress),
        Some(&DhcpOption::RequestedIpAddress([10, 0, 0, 15].into()))
    );
    assert_eq!(
        m.opts().get(OptionCode::ServerIdentifier),
        Some(&DhcpOption::ServerIdentifier([10, 0, 0, 2].into()))
    );
    assert_eq!(m.opts().get(OptionCode::MaxMessageSize), Some(&DhcpOption::MaxMessageSize(1500)));
}

#[test]
fn received_message_is_read_into_a_reply() {
    let zero = [0u8; 4];
    let mut m = Message::new_with_id(77, zero.into(), [10, 0, 0, 15].into(), zero.into(), zero.into(), &[2, 0, 0, 0, 0, 9]);
    m.opts_mut().insert(DhcpOption::MessageType(dhcproto::v4::MessageType::Ack));
    m.opts_mut().insert(DhcpOption::SubnetMask([255, 255, 255, 0].into()));
    m.opts_mut().insert(DhcpOption::Router(vec![[10, 0, 0, 1].into()]));
    m.opts_mut().insert(DhcpOption::DomainNameServer(vec![[8, 8, 8, 8].into()]));
    m.opts_mut().insert(DhcpOption::ServerIdentifier([10, 0, 0, 2].into()));
    m.opts_mut().insert(DhcpOption::DomainName("example.com".to_string()));
    let bytes = m.to_vec().unwrap();
    let reply = easyto_init::dhcp::wait_for_dhcp_message(&bytes).unwrap();
    assert_eq!(reply.xid, 77);
    assert_eq!(reply.msg_type, Some(MessageType::Ack));
    assert_eq!(reply.yiaddr, [10, 0, 0, 15]);
    assert_eq!(reply.server_id, Some([10, 0, 0, 2]));
    assert_eq!(reply.subnet_mask, Some([255, 255, 255, 0]));
    assert_eq!(reply.routers, vec![[10, 0, 0, 1]]);
    assert_eq!(reply.dns_servers, vec![[8, 8, 8, 8]]);
    assert_eq!(reply.domain_name, Some("example.com".to_string()));
    assert_eq!(reply.domain_search, Vec::<String>::new());
    let requested = DhcpState::RequestSent { xid: 77, offered: [10, 0, 0, 15], server: [10, 0, 0, 2] };
    let (state, action) = dhcp_step(requested, DhcpEvent::Reply(reply));
    assert!(matches!(state, DhcpState::Configured));
    match action {
        DhcpAction::Apply(lease) => {
            assert_eq!(lease.address, AddressConfig { address: [10, 0, 0, 15], prefix_len: 24, gateway: [10, 0, 0, 1] });
            assert_eq!(resolv_conf(&lease.resolver), "domain example.com\nnameserver 8.8.8.8\n");
        }
        _ => panic!("no lease"),
    }

    let own = easyto_init::dhcp::send_dhcpdiscover(5, &[2, 0, 0, 0, 0, 9]).unwrap();
    let reply = easyto_init::dhcp::wait_for_dhcp_message(&own).unwrap();
    assert_eq!((reply.xid, reply.msg_type, reply.yiaddr), (5, Some(MessageType::Discover), [0, 0, 0, 0]));
    assert_eq!(reply.server_id, None);
    assert!(reply.routers.is_empty());
    assert!(easyto_init::dhcp::wait_for_dhcp_message(&[1, 2, 3]).is_none());
    assert!(easyto_init::dhcp::wait_for_dhcp_message(&[]).is_none());
    for (code, kind) in [(1u8, MessageType::Discover), (2, MessageType::Offer), (3, MessageType::Request),
        (5, MessageType::Ack), (4, MessageType::Other), (0, MessageType::Other)] {
        assert_eq!(easyto_init::dhcp::message_type_of(code), kind);
    }
}

#[test]
fn search_list_is_read_as_text() {
    let zero = [0u8; 4];
    let mut m = Message::new_with_id(9, zero.into(), zero.into(), zero.into(), zero.into(), &[2, 0, 0, 0, 0, 9]);
    m.opts_mut().insert(DhcpOption::MessageType(dhcproto::v4::MessageType::Ack));
    let names = ["example.com.", "corp.example.com."]
        .iter()
        .map(|n| n.parse::<dhcproto::Name>().unwrap())
        .collect();
    m.opts_mut().insert(DhcpOption::DomainSearch(names));
    let bytes = m.to_vec().unwrap();
    let decoded = Message::decode(&mut Decoder::new(&bytes)).unwrap();
    let expected: Vec<String> = match decoded.opts().get(OptionCode::DomainSearch) {
        Some(DhcpOption::DomainSearch(list)) => list.iter().map(|n| n.to_string()).collect(),
        _ => panic!("no search list"),
    };
    assert_eq!(expected.len(), 2);
    assert!(expected[0].starts_with("example.com"));
    let reply = easyto_init::dhcp::wait_for_dhcp_message(&bytes).unwrap();
    assert_eq!(reply.domain_search, expected);
    assert_eq!(reply.domain_name, None);
    assert_eq!(reply.subnet_mask, None);
}

fn message_with_options(options: &[u8]) -> Vec<u8> {
    let zero = [0u8; 4];
    let mut m = Message::new_with_id(9, zero.into(), [10, 0, 0, 15].into(), zero.into(), zero.into(), &[2, 0, 0, 0, 0, 9]);
    m.opts_mut().insert(DhcpOption::MessageType(dhcproto::v4::MessageType::Ack));
    let mut bytes = m.to_vec().unwrap();
    // Drop the end code and put the options in its place.
    assert_eq!(bytes.pop(), Some(255));
    bytes.extend_from_slice(options);
    bytes
}

#[test]
fn options_of_a_wrong_length_make_a_message_unreadable() {
    let refused: [&[u8]; 12] = [
        &[152, 1, 0, 255],
        &[152, 0],
        &[153, 5, 1, 2, 3, 4, 5, 255],
        &[154, 3, 1, 2, 3],
        &[155, 2, 1, 2, 0, 255],
        &[80, 1, 7, 255],
        &[94, 2, 1, 2, 255],
        &[94, 4, 1, 2, 3, 4, 255],
        &[81, 2, 0, 0, 255],
        &[81, 0],
        // Parts of one option add up.
        &[152, 4, 1, 2, 3, 4, 152, 4, 1, 2, 3, 4, 255],
        &[1, 4, 255, 255, 255, 0, 0, 152, 2, 1, 2, 255],
    ];
    for options in refused {
        let bytes = message_with_options(options);
        assert!(!options_sized(&bytes), "{:?}", options);
        assert!(wait_for_dhcp_message(&bytes).is_none(), "{:?}", options);
    }
    let taken: [&[u8]; 10] = [
        &[255],
        &[],
        &[152, 4, 0, 0, 0, 1, 255],
        &[152, 2, 0, 0, 152, 2, 0, 1, 255],
        &[80, 0, 255],
        &[80, 0, 80, 0, 0, 255],
        &[94, 3, 1, 2, 3, 255],
        // Behind the end code nothing is read.
        &[255, 152, 1, 0],
        // The data of another option is no option.
        &[6, 4, 152, 1, 80, 9, 255],
        // An option in parts that is cut off is not put together.
        &[152, 1, 0, 152, 9, 0],
    ];
    for options in taken {
        let bytes = message_with_options(options);
        assert!(options_sized(&bytes), "{:?}", options);
        let reply = wait_for_dhcp_message(&bytes).unwrap();
        assert_eq!((reply.xid, reply.yiaddr), (9, [10, 0, 0, 15]));
        assert_eq!(reply.msg_type, Some(MessageType::Ack));
    }
    assert!(options_sized(&[0u8; 239]));
    assert!(options_sized(&[0u8; 240]));
    assert!(option_length_fits(81, 3));
    assert!(!option_length_fits(81, 2));
    assert!(option_length_fits(82, 0));
    assert!(!option_length_fits(155, 0));
    assert!(option_length_fits(156, 0));
}
