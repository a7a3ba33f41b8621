use talpid_routing::data::{
    align_to_nearest_u32, AddressFlag, Error, RouteMessage, RouteSockAddress, SockAddrIterator,
    IF_MSGHDR_SIZE, RTA_BRD, RTA_DST, RTA_GATEWAY, RTA_GENMASK, RTA_IFA, RTA_IFP, RTA_NETMASK,
    RTA_AUTHOR, RTM_ADD, RTM_DELETE, RTM_IFINFO, RT_MSGHDR_SIZE,
};
use talpid_routing::watch::{
    on_read, parse_msg, remove_route_msg, test_remove_route_inner, MessageReport, ReadOutcome,
    WatchAction,
};

#[test]
fn test_remove_route() {
    assert!(test_remove_route_inner())
}

/// A route message of type `kind` with address bitmask `addrs` and `payload`.
fn route_msg(kind: u8, addrs: i32, payload: &[u8]) -> Vec<u8> {
    let len = RT_MSGHDR_SIZE + payload.len();
    let mut b = vec![0u8; RT_MSGHDR_SIZE];
    b[0] = (len & 0xff) as u8;
    b[1] = (len >> 8) as u8;
    b[2] = 5;
    b[3] = kind;
    b[12..16].copy_from_slice(&addrs.to_le_bytes());
    b.extend_from_slice(payload);
    b
}

fn inet(last: u8) -> Vec<u8> {
    vec![16, 2, 0, 0, 10, 0, 0, last, 0, 0, 0, 0, 0, 0, 0, 0]
}

#[test]
fn fixture_is_delete_with_destination_and_gateway() {
    let msg = remove_route_msg();
    assert_eq!(msg.len(), 164);
    match RouteMessage::parse_message(&msg).unwrap() {
        RouteMessage::DeleteRoute(route) => {
            assert_eq!(route.header().rtm_msglen, 164);
            assert_eq!(route.header().rtm_addrs, 0x37);
            assert_eq!(route.header().rtm_index, 11);
            assert_eq!(route.header().rtm_rmx.rmx_mtu, 1500);
            let addrs = route.route_addrs().collect_addrs();
            assert_eq!(addrs.len(), 2);
            assert_eq!(addrs[0].1.bits(), RTA_DST);
            assert_eq!(addrs[1].1.bits(), RTA_GATEWAY);
            assert_eq!(addrs[0].0.sa_len(), 16);
            assert_eq!(addrs[1].0.sa_family(), 2);
            assert_eq!(&addrs[1].0.as_bytes()[4..8], &[192, 168, 185, 1]);
        }
        other => panic!("unexpected {:?}", other),
    }
}

#[test]
fn short_buffers_are_too_small() {
    for n in 0..4usize {
        let b = vec![1u8; n];
        assert_eq!(
            RouteMessage::parse_message(&b).unwrap_err(),
            Error::BufferTooSmall("rt_msghdr_short", 4)
        );
    }
}

#[test]
fn short_interface_message_is_too_small() {
    let mut b = vec![0u8; 50];
    b[0] = 50;
    b[3] = RTM_IFINFO as u8;
    assert_eq!(
        RouteMessage::parse_message(&b).unwrap_err(),
        Error::BufferTooSmall("if_msghdr", IF_MSGHDR_SIZE)
    );
}

#[test]
fn interface_message_keeps_payload() {
    let mut b = vec![0u8; 120];
    b[0] = 120;
    b[3] = RTM_IFINFO as u8;
    b[12] = 7;
    b[27] = 10;
    b[88..92].copy_from_slice(&[0xff; 4]);
    b[115] = 9;
    match RouteMessage::parse_message(&b).unwrap() {
        RouteMessage::Interface(i) => {
            assert_eq!(i.header().ifm_index, 7);
            assert_eq!(i.header().ifm_data.ifi_mtu, 0x0a000000);
            assert_eq!(i.header().ifm_data.ifi_lastchange.tv_sec, -1);
            assert_eq!(i.payload().len(), 8);
            assert_eq!(IF_MSGHDR_SIZE + i.payload().len(), b.len());
            assert_eq!(i.payload()[3], 9);
        }
        other => panic!("unexpected {:?}", other),
    }
}

#[test]
fn interface_message_with_bad_length_is_invalid() {
    let mut b = vec![0u8; 120];
    b[0] = 200;
    b[3] = RTM_IFINFO as u8;
    assert_eq!(
        RouteMessage::parse_message(&b).unwrap_err(),
        Error::InvalidBuffer(200, 120)
    );
}

#[test]
fn interface_message_shorter_than_buffer_is_invalid() {
    let mut b = vec![0u8; 120];
    b[0] = 116;
    b[3] = RTM_IFINFO as u8;
    assert_eq!(
        RouteMessage::parse_message(&b).unwrap_err(),
        Error::InvalidBuffer(116, 120)
    );
}

#[test]
fn short_route_message_is_too_small() {
    let mut b = vec![0u8; 60];
    b[3] = RTM_ADD as u8;
    assert_eq!(
        RouteMessage::parse_message(&b).unwrap_err(),
        Error::BufferTooSmall("rt_msghdr", RT_MSGHDR_SIZE)
    );
}

#[test]
fn route_message_with_mismatched_length_is_invalid() {
    let mut b = route_msg(RTM_DELETE as u8, 1, &inet(1));
    b.push(0);
    assert_eq!(
        RouteMessage::parse_message(&b).unwrap_err(),
        Error::InvalidBuffer(108, 109)
    );
}

#[test]
fn types_classify() {
    let add = route_msg(RTM_ADD as u8, 1, &inet(1));
    assert!(matches!(RouteMessage::parse_message(&add), Ok(RouteMessage::AddRoute(_))));
    let del = route_msg(RTM_DELETE as u8, 1, &inet(1));
    assert!(matches!(RouteMessage::parse_message(&del), Ok(RouteMessage::DeleteRoute(_))));
    let other = vec![6u8, 0, 5, 3, 9, 9];
    match RouteMessage::parse_message(&other).unwrap() {
        RouteMessage::Other { header, payload } => {
            assert_eq!(header.rtm_type, 3);
            assert_eq!(header.rtm_msglen, 6);
            assert_eq!(payload, other);
        }
        m => panic!("unexpected {:?}", m),
    }
}

#[test]
fn route_payload_fills_buffer() {
    for n in 0..6usize {
        let mut payload = Vec::new();
        for i in 0..n {
            payload.extend_from_slice(&inet(i as u8));
        }
        let b = route_msg(RTM_ADD as u8, 0, &payload);
        match RouteMessage::parse_message(&b).unwrap() {
            RouteMessage::AddRoute(r) => {
                assert_eq!(RT_MSGHDR_SIZE + r.payload().len(), b.len());
                assert!(r.is_add());
                assert!(!r.is_remove());
            }
            m => panic!("unexpected {:?}", m),
        }
    }
}

#[test]
fn with_sockaddr_names_each_flag() {
    let flags = [RTA_DST, RTA_GATEWAY, RTA_NETMASK, RTA_GENMASK, RTA_IFP, RTA_IFA, RTA_AUTHOR, RTA_BRD];
    let expected = [
        RouteSockAddress::Destination(None),
        RouteSockAddress::Gateway(None),
        RouteSockAddress::Netmask(None),
        RouteSockAddress::CloningMask(None),
        RouteSockAddress::IfName(None),
        RouteSockAddress::IfSockaddr(None),
        RouteSockAddress::RedirectAuthor(None),
        RouteSockAddress::Broadcast(None),
    ];
    for (f, e) in flags.iter().zip(expected.iter()) {
        assert_eq!(&RouteSockAddress::with_sockaddr(AddressFlag { bits: *f }, None).unwrap(), e);
    }
    for bad in [0, 3, 0x100, -1, 0x81] {
        let flag = AddressFlag { bits: bad };
        assert_eq!(
            RouteSockAddress::with_sockaddr(flag, None).unwrap_err(),
            Error::UnknownAddressFlag(flag)
        );
    }
}

#[test]
fn zero_length_sockaddr_takes_four_bytes() {
    let buf = [0u8, 0, 0, 0, 16, 2, 0, 0];
    let (a, n) = RouteSockAddress::new(AddressFlag { bits: RTA_NETMASK }, &buf).unwrap();
    assert_eq!(a, RouteSockAddress::Netmask(None));
    assert_eq!(n, 4);
}

#[test]
fn sockaddr_new_errors() {
    let flag = AddressFlag { bits: RTA_DST };
    assert_eq!(
        RouteSockAddress::new(flag, &[16, 2]).unwrap_err(),
        Error::BufferTooSmall("sockaddr buffer too small", 2)
    );
    assert_eq!(
        RouteSockAddress::new(flag, &[16, 2, 0, 0, 1]).unwrap_err(),
        Error::InvalidBuffer(16, 5)
    );
    let b = inet(5);
    match RouteSockAddress::new(flag, &b).unwrap() {
        (RouteSockAddress::Destination(Some(a)), 16) => assert_eq!(a.as_bytes(), &b[..]),
        _ => panic!("unexpected"),
    }
}

#[test]
fn iterator_stops_after_last_flag() {
    let mut payload = Vec::new();
    for i in 0..10u8 {
        payload.extend_from_slice(&inet(i));
    }
    let mut it = SockAddrIterator::new(&payload, AddressFlag { bits: 0xff });
    let mut n = 0;
    while it.next().is_some() {
        n += 1;
    }
    assert_eq!(n, 8);
    assert!(it.next().is_none());
}

#[test]
fn iterator_skips_missing_flags_and_pads() {
    let mut payload = vec![6u8, 18, 1, 2, 3, 4, 0, 0];
    payload.extend_from_slice(&inet(9));
    let mut it = SockAddrIterator::new(&payload, AddressFlag { bits: RTA_GATEWAY | RTA_IFP });
    let addrs = it.collect_addrs();
    assert_eq!(addrs.len(), 2);
    assert_eq!(addrs[0].1.bits(), RTA_GATEWAY);
    assert_eq!(addrs[0].0.as_bytes(), &[6, 18, 1, 2, 3, 4]);
    assert_eq!(addrs[1].1.bits(), RTA_IFP);
    assert_eq!(addrs[1].0.as_bytes(), &inet(9)[..]);
}

#[test]
fn iterator_ends_on_zero_length_record() {
    let mut payload = inet(1);
    payload.extend_from_slice(&[0, 0, 0, 0]);
    payload.extend_from_slice(&inet(2));
    let mut it = SockAddrIterator::new(&payload, AddressFlag { bits: 0x7 });
    assert_eq!(it.collect_addrs().len(), 1);
}

#[test]
fn iterator_ends_on_short_buffer() {
    let payload = [16u8, 2, 0];
    let mut it = SockAddrIterator::new(&payload, AddressFlag { bits: RTA_DST });
    assert!(it.next().is_none());
}

#[test]
fn invalid_address_bitmask_gives_no_addresses() {
    let b = route_msg(RTM_ADD as u8, 0x100, &inet(1));
    match RouteMessage::parse_message(&b).unwrap() {
        RouteMessage::AddRoute(r) => assert!(r.route_addrs().next().is_none()),
        m => panic!("unexpected {:?}", m),
    }
}

#[test]
fn align_rounds_up_to_four() {
    assert_eq!(align_to_nearest_u32(0), 4);
    assert_eq!(align_to_nearest_u32(1), 4);
    assert_eq!(align_to_nearest_u32(4), 4);
    assert_eq!(align_to_nearest_u32(5), 8);
    assert_eq!(align_to_nearest_u32(20), 20);
    assert_eq!(align_to_nearest_u32(11), 12);
}

#[test]
fn address_flag_bits() {
    assert!(AddressFlag::from_bits(0x100).is_none());
    assert!(AddressFlag::from_bits(-1).is_none());
    let f = AddressFlag::from_bits(0x37).unwrap();
    assert!(f.contains(AddressFlag { bits: RTA_IFA }));
    assert!(!f.contains(AddressFlag { bits: RTA_GENMASK }));
    assert_eq!(AddressFlag::empty().bits(), 0);
    assert_eq!(AddressFlag::nth(7).bits(), RTA_BRD);
}

#[test]
fn malformed_buffers_are_reported() {
    assert!(matches!(parse_msg(&[1, 2]), MessageReport::Failed(Error::BufferTooSmall(_, 4))));
    let mut b = route_msg(RTM_DELETE as u8, 1, &inet(1));
    b[0] = 0;
    assert!(matches!(parse_msg(&b), MessageReport::Failed(Error::InvalidBuffer(0, 108))));
    assert!(matches!(parse_msg(&[4, 0, 5, 9]), MessageReport::Ignored));
}

#[test]
fn reports_route_addresses() {
    let mut payload = inet(1);
    payload.extend_from_slice(&inet(2));
    let b = route_msg(RTM_ADD as u8, 3, &payload);
    match parse_msg(&b) {
        MessageReport::AddRoute(addrs) => {
            assert_eq!(addrs.len(), 2);
            assert_eq!(addrs[1].0.as_bytes()[7], 2);
        }
        r => panic!("unexpected {:?}", r),
    }
    match parse_msg(&remove_route_msg()) {
        MessageReport::DeleteRoute(addrs) => assert_eq!(addrs.len(), 2),
        r => panic!("unexpected {:?}", r),
    }
}

#[test]
fn read_outcomes_decide_the_loop() {
    assert_eq!(on_read(ReadOutcome::Data(164)), WatchAction::Dispatch(164));
    assert_eq!(on_read(ReadOutcome::Data(0)), WatchAction::Stop);
    assert_eq!(on_read(ReadOutcome::Closed), WatchAction::Stop);
    assert_eq!(on_read(ReadOutcome::Interrupted), WatchAction::Retry);
    assert_eq!(on_read(ReadOutcome::WouldBlock), WatchAction::Retry);
    assert_eq!(on_read(ReadOutcome::Failed(5)), WatchAction::Stop);
}

#[test]
fn link_address_name_and_index() {
    let msg = remove_route_msg();
    let record = &msg[128..148];
    let (a, n) = RouteSockAddress::new(AddressFlag { bits: RTA_IFP }, record).unwrap();
    assert_eq!(n, 20);
    match a {
        RouteSockAddress::IfName(Some(addr)) => {
            assert_eq!(addr.link_index(), Some(11));
            assert_eq!(addr.link_name(), Some(b"en0".to_vec()));
        }
        other => panic!("unexpected {:?}", other),
    }
    let inet_addr = RouteSockAddress::new(AddressFlag { bits: RTA_DST }, &inet(3)).unwrap().0;
    match inet_addr {
        RouteSockAddress::Destination(Some(addr)) => {
            assert_eq!(addr.link_index(), None);
            assert_eq!(addr.link_name(), None);
        }
        other => panic!("unexpected {:?}", other),
    }
}

#[test]
fn flag_names() {
    assert_eq!(AddressFlag { bits: RTA_DST }.name(), Some("RTA_DST"));
    assert_eq!(AddressFlag { bits: RTA_BRD }.name(), Some("RTA_BRD"));
    assert_eq!(AddressFlag { bits: 3 }.name(), None);
}

#[test]
fn oversized_record_consumes_the_rest() {
    let payload = [20u8, 2, 0, 0, 1, 2, 3, 4];
    let mut it = SockAddrIterator::new(&payload, AddressFlag { bits: RTA_DST | RTA_GATEWAY });
    let (a, f) = it.next().unwrap();
    assert_eq!(f.bits(), RTA_DST);
    assert_eq!(a.as_bytes(), &payload[..]);
    assert!(it.next().is_none());
}
