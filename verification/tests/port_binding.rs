use narth_net::net::{IpAddr, Ipv4Addr, Ipv6Addr, SocketAddr};
use narth_net::runtime::interface::l4_managers::udp::handle::UdpSocketHandle;
use narth_net::runtime::interface::l4_managers::udp::messages::{MessageRing, RecvRing};
use narth_net::runtime::interface::l4_managers::udp::port_binding::{
    AddressBinding, AddressBindingTarget, AddressBindings, PortBindings,
};

const LOCALHOST: Ipv4Addr = Ipv4Addr { bits: 0x7f00_0001 };

/// A handle with the given reuse flag.
fn make_handle(allow_reuse: bool) -> UdpSocketHandle {
    let mut handle = UdpSocketHandle::new(
        RecvRing::with_capacity(1),
        MessageRing::with_capacity(1),
        SocketAddr::new(IpAddr::V4(LOCALHOST), 0),
        1500,
    );
    handle.state.allow_reuse = allow_reuse;
    handle
}

fn make_addr(ip: IpAddr, port: u16) -> SocketAddr {
    SocketAddr::new(ip, port)
}

#[test]
fn test_port_bindings_array_boundary() {
    let bindings = PortBindings::new();
    let max_port_addr = make_addr(IpAddr::V4(LOCALHOST), 65535);

    let result = bindings.is_bindable(&max_port_addr, false, true);
    assert!(result, "Port 65535 should be safely indexable without panic");
}

#[test]
fn test_exclusive_unspecified_dual_stack() {
    let mut bindings = AddressBindings(Vec::new());
    let req_v4 = make_addr(IpAddr::V4(Ipv4Addr::unspecified()), 80);
    let req_v6 = make_addr(IpAddr::V6(Ipv6Addr::unspecified()), 80);

    // 1. Empty bindings should allow exclusive dual-stack wildcard bind
    assert!(bindings.is_bindable(&req_v4, false, true));

    // A dual-stack Any bind is added
    bindings.0.push(AddressBinding {
        target: AddressBindingTarget::Any,
        original: make_addr(IpAddr::V4(Ipv4Addr::unspecified()), 80),
        handle: make_handle(false),
    });

    // 2. Once Any is occupied exclusively, subsequent wildcard binds must fail
    assert!(!bindings.is_bindable(&req_v4, false, true));
    assert!(!bindings.is_bindable(&req_v6, false, true));
}

#[test]
fn test_exclusive_unspecified_single_stack() {
    let mut bindings = AddressBindings(Vec::new());
    let req_v4 = make_addr(IpAddr::V4(Ipv4Addr::unspecified()), 80);
    let req_v6 = make_addr(IpAddr::V6(Ipv6Addr::unspecified()), 80);

    // An exclusive IPv4-only wildcard bind
    bindings.0.push(AddressBinding {
        target: AddressBindingTarget::AnyIpv4,
        original: make_addr(IpAddr::V4(Ipv4Addr::unspecified()), 80),
        handle: make_handle(false),
    });

    // An incoming exclusive IPv4 wildcard bind should be rejected
    assert!(!bindings.is_bindable(&req_v4, false, false));

    // An incoming exclusive IPv6 wildcard bind should be ALLOWED because realms don't cross
    assert!(bindings.is_bindable(&req_v6, false, false));
}

#[test]
fn test_exclusive_specific_ip_conflict() {
    let mut bindings = AddressBindings(Vec::new());
    let local_v4 = IpAddr::V4(Ipv4Addr::new(192, 168, 0, 12));
    let other_v4 = IpAddr::V4(Ipv4Addr::new(192, 168, 0, 13));
    let req_addr = make_addr(local_v4, 80);
    let req_other = make_addr(other_v4, 80);

    // An exclusive binding to a specific IPv4 address
    bindings.0.push(AddressBinding {
        target: AddressBindingTarget::Specific(local_v4),
        original: make_addr(local_v4, 80),
        handle: make_handle(false),
    });

    // 1. Exact same IP should fail
    assert!(!bindings.is_bindable(&req_addr, false, false));

    // 2. Different IP on the same port should pass
    assert!(bindings.is_bindable(&req_other, false, false));

    // 3. Trying to bind a wildcard when a specific IP is exclusive should fail
    let wildcard_v4 = make_addr(IpAddr::V4(Ipv4Addr::unspecified()), 80);
    assert!(!bindings.is_bindable(&wildcard_v4, false, false));
}

#[test]
fn test_allow_reuse_mutual_agreement() {
    let mut bindings = AddressBindings(Vec::new());
    let local_v4 = IpAddr::V4(Ipv4Addr::new(192, 168, 0, 12));
    let req_addr = make_addr(local_v4, 80);

    // Scenario 1: Existing socket does NOT allow reuse, new one DOES -> Should FAIL
    bindings.0.push(AddressBinding {
        target: AddressBindingTarget::Specific(local_v4),
        original: make_addr(local_v4, 80),
        handle: make_handle(false),
    });
    assert!(!bindings.is_bindable(&req_addr, true, false));

    // Scenario 2: Existing socket DOES allow reuse, new one does NOT -> Should FAIL
    bindings.0.clear();
    bindings.0.push(AddressBinding {
        target: AddressBindingTarget::Specific(local_v4),
        original: make_addr(local_v4, 80),
        handle: make_handle(true),
    });
    assert!(!bindings.is_bindable(&req_addr, false, false));

    // Scenario 3: Both sockets allow reuse -> Should SUCCESS
    assert!(bindings.is_bindable(&req_addr, true, false));
}

#[test]
fn test_allow_reuse_overlapping_wildcards() {
    let mut bindings = AddressBindings(Vec::new());
    let wildcard_v4 = make_addr(IpAddr::V4(Ipv4Addr::unspecified()), 80);

    // A reusable AnyIpv4 binding
    bindings.0.push(AddressBinding {
        target: AddressBindingTarget::AnyIpv4,
        original: make_addr(IpAddr::V4(Ipv4Addr::unspecified()), 80),
        handle: make_handle(true),
    });

    // Requesting another AnyIpv4 with reuse allowed should succeed
    assert!(bindings.is_bindable(&wildcard_v4, true, false));

    // Requesting a dual-stack Any wildcard with reuse allowed should also succeed
    assert!(bindings.is_bindable(&wildcard_v4, true, true));
}

#[test]
fn test_ipv6_specific_classification_fixed() {
    let local_v6 = IpAddr::V6(Ipv6Addr::new([0xfe80, 0, 0, 0, 0xdead, 0xbeef, 0, 1]));
    let binding = AddressBinding {
        target: AddressBindingTarget::Specific(local_v6),
        original: make_addr(local_v6, 80),
        handle: make_handle(false),
    };

    assert!(
        binding.is_ipv6(),
        "Specific IPv6 bindings must return true for is_ipv6"
    );
    assert!(
        !binding.is_ipv4(),
        "Specific IPv6 bindings must return false for is_ipv4"
    );
}

#[test]
fn a_socket_is_found_by_its_address_and_gone_when_removed() {
    let mut ports = PortBindings::new();
    let addr = make_addr(IpAddr::V4(Ipv4Addr::new(10, 0, 0, 1)), 4000);
    assert!(ports.get_mut(&addr).is_none());
    ports.insert(addr, make_handle(false), true);
    assert!(!ports.is_bindable(&addr, false, true));
    assert!(ports.is_bindable(&make_addr(addr.ip, 4001), false, true));
    ports.get_mut(&addr).expect("the socket").state.read_wake = true;
    assert_eq!(ports.listener_position(&addr), Some(0));
    assert!(ports.state_at(4000, 0).read_wake);
    ports.remove(&addr);
    assert!(ports.get_mut(&addr).is_none());
    assert!(ports.is_bindable(&addr, false, true));
}

#[test]
fn a_wildcard_socket_takes_every_address_of_its_family() {
    let mut bindings = AddressBindings(Vec::new());
    let any_v4 = make_addr(IpAddr::V4(Ipv4Addr::unspecified()), 53);
    bindings.insert(any_v4, make_handle(false), false);
    assert_eq!(bindings.0[0].target, AddressBindingTarget::AnyIpv4);
    assert!(bindings.0[0].is_any());
    assert!(bindings.0[0].is_only_ipv4());
    assert!(!bindings.0[0].is_only_ipv6());
    assert_eq!(bindings.position(&IpAddr::V4(Ipv4Addr::new(1, 2, 3, 4))), Some(0));
    assert_eq!(bindings.position(&IpAddr::V6(Ipv6Addr::unspecified())), None);
    bindings.remove(&any_v4);
    assert!(bindings.0.is_empty());
}
