use dualstack_echo::acceptor::{on_accept, AcceptOutcome, ServeAction};
use dualstack_echo::address::{AddressFamily, IpAddress, Ipv4Address, Ipv6Address, SocketAddress};
use dualstack_echo::listener::{bind_target, bind_targets, listen_plan, BindTargets, ListenPlan};

#[test]
fn connection_gets_a_handler() {
    assert_eq!(on_accept(AddressFamily::V4, AcceptOutcome::Connected), ServeAction::SpawnHandler);
    assert_eq!(on_accept(AddressFamily::V6, AcceptOutcome::Connected), ServeAction::SpawnHandler);
}

#[test]
fn failed_accept_is_reported_for_its_family() {
    assert_eq!(
        on_accept(AddressFamily::V4, AcceptOutcome::Failed),
        ServeAction::ReportError(AddressFamily::V4)
    );
    assert_eq!(
        on_accept(AddressFamily::V6, AcceptOutcome::Failed),
        ServeAction::ReportError(AddressFamily::V6)
    );
}

#[test]
fn accept_loop_serves_on_after_failures() {
    let accepts = [
        AcceptOutcome::Failed,
        AcceptOutcome::Connected,
        AcceptOutcome::Failed,
        AcceptOutcome::Failed,
        AcceptOutcome::Connected,
        AcceptOutcome::Connected,
    ];
    let mut handlers = 0;
    let mut reports = 0;
    for accepted in accepts {
        match on_accept(AddressFamily::V6, accepted) {
            ServeAction::SpawnHandler => handlers += 1,
            ServeAction::ReportError(family) => {
                assert_eq!(family, AddressFamily::V6);
                reports += 1;
            }
        }
    }
    assert_eq!(handlers, 3);
    assert_eq!(reports, 3);
}

#[test]
fn bind_targets_share_the_port() {
    assert_eq!(
        bind_targets(6881),
        BindTargets {
            v4: SocketAddress { address: IpAddress::V4(Ipv4Address { bits: 0 }), port: 6881 },
            v6: SocketAddress { address: IpAddress::V6(Ipv6Address { bits: 0 }), port: 6881 },
        }
    );
    assert_eq!(bind_targets(65535).v4.port, 65535);
    assert_eq!(bind_targets(65535).v6.port, 65535);
}

#[test]
fn bind_target_is_the_unspecified_address_of_its_family() {
    assert_eq!(
        bind_target(AddressFamily::V4, 6900),
        SocketAddress { address: IpAddress::V4(Ipv4Address { bits: 0 }), port: 6900 }
    );
    assert_eq!(
        bind_target(AddressFamily::V6, 6900),
        SocketAddress { address: IpAddress::V6(Ipv6Address { bits: 0 }), port: 6900 }
    );
    assert_eq!(bind_targets(6900).v4, bind_target(AddressFamily::V4, 6900));
    assert_eq!(bind_targets(6900).v6, bind_target(AddressFamily::V6, 6900));
}

#[test]
fn bind_targets_pass_port_zero_on() {
    assert_eq!(bind_targets(0).v4.port, 0);
    assert_eq!(bind_targets(0).v6.port, 0);
}

#[test]
fn unspecified_addresses_are_all_zero() {
    assert_eq!(IpAddress::unspecified(AddressFamily::V4), IpAddress::V4(Ipv4Address { bits: 0 }));
    assert_eq!(IpAddress::unspecified(AddressFamily::V6), IpAddress::V6(Ipv6Address { bits: 0 }));
}

#[test]
fn address_knows_its_family() {
    let v4 = IpAddress::V4(Ipv4Address { bits: 0x7f00_0001 });
    let v6 = IpAddress::V6(Ipv6Address { bits: 1 });
    assert_eq!(v4.family(), AddressFamily::V4);
    assert_eq!(v6.family(), AddressFamily::V6);
    assert_eq!(v4.ipv4(), Some(Ipv4Address { bits: 0x7f00_0001 }));
    assert_eq!(v4.ipv6(), None);
    assert_eq!(v6.ipv6(), Some(Ipv6Address { bits: 1 }));
    assert_eq!(v6.ipv4(), None);
}

#[test]
fn selected_port_is_bound_on_both_families() {
    assert_eq!(listen_plan(Some(6881)), ListenPlan::Bind(bind_targets(6881)));
    match listen_plan(Some(6890)) {
        ListenPlan::Bind(targets) => {
            assert_eq!(targets.v4.port, 6890);
            assert_eq!(targets.v6.port, 6890);
            assert_eq!(targets.v4.address.family(), AddressFamily::V4);
            assert_eq!(targets.v6.address.family(), AddressFamily::V6);
        }
        ListenPlan::NoPort => panic!("no listener planned"),
    }
}

#[test]
fn no_port_means_no_listener() {
    assert_eq!(listen_plan(None), ListenPlan::NoPort);
}
