use upnp_bridge::net::{discovery_address, Family, IpAddress, SocketAddress, DISCOVERY_PORT};
use upnp_bridge::tunnel::{DecodeError, Endpoint};

#[test]
fn four_octets_are_an_ipv4_address() {
    assert_eq!(IpAddress::try_from_vec(vec![192, 168, 1, 50]), Some(IpAddress::V4([192, 168, 1, 50])));
}

#[test]
fn sixteen_octets_are_an_ipv6_address() {
    let octets: Vec<u8> = (1..=16).collect();
    assert_eq!(
        IpAddress::try_from_vec(octets),
        Some(IpAddress::V6([1, 2, 3, 4, 5, 6, 7, 8, 9, 10, 11, 12, 13, 14, 15, 16]))
    );
}

#[test]
fn other_lengths_are_no_address() {
    for len in [0usize, 1, 3, 5, 8, 15, 17, 32] {
        assert_eq!(IpAddress::try_from_vec(vec![7; len]), None, "length {}", len);
        assert_eq!(IpAddress::try_from_slice(&vec![7; len]), None, "length {}", len);
    }
}

#[test]
fn octets_come_back_in_order() {
    assert_eq!(IpAddress::V4([10, 0, 0, 1]).octets(), vec![10, 0, 0, 1]);
    let v6 = IpAddress::V6([0xfe, 0x80, 0, 0, 0, 0, 0, 0, 0, 0, 0, 0, 0, 0, 0, 1]);
    assert_eq!(v6.octets(), vec![0xfe, 0x80, 0, 0, 0, 0, 0, 0, 0, 0, 0, 0, 0, 0, 0, 1]);
}

#[test]
fn octets_read_back_give_the_address() {
    let addresses = [
        IpAddress::V4([0, 0, 0, 0]),
        IpAddress::V4([255, 255, 255, 255]),
        IpAddress::V4([239, 255, 255, 250]),
        IpAddress::V6([0; 16]),
        IpAddress::V6([0xff, 0x02, 0, 0, 0, 0, 0, 0, 0, 0, 0, 0, 0, 0, 0, 0x0c]),
    ];
    for ip in addresses {
        assert_eq!(IpAddress::try_from_vec(ip.octets()), Some(ip));
    }
}

#[test]
fn family_follows_the_variant() {
    assert_eq!(IpAddress::V4([1, 2, 3, 4]).family(), Family::V4);
    assert_eq!(IpAddress::V6([0; 16]).family(), Family::V6);
}

#[test]
fn unspecified_address_is_all_zero() {
    assert_eq!(IpAddress::unspecified(Family::V4), IpAddress::V4([0; 4]));
    assert_eq!(IpAddress::unspecified(Family::V6), IpAddress::V6([0; 16]));
}

#[test]
fn ephemeral_socket_has_no_port_of_its_choice() {
    assert_eq!(SocketAddress::ephemeral(Family::V4), SocketAddress { ip: IpAddress::V4([0; 4]), port: 0 });
    assert_eq!(SocketAddress::ephemeral(Family::V6), SocketAddress { ip: IpAddress::V6([0; 16]), port: 0 });
}

#[test]
fn listener_binds_the_port_of_its_group() {
    assert_eq!(
        SocketAddress::listening_to(discovery_address()),
        SocketAddress { ip: IpAddress::V4([0; 4]), port: 1900 }
    );
    let group = SocketAddress { ip: IpAddress::V6([0xff, 0x02, 0, 0, 0, 0, 0, 0, 0, 0, 0, 0, 0, 0, 0, 0x0c]), port: 1900 };
    assert_eq!(SocketAddress::listening_to(group), SocketAddress { ip: IpAddress::V6([0; 16]), port: 1900 });
}

#[test]
fn discovery_group_is_the_ssdp_group() {
    assert_eq!(DISCOVERY_PORT, 1900);
    assert_eq!(
        discovery_address(),
        SocketAddress { ip: IpAddress::V4([239, 255, 255, 250]), port: 1900 }
    );
}

#[test]
fn endpoint_of_a_socket_address_holds_octets_and_port() {
    let addr = SocketAddress { ip: IpAddress::V4([192, 168, 1, 50]), port: 51000 };
    assert_eq!(Endpoint::from_socket_address(&addr), Endpoint { ip: vec![192, 168, 1, 50], port: 51000 });
}

#[test]
fn endpoint_round_trips_for_both_families_and_edge_ports() {
    let ips = [
        IpAddress::V4([192, 168, 1, 50]),
        IpAddress::V6([0x20, 0x01, 0x0d, 0xb8, 0, 0, 0, 0, 0, 0, 0, 0, 0, 0, 0, 1]),
    ];
    for ip in ips {
        for port in [0u16, 1, 1900, 51000, u16::MAX] {
            let addr = SocketAddress { ip, port };
            let endpoint = Endpoint::from_socket_address(&addr);
            assert_eq!(endpoint.to_socket_address(), Ok(addr));
            let again = Endpoint::from_socket_address(&endpoint.to_socket_address().unwrap());
            assert_eq!(again, endpoint);
        }
    }
}

#[test]
fn endpoint_with_an_ip_of_another_length_is_refused() {
    for len in [0usize, 3, 5, 6, 15, 17, 255] {
        let endpoint = Endpoint { ip: vec![1; len], port: 1900 };
        assert_eq!(endpoint.to_socket_address(), Err(DecodeError::AddressLength), "length {}", len);
    }
}

#[test]
fn cloned_endpoint_is_equal() {
    let endpoint = Endpoint { ip: vec![9, 8, 7, 6], port: 42 };
    assert_eq!(endpoint.clone(), endpoint);
}

#[test]
fn decode_errors_say_what_went_wrong() {
    assert_eq!(DecodeError::AddressLength.message(), "IP field is neither 4 nor 16 bytes long");
    assert_eq!(DecodeError::MissingSource.message(), "response without a source to return to");
    assert_eq!(DecodeError::Malformed.message(), "malformed tunnel message");
}
