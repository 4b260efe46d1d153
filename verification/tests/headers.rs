use upnp_bridge::net::{Family, IpAddress, SocketAddress};
use upnp_bridge::ssdp::{
    first_header, get_first_iface_addr, udp_bind_multicast, BindError, HeadError, Header,
    HeaderMap, HeaderTable, Interface, MulticastPlan, MulticastSetup, MutlicastType, RequestHead,
    RequestHeaderMap, ResponseHeaderMap, HEADER_SLOTS,
};

fn header(name: &str, value: &[u8]) -> Header {
    Header { name: name.to_string(), value: value.to_vec() }
}

fn request_with_headers(count: usize) -> Vec<u8> {
    let mut buf = b"M-SEARCH * HTTP/1.1\r\n".to_vec();
    for i in 0..count {
        buf.extend_from_slice(format!("X-{}: {}\r\n", i, i).as_bytes());
    }
    buf.extend_from_slice(b"\r\n");
    buf
}

#[test]
fn first_header_of_a_name_wins() {
    let headers = vec![header("HOST", b"a"), header("ST", b"first"), header("ST", b"second")];
    assert_eq!(first_header(&headers, "ST"), Some(b"first".to_vec()));
    assert_eq!(first_header(&headers, "HOST"), Some(b"a".to_vec()));
}

#[test]
fn header_names_are_compared_as_written() {
    let headers = vec![header("St", b"mixed"), header("ST", b"upper")];
    assert_eq!(first_header(&headers, "ST"), Some(b"upper".to_vec()));
    assert_eq!(first_header(&headers, "st"), None);
    assert_eq!(first_header(&headers, "S"), None);
    assert_eq!(first_header(&[], "ST"), None);
}

#[test]
fn header_with_empty_value_is_found() {
    let headers = vec![header("EXT", b"")];
    assert_eq!(first_header(&headers, "EXT"), Some(Vec::new()));
}

#[test]
fn new_table_is_empty() {
    let table = HeaderTable::new(HEADER_SLOTS);
    assert!(table.entries().is_empty());
    assert_eq!(table.get_header("ST"), None);
}

#[test]
fn request_header_is_read_and_table_is_filled() {
    let buf = b"M-SEARCH * HTTP/1.1\r\nHOST: 239.255.255.250:1900\r\nMAN: \"ssdp:discover\"\r\nMX: 5\r\nST:   upnp:rootdevice  \r\n\r\n";
    let mut table = HeaderTable::new(HEADER_SLOTS);
    assert_eq!(table.get_request_header(buf, "ST"), Some(b"upnp:rootdevice".to_vec()));
    assert_eq!(
        table.entries(),
        &vec![
            header("HOST", b"239.255.255.250:1900"),
            header("MAN", b"\"ssdp:discover\""),
            header("MX", b"5"),
            header("ST", b"upnp:rootdevice"),
        ]
    );
    assert_eq!(table.get_header("MX"), Some(b"5".to_vec()));
    assert_eq!(table.get_header("NT"), None);
}

#[test]
fn response_header_is_read_and_table_is_filled() {
    let buf = b"HTTP/1.1 200 OK\r\nCACHE-CONTROL: max-age=1800\r\nST: upnp:rootdevice\r\nUSN: uuid:1\r\n\r\n";
    let mut table = HeaderTable::new(HEADER_SLOTS);
    assert_eq!(table.get_response_header(buf, "USN"), Some(b"uuid:1".to_vec()));
    assert_eq!(table.entries().len(), 3);
    assert_eq!(table.get_header("ST"), Some(b"upnp:rootdevice".to_vec()));
}

#[test]
fn a_request_is_no_response_and_a_response_no_request() {
    let request = b"M-SEARCH * HTTP/1.1\r\nST: a\r\n\r\n";
    let response = b"HTTP/1.1 200 OK\r\nST: a\r\n\r\n";
    let mut table = HeaderTable::new(HEADER_SLOTS);
    assert_eq!(table.get_response_header(request, "ST"), None);
    assert_eq!(table.get_request_header(response, "ST"), None);
    assert!(table.entries().is_empty());
}

#[test]
fn incomplete_or_malformed_head_leaves_the_table_as_it_was() {
    let mut table = HeaderTable::new(HEADER_SLOTS);
    assert_eq!(table.get_request_header(b"M-SEARCH * HTTP/1.1\r\nST: a\r\n\r\n", "ST"), Some(b"a".to_vec()));
    let before = vec![header("ST", b"a")];
    assert_eq!(table.entries(), &before);

    assert_eq!(table.get_request_header(b"M-SEARCH * HTTP/1.1\r\nST: b\r\n", "ST"), None);
    assert_eq!(table.entries(), &before);
    assert_eq!(table.get_request_header(b"\x00\x01\x02", "ST"), None);
    assert_eq!(table.entries(), &before);
    assert_eq!(table.get_response_header(b"HTTP/1.1 200 OK\r\nST: b", "ST"), None);
    assert_eq!(table.entries(), &before);
    assert_eq!(table.get_response_header(b"HTTP/9.9 200 OK\r\nST: b\r\n\r\n", "ST"), None);
    assert_eq!(table.entries(), &before);
    assert_eq!(table.get_request_header(b"", "ST"), None);
    assert_eq!(table.entries(), &before);
}

#[test]
fn table_takes_no_more_headers_than_it_has_room_for() {
    let full = request_with_headers(32);
    let over = request_with_headers(33);

    let mut table = HeaderTable::new(HEADER_SLOTS);
    assert_eq!(table.get_request_header(&full, "X-31"), Some(b"31".to_vec()));
    assert_eq!(table.entries().len(), 32);
    assert_eq!(table.get_request_header(&over, "X-0"), None);
    assert_eq!(table.entries().len(), 32);

    let mut wide = HeaderTable::new(64);
    assert_eq!(wide.get_request_header(&over, "X-32"), Some(b"32".to_vec()));
    assert_eq!(wide.entries().len(), 33);

    let mut none = HeaderTable::new(0);
    assert_eq!(none.get_request_header(b"M-SEARCH * HTTP/1.1\r\n\r\n", "ST"), None);
    assert_eq!(none.get_request_header(b"M-SEARCH * HTTP/1.1\r\nST: a\r\n\r\n", "ST"), None);
}

#[test]
fn only_the_search_method_makes_a_search() {
    let head = |method: Option<&str>| RequestHead { method: method.map(|m| m.to_string()), headers: Vec::new() };
    assert!(head(Some("M-SEARCH")).is_search());
    assert!(!head(Some("m-search")).is_search());
    assert!(!head(Some("M-SEARCH ")).is_search());
    assert!(!head(Some("NOTIFY")).is_search());
    assert!(!head(Some("")).is_search());
    assert!(!head(None).is_search());
}

#[test]
fn head_errors_say_what_went_wrong() {
    assert_eq!(HeadError::Incomplete.message(), "incomplete message");
    assert_eq!(HeadError::Malformed.message(), "malformed message");
}

#[test]
fn first_interface_address_is_taken() {
    assert_eq!(get_first_iface_addr(&vec![[10, 0, 0, 2], [192, 168, 1, 2]]), Ok([10, 0, 0, 2]));
    assert_eq!(get_first_iface_addr(&vec![]), Err(BindError::InterfaceResolution));
}

#[test]
fn bind_errors_say_what_went_wrong() {
    assert_eq!(BindError::InterfaceResolution.message(), "failed to detect local IP address");
    assert_eq!(BindError::FamilyMismatch.message(), "multicast group and local address differ in family");
}

#[test]
fn ipv4_listener_joins_its_group_on_the_first_address() {
    let local = SocketAddress { ip: IpAddress::V4([0, 0, 0, 0]), port: 1900 };
    let iface = Interface { index: 3, ipv4: vec![[192, 168, 1, 7], [10, 0, 0, 7]] };
    let group = IpAddress::V4([239, 255, 255, 250]);
    assert_eq!(
        udp_bind_multicast(local, MutlicastType::Listener(group), &iface),
        Ok(MulticastPlan {
            family: Family::V4,
            local,
            setup: MulticastSetup::JoinV4 { group: [239, 255, 255, 250], interface_addr: [192, 168, 1, 7] },
        })
    );
}

#[test]
fn ipv6_listener_joins_its_group_on_the_interface_index() {
    let local = SocketAddress { ip: IpAddress::V6([0; 16]), port: 1900 };
    let iface = Interface { index: 3, ipv4: vec![] };
    let group = [0xff, 0x02, 0, 0, 0, 0, 0, 0, 0, 0, 0, 0, 0, 0, 0, 0x0c];
    assert_eq!(
        udp_bind_multicast(local, MutlicastType::Listener(IpAddress::V6(group)), &iface),
        Ok(MulticastPlan {
            family: Family::V6,
            local,
            setup: MulticastSetup::JoinV6 { group, interface_index: 3 },
        })
    );
}

#[test]
fn sender_picks_the_interface_and_joins_nothing() {
    let iface = Interface { index: 9, ipv4: vec![[172, 16, 0, 4]] };
    let v4 = SocketAddress { ip: IpAddress::V4([0, 0, 0, 0]), port: 0 };
    assert_eq!(
        udp_bind_multicast(v4, MutlicastType::Sender, &iface),
        Ok(MulticastPlan { family: Family::V4, local: v4, setup: MulticastSetup::SendV4 { interface_addr: [172, 16, 0, 4] } })
    );
    let v6 = SocketAddress { ip: IpAddress::V6([0; 16]), port: 0 };
    assert_eq!(
        udp_bind_multicast(v6, MutlicastType::Sender, &iface),
        Ok(MulticastPlan { family: Family::V6, local: v6, setup: MulticastSetup::SendV6 { interface_index: 9 } })
    );
}

#[test]
fn ipv4_socket_without_an_interface_address_cannot_be_set_up() {
    let local = SocketAddress { ip: IpAddress::V4([0, 0, 0, 0]), port: 1900 };
    let iface = Interface { index: 3, ipv4: vec![] };
    let group = IpAddress::V4([239, 255, 255, 250]);
    assert_eq!(udp_bind_multicast(local, MutlicastType::Listener(group), &iface), Err(BindError::InterfaceResolution));
    assert_eq!(udp_bind_multicast(local, MutlicastType::Sender, &iface), Err(BindError::InterfaceResolution));
}

#[test]
fn group_of_the_other_family_is_refused() {
    let iface = Interface { index: 3, ipv4: vec![] };
    let v4 = SocketAddress { ip: IpAddress::V4([0, 0, 0, 0]), port: 1900 };
    let v6 = SocketAddress { ip: IpAddress::V6([0; 16]), port: 1900 };
    assert_eq!(
        udp_bind_multicast(v4, MutlicastType::Listener(IpAddress::V6([0xff; 16])), &iface),
        Err(BindError::FamilyMismatch)
    );
    assert_eq!(
        udp_bind_multicast(v6, MutlicastType::Listener(IpAddress::V4([239, 255, 255, 250])), &iface),
        Err(BindError::FamilyMismatch)
    );
}
