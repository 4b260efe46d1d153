use upnp_bridge::net::{discovery_address, IpAddress, SocketAddress, Transmission};
use upnp_bridge::ssdp::MutlicastType;
use upnp_bridge::server::{
    Arrival, BridgeService, PendingSearch, SearchEvent, SearchStep, DEFAULT_TIMEOUT_MS,
};
use upnp_bridge::tunnel::{
    Endpoint, SearchRequestEnvelope, SearchResponseEnvelope, TunnelMessage,
};

const MEDIA_SERVER: &[u8] = b"urn:schemas-upnp-org:device:MediaServer:1";
const MEDIA_RENDERER: &[u8] = b"urn:schemas-upnp-org:device:MediaRenderer:1";

fn origin() -> Option<Endpoint> {
    Some(Endpoint { ip: vec![192, 168, 1, 50], port: 51000 })
}

fn search_for(target: &[u8]) -> Vec<u8> {
    let mut buf = b"M-SEARCH * HTTP/1.1\r\nHOST: 239.255.255.250:1900\r\nMAN: \"ssdp:discover\"\r\nMX: 5\r\nST: ".to_vec();
    buf.extend_from_slice(target);
    buf.extend_from_slice(b"\r\n\r\n");
    buf
}

fn reply_for(target: &[u8], usn: &str) -> Vec<u8> {
    let mut buf = b"HTTP/1.1 200 OK\r\nCACHE-CONTROL: max-age=1800\r\nST: ".to_vec();
    buf.extend_from_slice(target);
    buf.extend_from_slice(format!("\r\nUSN: {}\r\n\r\n", usn).as_bytes());
    buf
}

fn request_for(target: &[u8]) -> SearchRequestEnvelope {
    SearchRequestEnvelope { payload: search_for(target), source: origin() }
}

fn arrival(at: u64, datagram: Vec<u8>) -> Arrival {
    Arrival { at, datagram }
}

fn response_with(payload: Vec<u8>) -> SearchResponseEnvelope {
    SearchResponseEnvelope { payload, echoed_source: origin() }
}

#[test]
fn service_defaults_to_the_ssdp_group_and_thirty_seconds() {
    let service = BridgeService::new();
    assert_eq!(service.multiaddr(), SocketAddress { ip: IpAddress::V4([239, 255, 255, 250]), port: 1900 });
    assert_eq!(service.timeout_ms(), 30_000);
    assert_eq!(DEFAULT_TIMEOUT_MS, 30_000);
}

#[test]
fn each_search_gets_a_sending_socket_of_the_family_of_the_group() {
    assert_eq!(
        BridgeService::new().search_socket(),
        (SocketAddress { ip: IpAddress::V4([0; 4]), port: 0 }, MutlicastType::Sender)
    );
    let group = SocketAddress { ip: IpAddress::V6([0xff, 0x02, 0, 0, 0, 0, 0, 0, 0, 0, 0, 0, 0, 0, 0, 0x0c]), port: 1900 };
    assert_eq!(
        BridgeService::with_timeout(group, 30_000).search_socket(),
        (SocketAddress { ip: IpAddress::V6([0; 16]), port: 0 }, MutlicastType::Sender)
    );
}

#[test]
fn service_takes_another_group_and_timeout() {
    let group = SocketAddress { ip: IpAddress::V6([0xff, 0x02, 0, 0, 0, 0, 0, 0, 0, 0, 0, 0, 0, 0, 0, 0x0c]), port: 1900 };
    let service = BridgeService::with_timeout(group, 1_500);
    assert_eq!(service.multiaddr(), group);
    assert_eq!(service.timeout_ms(), 1_500);

    let (search, out) = service.begin(&TunnelMessage::SearchRequest(request_for(MEDIA_SERVER)), 100).unwrap();
    assert_eq!(out.destination, group);
    assert_eq!(search.deadline(), 1_600);
}

#[test]
fn request_opens_a_search_and_goes_out_unchanged() {
    let service = BridgeService::new();
    let request = request_for(MEDIA_SERVER);
    let (search, out) = service.begin(&TunnelMessage::SearchRequest(request.clone()), 5_000).unwrap();
    assert_eq!(out, Transmission { payload: request.payload.clone(), destination: discovery_address() });
    assert_eq!(search, PendingSearch::new(MEDIA_SERVER.to_vec(), origin(), 5_000, 30_000));
    assert_eq!(search.search_target(), &MEDIA_SERVER.to_vec());
    assert_eq!(search.deadline(), 35_000);
    assert_eq!(search.source(), &origin());
}

#[test]
fn request_without_a_readable_target_opens_no_search() {
    let service = BridgeService::new();
    let payloads: [&[u8]; 5] = [
        b"M-SEARCH * HTTP/1.1\r\nHOST: 239.255.255.250:1900\r\n\r\n",
        b"M-SEARCH * HTTP/1.1\r\nST: upnp:rootdevice\r\n",
        b"not http at all",
        b"",
        b"HTTP/1.1 200 OK\r\nST: upnp:rootdevice\r\n\r\n",
    ];
    for payload in payloads {
        let request = SearchRequestEnvelope { payload: payload.to_vec(), source: origin() };
        assert_eq!(PendingSearch::open(&request, 0, 30_000), None);
        assert_eq!(service.begin(&TunnelMessage::SearchRequest(request), 0), None);
    }
}

#[test]
fn responder_passes_over_responses() {
    let service = BridgeService::new();
    let message = TunnelMessage::SearchResponse(response_with(reply_for(MEDIA_SERVER, "uuid:1")));
    assert_eq!(service.begin(&message, 0), None);
}

#[test]
fn search_without_a_source_is_answered_without_one() {
    let request = SearchRequestEnvelope { payload: search_for(MEDIA_SERVER), source: None };
    let search = PendingSearch::open(&request, 0, 30_000).unwrap();
    let reply = reply_for(MEDIA_SERVER, "uuid:1");
    assert_eq!(
        search.correlate(&[arrival(1, reply.clone())]),
        Some(SearchResponseEnvelope { payload: reply, echoed_source: None })
    );
}

#[test]
fn deadline_is_now_plus_timeout_and_stops_at_the_last_instant() {
    assert_eq!(PendingSearch::new(vec![1], None, 0, 0).deadline(), 0);
    assert_eq!(PendingSearch::new(vec![1], None, 1_000, 30_000).deadline(), 31_000);
    assert_eq!(PendingSearch::new(vec![1], None, u64::MAX - 5, 5).deadline(), u64::MAX);
    assert_eq!(PendingSearch::new(vec![1], None, u64::MAX - 5, 6).deadline(), u64::MAX);
    assert_eq!(PendingSearch::new(vec![1], None, u64::MAX, u64::MAX).deadline(), u64::MAX);
}

#[test]
fn remaining_time_counts_down_to_the_deadline() {
    let search = PendingSearch::new(vec![1], None, 1_000, 30_000);
    assert_eq!(search.remaining(1_000), 30_000);
    assert_eq!(search.remaining(1_001), 29_999);
    assert_eq!(search.remaining(30_999), 1);
    assert_eq!(search.remaining(31_000), 0);
    assert_eq!(search.remaining(u64::MAX), 0);
    assert_eq!(search.remaining(0), 31_000);
}

#[test]
fn target_is_compared_byte_for_byte() {
    let search = PendingSearch::new(b"upnp:rootdevice".to_vec(), None, 0, 30_000);
    assert!(search.is_target(&Some(b"upnp:rootdevice".to_vec())));
    assert!(!search.is_target(&Some(b"upnp:rootdevicE".to_vec())));
    assert!(!search.is_target(&Some(b"upnp:rootdevice ".to_vec())));
    assert!(!search.is_target(&Some(b"upnp:rootdevic".to_vec())));
    assert!(!search.is_target(&Some(Vec::new())));
    assert!(!search.is_target(&None));
}

#[test]
fn search_for_an_empty_target_matches_only_an_empty_target() {
    let search = PendingSearch::new(Vec::new(), None, 0, 30_000);
    assert!(search.is_target(&Some(Vec::new())));
    assert!(!search.is_target(&None));
    assert!(search.matches(b"HTTP/1.1 200 OK\r\nST:\r\n\r\n"));
    assert!(!search.matches(b"HTTP/1.1 200 OK\r\nUSN: x\r\n\r\n"));
}

#[test]
fn datagram_matches_by_its_first_target_header() {
    let search = PendingSearch::new(MEDIA_SERVER.to_vec(), None, 0, 30_000);
    assert!(search.matches(&reply_for(MEDIA_SERVER, "uuid:1")));
    assert!(!search.matches(&reply_for(MEDIA_RENDERER, "uuid:1")));
    assert!(!search.matches(b"HTTP/1.1 200 OK\r\nUSN: uuid:1\r\n\r\n"));
    assert!(!search.matches(b"HTTP/1.1 200 OK\r\nST: urn:schemas-upnp-org:device:MediaServer:1\r\n"));
    assert!(!search.matches(&search_for(MEDIA_SERVER)));
    assert!(!search.matches(b"HTTP/1.1 200 OK\r\nst: urn:schemas-upnp-org:device:MediaServer:1\r\n\r\n"));
    assert!(!search.matches(
        b"HTTP/1.1 200 OK\r\nST: other\r\nST: urn:schemas-upnp-org:device:MediaServer:1\r\n\r\n"
    ));
    assert!(search.matches(
        b"HTTP/1.1 200 OK\r\nST: urn:schemas-upnp-org:device:MediaServer:1\r\nST: other\r\n\r\n"
    ));
}

#[test]
fn decision_goes_by_the_target_and_the_clock() {
    let search = PendingSearch::new(b"a".to_vec(), origin(), 0, 1_000);
    let same = Some(b"a".to_vec());
    let other = Some(b"b".to_vec());
    assert_eq!(search.decide(&same, b"datagram", 999), SearchStep::Reply(response_with(b"datagram".to_vec())));
    assert_eq!(search.decide(&same, b"datagram", 1_000), SearchStep::Done);
    assert_eq!(search.decide(&same, b"datagram", 1_001), SearchStep::Done);
    assert_eq!(search.decide(&other, b"datagram", 0), SearchStep::Listen { remaining_ms: 1_000 });
    assert_eq!(search.decide(&other, b"datagram", 999), SearchStep::Listen { remaining_ms: 1 });
    assert_eq!(search.decide(&None, b"datagram", 400), SearchStep::Listen { remaining_ms: 600 });
    assert_eq!(search.decide(&None, b"datagram", 1_000), SearchStep::Done);
}

#[test]
fn matching_reply_in_time_is_sent_back_with_the_source() {
    let search = PendingSearch::open(&request_for(MEDIA_SERVER), 1_000, 30_000).unwrap();
    let reply = reply_for(MEDIA_SERVER, "uuid:device-1");
    assert_eq!(
        search.advance(&SearchEvent::Datagram(reply.clone()), 30_999),
        SearchStep::Reply(response_with(reply.clone()))
    );
    assert_eq!(search.reply(&reply), response_with(reply));
}

#[test]
fn mismatch_keeps_the_search_listening_for_the_same_window() {
    let search = PendingSearch::open(&request_for(MEDIA_SERVER), 1_000, 30_000).unwrap();
    let other = reply_for(MEDIA_RENDERER, "uuid:device-2");
    assert_eq!(search.advance(&SearchEvent::Datagram(other.clone()), 1_000), SearchStep::Listen { remaining_ms: 30_000 });
    assert_eq!(search.advance(&SearchEvent::Datagram(other.clone()), 11_000), SearchStep::Listen { remaining_ms: 20_000 });
    assert_eq!(search.advance(&SearchEvent::Datagram(other.clone()), 30_999), SearchStep::Listen { remaining_ms: 1 });
    assert_eq!(search.advance(&SearchEvent::Datagram(b"noise".to_vec()), 12_000), SearchStep::Listen { remaining_ms: 19_000 });
    assert_eq!(search.advance(&SearchEvent::Datagram(Vec::new()), 12_000), SearchStep::Listen { remaining_ms: 19_000 });
}

#[test]
fn search_is_over_from_the_deadline_on() {
    let search = PendingSearch::open(&request_for(MEDIA_SERVER), 1_000, 30_000).unwrap();
    let reply = reply_for(MEDIA_SERVER, "uuid:device-1");
    assert_eq!(search.advance(&SearchEvent::Datagram(reply.clone()), 31_000), SearchStep::Done);
    assert_eq!(search.advance(&SearchEvent::Datagram(reply), 99_000), SearchStep::Done);
    assert_eq!(search.advance(&SearchEvent::TimedOut, 31_000), SearchStep::Done);
    assert_eq!(search.advance(&SearchEvent::TimedOut, 2_000), SearchStep::Done);
    assert_eq!(search.advance(&SearchEvent::ReceiveFailed, 2_000), SearchStep::Done);
}

#[test]
fn no_arrival_gives_no_response() {
    let search = PendingSearch::open(&request_for(MEDIA_SERVER), 0, 30_000).unwrap();
    assert_eq!(search.correlate(&[]), None);
}

#[test]
fn reply_after_the_window_gives_no_response() {
    let search = PendingSearch::open(&request_for(MEDIA_SERVER), 0, 30_000).unwrap();
    let reply = reply_for(MEDIA_SERVER, "uuid:late");
    assert_eq!(search.correlate(&[arrival(30_000, reply.clone())]), None);
    assert_eq!(search.correlate(&[arrival(30_001, reply.clone()), arrival(90_000, reply)]), None);
}

#[test]
fn only_mismatches_give_no_response() {
    let search = PendingSearch::open(&request_for(MEDIA_SERVER), 0, 30_000).unwrap();
    let arrivals = [
        arrival(10, reply_for(MEDIA_RENDERER, "uuid:a")),
        arrival(20, b"NOTIFY * HTTP/1.1\r\nNT: urn:schemas-upnp-org:device:MediaServer:1\r\n\r\n".to_vec()),
        arrival(30, search_for(MEDIA_SERVER)),
        arrival(40, Vec::new()),
    ];
    assert_eq!(search.correlate(&arrivals), None);
}

#[test]
fn first_matching_reply_wins() {
    let search = PendingSearch::open(&request_for(MEDIA_SERVER), 0, 30_000).unwrap();
    let first = reply_for(MEDIA_SERVER, "uuid:first");
    let second = reply_for(MEDIA_SERVER, "uuid:second");
    let arrivals = [
        arrival(5, reply_for(MEDIA_RENDERER, "uuid:other")),
        arrival(6, first.clone()),
        arrival(7, second),
    ];
    assert_eq!(search.correlate(&arrivals), Some(response_with(first)));
}

#[test]
fn two_searches_each_take_their_own_reply() {
    let servers = PendingSearch::open(&request_for(MEDIA_SERVER), 0, 30_000).unwrap();
    let renderers = PendingSearch::open(
        &SearchRequestEnvelope {
            payload: search_for(MEDIA_RENDERER),
            source: Some(Endpoint { ip: vec![192, 168, 1, 77], port: 40000 }),
        },
        2_000,
        30_000,
    )
    .unwrap();

    let server_reply = reply_for(MEDIA_SERVER, "uuid:server");
    let renderer_reply = reply_for(MEDIA_RENDERER, "uuid:renderer");
    let traffic = [
        arrival(2_100, b"NOTIFY * HTTP/1.1\r\nNT: upnp:rootdevice\r\n\r\n".to_vec()),
        arrival(2_200, renderer_reply.clone()),
        arrival(2_300, reply_for(b"upnp:rootdevice", "uuid:root")),
        arrival(2_400, server_reply.clone()),
        arrival(2_500, renderer_reply.clone()),
    ];

    assert_eq!(servers.correlate(&traffic), Some(response_with(server_reply.clone())));
    assert_eq!(
        renderers.correlate(&traffic),
        Some(SearchResponseEnvelope {
            payload: renderer_reply.clone(),
            echoed_source: Some(Endpoint { ip: vec![192, 168, 1, 77], port: 40000 }),
        })
    );

    let without_renderers: Vec<Arrival> = traffic
        .iter()
        .filter(|a| !renderers.matches(&a.datagram))
        .map(|a| arrival(a.at, a.datagram.clone()))
        .collect();
    assert_eq!(without_renderers.len(), 3);
    assert_eq!(servers.correlate(&without_renderers), servers.correlate(&traffic));

    let without_servers: Vec<Arrival> = traffic
        .iter()
        .filter(|a| !servers.matches(&a.datagram))
        .map(|a| arrival(a.at, a.datagram.clone()))
        .collect();
    assert_eq!(renderers.correlate(&without_servers), renderers.correlate(&traffic));
}

#[test]
fn one_search_timing_out_leaves_the_other_alone() {
    let early = PendingSearch::open(&request_for(MEDIA_SERVER), 0, 1_000).unwrap();
    let late = PendingSearch::open(&request_for(MEDIA_RENDERER), 0, 30_000).unwrap();
    let traffic = [
        arrival(1_500, reply_for(MEDIA_SERVER, "uuid:server")),
        arrival(1_600, reply_for(MEDIA_RENDERER, "uuid:renderer")),
    ];
    assert_eq!(early.correlate(&traffic), None);
    assert_eq!(late.correlate(&traffic), Some(response_with(reply_for(MEDIA_RENDERER, "uuid:renderer"))));
}

#[test]
fn stepping_through_ordered_arrivals_reaches_the_outcome() {
    let search = PendingSearch::open(&request_for(MEDIA_SERVER), 0, 30_000).unwrap();
    let traces: Vec<Vec<Arrival>> = vec![
        vec![],
        vec![arrival(1, reply_for(MEDIA_RENDERER, "a")), arrival(2, reply_for(MEDIA_SERVER, "b"))],
        vec![arrival(1, reply_for(MEDIA_RENDERER, "a")), arrival(30_000, reply_for(MEDIA_SERVER, "b"))],
        vec![arrival(29_999, reply_for(MEDIA_SERVER, "a")), arrival(30_000, reply_for(MEDIA_SERVER, "b"))],
        vec![arrival(40_000, reply_for(MEDIA_SERVER, "a"))],
    ];
    for trace in traces {
        let mut stepped = None;
        for a in &trace {
            match search.advance(&SearchEvent::Datagram(a.datagram.clone()), a.at) {
                SearchStep::Listen { .. } => {}
                SearchStep::Reply(response) => {
                    stepped = Some(response);
                    break;
                }
                SearchStep::Done => break,
            }
        }
        assert_eq!(stepped, search.correlate(&trace));
    }
}
