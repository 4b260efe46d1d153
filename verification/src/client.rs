//! The initiator's side: searches heard on the local segment go into the
//! tunnel with the address they came from, and each reply that comes back is
//! sent to the address it carries.

use vstd::prelude::*;
use crate::net::{SocketAddress, Transmission, TransmissionView};
use crate::ssdp::{
    parse_request,
    request_head,
    search_method,
    HeadError,
    MutlicastType,
    RequestHead,
    RequestHeadView,
    HEADER_SLOTS,
};
use crate::tunnel::{
    DecodeError,
    Endpoint,
    EndpointView,
    SearchRequestEnvelope,
    SearchRequestView,
    SearchResponseEnvelope,
    SearchResponseView,
    TunnelMessage,
    TunnelMessageView,
};

verus! {

/// Where the initiator stands with its tunnel.
#[derive(Clone, Copy, Debug, PartialEq, Eq, Structural)]
pub enum TunnelState {
    /// The connection is being set up.
    Connecting,
    /// Both directions are open: searches go out, responses come in.
    Open,
    /// The tunnel ended in good order.
    Closed,
    /// The transport failed.
    Failed,
}

/// What happens to the tunnel.
#[derive(Clone, Copy, Debug, PartialEq, Eq, Structural)]
pub enum TunnelEvent {
    /// The connection stands and the stream is open.
    Connected,
    /// The other side ended the stream.
    StreamEnded,
    /// Connecting, reading or writing failed.
    TransportError,
}

impl TunnelState {
    /// The state after `event`. A tunnel opens once, from connecting; an open
    /// tunnel ends closed or failed; a transport error fails whatever has not
    /// ended; what has ended stays as it is.
    pub open spec fn next(self, event: TunnelEvent) -> TunnelState {
        match (self, event) {
            (TunnelState::Connecting, TunnelEvent::Connected) => TunnelState::Open,
            (TunnelState::Connecting, TunnelEvent::TransportError) => TunnelState::Failed,
            (TunnelState::Open, TunnelEvent::StreamEnded) => TunnelState::Closed,
            (TunnelState::Open, TunnelEvent::TransportError) => TunnelState::Failed,
            (state, _) => state,
        }
    }

    /// Whether the tunnel has ended.
    pub open spec fn spec_is_terminal(self) -> bool {
        self == TunnelState::Closed || self == TunnelState::Failed
    }

    /// The state after `event`.
    pub fn on_event(self, event: TunnelEvent) -> (next: TunnelState)
        ensures
            next == self.next(event),
    {
        match (self, event) {
            (TunnelState::Connecting, TunnelEvent::Connected) => TunnelState::Open,
            (TunnelState::Connecting, TunnelEvent::TransportError) => TunnelState::Failed,
            (TunnelState::Open, TunnelEvent::StreamEnded) => TunnelState::Closed,
            (TunnelState::Open, TunnelEvent::TransportError) => TunnelState::Failed,
            (state, _) => state,
        }
    }

    /// Whether the tunnel has ended.
    #[verifier::when_used_as_spec(spec_is_terminal)]
    pub fn is_terminal(self) -> (terminal: bool)
        ensures
            terminal == self.spec_is_terminal(),
    {
        match self {
            TunnelState::Closed => true,
            TunnelState::Failed => true,
            _ => false,
        }
    }
}

/// The state after all of `events`, in their order.
pub open spec fn after(state: TunnelState, events: Seq<TunnelEvent>) -> TunnelState
    decreases events.len(),
{
    if events.len() == 0 {
        state
    } else {
        after(state.next(events[0]), events.drop_first())
    }
}

/// A tunnel that has ended stays ended, in the same state, whatever follows.
pub proof fn lemma_ended_tunnel_stays(state: TunnelState, events: Seq<TunnelEvent>)
    requires
        state.spec_is_terminal(),
    ensures
        after(state, events) == state,
    decreases events.len(),
{
    if events.len() > 0 {
        lemma_ended_tunnel_stays(state, events.drop_first());
    }
}

/// A tunnel only ever moves forward: to be open it must have been connecting
/// or open before, and nothing leads back to connecting.
pub proof fn lemma_tunnel_moves_forward(state: TunnelState, event: TunnelEvent)
    ensures
        state.next(event) == TunnelState::Open ==> state == TunnelState::Connecting || state
            == TunnelState::Open,
        state.next(event) == TunnelState::Connecting ==> state == TunnelState::Connecting,
        state.next(event) == TunnelState::Closed ==> state == TunnelState::Open || state
            == TunnelState::Closed,
{
}

/// The sockets that an initiator for `group` needs, each as where to bind it
/// and what it is for: one that hears the searches sent to the group, and
/// one of its own port that sends the replies on.
pub open spec fn initiator_sockets(group: SocketAddress) -> (
    (SocketAddress, MutlicastType),
    (SocketAddress, MutlicastType),
) {
    (
        (SocketAddress::spec_listening_to(group), MutlicastType::Listener(group.ip)),
        (SocketAddress::spec_ephemeral(group.ip.spec_family()), MutlicastType::Sender),
    )
}

/// The sockets that an initiator for `group` needs: the listener, then the
/// sender.
pub fn sockets(group: SocketAddress) -> (pair: (
    (SocketAddress, MutlicastType),
    (SocketAddress, MutlicastType),
))
    ensures
        pair == initiator_sockets(group),
{
    (
        (SocketAddress::listening_to(group), MutlicastType::Listener(group.ip)),
        (SocketAddress::ephemeral(group.ip.family()), MutlicastType::Sender),
    )
}

/// The view of a request that may be absent.
pub open spec fn request_view(r: Option<SearchRequestEnvelope>) -> Option<SearchRequestView> {
    match r {
        Some(envelope) => Some(envelope@),
        None => None,
    }
}

/// What goes into the tunnel for the datagram `buf` heard from `addr`, whose
/// head was read as `head`: for a search, the datagram whole with `addr` as
/// its source; for any other request, nothing.
pub open spec fn wrapped(head: RequestHeadView, addr: SocketAddress, buf: Seq<u8>) -> Option<
    SearchRequestView,
> {
    if head.method == Some(search_method()) {
        Some(SearchRequestView { payload: buf, source: Some(EndpointView::of(addr)) })
    } else {
        None
    }
}

/// Wraps the datagram `buf` heard from `addr` for the tunnel, if `head`, its
/// head, is that of a search.
pub fn wrap_search(head: &RequestHead, addr: SocketAddress, buf: &[u8]) -> (r: Option<
    SearchRequestEnvelope,
>)
    ensures
        request_view(r) == wrapped(head@, addr, buf@),
{
    if head.is_search() {
        Some(
            SearchRequestEnvelope {
                payload: vstd::slice::slice_to_vec(buf),
                source: Some(Endpoint::from_socket_address(&addr)),
            },
        )
    } else {
        None
    }
}

/// The view of a request that may be absent, or of the error in its place.
pub open spec fn forwarded_view(r: Result<Option<SearchRequestEnvelope>, HeadError>) -> Result<
    Option<SearchRequestView>,
    HeadError,
> {
    match r {
        Ok(Some(envelope)) => Ok(Some(envelope@)),
        Ok(None) => Ok(None),
        Err(e) => Err(e),
    }
}

/// What the initiator makes of the datagram `buf` heard from `addr`. A request
/// with the search method goes into the tunnel whole, with `addr` as its
/// source. Any other request is passed over. What is no complete request
/// head is an error, for the caller to drop.
pub open spec fn forwarded(addr: SocketAddress, buf: Seq<u8>) -> Result<
    Option<SearchRequestView>,
    HeadError,
> {
    match request_head(buf, HEADER_SLOTS as nat) {
        Ok(head) => Ok(wrapped(head, addr, buf)),
        Err(e) => Err(e),
    }
}

/// Reads the datagram `buf` heard from `addr`, and wraps it for the tunnel if
/// it is a search.
pub fn process_request(addr: SocketAddress, buf: &[u8]) -> (r: Result<
    Option<SearchRequestEnvelope>,
    HeadError,
>)
    ensures
        forwarded_view(r) == forwarded(addr, buf@),
{
    match parse_request(buf, HEADER_SLOTS) {
        Ok(head) => Ok(wrap_search(&head, addr, buf)),
        Err(e) => Err(e),
    }
}

/// The view of a transmission, or of the error in its place.
pub open spec fn delivery_view(r: Result<Transmission, DecodeError>) -> Result<
    TransmissionView,
    DecodeError,
> {
    match r {
        Ok(out) => Ok(out@),
        Err(e) => Err(e),
    }
}

/// Where a response goes: its payload, unchanged, to the address it echoes.
/// One without an address, or with one that is none, cannot be delivered.
pub open spec fn delivery(response: SearchResponseView) -> Result<TransmissionView, DecodeError> {
    match response.echoed_source {
        Some(endpoint) => match endpoint.socket_address() {
            Some(destination) => Ok(TransmissionView { payload: response.payload, destination }),
            None => Err(DecodeError::AddressLength),
        },
        None => Err(DecodeError::MissingSource),
    }
}

/// Turns a response from the tunnel into the datagram to send on the local
/// segment, to the one address that asked.
pub fn process_response(response: &SearchResponseEnvelope) -> (r: Result<
    Transmission,
    DecodeError,
>)
    ensures
        delivery_view(r) == delivery(response@),
{
    match &response.echoed_source {
        Some(endpoint) => match endpoint.to_socket_address() {
            Ok(destination) => Ok(Transmission { payload: response.payload.clone(), destination }),
            Err(e) => Err(e),
        },
        None => Err(DecodeError::MissingSource),
    }
}

/// The view of a transmission that may be absent.
pub open spec fn transmission_view(out: Option<Transmission>) -> Option<TransmissionView> {
    match out {
        Some(out) => Some(out@),
        None => None,
    }
}

/// What the initiator does with a message from the tunnel: a response that
/// can be delivered is sent on, anything else is dropped.
pub open spec fn relayed(message: TunnelMessageView) -> Option<TransmissionView> {
    match message {
        TunnelMessageView::SearchResponse(response) => match delivery(response) {
            Ok(out) => Some(out),
            Err(_) => None,
        },
        TunnelMessageView::SearchRequest(_) => None,
    }
}

/// Takes one message from the tunnel: the datagram to send for it, if any.
pub fn relay(message: &TunnelMessage) -> (out: Option<Transmission>)
    ensures
        transmission_view(out) == relayed(message@),
{
    match message {
        TunnelMessage::SearchResponse(response) => match process_response(response) {
            Ok(out) => Some(out),
            Err(_) => None,
        },
        TunnelMessage::SearchRequest(_) => None,
    }
}

/// A response made for a search goes back to where the search was heard: the
/// initiator wraps a search from `addr`, and a response that echoes the source
/// of that request is delivered to `addr`, payload unchanged.
pub proof fn lemma_response_returns_to_requester(
    addr: SocketAddress,
    buf: Seq<u8>,
    reply: Seq<u8>,
)
    requires
        forwarded(addr, buf) matches Ok(Some(_)),
    ensures
        forwarded(addr, buf) matches Ok(Some(request)) && delivery(
            SearchResponseView { payload: reply, echoed_source: request.source },
        ) == Ok::<TransmissionView, DecodeError>(
            TransmissionView { payload: reply, destination: addr },
        ),
{
    crate::tunnel::lemma_socket_address_round_trip(addr);
}

} // verus!
