//! What travels through the tunnel: a search on its way out, with the address
//! it came from, and the matched reply on its way back, with that address
//! echoed.

use vstd::prelude::*;
use crate::net::{IpAddress, SocketAddress};

verus! {

/// Why an address or a message could not be read.
#[derive(Clone, Copy, Debug, PartialEq, Eq, Structural)]
pub enum DecodeError {
    /// The IP field of an endpoint is neither 4 nor 16 bytes long.
    AddressLength,
    /// A response carries no endpoint to deliver it to.
    MissingSource,
    /// The bytes are not the encoding of any message.
    Malformed,
}

impl DecodeError {
    /// The error in words.
    pub open spec fn spec_message(self) -> Seq<char> {
        match self {
            DecodeError::AddressLength => "IP field is neither 4 nor 16 bytes long"@,
            DecodeError::MissingSource => "response without a source to return to"@,
            DecodeError::Malformed => "malformed tunnel message"@,
        }
    }

    /// The error in words.
    pub fn message(&self) -> (text: &'static str)
        ensures
            text@ == self.spec_message(),
    {
        match self {
            DecodeError::AddressLength => "IP field is neither 4 nor 16 bytes long",
            DecodeError::MissingSource => "response without a source to return to",
            DecodeError::Malformed => "malformed tunnel message",
        }
    }
}

/// A return address on a local segment, as it travels through the tunnel.
///
/// The IP field is carried as it came: only [`Endpoint::to_socket_address`]
/// decides whether it is an address.
#[derive(Debug, PartialEq, Eq)]
pub struct Endpoint {
    pub ip: Vec<u8>,
    pub port: u16,
}

/// An [`Endpoint`] as plain values.
pub struct EndpointView {
    pub ip: Seq<u8>,
    pub port: u16,
}

impl View for Endpoint {
    type V = EndpointView;

    open spec fn view(&self) -> EndpointView {
        EndpointView { ip: self.ip@, port: self.port }
    }
}

impl Clone for Endpoint {
    fn clone(&self) -> (r: Endpoint)
        ensures
            r@ == self@,
    {
        Endpoint { ip: self.ip.clone(), port: self.port }
    }
}

impl EndpointView {
    /// The endpoint that stands for a socket address.
    pub open spec fn of(addr: SocketAddress) -> EndpointView {
        EndpointView { ip: addr.ip@, port: addr.port }
    }

    /// The socket address that the endpoint stands for, if its IP field has the
    /// length of an address.
    pub open spec fn socket_address(self) -> Option<SocketAddress> {
        match IpAddress::from_octets(self.ip) {
            Some(ip) => Some(SocketAddress { ip, port: self.port }),
            None => None,
        }
    }
}

impl Endpoint {
    /// The endpoint that stands for `addr`.
    pub fn from_socket_address(addr: &SocketAddress) -> (e: Endpoint)
        ensures
            e@ == EndpointView::of(*addr),
    {
        Endpoint { ip: addr.ip.octets(), port: addr.port }
    }

    /// The socket address that the endpoint stands for. An IP field of any
    /// length but 4 and 16 is an error.
    pub fn to_socket_address(&self) -> (r: Result<SocketAddress, DecodeError>)
        ensures
            r == match self@.socket_address() {
                Some(addr) => Ok::<SocketAddress, DecodeError>(addr),
                None => Err(DecodeError::AddressLength),
            },
    {
        match IpAddress::try_from_slice(self.ip.as_slice()) {
            Some(ip) => Ok(SocketAddress { ip, port: self.port }),
            None => Err(DecodeError::AddressLength),
        }
    }
}

/// The endpoint made from a socket address is read back as that address.
pub proof fn lemma_socket_address_round_trip(addr: SocketAddress)
    ensures
        EndpointView::of(addr).socket_address() == Some(addr),
{
    crate::net::lemma_octets_round_trip(addr.ip);
}

/// An endpoint is read as a socket address exactly when its IP field is 4 or
/// 16 bytes long, and the address read stands for that same endpoint.
pub proof fn lemma_endpoint_round_trip(e: EndpointView)
    ensures
        e.socket_address() is Some <==> (e.ip.len() == 4 || e.ip.len() == 16),
        e.socket_address() matches Some(addr) ==> EndpointView::of(addr) == e,
{
    crate::net::lemma_from_octets_exact(e.ip);
}

/// A search request on its way to the remote segment.
#[derive(Debug, PartialEq, Eq)]
pub struct SearchRequestEnvelope {
    /// The search as it was received, byte for byte.
    pub payload: Vec<u8>,
    /// Where the search came from; the matched reply goes back there.
    pub source: Option<Endpoint>,
}

/// A [`SearchRequestEnvelope`] as plain values.
pub struct SearchRequestView {
    pub payload: Seq<u8>,
    pub source: Option<EndpointView>,
}

/// The view of an endpoint that may be absent.
pub open spec fn endpoint_view(e: Option<Endpoint>) -> Option<EndpointView> {
    match e {
        Some(e) => Some(e@),
        None => None,
    }
}

impl View for SearchRequestEnvelope {
    type V = SearchRequestView;

    open spec fn view(&self) -> SearchRequestView {
        SearchRequestView { payload: self.payload@, source: endpoint_view(self.source) }
    }
}

/// The matched reply on its way back to the segment of the search.
#[derive(Debug, PartialEq, Eq)]
pub struct SearchResponseEnvelope {
    /// The reply as it was received, byte for byte.
    pub payload: Vec<u8>,
    /// The `source` of the request that the reply answers.
    pub echoed_source: Option<Endpoint>,
}

/// A [`SearchResponseEnvelope`] as plain values.
pub struct SearchResponseView {
    pub payload: Seq<u8>,
    pub echoed_source: Option<EndpointView>,
}

impl View for SearchResponseEnvelope {
    type V = SearchResponseView;

    open spec fn view(&self) -> SearchResponseView {
        SearchResponseView {
            payload: self.payload@,
            echoed_source: endpoint_view(self.echoed_source),
        }
    }
}

/// Copies an endpoint that may be absent.
pub fn clone_source(source: &Option<Endpoint>) -> (r: Option<Endpoint>)
    ensures
        endpoint_view(r) == endpoint_view(*source),
{
    match source {
        Some(e) => Some(e.clone()),
        None => None,
    }
}

impl Clone for SearchRequestEnvelope {
    fn clone(&self) -> (r: SearchRequestEnvelope)
        ensures
            r@ == self@,
    {
        SearchRequestEnvelope {
            payload: self.payload.clone(),
            source: clone_source(&self.source),
        }
    }
}

impl Clone for SearchResponseEnvelope {
    fn clone(&self) -> (r: SearchResponseEnvelope)
        ensures
            r@ == self@,
    {
        SearchResponseEnvelope {
            payload: self.payload.clone(),
            echoed_source: clone_source(&self.echoed_source),
        }
    }
}

/// One message of the tunnel. Requests flow from the initiator to the
/// responder only, responses from the responder to the initiator only.
#[derive(Debug, PartialEq, Eq)]
pub enum TunnelMessage {
    SearchRequest(SearchRequestEnvelope),
    SearchResponse(SearchResponseEnvelope),
}

/// A [`TunnelMessage`] as plain values.
pub enum TunnelMessageView {
    SearchRequest(SearchRequestView),
    SearchResponse(SearchResponseView),
}

impl View for TunnelMessage {
    type V = TunnelMessageView;

    open spec fn view(&self) -> TunnelMessageView {
        match *self {
            TunnelMessage::SearchRequest(e) => TunnelMessageView::SearchRequest(e@),
            TunnelMessage::SearchResponse(e) => TunnelMessageView::SearchResponse(e@),
        }
    }
}

impl Clone for TunnelMessage {
    fn clone(&self) -> (r: TunnelMessage)
        ensures
            r@ == self@,
    {
        match self {
            TunnelMessage::SearchRequest(e) => TunnelMessage::SearchRequest(e.clone()),
            TunnelMessage::SearchResponse(e) => TunnelMessage::SearchResponse(e.clone()),
        }
    }
}

} // verus!
