//! The bridge as a whole: what the two sides and the tunnel between them do
//! to one search and its reply.

use vstd::prelude::*;
use crate::client::{forwarded, relayed};
use crate::net::{SocketAddress, TransmissionView};
use crate::server::{ArrivalView, BridgeServiceView};
use crate::tunnel::{SearchResponseView, TunnelMessageView};
use crate::wire::{decoded, encoding};

verus! {

/// What the initiator puts into the tunnel for the datagram `buf` heard from
/// `addr`, if anything.
pub open spec fn sent_into_tunnel(addr: SocketAddress, buf: Seq<u8>) -> Option<TunnelMessageView> {
    match forwarded(addr, buf) {
        Ok(Some(request)) => Some(TunnelMessageView::SearchRequest(request)),
        _ => None,
    }
}

/// What the responder puts into the tunnel for `message`, taken at `now`,
/// given all that arrives on the socket of the search, if anything.
pub open spec fn sent_back(
    service: BridgeServiceView,
    message: TunnelMessageView,
    now: u64,
    arrivals: Seq<ArrivalView>,
) -> Option<TunnelMessageView> {
    match service.begin(message, now) {
        Some((search, _)) => match search.outcome(arrivals) {
            Some(response) => Some(TunnelMessageView::SearchResponse(response)),
            None => None,
        },
        None => None,
    }
}

/// The bridge is transparent. A search for which the responder opens a
/// search reaches the far segment byte for byte, sent to the responder's
/// group; and the first reply that the search accepts reaches `addr`, from
/// where the search was heard, byte for byte. The tunnel in between changes
/// neither message.
pub proof fn lemma_bridge_is_transparent(
    addr: SocketAddress,
    buf: Seq<u8>,
    service: BridgeServiceView,
    now: u64,
    arrivals: Seq<ArrivalView>,
    i: int,
)
    requires
        0 <= i < arrivals.len(),
        ({
            &&& sent_into_tunnel(addr, buf) matches Some(out)
            &&& service.begin(out, now) matches Some((search, _))
            &&& search.accepts(arrivals[i])
            &&& forall|j: int| 0 <= j < i ==> !search.accepts(#[trigger] arrivals[j])
        }),
    ensures
        ({
            &&& sent_into_tunnel(addr, buf) matches Some(out)
            &&& decoded(encoding(out)) == Some(out)
            &&& service.begin(out, now) matches Some((_, relayed_search))
            &&& relayed_search == (TransmissionView {
                payload: buf,
                destination: service.multiaddr,
            })
            &&& sent_back(service, out, now, arrivals) matches Some(back)
            &&& decoded(encoding(back)) == Some(back)
            &&& relayed(back) == Some(
                TransmissionView { payload: arrivals[i].datagram, destination: addr },
            )
        }),
{
    let out = sent_into_tunnel(addr, buf).unwrap();
    let request = forwarded(addr, buf).unwrap().unwrap();
    let search = service.begin(out, now).unwrap().0;
    crate::wire::lemma_decoding_inverts_encoding(out);
    crate::server::lemma_first_accepted_is_answered(search, arrivals, i);
    crate::wire::lemma_decoding_inverts_encoding(
        TunnelMessageView::SearchResponse(
            SearchResponseView { payload: arrivals[i].datagram, echoed_source: request.source },
        ),
    );
    crate::client::lemma_response_returns_to_requester(addr, buf, arrivals[i].datagram);
}

} // verus!
