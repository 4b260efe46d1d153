//! The responder's side: for each search that comes through the tunnel, the
//! search is sent out again on the local segment, and the first reply with the
//! same search target that arrives in time goes back through the tunnel.
//!
//! Sockets and timers are the caller's. The library decides: it says what to
//! send, how long to listen, and what to make of each datagram. Time is a
//! count of milliseconds on whatever monotonic clock the caller reads.

use vstd::prelude::*;
use crate::net::{discovery_address, discovery_group, SocketAddress, Transmission, TransmissionView};
use crate::ssdp::{
    response_search_target,
    request_search_target,
    HeaderTable,
    MutlicastType,
    RequestHeaderMap,
    ResponseHeaderMap,
    HEADER_SLOTS,
};
use crate::tunnel::{
    clone_source,
    endpoint_view,
    Endpoint,
    EndpointView,
    SearchRequestEnvelope,
    SearchRequestView,
    SearchResponseEnvelope,
    SearchResponseView,
    TunnelMessage,
    TunnelMessageView,
};

verus! {

/// How long a search waits for its reply unless told otherwise.
pub const DEFAULT_TIMEOUT_MS: u64 = 30_000;

/// The instant that lies `timeout_ms` after `now`, or the last instant there
/// is if that one is out of range.
pub open spec fn deadline_after(now: u64, timeout_ms: u64) -> u64 {
    if now + timeout_ms <= u64::MAX {
        (now + timeout_ms) as u64
    } else {
        u64::MAX
    }
}

/// A search that is waiting for its reply. It lives until a reply matches or
/// its deadline passes, and belongs to the one task that runs it.
#[derive(Debug, PartialEq, Eq)]
pub struct PendingSearch {
    search_target: Vec<u8>,
    deadline: u64,
    source: Option<Endpoint>,
}

/// A [`PendingSearch`] as plain values.
pub struct PendingSearchView {
    /// The value of the request's `ST` header.
    pub search_target: Seq<u8>,
    /// The instant from which on no reply counts.
    pub deadline: u64,
    /// The `source` of the request.
    pub source: Option<EndpointView>,
}

/// A datagram and the instant at which it arrived.
#[derive(Debug, PartialEq, Eq)]
pub struct Arrival {
    pub at: u64,
    pub datagram: Vec<u8>,
}

/// An [`Arrival`] as plain values.
pub struct ArrivalView {
    pub at: u64,
    pub datagram: Seq<u8>,
}

impl View for Arrival {
    type V = ArrivalView;

    open spec fn view(&self) -> ArrivalView {
        ArrivalView { at: self.at, datagram: self.datagram@ }
    }
}

/// The views of a list of arrivals, in the same order.
pub open spec fn arrival_views(arrivals: Seq<Arrival>) -> Seq<ArrivalView> {
    arrivals.map_values(|a: Arrival| a@)
}

impl PendingSearchView {
    /// The search for `search_target` on behalf of `source`, opened at `now`
    /// to end `timeout_ms` later.
    pub open spec fn opened(
        search_target: Seq<u8>,
        source: Option<EndpointView>,
        now: u64,
        timeout_ms: u64,
    ) -> PendingSearchView {
        PendingSearchView { search_target, deadline: deadline_after(now, timeout_ms), source }
    }

    /// The search that a request opens at `now`: none if the request has no
    /// search target that can be read.
    pub open spec fn of(request: SearchRequestView, now: u64, timeout_ms: u64) -> Option<
        PendingSearchView,
    > {
        match request_search_target(request.payload) {
            Some(search_target) => Some(
                PendingSearchView::opened(search_target, request.source, now, timeout_ms),
            ),
            None => None,
        }
    }

    /// Whether `target`, the search target read from a datagram, is there and
    /// is this search's target, byte for byte.
    pub open spec fn is_target(self, target: Option<Seq<u8>>) -> bool {
        target == Some(self.search_target)
    }

    /// Whether `datagram` is a response with this search's target.
    pub open spec fn matches(self, datagram: Seq<u8>) -> bool {
        self.is_target(response_search_target(datagram))
    }

    /// Whether `arrival` is the reply to this search: it matches, and it came
    /// before the deadline.
    pub open spec fn accepts(self, arrival: ArrivalView) -> bool {
        arrival.at < self.deadline && self.matches(arrival.datagram)
    }

    /// The response that carries `datagram` back to where the search came from.
    pub open spec fn reply(self, datagram: Seq<u8>) -> SearchResponseView {
        SearchResponseView { payload: datagram, echoed_source: self.source }
    }

    /// What the search comes to, given all that arrives on its socket: the
    /// response made of the first arrival it accepts, or nothing.
    pub open spec fn outcome(self, arrivals: Seq<ArrivalView>) -> Option<SearchResponseView>
        decreases arrivals.len(),
    {
        if arrivals.len() == 0 {
            None
        } else if self.accepts(arrivals[0]) {
            Some(self.reply(arrivals[0].datagram))
        } else {
            self.outcome(arrivals.drop_first())
        }
    }
}

impl View for PendingSearch {
    type V = PendingSearchView;

    closed spec fn view(&self) -> PendingSearchView {
        PendingSearchView {
            search_target: self.search_target@,
            deadline: self.deadline,
            source: endpoint_view(self.source),
        }
    }
}

/// The view of a search that may be absent.
pub open spec fn search_view(search: Option<PendingSearch>) -> Option<PendingSearchView> {
    match search {
        Some(s) => Some(s@),
        None => None,
    }
}

/// The view of a response that may be absent.
pub open spec fn response_view(response: Option<SearchResponseEnvelope>) -> Option<
    SearchResponseView,
> {
    match response {
        Some(r) => Some(r@),
        None => None,
    }
}

/// What the task that runs a search tells the search.
#[derive(Debug, PartialEq, Eq)]
pub enum SearchEvent {
    /// A datagram arrived on the search's socket.
    Datagram(Vec<u8>),
    /// The time to listen ran out with nothing received.
    TimedOut,
    /// The socket failed.
    ReceiveFailed,
}

/// A [`SearchEvent`] as plain values.
pub enum SearchEventView {
    Datagram(Seq<u8>),
    TimedOut,
    ReceiveFailed,
}

impl View for SearchEvent {
    type V = SearchEventView;

    open spec fn view(&self) -> SearchEventView {
        match *self {
            SearchEvent::Datagram(d) => SearchEventView::Datagram(d@),
            SearchEvent::TimedOut => SearchEventView::TimedOut,
            SearchEvent::ReceiveFailed => SearchEventView::ReceiveFailed,
        }
    }
}

/// What the search tells the task that runs it to do next.
#[derive(Debug, PartialEq, Eq)]
pub enum SearchStep {
    /// Listen on the socket for at most this many milliseconds.
    Listen { remaining_ms: u64 },
    /// Send this response through the tunnel; the search is over.
    Reply(SearchResponseEnvelope),
    /// The search is over and there is no response.
    Done,
}

/// A [`SearchStep`] as plain values.
pub enum SearchStepView {
    Listen { remaining_ms: u64 },
    Reply(SearchResponseView),
    Done,
}

impl View for SearchStep {
    type V = SearchStepView;

    open spec fn view(&self) -> SearchStepView {
        match *self {
            SearchStep::Listen { remaining_ms } => SearchStepView::Listen { remaining_ms },
            SearchStep::Reply(r) => SearchStepView::Reply(r@),
            SearchStep::Done => SearchStepView::Done,
        }
    }
}

impl PendingSearchView {
    /// How long the search may still listen at `now`.
    pub open spec fn remaining(self, now: u64) -> u64 {
        if now < self.deadline {
            (self.deadline - now) as u64
        } else {
            0
        }
    }

    /// What to do with `datagram`, seen at `now`, whose search target was read
    /// as `target`. Before the deadline, a datagram with the search's target
    /// ends the search with its response, and any other leaves the search
    /// listening for what is left of the same window. From the deadline on
    /// the search is over.
    pub open spec fn decide(
        self,
        target: Option<Seq<u8>>,
        datagram: Seq<u8>,
        now: u64,
    ) -> SearchStepView {
        if now >= self.deadline {
            SearchStepView::Done
        } else if self.is_target(target) {
            SearchStepView::Reply(self.reply(datagram))
        } else {
            SearchStepView::Listen { remaining_ms: self.remaining(now) }
        }
    }

    /// What to do after `event`, seen at `now`: a datagram is read as a
    /// response and decided on; when the time to listen ran out, and when
    /// the socket failed, the search is over.
    pub open spec fn step(self, event: SearchEventView, now: u64) -> SearchStepView {
        match event {
            SearchEventView::Datagram(datagram) => self.decide(
                response_search_target(datagram),
                datagram,
                now,
            ),
            SearchEventView::TimedOut => SearchStepView::Done,
            SearchEventView::ReceiveFailed => SearchStepView::Done,
        }
    }
}

/// The view of a search target that was read, or not.
pub open spec fn target_view(target: Option<Vec<u8>>) -> Option<Seq<u8>> {
    match target {
        Some(t) => Some(t@),
        None => None,
    }
}

impl PendingSearch {
    /// The search for `search_target` on behalf of `source`, opened at `now`
    /// to end `timeout_ms` later, or at the last instant there is.
    pub fn new(search_target: Vec<u8>, source: Option<Endpoint>, now: u64, timeout_ms: u64) -> (search:
        PendingSearch)
        ensures
            search@ == PendingSearchView::opened(
                search_target@,
                endpoint_view(source),
                now,
                timeout_ms,
            ),
    {
        PendingSearch { search_target, deadline: now.saturating_add(timeout_ms), source }
    }

    /// Opens the search for `request` at `now`, to end `timeout_ms` later.
    /// A request whose search target cannot be read opens no search.
    pub fn open(request: &SearchRequestEnvelope, now: u64, timeout_ms: u64) -> (search: Option<
        PendingSearch,
    >)
        ensures
            search_view(search) == PendingSearchView::of(request@, now, timeout_ms),
    {
        let mut headers = HeaderTable::new(HEADER_SLOTS);
        match headers.get_request_header(request.payload.as_slice(), "ST") {
            Some(search_target) => Some(
                PendingSearch::new(search_target, clone_source(&request.source), now, timeout_ms),
            ),
            None => None,
        }
    }

    /// The search target that a reply must carry.
    pub fn search_target(&self) -> (target: &Vec<u8>)
        ensures
            target@ == self@.search_target,
    {
        &self.search_target
    }

    /// The instant from which on no reply counts.
    pub fn deadline(&self) -> (deadline: u64)
        ensures
            deadline == self@.deadline,
    {
        self.deadline
    }

    /// The address that the reply is to reach in the end.
    pub fn source(&self) -> (source: &Option<Endpoint>)
        ensures
            endpoint_view(*source) == self@.source,
    {
        &self.source
    }

    /// How long the search may still listen at `now`: what is left of its one
    /// window, and nothing from the deadline on.
    pub fn remaining(&self, now: u64) -> (remaining_ms: u64)
        ensures
            remaining_ms == self@.remaining(now),
    {
        if now < self.deadline {
            self.deadline - now
        } else {
            0
        }
    }

    /// Whether `target`, the search target read from a datagram, is there and
    /// is this search's target, byte for byte.
    pub fn is_target(&self, target: &Option<Vec<u8>>) -> (same: bool)
        ensures
            same == self@.is_target(target_view(*target)),
    {
        match target {
            Some(target) => {
                let same = *target == self.search_target;
                assert(same == (target@ =~= self.search_target@));
                same
            },
            None => false,
        }
    }

    /// Whether `datagram` is a response with this search's target.
    pub fn matches(&self, datagram: &[u8]) -> (matched: bool)
        ensures
            matched == self@.matches(datagram@),
    {
        let mut headers = HeaderTable::new(HEADER_SLOTS);
        let target = headers.get_response_header(datagram, "ST");
        self.is_target(&target)
    }

    /// The response that carries `datagram` back to where the search came from.
    pub fn reply(&self, datagram: &[u8]) -> (response: SearchResponseEnvelope)
        ensures
            response@ == self@.reply(datagram@),
    {
        SearchResponseEnvelope {
            payload: vstd::slice::slice_to_vec(datagram),
            echoed_source: clone_source(&self.source),
        }
    }

    /// Decides what to do with `datagram`, seen at `now`, whose search target
    /// was read as `target`.
    pub fn decide(&self, target: &Option<Vec<u8>>, datagram: &[u8], now: u64) -> (step:
        SearchStep)
        ensures
            step@ == self@.decide(target_view(*target), datagram@, now),
    {
        if now >= self.deadline {
            SearchStep::Done
        } else if self.is_target(target) {
            SearchStep::Reply(self.reply(datagram))
        } else {
            SearchStep::Listen { remaining_ms: self.remaining(now) }
        }
    }

    /// Decides what to do after `event`, seen at `now`.
    pub fn advance(&self, event: &SearchEvent, now: u64) -> (step: SearchStep)
        ensures
            step@ == self@.step(event@, now),
    {
        match event {
            SearchEvent::Datagram(datagram) => {
                let mut headers = HeaderTable::new(HEADER_SLOTS);
                let target = headers.get_response_header(datagram.as_slice(), "ST");
                self.decide(&target, datagram.as_slice(), now)
            },
            SearchEvent::TimedOut => SearchStep::Done,
            SearchEvent::ReceiveFailed => SearchStep::Done,
        }
    }

    /// What the search comes to, given all that arrived on its socket.
    pub fn correlate(&self, arrivals: &[Arrival]) -> (response: Option<SearchResponseEnvelope>)
        ensures
            response_view(response) == self@.outcome(arrival_views(arrivals@)),
    {
        let mut i: usize = 0;
        assert(arrival_views(arrivals@).skip(0) == arrival_views(arrivals@));
        while i < arrivals.len()
            invariant
                i <= arrivals.len(),
                self@.outcome(arrival_views(arrivals@)) == self@.outcome(
                    arrival_views(arrivals@).skip(i as int),
                ),
            decreases arrivals.len() - i,
        {
            let ghost rest = arrival_views(arrivals@).skip(i as int);
            assert(rest[0] == arrivals@[i as int]@);
            assert(rest.drop_first() == arrival_views(arrivals@).skip(i + 1));
            if arrivals[i].at < self.deadline && self.matches(arrivals[i].datagram.as_slice()) {
                return Some(self.reply(arrivals[i].datagram.as_slice()));
            }
            i += 1;
        }
        None
    }
}

/// A reply that the search accepts, before which it accepted none, is the
/// search's outcome: the response holds that reply byte for byte, with the
/// source of the search.
pub proof fn lemma_first_accepted_is_answered(
    search: PendingSearchView,
    arrivals: Seq<ArrivalView>,
    i: int,
)
    requires
        0 <= i < arrivals.len(),
        search.accepts(arrivals[i]),
        forall|j: int| 0 <= j < i ==> !search.accepts(#[trigger] arrivals[j]),
    ensures
        search.outcome(arrivals) == Some(
            SearchResponseView { payload: arrivals[i].datagram, echoed_source: search.source },
        ),
    decreases i,
{
    if i > 0 {
        let rest = arrivals.drop_first();
        assert(!search.accepts(arrivals[0]));
        assert(rest[i - 1] == arrivals[i]);
        assert forall|j: int| 0 <= j < i - 1 implies !search.accepts(#[trigger] rest[j]) by {
            assert(rest[j] == arrivals[j + 1]);
        }
        lemma_first_accepted_is_answered(search, rest, i - 1);
    }
}

/// The search that a request opens answers to the source of that request.
pub proof fn lemma_reply_returns_to_source(
    request: SearchRequestView,
    now: u64,
    timeout_ms: u64,
    arrivals: Seq<ArrivalView>,
    i: int,
)
    requires
        0 <= i < arrivals.len(),
        PendingSearchView::of(request, now, timeout_ms) is Some,
        PendingSearchView::of(request, now, timeout_ms).unwrap().accepts(arrivals[i]),
        forall|j: int|
            0 <= j < i ==> !PendingSearchView::of(request, now, timeout_ms).unwrap().accepts(
                #[trigger] arrivals[j],
            ),
    ensures
        PendingSearchView::of(request, now, timeout_ms).unwrap().outcome(arrivals) == Some(
            SearchResponseView { payload: arrivals[i].datagram, echoed_source: request.source },
        ),
{
    lemma_first_accepted_is_answered(
        PendingSearchView::of(request, now, timeout_ms).unwrap(),
        arrivals,
        i,
    );
}

/// A search comes to nothing exactly when it accepts none of the arrivals;
/// otherwise its response is made of the first arrival that it accepts.
pub proof fn lemma_outcome_exact(search: PendingSearchView, arrivals: Seq<ArrivalView>)
    ensures
        search.outcome(arrivals) is None <==> forall|i: int|
            0 <= i < arrivals.len() ==> !search.accepts(#[trigger] arrivals[i]),
        search.outcome(arrivals) matches Some(response) ==> exists|i: int|
            {
                &&& 0 <= i < arrivals.len()
                &&& search.accepts(#[trigger] arrivals[i])
                &&& response == search.reply(arrivals[i].datagram)
                &&& forall|j: int| 0 <= j < i ==> !search.accepts(#[trigger] arrivals[j])
            },
    decreases arrivals.len(),
{
    if arrivals.len() == 0 {
    } else if search.accepts(arrivals[0]) {
    } else {
        let rest = arrivals.drop_first();
        lemma_outcome_exact(search, rest);
        assert forall|i: int| 0 <= i < rest.len() implies rest[i] == arrivals[i + 1] by {}
        if search.outcome(rest) is None {
            assert forall|i: int| 0 <= i < arrivals.len() implies !search.accepts(
                #[trigger] arrivals[i],
            ) by {
                if i > 0 {
                    assert(rest[i - 1] == arrivals[i]);
                }
            }
        } else {
            let k = choose|k: int|
                {
                    &&& 0 <= k < rest.len()
                    &&& search.accepts(#[trigger] rest[k])
                    &&& search.outcome(rest).unwrap() == search.reply(rest[k].datagram)
                    &&& forall|j: int| 0 <= j < k ==> !search.accepts(#[trigger] rest[j])
                };
            assert(rest[k] == arrivals[k + 1]);
            assert forall|j: int| 0 <= j < k + 1 implies !search.accepts(
                #[trigger] arrivals[j],
            ) by {
                if j > 0 {
                    assert(rest[j - 1] == arrivals[j]);
                }
            }
            assert(search.accepts(arrivals[k + 1]));
        }
    }
}

/// Once a reply that the search accepts has arrived, the search has a
/// response: it echoes the source of the search, and its payload is, byte for
/// byte, that reply or an accepted one that arrived before it.
pub proof fn lemma_accepted_reply_is_answered(
    search: PendingSearchView,
    arrivals: Seq<ArrivalView>,
    i: int,
)
    requires
        0 <= i < arrivals.len(),
        search.accepts(arrivals[i]),
    ensures
        search.outcome(arrivals) is Some,
        search.outcome(arrivals).unwrap().echoed_source == search.source,
        exists|j: int|
            0 <= j <= i && search.accepts(#[trigger] arrivals[j]) && search.outcome(
                arrivals,
            ).unwrap().payload == arrivals[j].datagram,
{
    lemma_outcome_exact(search, arrivals);
    let k = choose|k: int|
        {
            &&& 0 <= k < arrivals.len()
            &&& search.accepts(#[trigger] arrivals[k])
            &&& search.outcome(arrivals).unwrap() == search.reply(arrivals[k].datagram)
            &&& forall|j: int| 0 <= j < k ==> !search.accepts(#[trigger] arrivals[j])
        };
    assert(k <= i);
}

/// While nothing that arrives is accepted, because it comes too late or
/// does not match, the search gives no response.
pub proof fn lemma_no_reply_in_time(search: PendingSearchView, arrivals: Seq<ArrivalView>)
    requires
        forall|i: int|
            0 <= i < arrivals.len() ==> (#[trigger] arrivals[i]).at >= search.deadline
                || !search.matches(arrivals[i].datagram),
    ensures
        search.outcome(arrivals) is None,
{
    lemma_outcome_exact(search, arrivals);
}

/// A datagram that does not match is passed over: the outcome is that of what
/// arrives after it, no response is made of it, and a search that sees it
/// before the deadline goes on listening until that same deadline.
pub proof fn lemma_mismatch_is_passed_over(
    search: PendingSearchView,
    first: ArrivalView,
    rest: Seq<ArrivalView>,
)
    requires
        !search.matches(first.datagram),
    ensures
        search.outcome(seq![first] + rest) == search.outcome(rest),
        search.step(SearchEventView::Datagram(first.datagram), first.at) !is Reply,
        first.at < search.deadline ==> search.step(
            SearchEventView::Datagram(first.datagram),
            first.at,
        ) == (SearchStepView::Listen { remaining_ms: (search.deadline - first.at) as u64 }),
{
    assert((seq![first] + rest).drop_first() == rest);
}

/// Whether no arrival is earlier than one before it.
pub open spec fn time_ordered(arrivals: Seq<ArrivalView>) -> bool {
    forall|i: int, j: int| 0 <= i <= j < arrivals.len() ==> arrivals[i].at <= arrivals[j].at
}

impl PendingSearchView {
    /// What comes of taking the arrivals one by one, each as the event of a
    /// datagram at the instant it arrived, for as long as the search says to
    /// listen.
    pub open spec fn replay(self, arrivals: Seq<ArrivalView>) -> Option<SearchResponseView>
        decreases arrivals.len(),
    {
        if arrivals.len() == 0 {
            None
        } else {
            match self.step(SearchEventView::Datagram(arrivals[0].datagram), arrivals[0].at) {
                SearchStepView::Reply(response) => Some(response),
                SearchStepView::Done => None,
                SearchStepView::Listen { .. } => self.replay(arrivals.drop_first()),
            }
        }
    }
}

/// Taken step by step in the order of time, the arrivals bring the search to
/// its outcome: stopping at the first step that says so loses no reply.
pub proof fn lemma_steps_reach_outcome(search: PendingSearchView, arrivals: Seq<ArrivalView>)
    requires
        time_ordered(arrivals),
    ensures
        search.replay(arrivals) == search.outcome(arrivals),
    decreases arrivals.len(),
{
    if arrivals.len() > 0 {
        let rest = arrivals.drop_first();
        assert forall|i: int, j: int| 0 <= i <= j < rest.len() implies rest[i].at
            <= rest[j].at by {
            assert(rest[i] == arrivals[i + 1] && rest[j] == arrivals[j + 1]);
        }
        lemma_steps_reach_outcome(search, rest);
        if arrivals[0].at >= search.deadline {
            assert forall|i: int| 0 <= i < arrivals.len() implies !search.accepts(
                #[trigger] arrivals[i],
            ) by {
                assert(arrivals[0].at <= arrivals[i].at);
            }
            lemma_outcome_exact(search, arrivals);
        }
    }
}

/// The arrivals that are no replies to `other`.
pub open spec fn without_replies_to(
    other: PendingSearchView,
    arrivals: Seq<ArrivalView>,
) -> Seq<ArrivalView> {
    arrivals.filter(|a: ArrivalView| !other.matches(a.datagram))
}

/// Two searches for different targets do not disturb each other: no datagram
/// matches both, the response of either is a reply to it and not to the
/// other, and the outcome of either stays the same when the replies to the
/// other are taken out of what arrives, whatever the other's deadline.
pub proof fn lemma_searches_are_isolated(
    a: PendingSearchView,
    b: PendingSearchView,
    arrivals: Seq<ArrivalView>,
)
    requires
        a.search_target != b.search_target,
    ensures
        forall|datagram: Seq<u8>| !(#[trigger] a.matches(datagram) && b.matches(datagram)),
        a.outcome(arrivals) matches Some(response) ==> a.matches(response.payload) && !b.matches(
            response.payload,
        ),
        a.outcome(arrivals) == a.outcome(without_replies_to(b, arrivals)),
    decreases arrivals.len(),
{
    lemma_outcome_exact(a, arrivals);
    let keep = |x: ArrivalView| !b.matches(x.datagram);
    if arrivals.len() > 0 {
        let first = arrivals[0];
        let rest = arrivals.drop_first();
        lemma_searches_are_isolated(a, b, rest);
        assert(arrivals == seq![first] + rest);
        rest.lemma_filter_prepend(first, keep);
        if keep(first) {
            assert((seq![first] + rest.filter(keep)).drop_first() == rest.filter(keep));
        } else {
            assert(Seq::<ArrivalView>::empty() + rest.filter(keep) == rest.filter(keep));
        }
    } else {
        assert(arrivals.filter(keep) == arrivals) by {
            reveal(Seq::filter);
        }
    }
}

/// The responder: it takes the searches that come through the tunnel and
/// knows where to send them out again and how long each may wait.
#[derive(Clone, Copy, Debug, PartialEq, Eq)]
pub struct BridgeService {
    multiaddr: SocketAddress,
    timeout_ms: u64,
}

/// A [`BridgeService`] as plain values.
pub struct BridgeServiceView {
    /// The multicast group and port to which searches are sent out again.
    pub multiaddr: SocketAddress,
    /// How long each search waits for its reply.
    pub timeout_ms: u64,
}

impl View for BridgeService {
    type V = BridgeServiceView;

    closed spec fn view(&self) -> BridgeServiceView {
        BridgeServiceView { multiaddr: self.multiaddr, timeout_ms: self.timeout_ms }
    }
}

/// The view of a search and its first transmission, where there are any.
pub open spec fn begun_view(begun: Option<(PendingSearch, Transmission)>) -> Option<
    (PendingSearchView, TransmissionView),
> {
    match begun {
        Some((search, out)) => Some((search@, out@)),
        None => None,
    }
}

impl BridgeServiceView {
    /// What the responder does with a message from the tunnel at `now`. A
    /// request whose search target can be read opens a search, and its payload
    /// goes out unchanged to the multicast group. Anything else is passed over.
    pub open spec fn begin(self, message: TunnelMessageView, now: u64) -> Option<
        (PendingSearchView, TransmissionView),
    > {
        match message {
            TunnelMessageView::SearchRequest(request) => match PendingSearchView::of(
                request,
                now,
                self.timeout_ms,
            ) {
                Some(search) => Some(
                    (
                        search,
                        TransmissionView { payload: request.payload, destination: self.multiaddr },
                    ),
                ),
                None => None,
            },
            TunnelMessageView::SearchResponse(_) => None,
        }
    }
}

impl BridgeService {
    /// A responder for the SSDP group, 239.255.255.250 port 1900, whose
    /// searches wait 30 seconds.
    pub fn new() -> (service: BridgeService)
        ensures
            service@.multiaddr == discovery_group(),
            service@.timeout_ms == DEFAULT_TIMEOUT_MS,
    {
        BridgeService { multiaddr: discovery_address(), timeout_ms: DEFAULT_TIMEOUT_MS }
    }

    /// A responder for the group `multiaddr` whose searches wait `timeout_ms`.
    pub fn with_timeout(multiaddr: SocketAddress, timeout_ms: u64) -> (service: BridgeService)
        ensures
            service@.multiaddr == multiaddr,
            service@.timeout_ms == timeout_ms,
    {
        BridgeService { multiaddr, timeout_ms }
    }

    /// The multicast group and port to which searches are sent out again.
    pub fn multiaddr(&self) -> (multiaddr: SocketAddress)
        ensures
            multiaddr == self@.multiaddr,
    {
        self.multiaddr
    }

    /// Where to bind the socket of one search: a socket of its own, of the
    /// group's family, that sends and joins no group. No two searches share one.
    pub fn search_socket(&self) -> (socket: (SocketAddress, MutlicastType))
        ensures
            socket == (
                SocketAddress::spec_ephemeral(self@.multiaddr.ip.spec_family()),
                MutlicastType::Sender,
            ),
    {
        (SocketAddress::ephemeral(self.multiaddr.ip.family()), MutlicastType::Sender)
    }

    /// How long each search waits for its reply, in milliseconds.
    pub fn timeout_ms(&self) -> (timeout_ms: u64)
        ensures
            timeout_ms == self@.timeout_ms,
    {
        self.timeout_ms
    }

    /// Takes one message from the tunnel at `now`: for a search, the state of
    /// the search and the datagram to send out for it.
    pub fn begin(&self, message: &TunnelMessage, now: u64) -> (begun: Option<
        (PendingSearch, Transmission),
    >)
        ensures
            begun_view(begun) == self@.begin(message@, now),
    {
        match message {
            TunnelMessage::SearchRequest(request) => match PendingSearch::open(
                request,
                now,
                self.timeout_ms,
            ) {
                Some(search) => Some(
                    (
                        search,
                        Transmission {
                            payload: request.payload.clone(),
                            destination: self.multiaddr,
                        },
                    ),
                ),
                None => None,
            },
            TunnelMessage::SearchResponse(_) => None,
        }
    }
}

} // verus!
