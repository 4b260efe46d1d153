//! SSDP as the bridge needs it: how a multicast socket is to be set up, and
//! the heads of the messages, HTTP over UDP, of which the bridge reads the
//! method and the headers. The parsing itself is httparse's.

use vstd::prelude::*;
use vstd::string::StringExecFns;
use crate::net::{Family, IpAddress, SocketAddress};

verus! {

/// How many headers the bridge makes room for when it reads a message head.
pub const HEADER_SLOTS: u16 = 32;

/// What a multicast socket is for.
#[derive(Clone, Copy, Debug, PartialEq, Eq)]
pub enum MutlicastType {
    /// To hear what is sent to this group.
    Listener(IpAddress),
    /// To send, to a group or to one address, without joining any group.
    Sender,
}

/// Why a multicast socket cannot be set up.
#[derive(Clone, Copy, Debug, PartialEq, Eq, Structural)]
pub enum BindError {
    /// No usable network interface could be determined.
    InterfaceResolution,
    /// The group is not of the family of the local address.
    FamilyMismatch,
}

impl BindError {
    /// The error in words.
    pub open spec fn spec_message(self) -> Seq<char> {
        match self {
            BindError::InterfaceResolution => "failed to detect local IP address"@,
            BindError::FamilyMismatch => "multicast group and local address differ in family"@,
        }
    }

    /// The error in words.
    pub fn message(&self) -> (text: &'static str)
        ensures
            text@ == self.spec_message(),
    {
        match self {
            BindError::InterfaceResolution => "failed to detect local IP address",
            BindError::FamilyMismatch => "multicast group and local address differ in family",
        }
    }
}

/// The default network interface, as far as a multicast socket needs it.
#[derive(Debug, PartialEq, Eq)]
pub struct Interface {
    pub index: u32,
    /// The IPv4 addresses of the interface, in the order reported.
    pub ipv4: Vec<[u8; 4]>,
}

/// The one socket option that makes a bound socket a multicast socket.
#[derive(Clone, Copy, Debug, PartialEq, Eq)]
#[allow(inconsistent_fields)]
pub enum MulticastSetup {
    /// Join the IPv4 `group` on the interface that has the address `interface_addr`.
    JoinV4 { group: [u8; 4], interface_addr: [u8; 4] },
    /// Join the IPv6 `group` on the interface with the index `interface_index`.
    JoinV6 { group: [u8; 16], interface_index: u32 },
    /// Send IPv4 multicast through the interface that has the address `interface_addr`.
    SendV4 { interface_addr: [u8; 4] },
    /// Send IPv6 multicast through the interface with the index `interface_index`.
    SendV6 { interface_index: u32 },
}

/// How to make a multicast socket: a UDP socket of `family` with address reuse
/// switched on, bound to `local`, then set up by `setup`.
#[derive(Clone, Copy, Debug, PartialEq, Eq)]
pub struct MulticastPlan {
    pub family: Family,
    pub local: SocketAddress,
    pub setup: MulticastSetup,
}

/// The first of an interface's IPv4 addresses; without any, no interface can
/// be used.
pub open spec fn first_iface_addr(addrs: Seq<[u8; 4]>) -> Result<[u8; 4], BindError> {
    if addrs.len() > 0 {
        Ok(addrs[0])
    } else {
        Err(BindError::InterfaceResolution)
    }
}

/// The first of an interface's IPv4 addresses.
pub fn get_first_iface_addr(addrs: &Vec<[u8; 4]>) -> (r: Result<[u8; 4], BindError>)
    ensures
        r == first_iface_addr(addrs@),
{
    if addrs.len() > 0 {
        Ok(addrs[0])
    } else {
        Err(BindError::InterfaceResolution)
    }
}

/// The option that sets a socket bound to `addr` up for `mc_type` on the
/// interface `index`, whose IPv4 addresses are `ipv4`. A listener joins its
/// group; a sender picks the interface for what it sends. IPv4 names the
/// interface by its first address, IPv6 by its index.
pub open spec fn multicast_setup(
    addr: SocketAddress,
    mc_type: MutlicastType,
    index: u32,
    ipv4: Seq<[u8; 4]>,
) -> Result<MulticastSetup, BindError> {
    match mc_type {
        MutlicastType::Listener(IpAddress::V4(group)) => match first_iface_addr(ipv4) {
            Ok(interface_addr) => Ok(MulticastSetup::JoinV4 { group, interface_addr }),
            Err(e) => Err(e),
        },
        MutlicastType::Listener(IpAddress::V6(group)) => Ok(
            MulticastSetup::JoinV6 { group, interface_index: index },
        ),
        MutlicastType::Sender => match addr.ip {
            IpAddress::V4(_) => match first_iface_addr(ipv4) {
                Ok(interface_addr) => Ok(MulticastSetup::SendV4 { interface_addr }),
                Err(e) => Err(e),
            },
            IpAddress::V6(_) => Ok(MulticastSetup::SendV6 { interface_index: index }),
        },
    }
}

/// The plan for a multicast socket bound to `addr`. The family is that of
/// `addr`; a group of the other family is refused before anything else is
/// looked at.
pub open spec fn multicast_plan(
    addr: SocketAddress,
    mc_type: MutlicastType,
    index: u32,
    ipv4: Seq<[u8; 4]>,
) -> Result<MulticastPlan, BindError> {
    if mc_type matches MutlicastType::Listener(group) && group.spec_family()
        != addr.ip.spec_family() {
        Err(BindError::FamilyMismatch)
    } else {
        match multicast_setup(addr, mc_type, index, ipv4) {
            Ok(setup) => Ok(MulticastPlan { family: addr.ip.spec_family(), local: addr, setup }),
            Err(e) => Err(e),
        }
    }
}

/// Works out the multicast socket to bind at `addr` for `mc_type`, given the
/// default interface: what to create, where to bind it, and which option to
/// set on it.
pub fn udp_bind_multicast(addr: SocketAddress, mc_type: MutlicastType, iface: &Interface) -> (r:
    Result<MulticastPlan, BindError>)
    ensures
        r == multicast_plan(addr, mc_type, iface.index, iface.ipv4@),
{
    let family = addr.ip.family();
    let setup = match mc_type {
        MutlicastType::Listener(multiaddr) => {
            if multiaddr.family() != family {
                return Err(BindError::FamilyMismatch);
            }
            match multiaddr {
                IpAddress::V4(group) => {
                    let interface_addr = get_first_iface_addr(&iface.ipv4)?;
                    MulticastSetup::JoinV4 { group, interface_addr }
                },
                IpAddress::V6(group) => MulticastSetup::JoinV6 {
                    group,
                    interface_index: iface.index,
                },
            }
        },
        MutlicastType::Sender => match addr.ip {
            IpAddress::V4(_) => {
                let interface_addr = get_first_iface_addr(&iface.ipv4)?;
                MulticastSetup::SendV4 { interface_addr }
            },
            IpAddress::V6(_) => MulticastSetup::SendV6 { interface_index: iface.index },
        },
    };
    Ok(MulticastPlan { family, local: addr, setup })
}

/// The option of a plan is of the plan's family, and the plan's family is
/// that of the local address: a socket is never asked to join or to send
/// through what is of the other family.
pub proof fn lemma_plan_keeps_one_family(
    addr: SocketAddress,
    mc_type: MutlicastType,
    index: u32,
    ipv4: Seq<[u8; 4]>,
)
    ensures
        multicast_plan(addr, mc_type, index, ipv4) matches Ok(plan) ==> {
            &&& plan.local == addr
            &&& plan.family == addr.ip.spec_family()
            &&& plan.family == Family::V4 <==> (plan.setup is JoinV4 || plan.setup is SendV4)
            &&& plan.family == Family::V6 <==> (plan.setup is JoinV6 || plan.setup is SendV6)
            &&& mc_type is Sender <==> (plan.setup is SendV4 || plan.setup is SendV6)
        },
{
}

/// A socket bound where the library says to bind it is never refused for its
/// family: neither the listener for a group nor a sender of any family. With
/// an IPv4 address on the interface, or in IPv6, there is a plan for it.
pub proof fn lemma_own_sockets_have_a_plan(
    group: SocketAddress,
    family: Family,
    index: u32,
    ipv4: Seq<[u8; 4]>,
)
    ensures
        multicast_plan(
            SocketAddress::spec_listening_to(group),
            MutlicastType::Listener(group.ip),
            index,
            ipv4,
        ) != Err::<MulticastPlan, BindError>(BindError::FamilyMismatch),
        multicast_plan(SocketAddress::spec_ephemeral(family), MutlicastType::Sender, index, ipv4)
            != Err::<MulticastPlan, BindError>(BindError::FamilyMismatch),
        ipv4.len() > 0 || group.ip.spec_family() == Family::V6 ==> multicast_plan(
            SocketAddress::spec_listening_to(group),
            MutlicastType::Listener(group.ip),
            index,
            ipv4,
        ) is Ok,
        ipv4.len() > 0 || family == Family::V6 ==> multicast_plan(
            SocketAddress::spec_ephemeral(family),
            MutlicastType::Sender,
            index,
            ipv4,
        ) is Ok,
{
}

/// One header of a message head.
#[derive(Debug, PartialEq, Eq)]
pub struct Header {
    pub name: String,
    /// The value, without the white space around it.
    pub value: Vec<u8>,
}

/// A [`Header`] as plain values.
pub struct HeaderView {
    pub name: Seq<char>,
    pub value: Seq<u8>,
}

impl View for Header {
    type V = HeaderView;

    open spec fn view(&self) -> HeaderView {
        HeaderView { name: self.name@, value: self.value@ }
    }
}

impl Header {
    /// The header called `name` with the value `value`.
    pub fn new(name: &str, value: &[u8]) -> (header: Header)
        ensures
            header@ == (HeaderView { name: name@, value: value@ }),
    {
        Header { name: String::from_str(name), value: vstd::slice::slice_to_vec(value) }
    }
}

/// The views of a list of headers, in the same order.
pub open spec fn header_views(headers: Seq<Header>) -> Seq<HeaderView> {
    headers.map_values(|h: Header| h@)
}

/// The value of the first header called `name`, if there is one. Names are
/// compared as they are written: `ST` and `st` are two names.
pub open spec fn first_value(headers: Seq<HeaderView>, name: Seq<char>) -> Option<Seq<u8>>
    decreases headers.len(),
{
    if headers.len() == 0 {
        None
    } else if headers[0].name == name {
        Some(headers[0].value)
    } else {
        first_value(headers.drop_first(), name)
    }
}

/// The first header of a name wins: the value that is found is that of the
/// header before which no header has the name.
pub proof fn lemma_first_header_wins(headers: Seq<HeaderView>, name: Seq<char>, i: int)
    requires
        0 <= i < headers.len(),
        headers[i].name == name,
        forall|j: int| 0 <= j < i ==> (#[trigger] headers[j]).name != name,
    ensures
        first_value(headers, name) == Some(headers[i].value),
    decreases i,
{
    if i > 0 {
        let rest = headers.drop_first();
        assert(headers[0].name != name);
        assert(rest[i - 1] == headers[i]);
        assert forall|j: int| 0 <= j < i - 1 implies (#[trigger] rest[j]).name != name by {
            assert(rest[j] == headers[j + 1]);
        }
        lemma_first_header_wins(rest, name, i - 1);
    }
}

/// Nothing is found exactly when no header has the name.
pub proof fn lemma_absent_header_is_not_found(headers: Seq<HeaderView>, name: Seq<char>)
    ensures
        first_value(headers, name) is None <==> forall|i: int|
            0 <= i < headers.len() ==> (#[trigger] headers[i]).name != name,
    decreases headers.len(),
{
    if headers.len() > 0 && headers[0].name != name {
        let rest = headers.drop_first();
        lemma_absent_header_is_not_found(rest, name);
        if first_value(rest, name) is None {
            assert forall|i: int| 0 <= i < headers.len() implies (#[trigger] headers[i]).name
                != name by {
                if i > 0 {
                    assert(rest[i - 1] == headers[i]);
                }
            }
        } else {
            let k = choose|k: int| 0 <= k < rest.len() && (#[trigger] rest[k]).name == name;
            assert(rest[k] == headers[k + 1]);
        }
    }
}

/// The view of bytes that may be absent.
pub open spec fn bytes_view(bytes: Option<Vec<u8>>) -> Option<Seq<u8>> {
    match bytes {
        Some(b) => Some(b@),
        None => None,
    }
}

/// Looks `name` up in a list of headers: the first header of that name wins.
pub fn first_header(headers: &[Header], name: &str) -> (value: Option<Vec<u8>>)
    ensures
        bytes_view(value) == first_value(header_views(headers@), name@),
{
    let key = String::from_str(name);
    let mut i: usize = 0;
    assert(header_views(headers@).skip(0) == header_views(headers@));
    while i < headers.len()
        invariant
            i <= headers.len(),
            key@ == name@,
            first_value(header_views(headers@), name@) == first_value(
                header_views(headers@).skip(i as int),
                name@,
            ),
        decreases headers.len() - i,
    {
        let ghost rest = header_views(headers@).skip(i as int);
        assert(rest[0] == headers@[i as int]@);
        assert(rest.drop_first() == header_views(headers@).skip(i + 1));
        if headers[i].name == key {
            return Some(headers[i].value.clone());
        }
        i += 1;
    }
    None
}

/// Why the head of a message could not be read.
#[derive(Clone, Copy, Debug, PartialEq, Eq, Structural)]
pub enum HeadError {
    /// The bytes end before the head does.
    Incomplete,
    /// The bytes are no message head, or the head has more headers than there
    /// was room for.
    Malformed,
}

impl HeadError {
    /// The error in words.
    pub open spec fn spec_message(self) -> Seq<char> {
        match self {
            HeadError::Incomplete => "incomplete message"@,
            HeadError::Malformed => "malformed message"@,
        }
    }

    /// The error in words.
    pub fn message(&self) -> (text: &'static str)
        ensures
            text@ == self.spec_message(),
    {
        match self {
            HeadError::Incomplete => "incomplete message",
            HeadError::Malformed => "malformed message",
        }
    }
}

/// The head of a request: its method and its headers.
#[derive(Debug, PartialEq, Eq)]
pub struct RequestHead {
    pub method: Option<String>,
    pub headers: Vec<Header>,
}

/// A [`RequestHead`] as plain values.
pub struct RequestHeadView {
    pub method: Option<Seq<char>>,
    pub headers: Seq<HeaderView>,
}

impl View for RequestHead {
    type V = RequestHeadView;

    open spec fn view(&self) -> RequestHeadView {
        RequestHeadView {
            method: match self.method {
                Some(m) => Some(m@),
                None => None,
            },
            headers: header_views(self.headers@),
        }
    }
}

/// The method of an SSDP search.
pub open spec fn search_method() -> Seq<char> {
    "M-SEARCH"@
}

impl RequestHead {
    /// Whether the request is a search: its method is `M-SEARCH`, as written.
    pub fn is_search(&self) -> (search: bool)
        ensures
            search == (self@.method == Some(search_method())),
    {
        match &self.method {
            Some(method) => {
                let wanted = String::from_str("M-SEARCH");
                *method == wanted
            },
            None => false,
        }
    }
}

/// What httparse reads from `buf` as the head of a request, given room for
/// `slots` headers.
pub uninterp spec fn request_head(buf: Seq<u8>, slots: nat) -> Result<RequestHeadView, HeadError>;

/// What httparse reads from `buf` as the headers of a response, given room for
/// `slots` headers.
pub uninterp spec fn response_head(buf: Seq<u8>, slots: nat) -> Result<Seq<HeaderView>, HeadError>;

/// Calls `httparse::Request::parse` on `buf` with a fresh table of `slots`
/// empty headers. Trusted: the outcome is a function of `buf` and `slots`
/// alone, which `request_head` names. A complete head gives its method and
/// headers; a head cut short gives `Incomplete`; every error of httparse
/// gives `Malformed`.
#[verifier::external_body]
pub(crate) fn parse_request(buf: &[u8], slots: u16) -> (r: Result<RequestHead, HeadError>)
    ensures
        match r {
            Ok(head) => request_head(buf@, slots as nat) == Ok::<RequestHeadView, HeadError>(
                head@,
            ),
            Err(e) => request_head(buf@, slots as nat) == Err::<RequestHeadView, HeadError>(e),
        },
{
    let mut table = vec![httparse::EMPTY_HEADER; slots as usize];
    let mut req = httparse::Request::new(&mut table);
    match req.parse(buf) {
        Ok(httparse::Status::Complete(_)) => Ok(RequestHead {
            method: req.method.map(str::to_string),
            headers: req.headers.iter().map(|h| Header::new(h.name, h.value)).collect(),
        }),
        Ok(httparse::Status::Partial) => Err(HeadError::Incomplete),
        Err(_) => Err(HeadError::Malformed),
    }
}

/// Calls `httparse::Response::parse` on `buf` with a fresh table of `slots`
/// empty headers. Trusted: the outcome is a function of `buf` and `slots`
/// alone, which `response_head` names. A complete head gives its headers; a
/// head cut short gives `Incomplete`; every error of httparse gives
/// `Malformed`.
#[verifier::external_body]
pub(crate) fn parse_response(buf: &[u8], slots: u16) -> (r: Result<Vec<Header>, HeadError>)
    ensures
        match r {
            Ok(headers) => response_head(buf@, slots as nat) == Ok::<Seq<HeaderView>, HeadError>(
                header_views(headers@),
            ),
            Err(e) => response_head(buf@, slots as nat) == Err::<Seq<HeaderView>, HeadError>(e),
        },
{
    let mut table = vec![httparse::EMPTY_HEADER; slots as usize];
    let mut resp = httparse::Response::new(&mut table);
    match resp.parse(buf) {
        Ok(httparse::Status::Complete(_)) => Ok(
            resp.headers.iter().map(|h| Header::new(h.name, h.value)).collect(),
        ),
        Ok(httparse::Status::Partial) => Err(HeadError::Incomplete),
        Err(_) => Err(HeadError::Malformed),
    }
}

/// The value of the header `name` in the head of the request `buf`, read with
/// room for `slots` headers: that of the first header of that name, and none
/// if the head is incomplete or malformed.
pub open spec fn request_header(buf: Seq<u8>, slots: nat, name: Seq<char>) -> Option<Seq<u8>> {
    match request_head(buf, slots) {
        Ok(head) => first_value(head.headers, name),
        Err(_) => None,
    }
}

/// The value of the header `name` in the head of the response `buf`, read with
/// room for `slots` headers: that of the first header of that name, and none
/// if the head is incomplete or malformed.
pub open spec fn response_header(buf: Seq<u8>, slots: nat, name: Seq<char>) -> Option<Seq<u8>> {
    match response_head(buf, slots) {
        Ok(headers) => first_value(headers, name),
        Err(_) => None,
    }
}

/// The search target of the request `buf`: the value of its `ST` header.
pub open spec fn request_search_target(buf: Seq<u8>) -> Option<Seq<u8>> {
    request_header(buf, HEADER_SLOTS as nat, "ST"@)
}

/// The search target of the response `buf`: the value of its `ST` header.
pub open spec fn response_search_target(buf: Seq<u8>) -> Option<Seq<u8>> {
    response_header(buf, HEADER_SLOTS as nat, "ST"@)
}

/// A list of headers in which a header is found by its name.
pub trait HeaderMap {
    /// The headers held, in the order of the message.
    spec fn headers(&self) -> Seq<HeaderView>;

    /// How many headers there is room for.
    spec fn slots(&self) -> nat;

    /// The value of the first header called `name`.
    fn get_header(&self, name: &str) -> (value: Option<Vec<u8>>)
        ensures
            bytes_view(value) == first_value(self.headers(), name@),
    ;
}

/// A header table that can be filled from the head of a request.
pub trait RequestHeaderMap: HeaderMap {
    /// Reads `buf` as a request and looks `name` up in its headers. A complete
    /// head replaces what the table held; otherwise the table stays as it was
    /// and nothing is found.
    fn get_request_header(&mut self, buf: &[u8], name: &str) -> (value: Option<Vec<u8>>)
        ensures
            final(self).slots() == old(self).slots(),
            bytes_view(value) == request_header(buf@, old(self).slots(), name@),
            final(self).headers() == match request_head(buf@, old(self).slots()) {
                Ok(head) => head.headers,
                Err(_) => old(self).headers(),
            },
    ;
}

/// A header table that can be filled from the head of a response.
pub trait ResponseHeaderMap: HeaderMap {
    /// Reads `buf` as a response and looks `name` up in its headers. A complete
    /// head replaces what the table held; otherwise the table stays as it was
    /// and nothing is found.
    fn get_response_header(&mut self, buf: &[u8], name: &str) -> (value: Option<Vec<u8>>)
        ensures
            final(self).slots() == old(self).slots(),
            bytes_view(value) == response_header(buf@, old(self).slots(), name@),
            final(self).headers() == match response_head(buf@, old(self).slots()) {
                Ok(headers) => headers,
                Err(_) => old(self).headers(),
            },
    ;
}

/// Room for the headers of one message head.
#[derive(Debug, PartialEq, Eq)]
pub struct HeaderTable {
    slots: u16,
    entries: Vec<Header>,
}

impl HeaderTable {
    /// An empty table with room for `slots` headers.
    pub fn new(slots: u16) -> (table: HeaderTable)
        ensures
            table.slots() == slots,
            table.headers() == Seq::<HeaderView>::empty(),
    {
        HeaderTable { slots, entries: Vec::new() }
    }

    /// How many headers the table has room for.
    pub fn capacity(&self) -> (slots: u16)
        ensures
            slots == self.slots(),
    {
        self.slots
    }

    /// The headers that the table holds.
    pub fn entries(&self) -> (entries: &Vec<Header>)
        ensures
            header_views(entries@) == self.headers(),
    {
        &self.entries
    }
}

impl HeaderMap for HeaderTable {
    closed spec fn headers(&self) -> Seq<HeaderView> {
        header_views(self.entries@)
    }

    closed spec fn slots(&self) -> nat {
        self.slots as nat
    }

    fn get_header(&self, name: &str) -> (value: Option<Vec<u8>>) {
        first_header(self.entries.as_slice(), name)
    }
}

impl RequestHeaderMap for HeaderTable {
    fn get_request_header(&mut self, buf: &[u8], name: &str) -> (value: Option<Vec<u8>>) {
        match parse_request(buf, self.slots) {
            Ok(head) => {
                self.entries = head.headers;
                first_header(self.entries.as_slice(), name)
            },
            Err(_) => None,
        }
    }
}

impl ResponseHeaderMap for HeaderTable {
    fn get_response_header(&mut self, buf: &[u8], name: &str) -> (value: Option<Vec<u8>>) {
        match parse_response(buf, self.slots) {
            Ok(headers) => {
                self.entries = headers;
                first_header(self.entries.as_slice(), name)
            },
            Err(_) => None,
        }
    }
}

} // verus!
