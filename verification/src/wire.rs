//! The bytes of a tunnel message. The layout is that of protocol buffers, in
//! its one canonical form: fields in the order of their numbers, lengths and
//! numbers as shortest varints, empty byte strings and a zero port left out.
//! So each message has exactly one encoding, and only that is read back.
//!
//! ```text
//! message   = 0x0A len request | 0x12 len response
//! request   = [0x0A len payload] [0x12 len endpoint]        ; the source
//! response  = [0x0A len payload] [0x12 len endpoint]        ; the echoed source
//! endpoint  = [0x0A len ip] [0x10 port]
//! ```

use vstd::prelude::*;
use crate::tunnel::{
    DecodeError,
    Endpoint,
    EndpointView,
    SearchRequestEnvelope,
    SearchRequestView,
    SearchResponseEnvelope,
    SearchResponseView,
    TunnelMessage,
    TunnelMessageView,
};

verus! {

/// The shortest base-128 encoding of `n`, low group first; every byte but the
/// last has its high bit set.
pub open spec fn varint(n: nat) -> Seq<u8>
    decreases n,
{
    if n < 128 {
        seq![n as u8]
    } else {
        seq![(128 + n % 128) as u8] + varint(n / 128)
    }
}

/// The tag of field 1 where it holds bytes or a message.
pub const FIELD_1: u8 = 0x0A;

/// The tag of field 2 where it holds a message.
pub const FIELD_2: u8 = 0x12;

/// The tag of field 2 where it holds a number.
pub const FIELD_2_NUMBER: u8 = 0x10;

/// A field that holds `body`: the tag, the length of `body`, then `body`.
pub open spec fn delimited(tag: u8, body: Seq<u8>) -> Seq<u8> {
    seq![tag] + varint(body.len()) + body
}

/// Field 1 holding the bytes `body`; nothing at all where `body` is empty.
pub open spec fn bytes_field(body: Seq<u8>) -> Seq<u8> {
    if body.len() == 0 {
        Seq::empty()
    } else {
        delimited(FIELD_1, body)
    }
}

/// Field 2 holding `port`; nothing at all where `port` is zero.
pub open spec fn port_field(port: u16) -> Seq<u8> {
    if port == 0 {
        Seq::empty()
    } else {
        seq![FIELD_2_NUMBER] + varint(port as nat)
    }
}

/// The bytes of an endpoint: its IP field, then its port.
pub open spec fn endpoint_encoding(endpoint: EndpointView) -> Seq<u8> {
    bytes_field(endpoint.ip) + port_field(endpoint.port)
}

/// Field 2 holding an endpoint; nothing at all where there is none.
pub open spec fn source_field(source: Option<EndpointView>) -> Seq<u8> {
    match source {
        Some(endpoint) => delimited(FIELD_2, endpoint_encoding(endpoint)),
        None => Seq::empty(),
    }
}

/// The bytes of an envelope: its payload, then the endpoint it carries.
pub open spec fn envelope_encoding(payload: Seq<u8>, source: Option<EndpointView>) -> Seq<u8> {
    bytes_field(payload) + source_field(source)
}

/// The bytes of a message: a request as field 1, a response as field 2.
pub open spec fn encoding(message: TunnelMessageView) -> Seq<u8> {
    match message {
        TunnelMessageView::SearchRequest(request) => delimited(
            FIELD_1,
            envelope_encoding(request.payload, request.source),
        ),
        TunnelMessageView::SearchResponse(response) => delimited(
            FIELD_2,
            envelope_encoding(response.payload, response.echoed_source),
        ),
    }
}

/// The message that `bytes` are the encoding of, if they are one.
pub open spec fn decoded(bytes: Seq<u8>) -> Option<TunnelMessageView> {
    if exists|message: TunnelMessageView| encoding(message) == bytes {
        Some(choose|message: TunnelMessageView| encoding(message) == bytes)
    } else {
        None
    }
}

/// Reads a varint from the front of `s` whose groups so far came to `acc`,
/// the next group counting `scale` times: the value and the number of bytes
/// read. A last group of zero behind others is not the shortest encoding and
/// is refused.
spec fn scan_varint(s: Seq<u8>, acc: nat, scale: nat) -> Option<(nat, nat)>
    decreases s.len(),
{
    if s.len() == 0 {
        None
    } else if s[0] < 128 {
        if s[0] == 0 && scale > 1 {
            None
        } else {
            Some(((acc + scale * s[0]) as nat, 1))
        }
    } else {
        match scan_varint(s.drop_first(), (acc + scale * (s[0] - 128)) as nat, scale * 128) {
            Some((value, read)) => Some((value, read + 1)),
            None => None,
        }
    }
}

/// Reads a varint from the front of `s`: its value and its length.
spec fn parse_varint(s: Seq<u8>) -> Option<(nat, nat)> {
    scan_varint(s, 0, 1)
}

proof fn lemma_scan_reads_varint(v: nat, rest: Seq<u8>, acc: nat, scale: nat)
    requires
        scale > 1 ==> v > 0,
    ensures
        scan_varint(varint(v) + rest, acc, scale) == Some((acc + scale * v, varint(v).len())),
    decreases v,
{
    let s = varint(v) + rest;
    if v < 128 {
        assert(s[0] == v);
    } else {
        let low = v % 128;
        let high = v / 128;
        assert(s[0] == 128 + low);
        assert(s.drop_first() == varint(high) + rest);
        lemma_scan_reads_varint(high, rest, acc + scale * low, scale * 128);
        assert(acc + scale * low + (scale * 128) * high == acc + scale * v) by (nonlinear_arith)
            requires
                v == 128 * high + low,
        ;
    }
}

proof fn lemma_scan_read_is_varint(s: Seq<u8>, acc: nat, scale: nat) -> (v: nat)
    requires
        scan_varint(s, acc, scale) is Some,
        scale >= 1,
    ensures
        scan_varint(s, acc, scale) == Some((acc + scale * v, varint(v).len())),
        varint(v).len() <= s.len(),
        s.subrange(0, varint(v).len() as int) == varint(v),
        scale > 1 ==> v > 0,
    decreases s.len(),
{
    if s[0] < 128 {
        let v = s[0] as nat;
        assert(s.subrange(0, 1) == varint(v));
        v
    } else {
        let low = (s[0] - 128) as nat;
        let high = lemma_scan_read_is_varint(s.drop_first(), acc + scale * low, scale * 128);
        let v = 128 * high + low;
        assert(high > 0);
        assert(acc + scale * low + (scale * 128) * high == acc + scale * v) by (nonlinear_arith)
            requires
                v == 128 * high + low,
        ;
        assert(v / 128 == high && v % 128 == low);
        let k = varint(high).len() as int;
        assert(s.subrange(0, k + 1) == seq![s[0]] + s.drop_first().subrange(0, k));
        v
    }
}

/// Reads a length and that many bytes from the front of `s`: those bytes, and
/// what follows them.
spec fn parse_delimited(s: Seq<u8>) -> Option<(Seq<u8>, Seq<u8>)> {
    match parse_varint(s) {
        Some((len, read)) => if read + len <= s.len() {
            Some((s.subrange(read as int, (read + len) as int), s.skip((read + len) as int)))
        } else {
            None
        },
        None => None,
    }
}

proof fn lemma_parse_delimited_complete(body: Seq<u8>, rest: Seq<u8>)
    ensures
        parse_delimited(varint(body.len()) + body + rest) == Some((body, rest)),
{
    let s = varint(body.len()) + body + rest;
    let read = varint(body.len()).len();
    assert(s == varint(body.len()) + (body + rest));
    lemma_scan_reads_varint(body.len(), body + rest, 0, 1);
    assert(0 + 1 * body.len() == body.len());
    assert(s.subrange(read as int, (read + body.len()) as int) == body);
    assert(s.skip((read + body.len()) as int) == rest);
}

proof fn lemma_parse_delimited_sound(s: Seq<u8>)
    requires
        parse_delimited(s) is Some,
    ensures
        s == varint(parse_delimited(s).unwrap().0.len()) + parse_delimited(s).unwrap().0
            + parse_delimited(s).unwrap().1,
{
    let v = lemma_scan_read_is_varint(s, 0, 1);
    assert(0 + 1 * v == v);
    let read = varint(v).len() as int;
    let (body, rest) = parse_delimited(s).unwrap();
    assert(body.len() == v);
    assert(s =~= s.subrange(0, read) + body + rest);
}

/// Reads field 1 as bytes, if `s` begins with it: the bytes, which are empty
/// where the field is absent, and what follows the field.
spec fn parse_bytes_field(s: Seq<u8>) -> Option<(Seq<u8>, Seq<u8>)> {
    if s.len() > 0 && s[0] == FIELD_1 {
        match parse_delimited(s.skip(1)) {
            Some((body, rest)) => if body.len() > 0 {
                Some((body, rest))
            } else {
                None
            },
            None => None,
        }
    } else {
        Some((Seq::empty(), s))
    }
}

proof fn lemma_parse_bytes_field_complete(body: Seq<u8>, rest: Seq<u8>)
    requires
        rest.len() == 0 || rest[0] != FIELD_1,
    ensures
        parse_bytes_field(bytes_field(body) + rest) == Some((body, rest)),
{
    let s = bytes_field(body) + rest;
    if body.len() == 0 {
        assert(s == rest);
        assert(body == Seq::<u8>::empty());
    } else {
        assert(s[0] == FIELD_1);
        assert(s.skip(1) == varint(body.len()) + body + rest);
        lemma_parse_delimited_complete(body, rest);
    }
}

proof fn lemma_parse_bytes_field_sound(s: Seq<u8>)
    requires
        parse_bytes_field(s) is Some,
    ensures
        s == bytes_field(parse_bytes_field(s).unwrap().0) + parse_bytes_field(s).unwrap().1,
{
    if s.len() > 0 && s[0] == FIELD_1 {
        lemma_parse_delimited_sound(s.skip(1));
        let (body, rest) = parse_delimited(s.skip(1)).unwrap();
        assert(s == seq![FIELD_1] + s.skip(1));
        assert(s == delimited(FIELD_1, body) + rest);
    } else {
        assert(s == Seq::<u8>::empty() + s);
    }
}

/// Reads the port as the last field of an endpoint: `s` is all of field 2, or
/// empty for port zero.
spec fn parse_port_field(s: Seq<u8>) -> Option<u16> {
    if s.len() == 0 {
        Some(0)
    } else if s[0] == FIELD_2_NUMBER {
        match parse_varint(s.skip(1)) {
            Some((port, read)) => if 1 <= port <= u16::MAX && read + 1 == s.len() {
                Some(port as u16)
            } else {
                None
            },
            None => None,
        }
    } else {
        None
    }
}

proof fn lemma_parse_port_field_complete(port: u16)
    ensures
        parse_port_field(port_field(port)) == Some(port),
{
    if port != 0 {
        let s = port_field(port);
        assert(s.skip(1) == varint(port as nat) + Seq::<u8>::empty());
        lemma_scan_reads_varint(port as nat, Seq::empty(), 0, 1);
        assert(0 + 1 * (port as nat) == port as nat);
    }
}

proof fn lemma_parse_port_field_sound(s: Seq<u8>)
    requires
        parse_port_field(s) is Some,
    ensures
        s == port_field(parse_port_field(s).unwrap()),
{
    if s.len() != 0 {
        let v = lemma_scan_read_is_varint(s.skip(1), 0, 1);
        assert(0 + 1 * v == v);
        assert(s.skip(1).subrange(0, s.skip(1).len() as int) == s.skip(1));
        assert(s == seq![FIELD_2_NUMBER] + s.skip(1));
    } else {
        assert(s == Seq::<u8>::empty());
    }
}

/// Reads all of `s` as an endpoint.
spec fn parse_endpoint(s: Seq<u8>) -> Option<EndpointView> {
    match parse_bytes_field(s) {
        Some((ip, rest)) => match parse_port_field(rest) {
            Some(port) => Some(EndpointView { ip, port }),
            None => None,
        },
        None => None,
    }
}

proof fn lemma_parse_endpoint_complete(endpoint: EndpointView)
    ensures
        parse_endpoint(endpoint_encoding(endpoint)) == Some(endpoint),
{
    lemma_parse_bytes_field_complete(endpoint.ip, port_field(endpoint.port));
    lemma_parse_port_field_complete(endpoint.port);
}

proof fn lemma_parse_endpoint_sound(s: Seq<u8>)
    requires
        parse_endpoint(s) is Some,
    ensures
        s == endpoint_encoding(parse_endpoint(s).unwrap()),
{
    lemma_parse_bytes_field_sound(s);
    lemma_parse_port_field_sound(parse_bytes_field(s).unwrap().1);
}

/// Reads the endpoint as the last field of an envelope: `s` is all of field 2,
/// or empty where there is no endpoint.
spec fn parse_source_field(s: Seq<u8>) -> Option<Option<EndpointView>> {
    if s.len() == 0 {
        Some(None)
    } else if s[0] == FIELD_2 {
        match parse_delimited(s.skip(1)) {
            Some((body, rest)) => if rest.len() == 0 {
                match parse_endpoint(body) {
                    Some(endpoint) => Some(Some(endpoint)),
                    None => None,
                }
            } else {
                None
            },
            None => None,
        }
    } else {
        None
    }
}

proof fn lemma_parse_source_field_complete(source: Option<EndpointView>)
    ensures
        parse_source_field(source_field(source)) == Some(source),
{
    if let Some(endpoint) = source {
        let body = endpoint_encoding(endpoint);
        let s = source_field(source);
        assert(s.skip(1) == varint(body.len()) + body + Seq::<u8>::empty());
        lemma_parse_delimited_complete(body, Seq::empty());
        lemma_parse_endpoint_complete(endpoint);
    }
}

proof fn lemma_parse_source_field_sound(s: Seq<u8>)
    requires
        parse_source_field(s) is Some,
    ensures
        s == source_field(parse_source_field(s).unwrap()),
{
    if s.len() != 0 {
        lemma_parse_delimited_sound(s.skip(1));
        let (body, rest) = parse_delimited(s.skip(1)).unwrap();
        lemma_parse_endpoint_sound(body);
        assert(s == seq![FIELD_2] + s.skip(1));
        assert(s == delimited(FIELD_2, body) + rest);
        assert(s == delimited(FIELD_2, body));
    } else {
        assert(s == Seq::<u8>::empty());
    }
}

/// Reads all of `s` as an envelope: the payload and the endpoint.
spec fn parse_envelope(s: Seq<u8>) -> Option<(Seq<u8>, Option<EndpointView>)> {
    match parse_bytes_field(s) {
        Some((payload, rest)) => match parse_source_field(rest) {
            Some(source) => Some((payload, source)),
            None => None,
        },
        None => None,
    }
}

proof fn lemma_parse_envelope_complete(payload: Seq<u8>, source: Option<EndpointView>)
    ensures
        parse_envelope(envelope_encoding(payload, source)) == Some((payload, source)),
{
    lemma_parse_bytes_field_complete(payload, source_field(source));
    lemma_parse_source_field_complete(source);
}

proof fn lemma_parse_envelope_sound(s: Seq<u8>)
    requires
        parse_envelope(s) is Some,
    ensures
        s == envelope_encoding(parse_envelope(s).unwrap().0, parse_envelope(s).unwrap().1),
{
    lemma_parse_bytes_field_sound(s);
    lemma_parse_source_field_sound(parse_bytes_field(s).unwrap().1);
}

/// Reads all of `s` as a message.
spec fn parse_message(s: Seq<u8>) -> Option<TunnelMessageView> {
    if s.len() > 0 && (s[0] == FIELD_1 || s[0] == FIELD_2) {
        match parse_delimited(s.skip(1)) {
            Some((body, rest)) => if rest.len() == 0 {
                match parse_envelope(body) {
                    Some((payload, source)) => if s[0] == FIELD_1 {
                        Some(
                            TunnelMessageView::SearchRequest(
                                SearchRequestView { payload, source },
                            ),
                        )
                    } else {
                        Some(
                            TunnelMessageView::SearchResponse(
                                SearchResponseView { payload, echoed_source: source },
                            ),
                        )
                    },
                    None => None,
                }
            } else {
                None
            },
            None => None,
        }
    } else {
        None
    }
}

proof fn lemma_parse_message_complete(message: TunnelMessageView)
    ensures
        parse_message(encoding(message)) == Some(message),
{
    let s = encoding(message);
    let (payload, source) = match message {
        TunnelMessageView::SearchRequest(request) => (request.payload, request.source),
        TunnelMessageView::SearchResponse(response) => (response.payload, response.echoed_source),
    };
    let body = envelope_encoding(payload, source);
    assert(s.skip(1) == varint(body.len()) + body + Seq::<u8>::empty());
    lemma_parse_delimited_complete(body, Seq::empty());
    lemma_parse_envelope_complete(payload, source);
}

proof fn lemma_parse_message_sound(s: Seq<u8>)
    requires
        parse_message(s) is Some,
    ensures
        s == encoding(parse_message(s).unwrap()),
{
    lemma_parse_delimited_sound(s.skip(1));
    let (body, rest) = parse_delimited(s.skip(1)).unwrap();
    lemma_parse_envelope_sound(body);
    assert(s == seq![s[0]] + s.skip(1));
    assert(s == delimited(s[0], body) + rest);
    assert(s == delimited(s[0], body));
}

/// Appends the varint of `n`.
fn put_varint(out: &mut Vec<u8>, n: u64)
    ensures
        final(out)@ == old(out)@ + varint(n as nat),
{
    let mut left: u64 = n;
    while left >= 128
        invariant
            out@ + varint(left as nat) == old(out)@ + varint(n as nat),
        decreases left,
    {
        let group: u8 = (128 + left % 128) as u8;
        proof {
            assert(out@.push(group) + varint((left / 128) as nat) == out@ + varint(left as nat));
        }
        out.push(group);
        left = left / 128;
    }
    proof {
        assert(out@.push(left as u8) == out@ + varint(left as nat));
    }
    out.push(left as u8);
}

/// Appends `bytes`.
fn put_bytes(out: &mut Vec<u8>, bytes: &[u8])
    ensures
        final(out)@ == old(out)@ + bytes@,
{
    let mut i: usize = 0;
    while i < bytes.len()
        invariant
            i <= bytes.len(),
            out@ == old(out)@ + bytes@.take(i as int),
        decreases bytes.len() - i,
    {
        proof {
            assert(bytes@.take(i + 1) == bytes@.take(i as int).push(bytes@[i as int]));
        }
        out.push(bytes[i]);
        i += 1;
    }
    proof {
        assert(bytes@.take(i as int) == bytes@);
    }
}

/// Appends a field that holds `body`.
fn put_delimited(out: &mut Vec<u8>, tag: u8, body: &[u8])
    ensures
        final(out)@ == old(out)@ + delimited(tag, body@),
{
    out.push(tag);
    put_varint(out, body.len() as u64);
    put_bytes(out, body);
    proof {
        assert(old(out)@.push(tag) + varint(body@.len()) + body@ == old(out)@ + delimited(
            tag,
            body@,
        ));
    }
}

/// Appends field 1 holding `body`, unless `body` is empty.
fn put_bytes_field(out: &mut Vec<u8>, body: &[u8])
    ensures
        final(out)@ == old(out)@ + bytes_field(body@),
{
    if body.len() > 0 {
        put_delimited(out, FIELD_1, body);
    } else {
        proof {
            assert(out@ == out@ + Seq::<u8>::empty());
        }
    }
}

/// The bytes of an endpoint.
fn encode_endpoint(endpoint: &Endpoint) -> (bytes: Vec<u8>)
    ensures
        bytes@ == endpoint_encoding(endpoint@),
{
    let mut out: Vec<u8> = Vec::new();
    put_bytes_field(&mut out, endpoint.ip.as_slice());
    if endpoint.port != 0 {
        let ghost before = out@;
        out.push(FIELD_2_NUMBER);
        put_varint(&mut out, endpoint.port as u64);
        proof {
            assert(before.push(FIELD_2_NUMBER) + varint(endpoint.port as nat) == before
                + port_field(endpoint.port));
        }
    }
    proof {
        assert(Seq::<u8>::empty() + bytes_field(endpoint.ip@) == bytes_field(endpoint.ip@));
        assert(bytes_field(endpoint.ip@) + Seq::<u8>::empty() == bytes_field(endpoint.ip@));
    }
    out
}

/// The bytes of an envelope.
fn encode_envelope(payload: &[u8], source: &Option<Endpoint>) -> (bytes: Vec<u8>)
    ensures
        bytes@ == envelope_encoding(payload@, crate::tunnel::endpoint_view(*source)),
{
    let mut out: Vec<u8> = Vec::new();
    put_bytes_field(&mut out, payload);
    match source {
        Some(endpoint) => {
            let body = encode_endpoint(endpoint);
            put_delimited(&mut out, FIELD_2, body.as_slice());
        },
        None => {},
    }
    proof {
        assert(Seq::<u8>::empty() + bytes_field(payload@) == bytes_field(payload@));
        assert(bytes_field(payload@) + Seq::<u8>::empty() == bytes_field(payload@));
    }
    out
}

/// The bytes of `message`.
pub fn encode(message: &TunnelMessage) -> (bytes: Vec<u8>)
    ensures
        bytes@ == encoding(message@),
{
    let mut out: Vec<u8> = Vec::new();
    match message {
        TunnelMessage::SearchRequest(request) => {
            let body = encode_envelope(request.payload.as_slice(), &request.source);
            put_delimited(&mut out, FIELD_1, body.as_slice());
        },
        TunnelMessage::SearchResponse(response) => {
            let body = encode_envelope(response.payload.as_slice(), &response.echoed_source);
            put_delimited(&mut out, FIELD_2, body.as_slice());
        },
    }
    proof {
        assert(Seq::<u8>::empty() + encoding(message@) == encoding(message@));
    }
    out
}

/// What one more group counts for after `groups` groups: 128 to that power.
spec fn scale_at(groups: nat) -> nat
    decreases groups,
{
    if groups == 0 {
        1
    } else {
        128 * scale_at((groups - 1) as nat)
    }
}

proof fn lemma_scale_values()
    ensures
        scale_at(0) == 1,
        scale_at(1) == 0x80,
        scale_at(2) == 0x4000,
        scale_at(3) == 0x20_0000,
        scale_at(4) == 0x1000_0000,
        scale_at(5) == 0x8_0000_0000,
        scale_at(6) == 0x400_0000_0000,
        scale_at(7) == 0x2_0000_0000_0000,
        scale_at(8) == 0x100_0000_0000_0000,
        scale_at(9) == 0x8000_0000_0000_0000,
        scale_at(10) == 0x40_0000_0000_0000_0000,
{
    reveal_with_fuel(scale_at, 11);
}

/// A read that began `groups` bytes further to the front.
spec fn shifted(read: Option<(nat, nat)>, groups: nat) -> Option<(nat, nat)> {
    match read {
        Some((value, len)) => Some((value, len + groups)),
        None => None,
    }
}

/// Reads a varint from the front of `s`. A value that does not fit in 64 bits
/// is not given.
fn read_varint(s: &[u8]) -> (r: Option<(u64, usize)>)
    ensures
        match r {
            Some((value, read)) => read <= s.len() && parse_varint(s@) == Some(
                (value as nat, read as nat),
            ),
            None => parse_varint(s@) matches Some((value, _)) ==> value > u64::MAX,
        },
{
    let mut i: usize = 0;
    let mut acc: u128 = 0;
    let mut scale: u128 = 1;
    proof {
        lemma_scale_values();
        assert(s@.skip(0) == s@);
    }
    while i < s.len()
        invariant
            i <= s.len(),
            i <= 9,
            scale == scale_at(i as nat),
            acc < scale,
            parse_varint(s@) == shifted(
                scan_varint(s@.skip(i as int), acc as nat, scale as nat),
                i as nat,
            ),
        decreases s.len() - i,
    {
        let b = s[i];
        proof {
            lemma_scale_values();
            assert(s@.skip(i as int)[0] == b);
            assert(s@.skip(i as int).drop_first() == s@.skip(i + 1));
        }
        if b < 128 {
            if b == 0 && i > 0 {
                return None;
            }
            assert(scale * b <= 0x8000_0000_0000_0000 * 127) by (nonlinear_arith)
                requires
                    scale <= 0x8000_0000_0000_0000,
                    b <= 127,
            ;
            let value: u128 = acc + scale * (b as u128);
            if value > u64::MAX as u128 {
                return None;
            }
            return Some((value as u64, i + 1));
        }
        let low: u128 = (b - 128) as u128;
        assert(scale * low <= scale * 127 && scale * 127 <= 0x8000_0000_0000_0000 * 127)
            by (nonlinear_arith)
            requires
                0 <= scale <= 0x8000_0000_0000_0000,
                0 <= low <= 127,
        ;
        if i == 9 {
            proof {
                let rest = s@.skip(i + 1);
                let next_acc = (acc + scale * low) as nat;
                let next_scale = (scale * 128) as nat;
                if scan_varint(rest, next_acc, next_scale) is Some {
                    let v = lemma_scan_read_is_varint(rest, next_acc, next_scale);
                    assert(next_scale * v >= next_scale) by (nonlinear_arith)
                        requires
                            v >= 1,
                            next_scale >= 0,
                    ;
                }
            }
            return None;
        }
        acc = acc + scale * low;
        scale = scale * 128;
        i += 1;
    }
    None
}

/// The views of two byte strings that may be absent.
spec fn pair_view(pair: Option<(&[u8], &[u8])>) -> Option<(Seq<u8>, Seq<u8>)> {
    match pair {
        Some((a, b)) => Some((a@, b@)),
        None => None,
    }
}

/// Reads a length and that many bytes from the front of `s`.
fn read_delimited<'a>(s: &'a [u8]) -> (r: Option<(&'a [u8], &'a [u8])>)
    ensures
        pair_view(r) == parse_delimited(s@),
{
    let total = s.len();
    match read_varint(s) {
        Some((len, read)) => {
            if len <= (total - read) as u64 {
                let end = read + len as usize;
                let body = vstd::slice::slice_subrange(s, read, end);
                let rest = vstd::slice::slice_subrange(s, end, total);
                proof {
                    assert(s@.skip(end as int) == s@.subrange(end as int, s@.len() as int));
                }
                Some((body, rest))
            } else {
                None
            }
        },
        None => None,
    }
}

/// Reads field 1 as bytes, if `s` begins with it.
fn read_bytes_field<'a>(s: &'a [u8]) -> (r: Option<(&'a [u8], &'a [u8])>)
    ensures
        pair_view(r) == parse_bytes_field(s@),
{
    if s.len() > 0 && s[0] == FIELD_1 {
        let after = vstd::slice::slice_subrange(s, 1, s.len());
        proof {
            assert(s@.skip(1) == s@.subrange(1, s@.len() as int));
        }
        match read_delimited(after) {
            Some((body, rest)) => if body.len() > 0 {
                Some((body, rest))
            } else {
                None
            },
            None => None,
        }
    } else {
        let empty = vstd::slice::slice_subrange(s, 0, 0);
        proof {
            assert(empty@ == Seq::<u8>::empty());
        }
        Some((empty, s))
    }
}

/// Reads the port as the last field of an endpoint.
fn read_port_field(s: &[u8]) -> (r: Option<u16>)
    ensures
        r == parse_port_field(s@),
{
    if s.len() == 0 {
        Some(0)
    } else if s[0] == FIELD_2_NUMBER {
        let after = vstd::slice::slice_subrange(s, 1, s.len());
        proof {
            assert(s@.skip(1) == s@.subrange(1, s@.len() as int));
        }
        match read_varint(after) {
            Some((port, read)) => if 1 <= port && port <= 0xffff && read == after.len() {
                Some(port as u16)
            } else {
                None
            },
            None => None,
        }
    } else {
        None
    }
}

/// The view of an endpoint that may be absent.
spec fn read_endpoint_view(r: Option<Endpoint>) -> Option<EndpointView> {
    match r {
        Some(e) => Some(e@),
        None => None,
    }
}

/// Reads all of `s` as an endpoint.
fn read_endpoint(s: &[u8]) -> (r: Option<Endpoint>)
    ensures
        read_endpoint_view(r) == parse_endpoint(s@),
{
    match read_bytes_field(s) {
        Some((ip, rest)) => match read_port_field(rest) {
            Some(port) => Some(Endpoint { ip: vstd::slice::slice_to_vec(ip), port }),
            None => None,
        },
        None => None,
    }
}

/// The view of an endpoint that may be absent, read or not.
spec fn read_source_view(r: Option<Option<Endpoint>>) -> Option<Option<EndpointView>> {
    match r {
        Some(source) => Some(crate::tunnel::endpoint_view(source)),
        None => None,
    }
}

/// Reads the endpoint as the last field of an envelope.
fn read_source_field(s: &[u8]) -> (r: Option<Option<Endpoint>>)
    ensures
        read_source_view(r) == parse_source_field(s@),
{
    if s.len() == 0 {
        Some(None)
    } else if s[0] == FIELD_2 {
        let after = vstd::slice::slice_subrange(s, 1, s.len());
        proof {
            assert(s@.skip(1) == s@.subrange(1, s@.len() as int));
        }
        match read_delimited(after) {
            Some((body, rest)) => if rest.len() == 0 {
                match read_endpoint(body) {
                    Some(endpoint) => Some(Some(endpoint)),
                    None => None,
                }
            } else {
                None
            },
            None => None,
        }
    } else {
        None
    }
}

/// The view of a payload and an endpoint that may be absent.
spec fn read_envelope_view(r: Option<(Vec<u8>, Option<Endpoint>)>) -> Option<
    (Seq<u8>, Option<EndpointView>),
> {
    match r {
        Some((payload, source)) => Some((payload@, crate::tunnel::endpoint_view(source))),
        None => None,
    }
}

/// Reads all of `s` as an envelope.
fn read_envelope(s: &[u8]) -> (r: Option<(Vec<u8>, Option<Endpoint>)>)
    ensures
        read_envelope_view(r) == parse_envelope(s@),
{
    match read_bytes_field(s) {
        Some((payload, rest)) => match read_source_field(rest) {
            Some(source) => Some((vstd::slice::slice_to_vec(payload), source)),
            None => None,
        },
        None => None,
    }
}

/// The view of a message, or of the error in its place.
pub open spec fn message_view(r: Result<TunnelMessage, DecodeError>) -> Result<
    TunnelMessageView,
    DecodeError,
> {
    match r {
        Ok(message) => Ok(message@),
        Err(e) => Err(e),
    }
}

/// Reads `bytes` as a message. Bytes that are the encoding of a message give
/// that message; all others are malformed.
pub fn decode(bytes: &[u8]) -> (r: Result<TunnelMessage, DecodeError>)
    ensures
        message_view(r) == match decoded(bytes@) {
            Some(message) => Ok::<TunnelMessageView, DecodeError>(message),
            None => Err(DecodeError::Malformed),
        },
{
    proof {
        lemma_parse_message_is_decoded(bytes@);
    }
    if bytes.len() == 0 {
        return Err(DecodeError::Malformed);
    }
    let tag = bytes[0];
    if tag != FIELD_1 && tag != FIELD_2 {
        return Err(DecodeError::Malformed);
    }
    let after = vstd::slice::slice_subrange(bytes, 1, bytes.len());
    proof {
        assert(bytes@.skip(1) == bytes@.subrange(1, bytes@.len() as int));
    }
    match read_delimited(after) {
        Some((body, rest)) => {
            if rest.len() != 0 {
                return Err(DecodeError::Malformed);
            }
            match read_envelope(body) {
                Some((payload, source)) => if tag == FIELD_1 {
                    Ok(TunnelMessage::SearchRequest(SearchRequestEnvelope { payload, source }))
                } else {
                    Ok(
                        TunnelMessage::SearchResponse(
                            SearchResponseEnvelope { payload, echoed_source: source },
                        ),
                    )
                },
                None => Err(DecodeError::Malformed),
            }
        },
        None => Err(DecodeError::Malformed),
    }
}

/// Reading is the inverse of encoding.
proof fn lemma_parse_message_is_decoded(s: Seq<u8>)
    ensures
        parse_message(s) == decoded(s),
{
    if parse_message(s) is Some {
        lemma_parse_message_sound(s);
        let m = choose|message: TunnelMessageView| encoding(message) == s;
        lemma_parse_message_complete(m);
    } else if exists|message: TunnelMessageView| encoding(message) == s {
        let m = choose|message: TunnelMessageView| encoding(message) == s;
        lemma_parse_message_complete(m);
    }
}

/// No two messages have the same bytes.
pub proof fn lemma_encoding_is_injective(a: TunnelMessageView, b: TunnelMessageView)
    requires
        encoding(a) == encoding(b),
    ensures
        a == b,
{
    lemma_parse_message_complete(a);
    lemma_parse_message_complete(b);
}

/// What is encoded is read back as it was, whatever the payload holds and
/// however long it is.
pub proof fn lemma_decoding_inverts_encoding(message: TunnelMessageView)
    ensures
        decoded(encoding(message)) == Some(message),
{
    lemma_parse_message_is_decoded(encoding(message));
    lemma_parse_message_complete(message);
}

/// Only the encoding of a message is read as that message.
pub proof fn lemma_decoded_is_encoding(bytes: Seq<u8>)
    ensures
        decoded(bytes) matches Some(message) ==> encoding(message) == bytes,
{
}

} // verus!
