//! The asking side of a TCP stream between nodes: the request for it, and what
//! a reply means.

use crate::accept::{asks_for_stream, lets_through, HeadView, PeerEventView};
use crate::handshake::{handoff_fits_too, handshake_length};
use crate::prepare::{target_fault, TargetCheck};
use crate::reply::{
    headers_of, stale, switching, ReplyView, PEER_PATH, PROTOCOL, STALE_ROUTE_HEADER,
    STALE_ROUTE_VALUE,
};
use crate::target::{EstablishView, MappingView, MAX_HANDSHAKE_BYTES};
use crate::text::{bytes_of, header_equals, header_is, join};
use vstd::prelude::*;
use vstd::utf8::*;

verus! {

/// The request with which the owner of a target is asked for a stream.
#[derive(Debug, PartialEq, Eq)]
pub struct StreamRequest {
    pub url: String,
    /// The method, which is also the one that is signed.
    pub method: String,
    /// The path that is signed.
    pub path: String,
    pub headers: Vec<(String, String)>,
}

/// Builds the request to the node at an address. The version header tells the
/// node which form of response is understood.
pub fn stream_request(addr: &str, version_header: &str, version: &str) -> (request: StreamRequest)
    ensures
        request.url@ == "http://"@ + addr@ + PEER_PATH@,
        request.method@ == "POST"@,
        request.path@ == PEER_PATH@,
        headers_of(request.headers@) == seq![
            ("connection"@, "upgrade"@),
            ("upgrade"@, PROTOCOL@),
            (version_header@, version@),
        ],
{
    let mut headers: Vec<(String, String)> = Vec::new();
    headers.push(("connection".to_string(), "upgrade".to_string()));
    headers.push(("upgrade".to_string(), PROTOCOL.to_string()));
    headers.push((version_header.to_string(), version.to_string()));
    assert(headers_of(headers@) =~= seq![
        ("connection"@, "upgrade"@),
        ("upgrade"@, PROTOCOL@),
        (version_header@, version@),
    ]);
    let host = join("http://", addr);
    StreamRequest {
        url: join(host.as_str(), PEER_PATH),
        method: "POST".to_string(),
        path: PEER_PATH.to_string(),
        headers,
    }
}

/// What a reply to the request says.
#[derive(Debug, PartialEq, Eq)]
pub struct StreamReply {
    /// The reply is of a form that is understood.
    pub valid: bool,
    pub status: u16,
    /// The value of [`STALE_ROUTE_HEADER`].
    pub route_error: Option<Vec<u8>>,
    pub upgrade: Option<Vec<u8>>,
}

/// Why a reply brings no stream.
#[derive(Clone, Copy, Debug, PartialEq, Eq, Structural)]
pub enum StreamError {
    Invalid,
    /// The asked node is not the owner.
    StaleRoute,
    /// The asked node refuses, with this status.
    Refused(u16),
}

/// A reply that reports a stale route.
pub open spec fn reports_stale_route(reply: StreamReply) -> bool {
    reply.status == 409 && header_equals(bytes_of(reply.route_error), STALE_ROUTE_VALUE@)
}

/// A reply that switches to the stream.
pub open spec fn switches(reply: StreamReply) -> bool {
    reply.status == 101 && header_equals(bytes_of(reply.upgrade), PROTOCOL@)
}

/// What a reply means. One that is understood brings a stream exactly where it
/// switches protocols.
pub open spec fn judgement(reply: StreamReply) -> Result<(), StreamError> {
    if !reply.valid {
        Err(StreamError::Invalid)
    } else if reports_stale_route(reply) {
        Err(StreamError::StaleRoute)
    } else if switches(reply) {
        Ok(())
    } else {
        Err(StreamError::Refused(reply.status))
    }
}

/// Judges a reply.
pub fn judge_reply(reply: &StreamReply) -> (judged: Result<(), StreamError>)
    ensures
        judged == judgement(*reply),
{
    if !reply.valid {
        return Err(StreamError::Invalid);
    }
    if reply.status == 409 && header_is(&reply.route_error, STALE_ROUTE_VALUE) {
        return Err(StreamError::StaleRoute);
    }
    if reply.status == 101 && header_is(&reply.upgrade, PROTOCOL) {
        Ok(())
    } else {
        Err(StreamError::Refused(reply.status))
    }
}

/// The first header of that name.
pub open spec fn header_in(headers: Seq<(Seq<char>, Seq<char>)>, name: Seq<char>) -> Option<Seq<char>>
    decreases headers.len(),
{
    if headers.len() == 0 {
        None
    } else if headers[0].0 == name {
        Some(headers[0].1)
    } else {
        header_in(headers.drop_first(), name)
    }
}

/// The bytes of the first header of that name.
pub open spec fn header_bytes_in(headers: Seq<(Seq<char>, Seq<char>)>, name: Seq<char>) -> Option<Seq<u8>> {
    match header_in(headers, name) {
        Some(value) => Some(encode_utf8(value)),
        None => None,
    }
}

/// The reply is what arrives of an answer.
pub open spec fn carries(reply: StreamReply, answer: ReplyView) -> bool {
    &&& reply.status == answer.status
    &&& bytes_of(reply.route_error) == header_bytes_in(answer.headers, STALE_ROUTE_HEADER@)
    &&& bytes_of(reply.upgrade) == header_bytes_in(answer.headers, "upgrade"@)
}

proof fn header_names_differ()
    ensures
        "connection"@ != "upgrade"@,
        STALE_ROUTE_HEADER@ != "upgrade"@,
        STALE_ROUTE_HEADER@ != "connection"@,
{
    reveal_strlit("connection");
    reveal_strlit("upgrade");
    reveal_strlit("x-cells-route-error");
    assert("connection"@.len() == 10);
    assert("upgrade"@.len() == 7);
    assert("x-cells-route-error"@.len() == 19);
}

/// Both sides mean the same: an answer that switches protocols brings the asker
/// a stream, the report of a stale route is taken as one, and every plain
/// refusal as a refusal with its status, also where that is the status of a
/// stale route.
pub proof fn answers_are_understood(reply: StreamReply, answer: ReplyView)
    requires
        reply.valid,
        carries(reply, answer),
    ensures
        answer == switching() ==> judgement(reply) == Ok::<(), StreamError>(()),
        answer == stale() ==> judgement(reply) == Err::<(), StreamError>(StreamError::StaleRoute),
        answer.headers.len() == 0 ==> judgement(reply) == Err::<(), StreamError>(
            StreamError::Refused(answer.status),
        ),
{
    header_names_differ();
    reveal_with_fuel(header_in, 3);
    if answer == switching() {
        assert(answer.headers.drop_first()[0] == ("upgrade"@, PROTOCOL@));
        assert(header_in(answer.headers, "upgrade"@) == Some(PROTOCOL@));
    }
    if answer == stale() {
        assert(header_in(answer.headers, STALE_ROUTE_HEADER@) == Some(STALE_ROUTE_VALUE@));
    }
}

/// A node reads every handshake for a target that another node vetted, whether or
/// not it asks for a handoff: none is refused for its size.
pub proof fn vetted_handshakes_are_read(check: TargetCheck, capacity_handoff: bool, mappings: Seq<MappingView>)
    requires
        target_fault(check) is None,
    ensures
        ({
            let length = handshake_length(EstablishView { target: check.target@, capacity_handoff });
            &&& length <= MAX_HANDSHAKE_BYTES
            &&& lets_through(PeerEventView::Body(Some(length as usize)), mappings)
        }),
{
    handoff_fits_too(check.target@);
}

/// A node takes the head of the requests that its peers send.
pub proof fn own_requests_are_taken(request: StreamRequest, version_header: Seq<char>, version: Seq<char>, head: HeadView)
    requires
        request.method@ == "POST"@,
        headers_of(request.headers@) == seq![
            ("connection"@, "upgrade"@),
            ("upgrade"@, PROTOCOL@),
            (version_header, version),
        ],
        head.method == request.method@,
        !head.has_query,
        head.upgrade == header_bytes_in(headers_of(request.headers@), "upgrade"@),
    ensures
        asks_for_stream(head),
{
    header_names_differ();
    reveal_with_fuel(header_in, 3);
    let headers = headers_of(request.headers@);
    assert(headers.drop_first()[0] == ("upgrade"@, PROTOCOL@));
    assert(header_in(headers, "upgrade"@) == Some(PROTOCOL@));
}

/// A reply brings a stream exactly where it is understood, has the status 101 and
/// names the protocol. It reports a stale route exactly where it is understood,
/// has the status 409 and the header's value says so. Every other reply that is
/// understood is a refusal with its status.
pub proof fn replies_are_judged_by_their_parts(reply: StreamReply)
    ensures
        ({
            let stale = reply.status == 409 && reply.route_error is Some && reply.route_error->0@ == encode_utf8(
                "stale-owner"@,
            );
            let switch = reply.status == 101 && reply.upgrade is Some && reply.upgrade->0@ == encode_utf8(
                "celld-container-tcp-v1"@,
            );
            &&& judgement(reply) == Err::<(), StreamError>(StreamError::Invalid) <==> !reply.valid
            &&& judgement(reply) == Err::<(), StreamError>(StreamError::StaleRoute) <==> reply.valid && stale
            &&& judgement(reply) == Ok::<(), StreamError>(()) <==> reply.valid && switch
            &&& judgement(reply) == Err::<(), StreamError>(StreamError::Refused(reply.status)) <==> reply.valid && !stale
                && !switch
        }),
{
}

} // verus!
