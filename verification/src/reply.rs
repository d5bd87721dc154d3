//! The answers that a node gives to a peer's request for a TCP stream.

use vstd::prelude::*;

verus! {

/// The path on which peers ask for TCP streams.
pub const PEER_PATH: &'static str = "/peer/tcp";

/// The protocol that both sides switch to.
pub const PROTOCOL: &'static str = "celld-container-tcp-v1";

/// The header that tells a peer why its route was refused.
pub const STALE_ROUTE_HEADER: &'static str = "x-cells-route-error";

/// Says that the asked node is not the owner, or no longer.
pub const STALE_ROUTE_VALUE: &'static str = "stale-owner";

/// An HTTP answer: status, body and the headers that carry meaning.
#[derive(Debug, PartialEq, Eq)]
pub struct Reply {
    pub status: u16,
    pub text: String,
    pub headers: Vec<(String, String)>,
}

/// The mathematical value of a [`Reply`].
#[verifier::ext_equal]
pub struct ReplyView {
    pub status: u16,
    pub text: Seq<char>,
    pub headers: Seq<(Seq<char>, Seq<char>)>,
}

/// The values of a list of headers.
pub open spec fn headers_of(headers: Seq<(String, String)>) -> Seq<(Seq<char>, Seq<char>)> {
    headers.map_values(|header: (String, String)| (header.0@, header.1@))
}

impl View for Reply {
    type V = ReplyView;

    open spec fn view(&self) -> ReplyView {
        ReplyView { status: self.status, text: self.text@, headers: headers_of(self.headers@) }
    }
}

/// A plain answer.
pub open spec fn plain(status: u16, text: Seq<char>) -> ReplyView {
    ReplyView { status, text, headers: Seq::empty() }
}

/// The answer to a peer whose route is stale.
pub open spec fn stale() -> ReplyView {
    ReplyView {
        status: 409,
        text: "stale TCP route"@,
        headers: seq![(STALE_ROUTE_HEADER@, STALE_ROUTE_VALUE@)],
    }
}

/// The answer after which both directions are opaque bytes.
pub open spec fn switching() -> ReplyView {
    ReplyView {
        status: 101,
        text: ""@,
        headers: seq![("connection"@, "upgrade"@), ("upgrade"@, PROTOCOL@)],
    }
}

/// A plain answer.
pub fn response(status: u16, text: String) -> (reply: Reply)
    ensures
        reply@ == plain(status, text@),
        reply.status == status,
        reply.text@ == text@,
        reply.headers@.len() == 0,
{
    let reply = Reply { status, text, headers: Vec::new() };
    assert(reply@ =~= plain(status, text@));
    reply
}

/// The answer to a peer whose route is stale.
pub fn stale_reply() -> (reply: Reply)
    ensures
        reply@ == stale(),
{
    let mut headers: Vec<(String, String)> = Vec::new();
    headers.push((STALE_ROUTE_HEADER.to_string(), STALE_ROUTE_VALUE.to_string()));
    let reply = Reply { status: 409, text: "stale TCP route".to_string(), headers };
    assert(reply@ =~= stale());
    reply
}

/// The answer that switches to the stream.
pub fn switching_reply() -> (reply: Reply)
    ensures
        reply@ == switching(),
{
    let mut headers: Vec<(String, String)> = Vec::new();
    headers.push(("connection".to_string(), "upgrade".to_string()));
    headers.push(("upgrade".to_string(), PROTOCOL.to_string()));
    let reply = Reply { status: 101, text: "".to_string(), headers };
    assert(reply@ =~= switching());
    reply
}

/// Answers are seen with all of their parts. A plain one has the status and the
/// words that it is given and no headers. That of a stale route is a 409 with one
/// header, and that which switches protocols a 101 without words that names the
/// protocol.
pub proof fn answers_are_what_they_say(reply: Reply, status: u16, text: Seq<char>, headers: Seq<(String, String)>)
    ensures
        reply@.status == reply.status,
        reply@.text == reply.text@,
        reply@.headers == headers_of(reply.headers@),
        headers_of(headers).len() == headers.len(),
        forall|i: int|
            0 <= i < headers.len() ==> (#[trigger] headers_of(headers)[i]).0 == headers[i].0@ && headers_of(headers)[i].1
                == headers[i].1@,
        plain(status, text).status == status,
        plain(status, text).text == text,
        plain(status, text).headers.len() == 0,
        stale().status == 409,
        stale().text == "stale TCP route"@,
        stale().headers == seq![("x-cells-route-error"@, "stale-owner"@)],
        switching().status == 101,
        switching().text == ""@,
        switching().headers == seq![("connection"@, "upgrade"@), ("upgrade"@, "celld-container-tcp-v1"@)],
{
}

} // verus!
