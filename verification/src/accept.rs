//! The owner's side of a TCP stream between nodes: a peer's request, from its
//! head to the answer.

use crate::mapping::configs_in;
use crate::registry::{configured, leads_first, State};
use crate::reply::{
    plain, response, stale, stale_reply, switching, switching_reply, Reply, ReplyView, PROTOCOL,
};
use crate::target::{Establish, EstablishView, MappingView, TargetView, MAX_HANDSHAKE_BYTES};
use crate::text::{bytes_of, header_equals, header_is, same_text};
use vstd::prelude::*;
use vstd::utf8::*;

verus! {

/// The time in which the body of a handshake has to arrive, in milliseconds.
pub const BODY_TIMEOUT_MS: u64 = 5_000;

/// The time in which the connection has to be handed over after the answer, in
/// milliseconds.
pub const UPGRADE_TIMEOUT_MS: u64 = 5_000;

/// The head of a peer's request.
#[derive(Debug, PartialEq, Eq)]
pub struct RequestHead {
    pub method: String,
    pub has_query: bool,
    pub upgrade: Option<Vec<u8>>,
}

/// The mathematical value of a [`RequestHead`].
pub struct HeadView {
    pub method: Seq<char>,
    pub has_query: bool,
    pub upgrade: Option<Seq<u8>>,
}

impl View for RequestHead {
    type V = HeadView;

    open spec fn view(&self) -> HeadView {
        HeadView { method: self.method@, has_query: self.has_query, upgrade: bytes_of(self.upgrade) }
    }
}

/// What the check of a peer's signature found.
#[derive(Debug, PartialEq, Eq)]
pub enum Signature {
    Valid,
    /// The request is signed for another node.
    WrongTarget,
    /// The request is refused with this status and these words.
    Refused(u16, String),
}

/// The mathematical value of a [`Signature`].
pub enum SignatureView {
    Valid,
    WrongTarget,
    Refused(u16, Seq<char>),
}

impl View for Signature {
    type V = SignatureView;

    open spec fn view(&self) -> SignatureView {
        match self {
            Signature::Valid => SignatureView::Valid,
            Signature::WrongTarget => SignatureView::WrongTarget,
            Signature::Refused(status, words) => SignatureView::Refused(*status, words@),
        }
    }
}

/// Where the owner of the target was found to be.
#[derive(Clone, Copy, Debug, PartialEq, Eq, Structural)]
pub enum OwnerRoute {
    /// Here, under this request.
    Local(u64),
    Remote,
    /// Nowhere, for want of capacity.
    CapacityExhausted,
    /// The scope or the route could not be found.
    Unavailable,
}

/// What comes back from the outside.
#[derive(Debug, PartialEq, Eq)]
pub enum PeerEvent {
    Head(RequestHead),
    /// The length of the body, where it arrived whole and in time.
    Body(Option<usize>),
    Checked(Signature),
    /// The body, where it describes a target.
    Parsed(Option<Establish>),
    Routed(OwnerRoute),
    /// The container is connected.
    Opened,
    /// The container is not connected; the flag tells that the route is stale.
    OpenFailed(bool),
    /// Establishing took longer than the mapping allows.
    TimedOut,
}

/// The mathematical value of a [`PeerEvent`].
pub enum PeerEventView {
    Head(HeadView),
    Body(Option<usize>),
    Checked(SignatureView),
    Parsed(Option<EstablishView>),
    Routed(OwnerRoute),
    Opened,
    OpenFailed(bool),
    TimedOut,
}

impl View for PeerEvent {
    type V = PeerEventView;

    open spec fn view(&self) -> PeerEventView {
        match self {
            PeerEvent::Head(head) => PeerEventView::Head(head@),
            PeerEvent::Body(length) => PeerEventView::Body(*length),
            PeerEvent::Checked(signature) => PeerEventView::Checked(signature@),
            PeerEvent::Parsed(establish) => PeerEventView::Parsed(
                match establish {
                    Some(establish) => Some(establish@),
                    None => None,
                },
            ),
            PeerEvent::Routed(route) => PeerEventView::Routed(*route),
            PeerEvent::Opened => PeerEventView::Opened,
            PeerEvent::OpenFailed(stale) => PeerEventView::OpenFailed(*stale),
            PeerEvent::TimedOut => PeerEventView::TimedOut,
        }
    }
}

/// How far a peer's request has come, and what it waits for.
#[derive(Debug, PartialEq, Eq)]
pub enum PeerRequest {
    /// For the head.
    Head,
    /// For the body, of at most [`MAX_HANDSHAKE_BYTES`], within
    /// [`BODY_TIMEOUT_MS`].
    Body,
    /// For the check of the signature.
    Check,
    /// For the target that the body describes.
    Parse,
    /// For the route to the owner of the mapping at `place`, asked for as a
    /// handoff or not.
    Route { place: usize, capacity_handoff: bool },
    /// For the container of the mapping at `place`.
    Open { place: usize, request: u64 },
    /// For nothing: this is the answer.
    Answer(Reply),
}

/// The mathematical value of a [`PeerRequest`].
pub enum PeerView {
    Head,
    Body,
    Check,
    Parse,
    Route { place: int, capacity_handoff: bool },
    Open { place: int, request: u64 },
    Answer(ReplyView),
}

impl View for PeerRequest {
    type V = PeerView;

    open spec fn view(&self) -> PeerView {
        match self {
            PeerRequest::Head => PeerView::Head,
            PeerRequest::Body => PeerView::Body,
            PeerRequest::Check => PeerView::Check,
            PeerRequest::Parse => PeerView::Parse,
            PeerRequest::Route { place, capacity_handoff } => PeerView::Route {
                place: *place as int,
                capacity_handoff: *capacity_handoff,
            },
            PeerRequest::Open { place, request } => PeerView::Open { place: *place as int, request: *request },
            PeerRequest::Answer(reply) => PeerView::Answer(reply@),
        }
    }
}

/// The event is one that the request waits for.
pub open spec fn awaited(peer: PeerView, event: PeerEventView) -> bool {
    match peer {
        PeerView::Head => event is Head,
        PeerView::Body => event is Body,
        PeerView::Check => event is Checked,
        PeerView::Parse => event is Parsed,
        PeerView::Route { .. } => event is Routed || event is TimedOut,
        PeerView::Open { .. } => event is Opened || event is OpenFailed || event is TimedOut,
        PeerView::Answer(_) => false,
    }
}

/// A head with which a stream may be asked for.
pub open spec fn asks_for_stream(head: HeadView) -> bool {
    &&& head.method == "POST"@
    &&& !head.has_query
    &&& header_equals(head.upgrade, PROTOCOL@)
}

/// The event lets the request through to its next step. The mappings are those
/// that peers may ask for at the time.
pub open spec fn lets_through(event: PeerEventView, mappings: Seq<MappingView>) -> bool {
    match event {
        PeerEventView::Head(head) => asks_for_stream(head),
        PeerEventView::Body(length) => length is Some && length->0 <= MAX_HANDSHAKE_BYTES,
        PeerEventView::Checked(signature) => signature is Valid,
        PeerEventView::Parsed(establish) => establish is Some && configured(mappings, establish->0.target),
        PeerEventView::Routed(route) => route is Local,
        PeerEventView::Opened => true,
        PeerEventView::OpenFailed(_) => false,
        PeerEventView::TimedOut => false,
    }
}

/// The place of the first mapping that leads to the target.
pub open spec fn place_of(mappings: Seq<MappingView>, target: TargetView) -> int {
    choose|place: int| leads_first(mappings, target, place)
}

/// The step after an event that lets the request through.
pub open spec fn next_step(peer: PeerView, event: PeerEventView, mappings: Seq<MappingView>) -> PeerView {
    match event {
        PeerEventView::Head(_) => PeerView::Body,
        PeerEventView::Body(_) => PeerView::Check,
        PeerEventView::Checked(_) => PeerView::Parse,
        PeerEventView::Parsed(establish) => PeerView::Route {
            place: place_of(mappings, establish->0.target),
            capacity_handoff: establish->0.capacity_handoff,
        },
        PeerEventView::Routed(route) => PeerView::Open { place: peer->Route_place, request: route->Local_0 },
        _ => PeerView::Answer(switching()),
    }
}

/// The answer to a request that an event does not let through.
pub open spec fn refusal(event: PeerEventView) -> ReplyView {
    match event {
        PeerEventView::Head(_) => plain(400, "TCP establishment requires POST and upgrade"@),
        PeerEventView::Body(_) => plain(400, "invalid TCP handshake body"@),
        PeerEventView::Checked(SignatureView::Refused(status, words)) => plain(status, words),
        PeerEventView::Checked(_) => stale(),
        PeerEventView::Parsed(None) => plain(400, "invalid TCP target"@),
        PeerEventView::Parsed(_) => plain(403, "TCP target is not configured on this node"@),
        PeerEventView::Routed(OwnerRoute::Remote) => stale(),
        PeerEventView::Routed(OwnerRoute::CapacityExhausted) => stale(),
        PeerEventView::OpenFailed(true) => stale(),
        PeerEventView::TimedOut => plain(504, "TCP establishment timed out"@),
        _ => plain(502, "TCP target did not become ready"@),
    }
}

/// The request after an event. One that it does not wait for leaves it as it
/// is.
pub open spec fn stepped(peer: PeerView, event: PeerEventView, mappings: Seq<MappingView>) -> PeerView {
    if !awaited(peer, event) {
        peer
    } else if lets_through(event, mappings) {
        next_step(peer, event, mappings)
    } else {
        PeerView::Answer(refusal(event))
    }
}

proof fn place_is_unique(mappings: Seq<MappingView>, target: TargetView, place: int)
    requires
        leads_first(mappings, target, place),
    ensures
        place_of(mappings, target) == place,
{
    let chosen = place_of(mappings, target);
    assert(leads_first(mappings, target, chosen));
    if chosen < place {
        assert(mappings[chosen].target != target);
    }
    if place < chosen {
        assert(mappings[place].target != target);
    }
}

impl PeerRequest {
    /// A request that has just arrived.
    pub fn new() -> (request: PeerRequest)
        ensures
            request@ == PeerView::Head,
    {
        PeerRequest::Head
    }

    /// Takes the request one step further. The state is that of the node at the
    /// time of the event.
    pub fn advance(self, event: PeerEvent, state: &State) -> (next: PeerRequest)
        ensures
            next@ == stepped(self@, event@, configs_in(state@.mappings)),
    {
        match (self, event) {
            (PeerRequest::Head, PeerEvent::Head(head)) => {
                if same_text(head.method.as_str(), "POST") && !head.has_query && header_is(&head.upgrade, PROTOCOL) {
                    PeerRequest::Body
                } else {
                    PeerRequest::Answer(
                        response(400, "TCP establishment requires POST and upgrade".to_string()),
                    )
                }
            },
            (PeerRequest::Body, PeerEvent::Body(length)) => match length {
                Some(length) if length <= MAX_HANDSHAKE_BYTES => PeerRequest::Check,
                _ => PeerRequest::Answer(response(400, "invalid TCP handshake body".to_string())),
            },
            (PeerRequest::Check, PeerEvent::Checked(signature)) => match signature {
                Signature::Valid => PeerRequest::Parse,
                Signature::WrongTarget => PeerRequest::Answer(stale_reply()),
                Signature::Refused(status, words) => PeerRequest::Answer(response(status, words)),
            },
            (PeerRequest::Parse, PeerEvent::Parsed(establish)) => match establish {
                None => PeerRequest::Answer(response(400, "invalid TCP target".to_string())),
                Some(establish) => match state.authorize(&establish.target) {
                    Some(place) => {
                        proof {
                            place_is_unique(configs_in(state@.mappings), establish.target@, place as int);
                        }
                        PeerRequest::Route { place, capacity_handoff: establish.capacity_handoff }
                    },
                    None => PeerRequest::Answer(
                        response(403, "TCP target is not configured on this node".to_string()),
                    ),
                },
            },
            (PeerRequest::Route { place, .. }, PeerEvent::Routed(route)) => match route {
                OwnerRoute::Local(request) => PeerRequest::Open { place, request },
                OwnerRoute::Remote => PeerRequest::Answer(stale_reply()),
                OwnerRoute::CapacityExhausted => PeerRequest::Answer(stale_reply()),
                OwnerRoute::Unavailable => PeerRequest::Answer(
                    response(502, "TCP target did not become ready".to_string()),
                ),
            },
            (PeerRequest::Open { .. }, PeerEvent::Opened) => PeerRequest::Answer(switching_reply()),
            (PeerRequest::Open { .. }, PeerEvent::OpenFailed(stale)) => {
                if stale {
                    PeerRequest::Answer(stale_reply())
                } else {
                    PeerRequest::Answer(response(502, "TCP target did not become ready".to_string()))
                }
            },
            (PeerRequest::Route { .. }, PeerEvent::TimedOut) => PeerRequest::Answer(
                response(504, "TCP establishment timed out".to_string()),
            ),
            (PeerRequest::Open { .. }, PeerEvent::TimedOut) => PeerRequest::Answer(
                response(504, "TCP establishment timed out".to_string()),
            ),
            (request, _) => request,
        }
    }
}

/// An event, and the mappings that peers may ask for at its time.
pub struct Moment {
    pub event: PeerEventView,
    pub mappings: Seq<MappingView>,
}

/// A request after a history of events.
pub open spec fn reached(history: Seq<Moment>) -> PeerView
    decreases history.len(),
{
    if history.len() == 0 {
        PeerView::Head
    } else {
        stepped(reached(history.drop_last()), history.last().event, history.last().mappings)
    }
}

/// The number of steps that a request has passed.
pub open spec fn passed(peer: PeerView) -> int {
    match peer {
        PeerView::Head => 0,
        PeerView::Body => 1,
        PeerView::Check => 2,
        PeerView::Parse => 3,
        PeerView::Route { .. } => 4,
        PeerView::Open { .. } => 5,
        PeerView::Answer(reply) => if reply == switching() {
            6
        } else {
            0
        },
    }
}

/// The number of the step that an event can let a request through.
pub open spec fn step_of(event: PeerEventView) -> int {
    match event {
        PeerEventView::Head(_) => 0,
        PeerEventView::Body(_) => 1,
        PeerEventView::Checked(_) => 2,
        PeerEventView::Parsed(_) => 3,
        PeerEventView::Routed(_) => 4,
        _ => 5,
    }
}

/// The moment lets a request through its step of this number.
pub open spec fn passes_step(moment: Moment, step: int) -> bool {
    step_of(moment.event) == step && lets_through(moment.event, moment.mappings)
}

/// The history holds moments that let a request through its first `steps`
/// steps, one after the other.
pub open spec fn went_through(history: Seq<Moment>, steps: int) -> bool
    decreases steps,
{
    steps <= 0 || exists|i: int|
        {
            &&& 0 <= i < history.len()
            &&& passes_step(#[trigger] history[i], steps - 1)
            &&& went_through(history.take(i), steps - 1)
        }
}

proof fn longer_history_goes_as_far(history: Seq<Moment>, moment: Moment, steps: int)
    requires
        went_through(history, steps),
    ensures
        went_through(history.push(moment), steps),
{
    if steps > 0 {
        let i = choose|i: int|
            {
                &&& 0 <= i < history.len()
                &&& passes_step(#[trigger] history[i], steps - 1)
                &&& went_through(history.take(i), steps - 1)
            };
        let longer = history.push(moment);
        assert(longer[i] == history[i]);
        assert(longer.take(i) =~= history.take(i));
    }
}

proof fn last_moment_goes_further(history: Seq<Moment>, moment: Moment, steps: int)
    requires
        steps >= 0,
        went_through(history, steps),
        passes_step(moment, steps),
    ensures
        went_through(history.push(moment), steps + 1),
{
    let longer = history.push(moment);
    assert(longer[history.len() as int] == moment);
    assert(longer.take(history.len() as int) =~= history);
}

/// No refusal switches the protocol.
proof fn refusals_do_not_switch(event: PeerEventView)
    ensures
        refusal(event) != switching(),
{
    assert(switching().headers.len() == 2);
    assert(refusal(event).headers.len() < 2);
}

/// A request comes only as far as the steps before it let it through, in
/// order: nothing is parsed before the signature is checked, no owner is looked
/// for before the target is known to be configured, no container is asked for
/// before the owner is known to be here, and no protocol is switched before the
/// container is connected.
pub proof fn every_step_is_needed(history: Seq<Moment>)
    ensures
        went_through(history, passed(reached(history))),
    decreases history.len(),
{
    if history.len() > 0 {
        let before = history.drop_last();
        let moment = history.last();
        every_step_is_needed(before);
        assert(history =~= before.push(moment));
        let peer = reached(before);
        if awaited(peer, moment.event) {
            if lets_through(moment.event, moment.mappings) {
                last_moment_goes_further(before, moment, passed(peer));
            } else {
                refusals_do_not_switch(moment.event);
            }
        } else {
            longer_history_goes_as_far(before, moment, passed(peer));
        }
    }
}

/// The request is about the mapping at `place`.
pub open spec fn works_on(peer: PeerView, place: int) -> bool {
    match peer {
        PeerView::Route { place: at, .. } => at == place,
        PeerView::Open { place: at, .. } => at == place,
        _ => false,
    }
}

/// A container is asked for only for a mapping of the node: the request held a
/// valid signature, and its target was that of the mapping when it was looked
/// up.
pub proof fn only_configured_targets_are_opened(history: Seq<Moment>, place: int)
    requires
        works_on(reached(history), place),
    ensures
        exists|i: int|
            {
                &&& 0 <= i < history.len()
                &&& (#[trigger] history[i]).event matches PeerEventView::Parsed(Some(establish))
                &&& leads_first(history[i].mappings, establish.target, place)
                &&& went_through(history.take(i), 3)
            },
    decreases history.len(),
{
    let before = history.drop_last();
    let moment = history.last();
    let peer = reached(before);
    let last = history.len() - 1;
    if awaited(peer, moment.event) && moment.event is Parsed {
        let target = moment.event->Parsed_0->0.target;
        first_mapping_exists(moment.mappings, target);
        assert(leads_first(moment.mappings, target, place));
        every_step_is_needed(before);
        assert(history[last] == moment);
        assert(history.take(last) =~= before);
    } else {
        only_configured_targets_are_opened(before, place);
        let i = choose|i: int|
            {
                &&& 0 <= i < before.len()
                &&& (#[trigger] before[i]).event matches PeerEventView::Parsed(Some(establish))
                &&& leads_first(before[i].mappings, establish.target, place)
                &&& went_through(before.take(i), 3)
            };
        assert(history[i] == before[i]);
        assert(history.take(i) =~= before.take(i));
    }
}

/// Where some mapping leads to the target, the first that does is at its place.
proof fn first_mapping_exists(mappings: Seq<MappingView>, target: TargetView)
    requires
        configured(mappings, target),
    ensures
        leads_first(mappings, target, place_of(mappings, target)),
{
    let i = choose|i: int| 0 <= i < mappings.len() && (#[trigger] mappings[i]).target == target;
    let first = least_place(mappings, target, i);
    assert(leads_first(mappings, target, first));
}

proof fn least_place(mappings: Seq<MappingView>, target: TargetView, i: int) -> (first: int)
    requires
        0 <= i < mappings.len(),
        mappings[i].target == target,
    ensures
        leads_first(mappings, target, first),
    decreases i,
{
    if exists|j: int| 0 <= j < i && (#[trigger] mappings[j]).target == target {
        let j = choose|j: int| 0 <= j < i && (#[trigger] mappings[j]).target == target;
        least_place(mappings, target, j)
    } else {
        i
    }
}

/// A request is answered once: whatever happens after, the answer stays.
pub proof fn answer_is_final(history: Seq<Moment>, later: Seq<Moment>)
    requires
        reached(history) is Answer,
    ensures
        reached(history + later) == reached(history),
    decreases later.len(),
{
    if later.len() == 0 {
        assert(history + later =~= history);
    } else {
        answer_is_final(history, later.drop_last());
        assert((history + later).drop_last() =~= history + later.drop_last());
        assert((history + later).last() == later.last());
    }
}

/// Every answer is one of these: the switch of protocols, the report of a stale
/// route, a plain refusal in this library's words, or one in those of the
/// signature check. Only the first two carry headers.
pub proof fn every_answer_is_known(history: Seq<Moment>)
    requires
        reached(history) is Answer,
    ensures
        ({
            let answer = reached(history)->Answer_0;
            ||| answer == switching()
            ||| answer == stale()
            ||| answer == plain(400, "TCP establishment requires POST and upgrade"@)
            ||| answer == plain(400, "invalid TCP handshake body"@)
            ||| answer == plain(400, "invalid TCP target"@)
            ||| answer == plain(403, "TCP target is not configured on this node"@)
            ||| answer == plain(502, "TCP target did not become ready"@)
            ||| answer == plain(504, "TCP establishment timed out"@)
            ||| exists|i: int|
                {
                    &&& 0 <= i < history.len()
                    &&& (#[trigger] history[i]).event matches PeerEventView::Checked(
                        SignatureView::Refused(status, words),
                    )
                    &&& answer == plain(status, words)
                }
        }),
    decreases history.len(),
{
    let before = history.drop_last();
    let moment = history.last();
    assert(history[history.len() - 1] == moment);
    if reached(before) is Answer {
        every_answer_is_known(before);
        assert forall|i: int| 0 <= i < before.len() implies #[trigger] before[i] == history[i] by {}
    }
}

/// A request whose steps all let it through, one after the other, has come that
/// far; with the sixth the protocol is switched.
pub proof fn steps_in_order_go_through(history: Seq<Moment>)
    requires
        history.len() <= 6,
        forall|i: int| 0 <= i < history.len() ==> passes_step(#[trigger] history[i], i),
        history.len() == 6 ==> history[5].event is Opened,
    ensures
        passed(reached(history)) == history.len(),
        reached(history) is Answer <==> history.len() == 6,
    decreases history.len(),
{
    if history.len() > 0 {
        let before = history.drop_last();
        assert forall|i: int| 0 <= i < before.len() implies passes_step(#[trigger] before[i], i) by {
            assert(before[i] == history[i]);
        }
        steps_in_order_go_through(before);
        assert(passes_step(history[history.len() - 1], history.len() - 1));
    }
}

/// The first step that does not let a request through decides its answer.
pub proof fn refused_step_is_answered(history: Seq<Moment>, moment: Moment)
    requires
        history.len() < 6,
        forall|i: int| 0 <= i < history.len() ==> passes_step(#[trigger] history[i], i),
        awaited(reached(history), moment.event),
        !lets_through(moment.event, moment.mappings),
    ensures
        reached(history.push(moment)) == PeerView::Answer(refusal(moment.event)),
{
    assert(history.push(moment).drop_last() =~= history);
}

/// The head of a request is taken exactly where it is a POST without a query that
/// asks to upgrade to the protocol. Any other is answered with 400.
pub proof fn heads_are_judged_by_their_parts(head: HeadView, mappings: Seq<MappingView>)
    ensures
        ({
            let next = stepped(PeerView::Head, PeerEventView::Head(head), mappings);
            let good = head.method == "POST"@ && !head.has_query && head.upgrade is Some && head.upgrade->0 == encode_utf8(
                "celld-container-tcp-v1"@,
            );
            &&& good <==> next is Body
            &&& !good <==> next == PeerView::Answer(plain(400, "TCP establishment requires POST and upgrade"@))
        }),
{
}

/// A body is taken exactly where it arrived whole, in time, and with at most 16384
/// bytes. Any other is answered with 400.
pub proof fn bodies_are_judged_by_their_length(length: Option<usize>, mappings: Seq<MappingView>)
    ensures
        ({
            let next = stepped(PeerView::Body, PeerEventView::Body(length), mappings);
            &&& length is Some && length->0 <= 16_384 <==> next is Check
            &&& length is None || length->0 > 16_384 <==> next == PeerView::Answer(
                plain(400, "invalid TCP handshake body"@),
            )
        }),
{
}

/// A valid signature lets the body be read. One for another node is answered as a
/// stale route, and one that is refused with the status and the words of the
/// refusal.
pub proof fn signatures_decide(signature: SignatureView, mappings: Seq<MappingView>)
    ensures
        ({
            let next = stepped(PeerView::Check, PeerEventView::Checked(signature), mappings);
            &&& signature is Valid <==> next is Parse
            &&& signature is WrongTarget ==> next == PeerView::Answer(stale())
            &&& signature matches SignatureView::Refused(status, words) ==> next == PeerView::Answer(plain(status, words))
        }),
{
}

/// A request for a target that some mapping of the node has goes on to look for
/// the owner of the first such mapping, with the flag that it was asked with,
/// whatever the target is. It is answered with 403 exactly where no mapping has
/// the target, and with 400 where the body describes none.
pub proof fn configured_targets_are_looked_for(establish: EstablishView, mappings: Seq<MappingView>, place: int)
    ensures
        ({
            let next = stepped(PeerView::Parse, PeerEventView::Parsed(Some(establish)), mappings);
            let nowhere = forall|i: int| 0 <= i < mappings.len() ==> (#[trigger] mappings[i]).target != establish.target;
            let first = 0 <= place < mappings.len() && mappings[place].target == establish.target && forall|j: int|
                0 <= j < place ==> (#[trigger] mappings[j]).target != establish.target;
            &&& first <==> next == (PeerView::Route { place, capacity_handoff: establish.capacity_handoff })
            &&& !nowhere <==> next is Route
            &&& nowhere <==> next == PeerView::Answer(plain(403, "TCP target is not configured on this node"@))
        }),
        stepped(PeerView::Parse, PeerEventView::Parsed(None), mappings) == PeerView::Answer(
            plain(400, "invalid TCP target"@),
        ),
{
    let target = establish.target;
    if configured(mappings, target) {
        first_mapping_exists(mappings, target);
        if leads_first(mappings, target, place) {
            place_is_unique(mappings, target, place);
        }
        let at = place_of(mappings, target);
        assert(mappings[at].target == target);
    }
}

/// A request whose owner is here goes on to its container, for the same mapping
/// and under the request that routing gave. An owner elsewhere, or none for want
/// of capacity, is answered as a stale route, and one that cannot be found with
/// 502.
pub proof fn owners_decide(place: int, capacity_handoff: bool, route: OwnerRoute, mappings: Seq<MappingView>)
    ensures
        ({
            let next = stepped(PeerView::Route { place, capacity_handoff }, PeerEventView::Routed(route), mappings);
            &&& route matches OwnerRoute::Local(request) ==> next == (PeerView::Open { place, request })
            &&& route is Remote || route is CapacityExhausted ==> next == PeerView::Answer(stale())
            &&& route is Unavailable ==> next == PeerView::Answer(plain(502, "TCP target did not become ready"@))
        }),
{
}

/// A container that is connected switches the protocol. One that is not is
/// answered as a stale route where it turned out to be one, and otherwise with
/// 502. Where the time has passed before the owner or the container was found, the
/// answer is 504.
pub proof fn containers_decide(
    place: int,
    request: u64,
    capacity_handoff: bool,
    stale_route: bool,
    mappings: Seq<MappingView>,
)
    ensures
        ({
            let open = PeerView::Open { place, request };
            let route = PeerView::Route { place, capacity_handoff };
            let late = PeerView::Answer(plain(504, "TCP establishment timed out"@));
            &&& stepped(open, PeerEventView::Opened, mappings) == PeerView::Answer(switching())
            &&& stale_route ==> stepped(open, PeerEventView::OpenFailed(stale_route), mappings) == PeerView::Answer(stale())
            &&& !stale_route ==> stepped(open, PeerEventView::OpenFailed(stale_route), mappings) == PeerView::Answer(
                plain(502, "TCP target did not become ready"@),
            )
            &&& stepped(open, PeerEventView::TimedOut, mappings) == late
            &&& stepped(route, PeerEventView::TimedOut, mappings) == late
        }),
{
}

/// A request moves only for what it waits for: the head, then the body, the
/// signature, the target, the owner or the end of the time, and the container or
/// the end of the time. Nothing moves an answer.
pub proof fn requests_move_only_when_told(peer: PeerView, event: PeerEventView, mappings: Seq<MappingView>)
    ensures
        stepped(peer, event, mappings) != peer ==> {
            ||| peer is Head && event is Head
            ||| peer is Body && event is Body
            ||| peer is Check && event is Checked
            ||| peer is Parse && event is Parsed
            ||| peer is Route && (event is Routed || event is TimedOut)
            ||| peer is Open && (event is Opened || event is OpenFailed || event is TimedOut)
        },
{
}

/// A request succeeds where the outside does: with a head that asks for a stream, a
/// body that is short enough, a valid signature, any target that a mapping of the
/// node has, an owner that is here and a container that is connected, the protocol
/// is switched.
pub proof fn requests_succeed(
    head: HeadView,
    length: usize,
    establish: EstablishView,
    place: int,
    request: u64,
    mappings: Seq<MappingView>,
)
    requires
        head.method == "POST"@,
        !head.has_query,
        head.upgrade == Some(encode_utf8("celld-container-tcp-v1"@)),
        length <= 16_384,
        0 <= place < mappings.len(),
        mappings[place].target == establish.target,
    ensures
        ({
            let events = seq![
                PeerEventView::Head(head),
                PeerEventView::Body(Some(length)),
                PeerEventView::Checked(SignatureView::Valid),
                PeerEventView::Parsed(Some(establish)),
                PeerEventView::Routed(OwnerRoute::Local(request)),
                PeerEventView::Opened,
            ];
            reached(events.map_values(|event: PeerEventView| Moment { event, mappings })) == PeerView::Answer(switching())
        }),
{
    let events = seq![
        PeerEventView::Head(head),
        PeerEventView::Body(Some(length)),
        PeerEventView::Checked(SignatureView::Valid),
        PeerEventView::Parsed(Some(establish)),
        PeerEventView::Routed(OwnerRoute::Local(request)),
        PeerEventView::Opened,
    ];
    let history = events.map_values(|event: PeerEventView| Moment { event, mappings });
    assert(configured(mappings, establish.target)) by {
        assert(mappings[place].target == establish.target);
    }
    assert forall|i: int| 0 <= i < history.len() implies passes_step(#[trigger] history[i], i) by {
        assert(history[i] == (Moment { event: events[i], mappings }));
    }
    steps_in_order_go_through(history);
    assert(passed(reached(history)) == 6);
}

/// Heads, signatures, events and requests are seen as they are.
pub proof fn requests_are_seen_as_they_are(
    head: RequestHead,
    signature: Signature,
    event: PeerEvent,
    peer: PeerRequest,
)
    ensures
        head@.method == head.method@,
        head@.has_query == head.has_query,
        head@.upgrade == bytes_of(head.upgrade),
        signature@ == match signature {
            Signature::Valid => SignatureView::Valid,
            Signature::WrongTarget => SignatureView::WrongTarget,
            Signature::Refused(status, words) => SignatureView::Refused(status, words@),
        },
        event@ == match event {
            PeerEvent::Head(head) => PeerEventView::Head(head@),
            PeerEvent::Body(length) => PeerEventView::Body(length),
            PeerEvent::Checked(signature) => PeerEventView::Checked(signature@),
            PeerEvent::Parsed(Some(establish)) => PeerEventView::Parsed(Some(establish@)),
            PeerEvent::Parsed(None) => PeerEventView::Parsed(None),
            PeerEvent::Routed(route) => PeerEventView::Routed(route),
            PeerEvent::Opened => PeerEventView::Opened,
            PeerEvent::OpenFailed(stale) => PeerEventView::OpenFailed(stale),
            PeerEvent::TimedOut => PeerEventView::TimedOut,
        },
        peer@ == match peer {
            PeerRequest::Head => PeerView::Head,
            PeerRequest::Body => PeerView::Body,
            PeerRequest::Check => PeerView::Check,
            PeerRequest::Parse => PeerView::Parse,
            PeerRequest::Route { place, capacity_handoff } => PeerView::Route { place: place as int, capacity_handoff },
            PeerRequest::Open { place, request } => PeerView::Open { place: place as int, request },
            PeerRequest::Answer(reply) => PeerView::Answer(reply@),
        },
{
}

/// A handshake's body and the handing over of a connection have five seconds each.
pub proof fn waiting_is_bounded()
    ensures
        BODY_TIMEOUT_MS == 5_000,
        UPGRADE_TIMEOUT_MS == 5_000,
        MAX_HANDSHAKE_BYTES == 16_384,
{
}

} // verus!
