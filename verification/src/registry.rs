//! What the node listens on and which targets it answers for.

use crate::mapping::{configs_in, Mapping};
use crate::target::{MappingView, Target, TargetView};
use std::sync::Arc;
use vstd::prelude::*;

verus! {

/// The listeners of the node, over deployments and until shutdown.
#[derive(Debug)]
pub struct State {
    stopped: bool,
    serving: bool,
    listeners: Vec<Arc<Mapping>>,
    mappings: Vec<Arc<Mapping>>,
}

/// The mathematical value of a [`State`].
pub struct StateView {
    /// Shutdown has begun.
    pub stopped: bool,
    /// Servers run that can be told to stop.
    pub serving: bool,
    /// The mappings of the listeners that a deployment finds in place.
    pub listeners: Seq<Arc<Mapping>>,
    /// The mappings whose targets peers may ask for.
    pub mappings: Seq<Arc<Mapping>>,
}

impl View for State {
    type V = StateView;

    closed spec fn view(&self) -> StateView {
        StateView {
            stopped: self.stopped,
            serving: self.serving,
            listeners: self.listeners@,
            mappings: self.mappings@,
        }
    }
}

/// The state before the first deployment.
pub open spec fn initial() -> StateView {
    StateView { stopped: false, serving: false, listeners: Seq::empty(), mappings: Seq::empty() }
}

/// The state once the listeners of a deployment are published.
pub open spec fn published(state: StateView, listeners: Seq<Arc<Mapping>>) -> StateView {
    if state.stopped {
        state
    } else {
        StateView { stopped: false, serving: true, listeners, mappings: listeners }
    }
}

/// The state once shutdown has begun.
pub open spec fn shut_down(state: StateView) -> StateView {
    StateView { stopped: true, serving: false, listeners: Seq::empty(), mappings: state.mappings }
}

/// The mapping at `place` is the first that leads to the target.
pub open spec fn leads_first(mappings: Seq<MappingView>, target: TargetView, place: int) -> bool {
    &&& 0 <= place < mappings.len()
    &&& mappings[place].target == target
    &&& forall|j: int| 0 <= j < place ==> (#[trigger] mappings[j]).target != target
}

/// Some mapping leads to the target.
pub open spec fn configured(mappings: Seq<MappingView>, target: TargetView) -> bool {
    exists|i: int| 0 <= i < mappings.len() && (#[trigger] mappings[i]).target == target
}

/// Copies a list of mappings.
fn copy_mappings(mappings: &[Arc<Mapping>]) -> (copy: Vec<Arc<Mapping>>)
    ensures
        copy@ == mappings@,
{
    let mut copy: Vec<Arc<Mapping>> = Vec::new();
    let mut i: usize = 0;
    while i < mappings.len()
        invariant
            i <= mappings@.len(),
            copy@.len() == i,
            forall|j: int| 0 <= j < i ==> (#[trigger] copy@[j]) == mappings@[j],
        decreases mappings@.len() - i,
    {
        copy.push(mappings[i].clone());
        i += 1;
    }
    assert(copy@ =~= mappings@);
    copy
}

impl State {
    /// The state before the first deployment.
    pub fn new() -> (state: State)
        ensures
            state@ == initial(),
    {
        State { stopped: false, serving: false, listeners: Vec::new(), mappings: Vec::new() }
    }

    /// The mappings of the listeners that a deployment finds in place.
    pub fn listeners(&self) -> (listeners: Vec<Arc<Mapping>>)
        ensures
            listeners@ == self@.listeners,
    {
        copy_mappings(self.listeners.as_slice())
    }

    /// Replaces the listeners by those of a new deployment, unless shutdown has
    /// begun. Tells whether they are to be served now, in place of the servers
    /// that ran.
    pub fn publish(&mut self, listeners: Vec<Arc<Mapping>>) -> (serve: bool)
        ensures
            final(self)@ == published(old(self)@, listeners@),
            serve == !old(self)@.stopped,
    {
        if self.stopped {
            return false;
        }
        self.serving = true;
        self.mappings = copy_mappings(listeners.as_slice());
        self.listeners = listeners;
        true
    }

    /// Begins shutdown. Tells whether there are servers to be told.
    pub fn shutdown(&mut self) -> (tell: bool)
        ensures
            final(self)@ == shut_down(old(self)@),
            tell == old(self)@.serving,
    {
        let tell = self.serving;
        self.stopped = true;
        self.serving = false;
        self.listeners = Vec::new();
        tell
    }

    /// The place of the mapping for a target that a peer asks for.
    pub fn authorize(&self, target: &Target) -> (place: Option<usize>)
        ensures
            place is Some <==> configured(configs_in(self@.mappings), target@),
            place matches Some(place) ==> leads_first(configs_in(self@.mappings), target@, place as int),
            place matches Some(place) ==> {
                &&& place < self@.mappings.len()
                &&& self@.mappings[place as int]@.target == target@
                &&& forall|j: int| 0 <= j < place ==> (#[trigger] self@.mappings[j])@.target != target@
            },
            place is None ==> forall|j: int|
                0 <= j < self@.mappings.len() ==> (#[trigger] self@.mappings[j])@.target != target@,
    {
        let ghost all = configs_in(self.mappings@);
        let mut i: usize = 0;
        while i < self.mappings.len()
            invariant
                i <= self.mappings@.len(),
                all == configs_in(self.mappings@),
                all == configs_in(self@.mappings),
                forall|j: int| 0 <= j < i ==> (#[trigger] all[j]).target != target@,
                forall|j: int| 0 <= j < i ==> (#[trigger] self@.mappings[j])@.target != target@,
            decreases self.mappings@.len() - i,
        {
            assert(all[i as int] == self.mappings@[i as int]@);
            if self.mappings[i].config().target.same(target) {
                return Some(i);
            }
            i += 1;
        }
        None
    }

    /// The mapping at a place that [`State::authorize`] gave.
    pub fn mapping(&self, place: usize) -> (mapping: Option<Arc<Mapping>>)
        ensures
            mapping is Some <==> place < self@.mappings.len(),
            mapping is Some ==> mapping->0 == self@.mappings[place as int],
    {
        if place < self.mappings.len() {
            Some(self.mappings[place].clone())
        } else {
            None
        }
    }
}

/// One change of the state.
pub enum Change {
    Publish(Seq<Arc<Mapping>>),
    Shutdown,
}

/// The state after one change.
pub open spec fn changed(state: StateView, change: Change) -> StateView {
    match change {
        Change::Publish(listeners) => published(state, listeners),
        Change::Shutdown => shut_down(state),
    }
}

/// The state after a history of changes.
pub open spec fn after(state: StateView, history: Seq<Change>) -> StateView
    decreases history.len(),
{
    if history.len() == 0 {
        state
    } else {
        changed(after(state, history.drop_last()), history.last())
    }
}

/// Once shutdown has begun no deployment brings a listener or a server back,
/// however late it is published.
pub proof fn shutdown_is_for_good(state: StateView, history: Seq<Change>, when: int)
    requires
        0 <= when < history.len(),
        history[when] == Change::Shutdown,
    ensures
        after(state, history).stopped,
        !after(state, history).serving,
        after(state, history).listeners == Seq::<Arc<Mapping>>::empty(),
    decreases history.len(),
{
    if when < history.len() - 1 {
        shutdown_is_for_good(state, history.drop_last(), when);
    }
}

/// Peers may ask for the targets of the last deployment before shutdown, and
/// for no others: shutdown leaves them as they are, and what is published
/// later changes nothing.
pub proof fn peers_reach_the_last_deployment(
    state: StateView,
    history: Seq<Change>,
    when: int,
    listeners: Seq<Arc<Mapping>>,
)
    requires
        0 <= when < history.len(),
        history[when] == Change::Publish(listeners),
        !after(state, history.take(when)).stopped,
        forall|i: int|
            when < i < history.len() && (#[trigger] history[i]) is Publish ==> after(state, history.take(i)).stopped,
    ensures
        after(state, history).mappings == listeners,
    decreases history.len(),
{
    let shorter = history.drop_last();
    assert(shorter =~= history.take(history.len() - 1));
    if when < history.len() - 1 {
        assert forall|i: int| when < i < shorter.len() && (#[trigger] shorter[i]) is Publish implies after(
            state,
            shorter.take(i),
        ).stopped by {
            assert(shorter[i] == history[i]);
            assert(shorter.take(i) =~= history.take(i));
        }
        assert(shorter.take(when) =~= history.take(when));
        peers_reach_the_last_deployment(state, shorter, when, listeners);
        assert(history[history.len() - 1] is Publish ==> after(state, history.take(history.len() - 1)).stopped);
    }
}

/// What listens is always what peers may ask for, until shutdown.
pub proof fn listeners_are_answered_for(history: Seq<Change>)
    ensures
        !after(initial(), history).stopped ==> after(initial(), history).listeners == after(
            initial(),
            history,
        ).mappings,
    decreases history.len(),
{
    if history.len() > 0 {
        listeners_are_answered_for(history.drop_last());
    }
}

/// A deployment that is published before shutdown is what is listened for and what
/// peers may ask for, whole and in order, and is served. One that is published
/// after shutdown changes nothing.
pub proof fn deployments_take_effect_whole(state: StateView, listeners: Seq<Arc<Mapping>>)
    ensures
        !state.stopped ==> {
            let next = published(state, listeners);
            next.listeners == listeners && next.mappings == listeners && next.serving && !next.stopped
        },
        state.stopped ==> published(state, listeners) == state,
        !initial().stopped && !initial().serving && initial().listeners.len() == 0 && initial().mappings.len() == 0,
{
}

/// Shutdown stops all listeners and servers, and takes no mapping from the peers.
pub proof fn shutdown_leaves_the_mappings(state: StateView)
    ensures
        shut_down(state).stopped,
        !shut_down(state).serving,
        shut_down(state).listeners.len() == 0,
        shut_down(state).mappings == state.mappings,
{
}

/// A target is configured exactly where some mapping has it, and the first such
/// mapping is the one that leads to it.
pub proof fn targets_are_those_of_mappings(mappings: Seq<MappingView>, target: TargetView, place: int)
    ensures
        !configured(mappings, target) <==> forall|i: int|
            0 <= i < mappings.len() ==> (#[trigger] mappings[i]).target != target,
        leads_first(mappings, target, place) <==> {
            &&& 0 <= place < mappings.len()
            &&& mappings[place].target == target
            &&& forall|j: int| 0 <= j < place ==> (#[trigger] mappings[j]).target != target
        },
{
}

} // verus!
