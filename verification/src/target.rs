//! Container targets, and the mappings that lead to them.

use crate::text::same_text;
use vstd::prelude::*;

verus! {

/// The most bytes that the body of a peer handshake may have.
pub const MAX_HANDSHAKE_BYTES: usize = 16 * 1024;

/// An IP address: its bits, most significant first.
#[derive(Clone, Copy, Debug, PartialEq, Eq, Structural)]
pub enum Ip {
    V4(u32),
    V6(u128),
}

/// A socket address to listen on.
#[derive(Clone, Copy, Debug, PartialEq, Eq, Structural)]
pub struct Endpoint {
    pub ip: Ip,
    pub port: u16,
}

/// A port of the container of a named object.
#[derive(Debug, PartialEq, Eq)]
pub struct Target {
    pub script: String,
    pub class_name: String,
    pub object_name: String,
    pub port: u16,
    /// Invoked on the object before every connection. It must answer with an
    /// empty 204 after starting the container.
    pub startup_path: String,
}

/// The mathematical value of a [`Target`].
pub struct TargetView {
    pub script: Seq<char>,
    pub class_name: Seq<char>,
    pub object_name: Seq<char>,
    pub port: u16,
    pub startup_path: Seq<char>,
}

impl View for Target {
    type V = TargetView;

    open spec fn view(&self) -> TargetView {
        TargetView {
            script: self.script@,
            class_name: self.class_name@,
            object_name: self.object_name@,
            port: self.port,
            startup_path: self.startup_path@,
        }
    }
}

impl Clone for Target {
    fn clone(&self) -> (copy: Self)
        ensures
            copy@ == self@,
    {
        Target {
            script: self.script.clone(),
            class_name: self.class_name.clone(),
            object_name: self.object_name.clone(),
            port: self.port,
            startup_path: self.startup_path.clone(),
        }
    }
}

impl Target {
    /// Whether two targets are one.
    pub fn same(&self, other: &Target) -> (same: bool)
        ensures
            same == (self@ == other@),
            same <==> self.script@ == other.script@ && self.class_name@ == other.class_name@ && self.object_name@
                == other.object_name@ && self.port == other.port && self.startup_path@ == other.startup_path@,
    {
        same_text(self.script.as_str(), other.script.as_str())
            && same_text(self.class_name.as_str(), other.class_name.as_str())
            && same_text(self.object_name.as_str(), other.object_name.as_str())
            && self.port == other.port
            && same_text(self.startup_path.as_str(), other.startup_path.as_str())
    }
}

/// What a node asks of the owner of a target.
#[derive(Debug, PartialEq, Eq)]
pub struct Establish {
    pub target: Target,
    /// The asking node hands the target over for want of capacity.
    pub capacity_handoff: bool,
}

/// The mathematical value of an [`Establish`].
pub struct EstablishView {
    pub target: TargetView,
    pub capacity_handoff: bool,
}

impl View for Establish {
    type V = EstablishView;

    open spec fn view(&self) -> EstablishView {
        EstablishView { target: self.target@, capacity_handoff: self.capacity_handoff }
    }
}

/// A listening address, the target behind it, and the limits between.
#[derive(Debug, PartialEq, Eq)]
pub struct MappingConfig {
    pub listen: Endpoint,
    pub target: Target,
    pub connect_timeout_ms: u64,
    pub max_connections: usize,
}

/// The mathematical value of a [`MappingConfig`].
pub struct MappingView {
    pub listen: Endpoint,
    pub target: TargetView,
    pub connect_timeout_ms: u64,
    pub max_connections: usize,
}

impl View for MappingConfig {
    type V = MappingView;

    open spec fn view(&self) -> MappingView {
        MappingView {
            listen: self.listen,
            target: self.target@,
            connect_timeout_ms: self.connect_timeout_ms,
            max_connections: self.max_connections,
        }
    }
}

impl Clone for MappingConfig {
    fn clone(&self) -> (copy: Self)
        ensures
            copy@ == self@,
    {
        MappingConfig {
            listen: self.listen,
            target: self.target.clone(),
            connect_timeout_ms: self.connect_timeout_ms,
            max_connections: self.max_connections,
        }
    }
}

impl MappingConfig {
    /// Whether two mappings are configured alike.
    pub fn same(&self, other: &MappingConfig) -> (same: bool)
        ensures
            same == (self@ == other@),
            same <==> self.listen == other.listen && self.target@ == other.target@ && self.connect_timeout_ms
                == other.connect_timeout_ms && self.max_connections == other.max_connections,
    {
        self.listen == other.listen && self.target.same(&other.target)
            && self.connect_timeout_ms == other.connect_timeout_ms
            && self.max_connections == other.max_connections
    }

    /// What the owner of the target is asked for.
    pub fn establish(&self, capacity_handoff: bool) -> (establish: Establish)
        ensures
            establish@ == (EstablishView { target: self@.target, capacity_handoff }),
            establish.target@ == self.target@,
            establish.capacity_handoff == capacity_handoff,
    {
        Establish { target: self.target.clone(), capacity_handoff }
    }
}

/// The values of a list of mappings.
pub open spec fn mappings_of(mappings: Seq<MappingConfig>) -> Seq<MappingView> {
    mappings.map_values(|mapping: MappingConfig| mapping@)
}

/// Targets, requests for them and mappings are seen with all of their fields, and
/// a list of mappings with all of its members.
pub proof fn mappings_are_seen_as_they_are(
    target: Target,
    establish: Establish,
    mapping: MappingConfig,
    mappings: Seq<MappingConfig>,
)
    ensures
        target@.script == target.script@,
        target@.class_name == target.class_name@,
        target@.object_name == target.object_name@,
        target@.port == target.port,
        target@.startup_path == target.startup_path@,
        establish@.target == establish.target@,
        establish@.capacity_handoff == establish.capacity_handoff,
        mapping@.listen == mapping.listen,
        mapping@.target == mapping.target@,
        mapping@.connect_timeout_ms == mapping.connect_timeout_ms,
        mapping@.max_connections == mapping.max_connections,
        mappings_of(mappings).len() == mappings.len(),
        forall|i: int| 0 <= i < mappings.len() ==> #[trigger] mappings_of(mappings)[i] == mappings[i]@,
{
}

} // verus!
