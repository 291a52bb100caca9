//! The registry service: registration of newcomers and the member list.

use crate::error::Result;
use crate::hash::{clock_failure_text, hash64, salted_text};
use crate::registry::manager::{is_rendezvous, Manager};
use crate::rpc::registry::{optional_node_view, ConnectionAddr, Node, Nodes, RegisterInfo};
use crate::NodeView;
use vstd::prelude::*;
use vstd::utf8::encode_utf8;

verus! {

/// The views of a list of nodes.
pub open spec fn node_views(nodes: Seq<Node>) -> Seq<NodeView> {
    nodes.map_values(|node: Node| node@)
}

/// `info` is what the registry, holding `members` after the registration,
/// answers to the newcomer: its identifier and its rendezvous.
pub open spec fn answers_registration(info: RegisterInfo, members: Seq<NodeView>) -> bool {
    is_rendezvous(members, info.id, optional_node_view(info.neighbor))
}

#[derive(Debug)]
pub struct RegistryService {
    manager: Manager,
}

impl View for RegistryService {
    type V = Seq<NodeView>;

    closed spec fn view(&self) -> Seq<NodeView> {
        self.manager@
    }
}

impl RegistryService {
    pub fn new() -> (service: Self)
        ensures
            service@ == Seq::<NodeView>::empty(),
    {
        RegistryService { manager: Manager::new() }
    }

    /// Registers the node at `request.addr` at the time `nanos` and answers
    /// with its identifier and the member to join through.
    pub fn register_node_at(&mut self, request: &ConnectionAddr, nanos: u128) -> (info: Result<
        RegisterInfo,
    >)
        ensures
            info matches Ok(registered) && registered.id == hash64(
                encode_utf8(salted_text(request.addr@, nanos)),
            ) && final(self)@ == old(self)@.push(
                NodeView { id: registered.id, addr: request.addr@ },
            ) && answers_registration(registered, final(self)@),
    {
        let id = match self.manager.register_node_at(request.addr.clone(), nanos) {
            Ok(id) => id,
            Err(failure) => {
                return Err(failure);
            },
        };
        self.answer(id)
    }

    /// Registers the node at `request.addr` and answers with its identifier
    /// and the member to join through.
    pub fn register_node(&mut self, request: &ConnectionAddr) -> (info: Result<RegisterInfo>)
        ensures
            match info {
                Ok(registered) => final(self)@ == old(self)@.push(
                    NodeView { id: registered.id, addr: request.addr@ },
                ) && answers_registration(registered, final(self)@) && exists|nanos: u128|
                    registered.id == hash64(
                        encode_utf8(#[trigger] salted_text(request.addr@, nanos)),
                    ),
                Err(failure) => final(self)@ == old(self)@ && failure.is_internal(
                    clock_failure_text(),
                ),
            },
    {
        let id = match self.manager.register_node(request.addr.clone()) {
            Ok(id) => id,
            Err(failure) => {
                return Err(failure);
            },
        };
        self.answer(id)
    }

    fn answer(&self, id: u64) -> (info: Result<RegisterInfo>)
        ensures
            info matches Ok(registered) && registered.id == id && answers_registration(
                registered,
                self@,
            ),
    {
        let neighbor = match self.manager.find_closest_neighbor(id) {
            Ok(Some(node)) => Some(Node { id: node.id, addr: node.addr }),
            Ok(None) => None,
            Err(failure) => {
                return Err(failure);
            },
        };
        Ok(RegisterInfo { id, neighbor })
    }

    /// Every member, in the order of registration.
    pub fn get_connected_nodes(&self) -> (nodes: Result<Nodes>)
        ensures
            nodes matches Ok(list) && node_views(list.nodes@) == self@,
    {
        let members = match self.manager.get_nodes() {
            Ok(members) => members,
            Err(failure) => {
                return Err(failure);
            },
        };
        let mut nodes: Vec<Node> = Vec::new();
        let mut i: usize = 0;
        while i < members.len()
            invariant
                0 <= i <= members@.len(),
                nodes@.len() == i,
                forall|j: int| 0 <= j < i ==> (#[trigger] nodes@[j])@ == members@[j]@,
            decreases members@.len() - i,
        {
            let member = &members[i];
            nodes.push(Node { id: member.id, addr: member.addr.clone() });
            i += 1;
        }
        assert(node_views(nodes@) =~= crate::registry::manager::member_views(members@));
        Ok(Nodes { nodes })
    }
}

} // verus!
