//! The node service: neighbour bookkeeping, query routing and key handoff.

use crate::dht::store::{entry_pairs, lists_exactly, pair_keys, Pairs, Store};
use crate::error::{Error, Result};
use crate::hash::{generate_hash64, hash64};
use crate::rpc::dht::{
    optional_bytes_view, EncodedQuery, KeyValueEntry, NeighborRegisterInfo, NeighborType,
    NeighborsView, NodeId, OperationType, PreviousNeighbors, Query, QueryResult, QueryResultView,
};
use crate::rpc::registry::Node;
use crate::text::{hex_text, signed_decimal_text, to_hex, to_signed_decimal};
use crate::{ccw_distance, owns, HashRing, NodeView};
use vstd::prelude::*;

verus! {

/// A neighbour on the ring.
#[derive(Debug)]
pub struct Neighbor {
    pub id: u64,
    pub addr: String,
}

impl View for Neighbor {
    type V = NodeView;

    open spec fn view(&self) -> NodeView {
        NodeView { id: self.id, addr: self.addr@ }
    }
}

/// The view of an optional neighbour.
pub open spec fn optional_neighbor_view(neighbor: Option<Neighbor>) -> Option<NodeView> {
    match neighbor {
        Some(neighbor) => Some(neighbor@),
        None => None,
    }
}

/// The two neighbour slots of a node. Both are empty while the node is alone
/// on the ring.
#[derive(Debug)]
pub struct NeighborConnections {
    pub prev: Option<Neighbor>,
    pub next: Option<Neighbor>,
}

impl View for NeighborConnections {
    type V = NeighborsView;

    open spec fn view(&self) -> NeighborsView {
        NeighborsView {
            prev: optional_neighbor_view(self.prev),
            next: optional_neighbor_view(self.next),
        }
    }
}

impl NeighborsView {
    /// No neighbour on either side.
    pub open spec fn alone() -> NeighborsView {
        NeighborsView { prev: None, next: None }
    }

    /// The same neighbours, with `node` as the predecessor.
    pub open spec fn with_predecessor(self, node: NodeView) -> NeighborsView {
        NeighborsView { prev: Some(node), next: self.next }
    }

    /// The same neighbours, with `node` as the successor.
    pub open spec fn with_successor(self, node: NodeView) -> NeighborsView {
        NeighborsView { prev: self.prev, next: Some(node) }
    }

    /// The neighbours of a node that has served a handshake: the caller sits
    /// in the slot that the tag names.
    pub open spec fn switched(self, ty: NeighborType, caller: NodeView) -> NeighborsView {
        match ty {
            NeighborType::Previous => self.with_predecessor(caller),
            NeighborType::Next => self.with_successor(caller),
        }
    }

    /// The neighbours of a node that has registered itself in the slot `ty`
    /// of `neighbor`: that neighbour sits in the opposite slot here.
    pub open spec fn registered(self, ty: NeighborType, neighbor: NodeView) -> NeighborsView {
        match ty {
            NeighborType::Next => self.with_predecessor(neighbor),
            NeighborType::Previous => self.with_successor(neighbor),
        }
    }
}

impl NeighborConnections {
    /// Both slots empty.
    pub fn new() -> (neighbors: Self)
        ensures
            neighbors@ == NeighborsView::alone(),
    {
        NeighborConnections { prev: None, next: None }
    }

    /// Stores `node` as the predecessor, replacing the one held before.
    pub fn adopt_predecessor(&mut self, node: Neighbor)
        ensures
            final(self)@ == old(self)@.with_predecessor(node@),
    {
        self.prev = Some(node);
    }

    /// Stores `node` as the successor, replacing the one held before.
    pub fn adopt_successor(&mut self, node: Neighbor)
        ensures
            final(self)@ == old(self)@.with_successor(node@),
    {
        self.next = Some(node);
    }
}

/// What executing a query against a store comes to.
pub enum Execution {
    /// The store answered, with the value it found or replaced, if any.
    Answered(Option<Seq<u8>>),
    /// The query failed in its own terms; the text says why.
    Rejected(Seq<char>),
    /// The operation code names no operation; the text says so.
    Unknown(Seq<char>),
}

/// The message for a SET that carries no value.
pub open spec fn missing_value_text() -> Seq<char> {
    "Value not provided."@
}

/// The message for a GET or DELETE of a key that is not bound.
pub open spec fn missing_key_text() -> Seq<char> {
    "Key not present in database."@
}

/// The message for an operation code that names no operation.
pub open spec fn invalid_operation_text(ty: i32) -> Seq<char> {
    "Operation type "@ + signed_decimal_text(ty as int) + " is not valid"@
}

/// The message for a handshake tag that names no slot.
pub open spec fn invalid_neighbor_text(ty: i32) -> Seq<char> {
    "Neighbor type "@ + signed_decimal_text(ty as int) + " is not valid"@
}

/// The message for a node that has a successor and no predecessor.
pub open spec fn missing_previous_text(id: u64) -> Seq<char> {
    "Missing previous neighbor on node "@ + hex_text(id as nat) + "."@
}

/// The value bound to `key`, if any.
pub open spec fn lookup(contents: Map<u64, Seq<u8>>, key: u64) -> Option<Seq<u8>> {
    if contents.contains_key(key) {
        Some(contents[key])
    } else {
        None
    }
}

/// The answer that a store holding `contents` gives to a query.
pub open spec fn execution(
    contents: Map<u64, Seq<u8>>,
    ty: i32,
    key: u64,
    value: Option<Seq<u8>>,
) -> Execution {
    match OperationType::decode(ty) {
        None => Execution::Unknown(invalid_operation_text(ty)),
        Some(OperationType::Put) => match value {
            None => Execution::Rejected(missing_value_text()),
            Some(_) => Execution::Answered(lookup(contents, key)),
        },
        Some(_) => if contents.contains_key(key) {
            Execution::Answered(Some(contents[key]))
        } else {
            Execution::Rejected(missing_key_text())
        },
    }
}

/// What a store holding `contents` holds after a query.
pub open spec fn contents_after(
    contents: Map<u64, Seq<u8>>,
    ty: i32,
    key: u64,
    value: Option<Seq<u8>>,
) -> Map<u64, Seq<u8>> {
    match (OperationType::decode(ty), value) {
        (Some(OperationType::Put), Some(bytes)) => contents.insert(key, bytes),
        (Some(OperationType::Delete), _) => contents.remove(key),
        _ => contents,
    }
}

/// The node `id` with these neighbours answers for `key` itself: it has no
/// successor, or the key lies between it and its successor.
pub open spec fn is_local(id: u64, neighbors: NeighborsView, key: u64) -> bool {
    neighbors.next matches Some(next) ==> owns(id, next.id, key)
}

/// The neighbour that a query for `key` is passed to: the predecessor if the
/// way backward from the node to the key is shorter than the way backward
/// from the key to the node, else the successor.
pub open spec fn forward_target(id: u64, neighbors: NeighborsView, key: u64) -> Option<NodeView> {
    if ccw_distance(id, key) < ccw_distance(key, id) {
        neighbors.prev
    } else {
        neighbors.next
    }
}

/// Where a query goes.
#[derive(Debug)]
pub enum Routing {
    /// The node owned the key and has executed the query.
    Local(QueryResult),
    /// The key belongs elsewhere: the unchanged query goes to this neighbour.
    Forward(Node),
}

/// `routing` is what the node `id` with these neighbours makes of a query,
/// its store holding `before` when the query comes and `after` when it is
/// done.
///
/// A node that answers for the key executes the query: a value it found or
/// replaced and a failure of the query in its own terms both travel back as
/// the result, an unknown operation fails the call. Any other node leaves
/// its store alone and names the neighbour to pass the query to; one that
/// has a successor and no predecessor fails the call.
pub open spec fn routes(
    id: u64,
    neighbors: NeighborsView,
    before: Map<u64, Seq<u8>>,
    after: Map<u64, Seq<u8>>,
    ty: i32,
    key: u64,
    value: Option<Seq<u8>>,
    routing: Result<Routing>,
) -> bool {
    if is_local(id, neighbors, key) {
        &&& after == contents_after(before, ty, key, value)
        &&& match execution(before, ty, key, value) {
            Execution::Answered(found) => routing matches Ok(Routing::Local(result)) && result@
                == (QueryResultView { value: found, error: None }),
            Execution::Rejected(text) => routing matches Ok(Routing::Local(result)) && result@
                == (QueryResultView { value: None, error: Some(text) }),
            Execution::Unknown(text) => routing matches Err(failure) && failure.is_internal(text),
        }
    } else {
        &&& after == before
        &&& match neighbors.prev {
            Some(_) => routing matches Ok(Routing::Forward(neighbor)) && Some(neighbor@)
                == forward_target(id, neighbors, key),
            None => routing matches Err(failure) && failure.is_internal(
                missing_previous_text(id),
            ),
        }
    }
}

/// The bindings that a list of entries in transit states.
pub open spec fn transfer_pairs(entries: Seq<KeyValueEntry>) -> Pairs {
    entries.map_values(|entry: KeyValueEntry| (entry.key, entry.value@))
}

/// The part of `contents` that the node `id` keeps once `target` has become
/// its successor: the keys between `id` and `target`.
pub open spec fn kept_contents(contents: Map<u64, Seq<u8>>, id: u64, target: u64) -> Map<
    u64,
    Seq<u8>,
> {
    contents.restrict(Set::new(|key: u64| owns(id, target, key)))
}

/// The part of `contents` that the node `id` hands to its new successor
/// `target`: every key that is not between `id` and `target`.
pub open spec fn moved_contents(contents: Map<u64, Seq<u8>>, id: u64, target: u64) -> Map<
    u64,
    Seq<u8>,
> {
    contents.restrict(Set::new(|key: u64| !owns(id, target, key)))
}

/// What a store holding `contents` holds after it has taken in `pairs`, one
/// after the other.
pub open spec fn absorbed(contents: Map<u64, Seq<u8>>, pairs: Pairs) -> Map<u64, Seq<u8>>
    decreases pairs.len(),
{
    if pairs.len() == 0 {
        contents
    } else {
        absorbed(contents, pairs.drop_last()).insert(pairs.last().0, pairs.last().1)
    }
}

/// How many times a connection is attempted before the join is given up.
pub const CONNECT_ATTEMPTS: u32 = 5;

/// Seconds to wait between two attempts to connect.
pub const RETRY_DELAY_SECS: u64 = 5;

/// How many entries of a key transfer may wait for a slow receiver.
pub const TRANSFER_BUFFER: usize = 100;

/// The message for a connection that no attempt could open.
pub open spec fn connection_failed_text() -> Seq<char> {
    "Connection to node failed."@
}

/// What to do after an attempt to connect.
#[derive(Debug)]
pub enum ConnectStep {
    /// The connection stands.
    Connected,
    /// Wait `delay_secs` seconds, then make the attempt numbered `attempt`.
    Retry { attempt: u32, delay_secs: u64 },
    /// Every attempt failed.
    Failed(Error),
}

/// What a joining node does next.
pub enum JoinStepView {
    Register { neighbor: NodeView, ty: NeighborType, caller: NodeView },
    TransferKeys { neighbor: NodeView, id: u64 },
    Done,
}

/// What a joining node does next.
#[derive(Debug)]
pub enum JoinStep {
    /// Send `neighbor` the handshake by which `caller` asks to be stored in
    /// its slot `ty`.
    Register { neighbor: Node, ty: NeighborType, caller: Node },
    /// Pull from `neighbor` the keys that now belong to this node.
    TransferKeys { neighbor: Node, request: NodeId },
    /// The node has joined.
    Done,
}

impl View for JoinStep {
    type V = JoinStepView;

    open spec fn view(&self) -> JoinStepView {
        match self {
            JoinStep::Register { neighbor, ty, caller } => JoinStepView::Register {
                neighbor: neighbor@,
                ty: *ty,
                caller: caller@,
            },
            JoinStep::TransferKeys { neighbor, request } => JoinStepView::TransferKeys {
                neighbor: neighbor@,
                id: request.id,
            },
            JoinStep::Done => JoinStepView::Done,
        }
    }
}

/// The node that a joiner takes for its successor: the one that its
/// rendezvous had before, or the rendezvous itself if that one was alone.
pub open spec fn successor_choice(previous: NeighborsView, rendezvous: NodeView) -> NodeView {
    match previous.next {
        Some(next) => next,
        None => rendezvous,
    }
}

/// What the joiner `node` does after `neighbor` has answered a handshake for
/// its slot `ty` with the neighbours `previous`, given the joiner's own
/// neighbours after that handshake. Registered as a successor, it registers
/// as the predecessor of the node it takes for its own successor; registered
/// as a predecessor too, it pulls its keys from its predecessor.
pub open spec fn next_join_step(
    node: NodeView,
    neighbors: NeighborsView,
    neighbor: NodeView,
    ty: NeighborType,
    previous: NeighborsView,
) -> JoinStepView {
    match ty {
        NeighborType::Next => JoinStepView::Register {
            neighbor: successor_choice(previous, neighbor),
            ty: NeighborType::Previous,
            caller: node,
        },
        NeighborType::Previous => match neighbors.prev {
            Some(prev) => JoinStepView::TransferKeys { neighbor: prev, id: node.id },
            None => JoinStepView::Done,
        },
    }
}

/// One node of the ring.
#[derive(Debug)]
pub struct DhtNodeService {
    pub id: u64,
    pub addr: String,
    pub store: Store,
    pub neighbors: NeighborConnections,
}

impl DhtNodeService {
    /// A node that is alone on the ring and holds nothing.
    pub fn new(id: u64, addr: String) -> (service: Self)
        ensures
            service.id == id,
            service.addr@ == addr@,
            service.store@ == Map::<u64, Seq<u8>>::empty(),
            service.neighbors@ == NeighborsView::alone(),
    {
        DhtNodeService { id, addr, store: Store::new(), neighbors: NeighborConnections::new() }
    }

    /// Identifier and address of the neighbour in a slot.
    pub fn get_node_info(node: &Option<Neighbor>) -> (info: Option<Node>)
        ensures
            crate::rpc::registry::optional_node_view(info) == optional_neighbor_view(*node),
    {
        match node {
            Some(neighbor) => Some(Node { id: neighbor.id, addr: neighbor.addr.clone() }),
            None => None,
        }
    }

    /// Stores the caller of a handshake in the slot that its tag names.
    pub fn switch_neighbor(&mut self, info: &NeighborRegisterInfo) -> (done: Result<()>)
        ensures
            final(self).id == old(self).id,
            final(self).addr == old(self).addr,
            final(self).store == old(self).store,
            match NeighborType::decode(info.ty) {
                Some(ty) => done is Ok && final(self).neighbors@ == old(self).neighbors@.switched(
                    ty,
                    NodeView { id: info.id, addr: info.addr@ },
                ),
                None => final(self).neighbors == old(self).neighbors && (done matches Err(failure)
                    && failure.is_internal(invalid_neighbor_text(info.ty))),
            },
    {
        let ty = match NeighborType::from_i32(info.ty) {
            Some(ty) => ty,
            None => {
                let message = String::from_str("Neighbor type ").concat(
                    to_signed_decimal(info.ty).as_str(),
                ).concat(" is not valid");
                return Err(Error::Internal(message));
            },
        };
        let neighbor = Neighbor { id: info.id, addr: info.addr.clone() };
        match ty {
            NeighborType::Previous => self.neighbors.adopt_predecessor(neighbor),
            NeighborType::Next => self.neighbors.adopt_successor(neighbor),
        }
        Ok(())
    }

    /// Serves a handshake: answers with the neighbours held before it and
    /// stores the caller in the slot that the tag names.
    pub fn register_as_neighbor(&mut self, request: &NeighborRegisterInfo) -> (reply: Result<
        PreviousNeighbors,
    >)
        ensures
            final(self).id == old(self).id,
            final(self).addr == old(self).addr,
            final(self).store == old(self).store,
            match NeighborType::decode(request.ty) {
                Some(ty) => (reply matches Ok(previous) && previous@ == old(self).neighbors@)
                    && final(self).neighbors@ == old(self).neighbors@.switched(
                    ty,
                    NodeView { id: request.id, addr: request.addr@ },
                ),
                None => final(self).neighbors == old(self).neighbors && (reply matches Err(failure)
                    && failure.is_internal(invalid_neighbor_text(request.ty))),
            },
    {
        let previous_neighbors = PreviousNeighbors {
            prev: Self::get_node_info(&self.neighbors.prev),
            next: Self::get_node_info(&self.neighbors.next),
        };
        match self.switch_neighbor(request) {
            Ok(()) => Ok(previous_neighbors),
            Err(failure) => Err(failure),
        }
    }

    /// Executes a query against this node's store.
    pub fn execute_query(&mut self, query: &EncodedQuery) -> (found: Result<Option<Vec<u8>>>)
        ensures
            final(self).id == old(self).id,
            final(self).addr == old(self).addr,
            final(self).neighbors == old(self).neighbors,
            final(self).store@ == contents_after(
                old(self).store@,
                query.ty,
                query.key,
                optional_bytes_view(query.value),
            ),
            match execution(
                old(self).store@,
                query.ty,
                query.key,
                optional_bytes_view(query.value),
            ) {
                Execution::Answered(value) => found matches Ok(bytes) && optional_bytes_view(bytes)
                    == value,
                Execution::Rejected(text) => found matches Err(failure) && failure.is_value(text),
                Execution::Unknown(text) => found matches Err(failure) && failure.is_internal(
                    text,
                ),
            },
    {
        let key = query.key;
        let ty = match OperationType::from_i32(query.ty) {
            Some(ty) => ty,
            None => {
                let message = String::from_str("Operation type ").concat(
                    to_signed_decimal(query.ty).as_str(),
                ).concat(" is not valid");
                return Err(Error::Internal(message));
            },
        };
        match ty {
            OperationType::Put => {
                match &query.value {
                    None => Err(Error::Value(String::from_str("Value not provided."))),
                    Some(value) => Ok(self.store.set(&key, value.as_slice())),
                }
            },
            OperationType::Get => {
                let result = self.store.get(&key);
                match result {
                    None => Err(Error::Value(String::from_str("Key not present in database."))),
                    Some(_) => Ok(result),
                }
            },
            OperationType::Delete => {
                let result = self.store.delete(&key);
                match result {
                    None => {
                        assert(self.store@ =~= old(self).store@);
                        Err(Error::Value(String::from_str("Key not present in database.")))
                    },
                    Some(_) => Ok(result),
                }
            },
        }
    }

    /// Routes a query whose key is hashed already: executes it here if this
    /// node owns the key, else names the neighbour to pass it to.
    pub fn forward_query(&mut self, request: &EncodedQuery) -> (routing: Result<Routing>)
        ensures
            final(self).id == old(self).id,
            final(self).addr == old(self).addr,
            final(self).neighbors == old(self).neighbors,
            routes(
                old(self).id,
                old(self).neighbors@,
                old(self).store@,
                final(self).store@,
                request.ty,
                request.key,
                optional_bytes_view(request.value),
                routing,
            ),
    {
        let key = request.key;
        let is_node_key = match &self.neighbors.next {
            Some(next_neighbor) => HashRing::is_node_key(self.id, next_neighbor.id, key),
            None => true,
        };
        if is_node_key {
            return match self.execute_query(request) {
                Ok(value) => Ok(Routing::Local(QueryResult { value, error: None })),
                Err(Error::Value(text)) => Ok(
                    Routing::Local(QueryResult { value: None, error: Some(text) }),
                ),
                Err(failure) => Err(failure),
            };
        }
        let prev_neighbor = match &self.neighbors.prev {
            Some(prev_neighbor) => prev_neighbor,
            None => {
                let message = String::from_str("Missing previous neighbor on node ").concat(
                    to_hex(self.id).as_str(),
                ).concat(".");
                return Err(Error::Internal(message));
            },
        };
        let forwarding_neighbor = if HashRing::counter_clockwise_distance(self.id, key)
            < HashRing::counter_clockwise_distance(key, self.id) {
            prev_neighbor
        } else {
            match &self.neighbors.next {
                Some(next_neighbor) => next_neighbor,
                None => prev_neighbor,
            }
        };
        Ok(
            Routing::Forward(
                Node { id: forwarding_neighbor.id, addr: forwarding_neighbor.addr.clone() },
            ),
        )
    }

    /// Routes a query as a client states it: hashes the key onto the ring,
    /// then routes the encoded query.
    pub fn query_dht(&mut self, request: &Query) -> (routing: Result<(EncodedQuery, Routing)>)
        ensures
            final(self).id == old(self).id,
            final(self).addr == old(self).addr,
            final(self).neighbors == old(self).neighbors,
            routing matches Ok((encoded, _)) ==> encoded.ty == request.ty && encoded.key == hash64(
                request.key@,
            ) && optional_bytes_view(encoded.value) == optional_bytes_view(request.value),
            routes(
                old(self).id,
                old(self).neighbors@,
                old(self).store@,
                final(self).store@,
                request.ty,
                hash64(request.key@),
                optional_bytes_view(request.value),
                match routing {
                    Ok((_, routed)) => Ok(routed),
                    Err(failure) => Err(failure),
                },
            ),
    {
        let key = match generate_hash64(request.key.as_slice()) {
            Ok(key) => key,
            Err(failure) => {
                return Err(failure);
            },
        };
        let encoded = EncodedQuery { ty: request.ty, key, value: request.value.clone() };
        match self.forward_query(&encoded) {
            Ok(routing) => Ok((encoded, routing)),
            Err(failure) => Err(failure),
        }
    }

    /// Serves a key pull from the node `request.id`, which has become this
    /// node's successor: removes from the store every binding whose key no
    /// longer lies between this node and that successor, and returns them.
    pub fn transfer_keys(&mut self, request: &NodeId) -> (entries: Vec<KeyValueEntry>)
        ensures
            final(self).id == old(self).id,
            final(self).addr == old(self).addr,
            final(self).neighbors == old(self).neighbors,
            final(self).store@ == kept_contents(old(self).store@, old(self).id, request.id),
            lists_exactly(
                transfer_pairs(entries@),
                moved_contents(old(self).store@, old(self).id, request.id),
            ),
    {
        let prev_id = self.id;
        let id = request.id;
        let is_moved = |key: u64| -> (moved: bool)
            ensures
                moved == !owns(prev_id, id, key),
            { !HashRing::is_node_key(prev_id, id, key) };
        let mut found = self.store.get_entries_satisfy(is_moved);
        let ghost all = entry_pairs(found@);
        let ghost before = self.store@;
        let mut entries: Vec<KeyValueEntry> = Vec::new();
        proof {
            assert forall|i: int| 0 <= i < all.len() implies before.contains_key(
                #[trigger] all[i].0,
            ) && before[all[i].0] == all[i].1 && !owns(prev_id, id, all[i].0) by {
                assert(before.contains_key(found@[i].0));
            }
        }
        while found.len() > 0
            invariant
                self.id == old(self).id,
                self.addr == old(self).addr,
                self.neighbors == old(self).neighbors,
                before == old(self).store@,
                found@.len() + entries@.len() == all.len(),
                entry_pairs(found@) == all.subrange(0, found@.len() as int),
                forall|i: int|
                    0 <= i < entries@.len() ==> (#[trigger] transfer_pairs(entries@)[i])
                        == all[all.len() - 1 - i],
                pair_keys(all).no_duplicates(),
                forall|i: int|
                    0 <= i < all.len() ==> before.contains_key(#[trigger] all[i].0)
                        && before[all[i].0] == all[i].1 && !owns(prev_id, id, all[i].0),
                forall|key: u64| #[trigger]
                    before.contains_key(key) ==> pair_keys(all).contains(key) || owns(
                        prev_id,
                        id,
                        key,
                    ),
                forall|key: u64|
                    self.store@.contains_key(key) <==> before.contains_key(key) && !(exists|
                        i: int,
                    |
                        found@.len() <= i < all.len() && #[trigger] all[i].0 == key),
                forall|key: u64|
                    self.store@.contains_key(key) ==> self.store@[key] == before[key],
            decreases found.len(),
        {
            let ghost rest = found@.len() - 1;
            let ghost shorter = entry_pairs(found@);
            let entry = found.pop().unwrap();
            let key = entry.0;
            let value = entry.1;
            proof {
                assert(shorter[rest] == all[rest]);
                assert(entry_pairs(found@) =~= all.subrange(0, rest));
            }
            let ghost sent = entries@;
            self.store.delete(&key);
            entries.push(KeyValueEntry { key, value });
            proof {
                assert forall|i: int| 0 <= i < entries@.len() implies (#[trigger] transfer_pairs(
                    entries@,
                )[i]) == all[all.len() - 1 - i] by {
                    if i < sent.len() {
                        assert(transfer_pairs(sent)[i] == all[all.len() - 1 - i]);
                        assert(sent[i] == entries@[i]);
                    }
                }
                assert forall|other: u64|
                    self.store@.contains_key(other) <==> before.contains_key(other) && !(exists|
                        i: int,
                    |
                        found@.len() <= i < all.len() && #[trigger] all[i].0 == other) by {
                    if other == key {
                        assert(all[rest].0 == key);
                    } else {
                        if exists|i: int| rest <= i < all.len() && #[trigger] all[i].0 == other {
                            let i = choose|i: int|
                                rest <= i < all.len() && #[trigger] all[i].0 == other;
                            assert(i != rest);
                            assert(rest + 1 <= i < all.len() && all[i].0 == other);
                        }
                    }
                }
            }
        }
        proof {
            let moved = moved_contents(before, prev_id, id);
            let pairs = transfer_pairs(entries@);
            let n = all.len() as int;
            assert(pairs.len() == n);
            assert forall|i: int, j: int|
                0 <= i < n && 0 <= j < n && i != j implies pair_keys(pairs)[i] != pair_keys(
                pairs,
            )[j] by {
                assert(pairs[i] == all[n - 1 - i]);
                assert(pairs[j] == all[n - 1 - j]);
                assert(pair_keys(all)[n - 1 - i] == all[n - 1 - i].0);
                assert(pair_keys(all)[n - 1 - j] == all[n - 1 - j].0);
            }
            assert forall|i: int| 0 <= i < pairs.len() implies moved.contains_key(
                #[trigger] pairs[i].0,
            ) && moved[pairs[i].0] == pairs[i].1 by {
                assert(pairs[i] == all[n - 1 - i]);
                assert(before.contains_key(all[n - 1 - i].0));
            }
            assert forall|key: u64| #[trigger] moved.contains_key(key) implies pair_keys(
                pairs,
            ).contains(key) by {
                assert(before.contains_key(key));
                assert(pair_keys(all).contains(key));
                let j = choose|j: int| 0 <= j < n && pair_keys(all)[j] == key;
                assert(pairs[n - 1 - j] == all[j]);
                assert(pair_keys(pairs)[n - 1 - j] == key);
            }
            assert(self.store@ =~= kept_contents(before, prev_id, id)) by {
                assert forall|key: u64|
                    self.store@.contains_key(key) <==> kept_contents(
                        before,
                        prev_id,
                        id,
                    ).contains_key(key) by {
                    if before.contains_key(key) && !owns(prev_id, id, key) {
                        assert(pair_keys(all).contains(key));
                        let j = choose|j: int| 0 <= j < n && pair_keys(all)[j] == key;
                        assert(all[j].0 == key);
                    }
                }
            }
        }
        entries
    }

    /// Takes in the bindings that a key pull has brought, one after the
    /// other.
    pub fn get_keys_from_neighbor(store: &mut Store, entries: &Vec<KeyValueEntry>)
        ensures
            final(store)@ == absorbed(old(store)@, transfer_pairs(entries@)),
    {
        let mut i: usize = 0;
        while i < entries.len()
            invariant
                0 <= i <= entries@.len(),
                store@ == absorbed(old(store)@, transfer_pairs(entries@.subrange(0, i as int))),
            decreases entries@.len() - i,
        {
            let entry = &entries[i];
            proof {
                let taken = transfer_pairs(entries@.subrange(0, i + 1));
                assert(taken.drop_last() =~= transfer_pairs(entries@.subrange(0, i as int)));
                assert(taken.last() == (entry.key, entry.value@));
            }
            store.set(&entry.key, entry.value.as_slice());
            i += 1;
        }
        proof {
            assert(entries@.subrange(0, i as int) =~= entries@);
        }
    }

    /// Decides what follows the attempt numbered `attempt` (the first is 1)
    /// to connect to a node: nothing if it succeeded, another attempt after a
    /// pause if fewer than five were made, else failure.
    pub fn try_connect_node(attempt: u32, connected: bool) -> (step: ConnectStep)
        ensures
            connected ==> step is Connected,
            !connected && attempt < CONNECT_ATTEMPTS ==> (step matches ConnectStep::Retry {
                attempt: following,
                delay_secs,
            } && following == attempt + 1 && delay_secs == RETRY_DELAY_SECS),
            !connected && attempt >= CONNECT_ATTEMPTS ==> (step matches ConnectStep::Failed(
                failure,
            ) && failure.is_internal(connection_failed_text())),
    {
        if connected {
            ConnectStep::Connected
        } else if attempt < CONNECT_ATTEMPTS {
            ConnectStep::Retry { attempt: attempt + 1, delay_secs: RETRY_DELAY_SECS }
        } else {
            ConnectStep::Failed(Error::Internal(String::from_str("Connection to node failed.")))
        }
    }

    /// The handshake by which `node` asks to be stored in a slot `ty`.
    pub fn handshake(node: &Node, ty: NeighborType) -> (request: NeighborRegisterInfo)
        ensures
            request.ty == ty.code(),
            NeighborType::decode(request.ty) == Some(ty),
            request.id == node.id,
            request.addr@ == node.addr@,
    {
        NeighborRegisterInfo { ty: ty.into_i32(), id: node.id, addr: node.addr.clone() }
    }

    /// Begins the join of `node` through the rendezvous `prev_neighbor`: the
    /// first step is to register as that node's successor.
    pub fn setup_connections(node: &Node, prev_neighbor: &Node) -> (step: JoinStep)
        ensures
            step@ == (JoinStepView::Register {
                neighbor: prev_neighbor@,
                ty: NeighborType::Next,
                caller: node@,
            }),
    {
        JoinStep::Register {
            neighbor: prev_neighbor.clone(),
            ty: NeighborType::Next,
            caller: node.clone(),
        }
    }

    /// Records that `neighbor` has stored this node in its slot `ty`: that
    /// neighbour takes the opposite slot here.
    pub fn register_on_neighbor(
        neighbors: &mut NeighborConnections,
        neighbor: &Node,
        ty: NeighborType,
    )
        ensures
            final(neighbors)@ == old(neighbors)@.registered(ty, neighbor@),
    {
        let adopted = Neighbor { id: neighbor.id, addr: neighbor.addr.clone() };
        match ty {
            NeighborType::Next => neighbors.adopt_predecessor(adopted),
            NeighborType::Previous => neighbors.adopt_successor(adopted),
        }
    }

    /// Continues the join of `node` after `neighbor` has answered the
    /// handshake for its slot `ty` with `previous_neighbors`: records the
    /// neighbour and names the next step.
    pub fn connect_to_neighbors(
        node: &Node,
        neighbors: &mut NeighborConnections,
        neighbor: &Node,
        ty: NeighborType,
        previous_neighbors: &PreviousNeighbors,
    ) -> (step: JoinStep)
        ensures
            final(neighbors)@ == old(neighbors)@.registered(ty, neighbor@),
            step@ == next_join_step(
                node@,
                final(neighbors)@,
                neighbor@,
                ty,
                previous_neighbors@,
            ),
    {
        Self::register_on_neighbor(neighbors, neighbor, ty);
        match ty {
            NeighborType::Next => {
                let next_neighbor = match &previous_neighbors.next {
                    Some(next) => next.clone(),
                    None => neighbor.clone(),
                };
                JoinStep::Register {
                    neighbor: next_neighbor,
                    ty: NeighborType::Previous,
                    caller: node.clone(),
                }
            },
            NeighborType::Previous => match Self::get_node_info(&neighbors.prev) {
                Some(prev_neighbor) => JoinStep::TransferKeys {
                    neighbor: prev_neighbor,
                    request: NodeId { id: node.id },
                },
                None => JoinStep::Done,
            },
        }
    }
}

} // verus!
