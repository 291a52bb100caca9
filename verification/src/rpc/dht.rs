//! Messages of the node service.

use crate::rpc::registry::{optional_node_view, Node};
use crate::NodeView;
use vstd::prelude::*;

verus! {

/// The slot of the receiver that a handshake asks to be stored in.
#[derive(Debug, Clone, Copy, PartialEq, Eq, Structural)]
pub enum NeighborType {
    Previous,
    Next,
}

impl NeighborType {
    /// The tag that stands for this slot on the wire.
    pub open spec fn code(self) -> i32 {
        match self {
            NeighborType::Previous => 0,
            NeighborType::Next => 1,
        }
    }

    /// The slot that a wire tag stands for.
    pub open spec fn decode(value: i32) -> Option<NeighborType> {
        if value == 0 {
            Some(NeighborType::Previous)
        } else if value == 1 {
            Some(NeighborType::Next)
        } else {
            None
        }
    }

    pub fn from_i32(value: i32) -> (ty: Option<NeighborType>)
        ensures
            ty == Self::decode(value),
    {
        if value == 0 {
            Some(NeighborType::Previous)
        } else if value == 1 {
            Some(NeighborType::Next)
        } else {
            None
        }
    }

    pub fn into_i32(self) -> (value: i32)
        ensures
            value == self.code(),
            Self::decode(value) == Some(self),
    {
        match self {
            NeighborType::Previous => 0,
            NeighborType::Next => 1,
        }
    }
}

/// What a query does to the store.
#[derive(Debug, Clone, Copy, PartialEq, Eq, Structural)]
pub enum OperationType {
    Put,
    Get,
    Delete,
}

impl OperationType {
    /// The tag that stands for this operation on the wire.
    pub open spec fn code(self) -> i32 {
        match self {
            OperationType::Put => 0,
            OperationType::Get => 1,
            OperationType::Delete => 2,
        }
    }

    /// The operation that a wire tag stands for.
    pub open spec fn decode(value: i32) -> Option<OperationType> {
        if value == 0 {
            Some(OperationType::Put)
        } else if value == 1 {
            Some(OperationType::Get)
        } else if value == 2 {
            Some(OperationType::Delete)
        } else {
            None
        }
    }

    pub fn from_i32(value: i32) -> (ty: Option<OperationType>)
        ensures
            ty == Self::decode(value),
    {
        if value == 0 {
            Some(OperationType::Put)
        } else if value == 1 {
            Some(OperationType::Get)
        } else if value == 2 {
            Some(OperationType::Delete)
        } else {
            None
        }
    }

    pub fn into_i32(self) -> (value: i32)
        ensures
            value == self.code(),
            Self::decode(value) == Some(self),
    {
        match self {
            OperationType::Put => 0,
            OperationType::Get => 1,
            OperationType::Delete => 2,
        }
    }
}

/// A handshake: the caller asks to be stored in the receiver's slot `ty`.
#[derive(Debug)]
pub struct NeighborRegisterInfo {
    pub ty: i32,
    pub id: u64,
    pub addr: String,
}

/// The two neighbours of a node, each known or not.
pub struct NeighborsView {
    pub prev: Option<NodeView>,
    pub next: Option<NodeView>,
}

/// The neighbours a node had before a handshake changed them.
#[derive(Debug)]
pub struct PreviousNeighbors {
    pub prev: Option<Node>,
    pub next: Option<Node>,
}

impl View for PreviousNeighbors {
    type V = NeighborsView;

    open spec fn view(&self) -> NeighborsView {
        NeighborsView { prev: optional_node_view(self.prev), next: optional_node_view(self.next) }
    }
}

/// The view of optional bytes.
pub open spec fn optional_bytes_view(bytes: Option<Vec<u8>>) -> Option<Seq<u8>> {
    match bytes {
        Some(bytes) => Some(bytes@),
        None => None,
    }
}

/// The view of an optional string.
pub open spec fn optional_text_view(text: Option<String>) -> Option<Seq<char>> {
    match text {
        Some(text) => Some(text@),
        None => None,
    }
}

/// A query as a client states it, with the key still in raw bytes.
#[derive(Debug)]
pub struct Query {
    pub ty: i32,
    pub key: Vec<u8>,
    pub value: Option<Vec<u8>>,
}

/// A query with its key hashed onto the ring: the form that is routed.
#[derive(Debug)]
pub struct EncodedQuery {
    pub ty: i32,
    pub key: u64,
    pub value: Option<Vec<u8>>,
}

/// The answer to a query.
pub struct QueryResultView {
    pub value: Option<Seq<u8>>,
    pub error: Option<Seq<char>>,
}

/// The answer to a query: the value it found or replaced, or the reason it
/// failed. Neither means that no value was there before.
#[derive(Debug)]
pub struct QueryResult {
    pub value: Option<Vec<u8>>,
    pub error: Option<String>,
}

impl View for QueryResult {
    type V = QueryResultView;

    open spec fn view(&self) -> QueryResultView {
        QueryResultView {
            value: optional_bytes_view(self.value),
            error: optional_text_view(self.error),
        }
    }
}

/// Names the node that asks for its share of the keys.
#[derive(Debug)]
pub struct NodeId {
    pub id: u64,
}

/// One binding in transit between two stores.
#[derive(Debug)]
pub struct KeyValueEntry {
    pub key: u64,
    pub value: Vec<u8>,
}

} // verus!
