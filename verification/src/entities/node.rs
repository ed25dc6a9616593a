//! Nodes: one vertex of the graph per artifact.

use crate::utils::ident::{fresh_id, is_uuid_text};
use crate::utils::text::{lemma_without_set, other_than, position_of, without};
use vstd::prelude::*;

verus! {

/// What kind of artifact a node stands for.
#[derive(Debug, Clone, PartialEq, Eq, Hash)]
pub enum NodeType {
    Repository,
    File,
    Function,
    Struct,
    Module,
    Protocol,
    Model,
    Interface,
    Custom(String),
}

/// Free-form facts about a node. `properties` pairs a key with a JSON text.
#[derive(Debug, Clone)]
pub struct NodeMetadata {
    pub language: String,
    pub signature: Option<String>,
    pub documentation: Option<String>,
    pub dependencies: Vec<String>,
    pub properties: Vec<(String, String)>,
}

impl NodeMetadata {
    /// Nothing is known yet.
    pub open spec fn is_empty(&self) -> bool {
        &&& self.language@.len() == 0
        &&& self.signature is None
        &&& self.documentation is None
        &&& self.dependencies@.len() == 0
        &&& self.properties@.len() == 0
    }
}

/// A vertex of the graph. `children` is a set kept as a list: the order is
/// that of insertion and no identifier is listed twice. A node's own
/// `parent_id` decides where traversal finds it; `children` is advisory.
#[derive(Debug, Clone)]
pub struct Node {
    pub id: String,
    pub name: String,
    pub node_type: NodeType,
    pub source_path: String,
    pub hash: String,
    pub depth: usize,
    pub parent_id: Option<String>,
    pub children: Vec<String>,
    pub metadata: NodeMetadata,
}

impl Node {
    /// The identifiers of the children, as a set.
    pub open spec fn child_set(&self) -> Set<Seq<char>> {
        self.children.deep_view().to_set()
    }

    /// No child is listed twice.
    pub open spec fn wf(&self) -> bool {
        self.children.deep_view().no_duplicates()
    }

    /// A node as `new` leaves it, whatever its identity: no content hash, depth
    /// zero, no parent, no children, empty metadata.
    pub open spec fn is_unlinked(&self) -> bool {
        &&& self.hash@.len() == 0
        &&& self.depth == 0
        &&& self.parent_id is None
        &&& self.children@.len() == 0
        &&& self.metadata.is_empty()
    }

    /// A node with a fresh random identifier.
    pub fn new(name: String, node_type: NodeType, source_path: String) -> (node: Node)
        ensures
            is_uuid_text(node.id@),
            node.name == name,
            node.node_type == node_type,
            node.source_path == source_path,
            node.is_unlinked(),
            node.wf(),
    {
        Self::with_id(fresh_id(), name, node_type, source_path)
    }

    /// A node with the identifier given.
    pub fn with_id(id: String, name: String, node_type: NodeType, source_path: String) -> (node:
        Node)
        ensures
            node.id == id,
            node.name == name,
            node.node_type == node_type,
            node.source_path == source_path,
            node.is_unlinked(),
            node.wf(),
    {
        Node {
            id,
            name,
            node_type,
            source_path,
            hash: String::new(),
            depth: 0,
            parent_id: None,
            children: Vec::new(),
            metadata: NodeMetadata {
                language: String::new(),
                signature: None,
                documentation: None,
                dependencies: Vec::new(),
                properties: Vec::new(),
            },
        }
    }

    /// Adds `child_id` to the children unless it is there already.
    pub fn add_child(&mut self, child_id: String)
        ensures
            final(self).child_set() == old(self).child_set().insert(child_id@),
            final(self).children.deep_view() == if old(self).children.deep_view().contains(
                child_id@,
            ) {
                old(self).children.deep_view()
            } else {
                old(self).children.deep_view().push(child_id@)
            },
            old(self).wf() ==> final(self).wf(),
            *final(self) == (Node { children: final(self).children, ..*old(self) }),
    {
        let ghost before = self.children.deep_view();
        match position_of(self.children.as_slice(), child_id.as_str()) {
            Some(at) => {
                proof {
                    assert(before[at as int] == child_id@);
                    assert(before.to_set() =~= before.to_set().insert(child_id@));
                }
            },
            None => {
                self.children.push(child_id);
                proof {
                    assert(self.children.deep_view() =~= before.push(child_id@));
                    before.lemma_push_to_set_commute(child_id@);
                }
            },
        }
    }

    /// Takes `child_id` out of the children; the others keep their order.
    pub fn remove_child(&mut self, child_id: &str)
        ensures
            final(self).children.deep_view() == old(self).children.deep_view().filter(
                other_than(child_id@),
            ),
            final(self).child_set() == old(self).child_set().remove(child_id@),
            old(self).wf() ==> final(self).wf(),
            *final(self) == (Node { children: final(self).children, ..*old(self) }),
    {
        let kept = without(self.children.as_slice(), child_id);
        proof {
            lemma_without_set(self.children.deep_view(), child_id@);
        }
        self.children = kept;
    }

    pub fn with_hash(self, hash: String) -> (node: Node)
        ensures
            node == (Node { hash, ..self }),
    {
        let mut node = self;
        node.hash = hash;
        node
    }

    pub fn with_depth(self, depth: usize) -> (node: Node)
        ensures
            node == (Node { depth, ..self }),
    {
        let mut node = self;
        node.depth = depth;
        node
    }
}

} // verus!
