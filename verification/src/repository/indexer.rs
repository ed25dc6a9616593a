//! An index of nodes by the label of their type.

use crate::entities::node::{Node, NodeType};
use crate::utils::text::{contains, is_substring};
use vstd::prelude::*;

verus! {

impl NodeType {
    /// The label of the type: its name in lowercase, or what a custom type is
    /// called.
    pub open spec fn label(&self) -> Seq<char> {
        match self {
            NodeType::Repository => "repository"@,
            NodeType::File => "file"@,
            NodeType::Function => "function"@,
            NodeType::Struct => "struct"@,
            NodeType::Module => "module"@,
            NodeType::Protocol => "protocol"@,
            NodeType::Model => "model"@,
            NodeType::Interface => "interface"@,
            NodeType::Custom(name) => name@,
        }
    }

    /// The label of the type as text.
    pub fn to_string(&self) -> (text: String)
        ensures
            text@ == self.label(),
    {
        match self {
            NodeType::Repository => "repository".to_owned(),
            NodeType::File => "file".to_owned(),
            NodeType::Function => "function".to_owned(),
            NodeType::Struct => "struct".to_owned(),
            NodeType::Module => "module".to_owned(),
            NodeType::Protocol => "protocol".to_owned(),
            NodeType::Model => "model".to_owned(),
            NodeType::Interface => "interface".to_owned(),
            NodeType::Custom(name) => name.clone(),
        }
    }
}

/// A label with the nodes filed under it.
pub type Group = (Seq<char>, Seq<Node>);

/// The first place in `groups` that holds the group of `label`, or the length
/// of `groups` where none does.
pub open spec fn place_of(groups: Seq<Group>, label: Seq<char>) -> int
    decreases groups.len(),
{
    if groups.len() == 0 {
        0
    } else if groups.first().0 == label {
        0
    } else {
        1 + place_of(groups.drop_first(), label)
    }
}

/// `groups` with `node` filed under the label of its type: at the end of the
/// group of that label, or as a new group at the end where there was none.
pub open spec fn filed(groups: Seq<Group>, node: Node) -> Seq<Group> {
    let label = node.node_type.label();
    let at = place_of(groups, label);
    if at < groups.len() {
        groups.update(at, (label, groups[at].1.push(node)))
    } else {
        groups.push((label, seq![node]))
    }
}

/// The nodes filed under `label`: none where nothing is.
pub open spec fn filed_under(groups: Seq<Group>, label: Seq<char>) -> Seq<Node> {
    let at = place_of(groups, label);
    if at < groups.len() {
        groups[at].1
    } else {
        Seq::empty()
    }
}

/// The test that holds of a node whose name holds `name`.
pub open spec fn is_named_like(name: Seq<char>) -> spec_fn(Node) -> bool {
    |node: Node| is_substring(node.name@, name)
}

/// The nodes of all groups whose name holds `name`, group by group.
pub open spec fn named_like(groups: Seq<Group>, name: Seq<char>) -> Seq<Node>
    decreases groups.len(),
{
    if groups.len() == 0 {
        Seq::empty()
    } else {
        named_like(groups.drop_last(), name) + groups.last().1.filter(is_named_like(name))
    }
}

/// What the references in `found` point at.
pub open spec fn referents(found: Seq<&Node>) -> Seq<Node> {
    found.map_values(|node: &Node| *node)
}

/// Where `place_of` points, the group is that of the label.
pub proof fn lemma_place_of(groups: Seq<Group>, label: Seq<char>)
    ensures
        0 <= place_of(groups, label) <= groups.len(),
        place_of(groups, label) < groups.len() ==> groups[place_of(groups, label)].0 == label,
    decreases groups.len(),
{
    if groups.len() > 0 && groups.first().0 != label {
        lemma_place_of(groups.drop_first(), label);
    }
}

/// The index. The groups stand in the order in which their labels were first
/// met, the nodes of a group in the order in which they were indexed.
pub struct Indexer {
    index: Vec<(String, Vec<Node>)>,
}

impl Indexer {
    /// The groups of the index.
    pub closed spec fn groups(&self) -> Seq<Group> {
        self.index@.map_values(|group: (String, Vec<Node>)| (group.0@, group.1@))
    }

    pub fn new() -> (indexer: Indexer)
        ensures
            indexer.groups().len() == 0,
    {
        Indexer { index: Vec::new() }
    }

    /// Where the group of `label` stands.
    fn find(&self, label: &str) -> (found: Option<usize>)
        ensures
            match found {
                Some(at) => at == place_of(self.groups(), label@) && at < self.groups().len(),
                None => place_of(self.groups(), label@) == self.groups().len(),
            },
    {
        let key = label.to_owned();
        let ghost groups = self.groups();
        let mut i: usize = 0;
        proof {
            assert(groups.skip(0) == groups);
        }
        while i < self.index.len()
            invariant
                i <= self.index.len(),
                groups == self.groups(),
                key@ == label@,
                place_of(groups, label@) == i + place_of(groups.skip(i as int), label@),
            decreases self.index.len() - i,
        {
            proof {
                assert(groups.skip(i as int).first() == groups[i as int]);
                assert(groups.skip(i as int).drop_first() == groups.skip(i + 1));
            }
            if self.index[i].0 == key {
                return Some(i);
            }
            i += 1;
        }
        None
    }

    /// Files the node under the label of its type, after the nodes that are
    /// filed there already.
    pub fn index_node(&mut self, node: Node)
        ensures
            final(self).groups() == filed(old(self).groups(), node),
    {
        let label = node.node_type.to_string();
        let ghost before = self.groups();
        proof {
            lemma_place_of(before, label@);
        }
        match self.find(label.as_str()) {
            Some(at) => {
                let mut group = self.index.remove(at);
                group.1.push(node);
                self.index.insert(at, group);
                proof {
                    assert(self.groups() =~= filed(before, node));
                }
            },
            None => {
                let mut nodes: Vec<Node> = Vec::new();
                nodes.push(node);
                self.index.push((label, nodes));
                proof {
                    assert(nodes@ =~= seq![node]);
                    assert(self.groups() =~= filed(before, node));
                }
            },
        }
    }

    /// The nodes filed under the label, in the order in which they were
    /// indexed.
    pub fn search_by_type(&self, node_type: &str) -> (found: Vec<&Node>)
        ensures
            referents(found@) == filed_under(self.groups(), node_type@),
    {
        let mut found: Vec<&Node> = Vec::new();
        match self.find(node_type) {
            Some(at) => {
                let group = &self.index[at].1;
                proof {
                    assert(referents(found@) =~= group@.take(0));
                }
                let mut i: usize = 0;
                while i < group.len()
                    invariant
                        i <= group.len(),
                        referents(found@) == group@.take(i as int),
                    decreases group.len() - i,
                {
                    let ghost before = referents(found@);
                    found.push(&group[i]);
                    proof {
                        assert(referents(found@) =~= before.push(group@[i as int]));
                        assert(group@.take(i + 1) =~= before.push(group@[i as int]));
                    }
                    i += 1;
                }
                proof {
                    assert(group@.take(group.len() as int) == group@);
                }
            },
            None => {
                proof {
                    assert(referents(found@) =~= Seq::<Node>::empty());
                }
            },
        }
        found
    }

    /// The nodes whose name holds `name`, group by group and within a group in
    /// the order in which they were indexed.
    pub fn search_by_name(&self, name: &str) -> (found: Vec<&Node>)
        ensures
            referents(found@) == named_like(self.groups(), name@),
    {
        let ghost groups = self.groups();
        let ghost pred = is_named_like(name@);
        let mut found: Vec<&Node> = Vec::new();
        let mut g: usize = 0;
        proof {
            assert(referents(found@) =~= Seq::<Node>::empty());
        }
        while g < self.index.len()
            invariant
                g <= self.index.len(),
                groups == self.groups(),
                pred == is_named_like(name@),
                referents(found@) == named_like(groups.take(g as int), name@),
            decreases self.index.len() - g,
        {
            let group = &self.index[g].1;
            let ghost before_group = referents(found@);
            proof {
                assert(groups.take(g + 1).drop_last() == groups.take(g as int));
                assert(groups.take(g + 1).last() == groups[g as int]);
                assert(groups[g as int].1 == group@);
                assert(group@.take(0).filter(pred) =~= Seq::<Node>::empty());
            }
            let mut i: usize = 0;
            while i < group.len()
                invariant
                    i <= group.len(),
                    pred == is_named_like(name@),
                    referents(found@) == before_group + group@.take(i as int).filter(pred),
                decreases group.len() - i,
            {
                let node = &group[i];
                proof {
                    assert(group@.take(i + 1) =~= group@.take(i as int).push(*node));
                    group@.take(i as int).lemma_filter_push(*node, pred);
                }
                if contains(node.name.as_str(), name) {
                    let ghost before = referents(found@);
                    found.push(node);
                    proof {
                        assert(referents(found@) =~= before.push(*node));
                    }
                }
                i += 1;
            }
            proof {
                assert(group@.take(group.len() as int) == group@);
            }
            g += 1;
        }
        proof {
            assert(groups.take(self.index.len() as int) == groups);
        }
        found
    }
}

impl Default for Indexer {
    fn default() -> (indexer: Indexer)
        ensures
            indexer.groups().len() == 0,
    {
        Self::new()
    }
}

} // verus!
