//! The entity store: one concurrent map for each kind of record, keyed by the
//! record's identifier.
//!
//! The store is read in two modes. A snapshot copies what a map holds into a
//! list, and whoever works on the list sees one point in time. A live read
//! hands out the map itself. Nothing ties a snapshot of one kind to a live read
//! of another: between the two the store may have changed.
//!
//! Every write borrows the store mutably. What a map holds is therefore a
//! property of the map as a value, and a shared borrow sees it unchanged.

use crate::entities::channel::NeuralChannel;
use crate::entities::cluster::Cluster;
use crate::entities::interface::Interface;
use crate::entities::node::Node;
use dashmap::DashMap;
use vstd::prelude::*;

verus! {

/// `dashmap::DashMap`, a concurrent hash map. Nothing inside it is visible
/// here: what a map holds is named for each kind of record below.
#[verifier::external_type_specification]
#[verifier::external_body]
#[verifier::reject_recursive_types(K)]
#[verifier::reject_recursive_types(V)]
#[verifier::reject_recursive_types(S)]
pub struct ExDashMap<K, V, S>(DashMap<K, V, S>);

/// `keys` names every key of `records` once, in some order.
pub open spec fn is_key_order<V>(keys: Seq<Seq<char>>, records: Map<Seq<char>, V>) -> bool {
    keys.no_duplicates() && keys.to_set() == records.dom()
}

/// `values` is what a walk over `records` meets: the record of every key,
/// each key once, in some order.
pub open spec fn walks<V>(values: Seq<V>, records: Map<Seq<char>, V>) -> bool {
    exists|keys: Seq<Seq<char>>|
        #[trigger] is_key_order(keys, records) && keys.len() == values.len() && forall|i: int|
            0 <= i < keys.len() ==> values[i] == records[#[trigger] keys[i]]
}

/// Every node stands under its own identifier.
pub open spec fn is_keyed_by_id(records: Map<Seq<char>, Node>) -> bool {
    forall|key: Seq<char>| records.contains_key(key) ==> (#[trigger] records[key]).id@ == key
}

/// A snapshot of nodes that stand under their own identifiers holds no
/// identifier twice.
pub proof fn lemma_snapshot_ids_are_distinct(snapshot: Seq<Node>, records: Map<Seq<char>, Node>)
    requires
        walks(snapshot, records),
        is_keyed_by_id(records),
    ensures
        crate::engine::path_resolver::ids_are_distinct(snapshot),
{
    let keys = choose|keys: Seq<Seq<char>>|
        #[trigger] is_key_order(keys, records) && keys.len() == snapshot.len() && forall|i: int|
            0 <= i < keys.len() ==> snapshot[i] == records[#[trigger] keys[i]];
    assert forall|i: int, j: int| 0 <= i < j < snapshot.len() implies (
    #[trigger] snapshot[i]).id@ != (#[trigger] snapshot[j]).id@ by {
        assert(keys.to_set().contains(keys[i]));
        assert(keys.to_set().contains(keys[j]));
        assert(snapshot[i].id@ == keys[i]);
        assert(snapshot[j].id@ == keys[j]);
    }
}

/// The nodes that a map holds, by key.
pub uninterp spec fn node_records(map: DashMap<String, Node>) -> Map<Seq<char>, Node>;

/// `DashMap::new` makes a map that holds nothing.
#[verifier::external_body]
fn new_node_map() -> (fresh: DashMap<String, Node>)
    ensures
        node_records(fresh).dom() == Set::<Seq<char>>::empty(),
{
    DashMap::new()
}

/// `DashMap::insert` puts the record under the key, in place of what stood
/// there.
#[verifier::external_body]
fn put_node(map: &mut DashMap<String, Node>, key: String, node: Node)
    ensures
        node_records(*final(map)) == node_records(*old(map)).insert(key@, node),
{
    map.insert(key, node);
}

/// `DashMap::get` looks the key up; a copy of the record found is handed out.
#[verifier::external_body]
fn find_node(map: &DashMap<String, Node>, key: &str) -> (found: Option<Node>)
    ensures
        found == if node_records(*map).contains_key(key@) {
            Some(node_records(*map)[key@])
        } else {
            None
        },
{
    map.get(key).map(|entry| entry.value().clone())
}

/// `DashMap::iter` goes through the shards of the map one after another and
/// yields every entry of each once; in which order is not determined. A copy
/// of each record is handed out.
#[verifier::external_body]
fn node_values(map: &DashMap<String, Node>) -> (values: Vec<Node>)
    ensures
        walks(values@, node_records(*map)),
{
    map.iter().map(|entry| entry.value().clone()).collect()
}

/// The clusters that a map holds, by key.
pub uninterp spec fn cluster_records(map: DashMap<String, Cluster>) -> Map<Seq<char>, Cluster>;

/// `DashMap::new` makes a map that holds nothing.
#[verifier::external_body]
fn new_cluster_map() -> (fresh: DashMap<String, Cluster>)
    ensures
        cluster_records(fresh).dom() == Set::<Seq<char>>::empty(),
{
    DashMap::new()
}

/// `DashMap::insert` puts the record under the key, in place of what stood
/// there.
#[verifier::external_body]
fn put_cluster(map: &mut DashMap<String, Cluster>, key: String, cluster: Cluster)
    ensures
        cluster_records(*final(map)) == cluster_records(*old(map)).insert(key@, cluster),
{
    map.insert(key, cluster);
}

/// `DashMap::get` looks the key up; a copy of the record found is handed out.
#[verifier::external_body]
fn find_cluster(map: &DashMap<String, Cluster>, key: &str) -> (found: Option<Cluster>)
    ensures
        found == if cluster_records(*map).contains_key(key@) {
            Some(cluster_records(*map)[key@])
        } else {
            None
        },
{
    map.get(key).map(|entry| entry.value().clone())
}

/// `DashMap::iter` goes through the shards of the map one after another and
/// yields every entry of each once; in which order is not determined. A copy
/// of each record is handed out.
#[verifier::external_body]
pub(crate) fn cluster_values(map: &DashMap<String, Cluster>) -> (values: Vec<Cluster>)
    ensures
        walks(values@, cluster_records(*map)),
{
    map.iter().map(|entry| entry.value().clone()).collect()
}

/// The channels that a map holds, by key.
pub uninterp spec fn channel_records(map: DashMap<String, NeuralChannel>) -> Map<Seq<char>, NeuralChannel>;

/// `DashMap::new` makes a map that holds nothing.
#[verifier::external_body]
fn new_channel_map() -> (fresh: DashMap<String, NeuralChannel>)
    ensures
        channel_records(fresh).dom() == Set::<Seq<char>>::empty(),
{
    DashMap::new()
}

/// `DashMap::insert` puts the record under the key, in place of what stood
/// there.
#[verifier::external_body]
fn put_channel(map: &mut DashMap<String, NeuralChannel>, key: String, channel: NeuralChannel)
    ensures
        channel_records(*final(map)) == channel_records(*old(map)).insert(key@, channel),
{
    map.insert(key, channel);
}

/// `DashMap::get` looks the key up; a copy of the record found is handed out.
#[verifier::external_body]
fn find_channel(map: &DashMap<String, NeuralChannel>, key: &str) -> (found: Option<NeuralChannel>)
    ensures
        found == if channel_records(*map).contains_key(key@) {
            Some(channel_records(*map)[key@])
        } else {
            None
        },
{
    map.get(key).map(|entry| entry.value().clone())
}

/// `DashMap::iter` goes through the shards of the map one after another and
/// yields every entry of each once; in which order is not determined. A copy
/// of each record is handed out.
#[verifier::external_body]
fn channel_values(map: &DashMap<String, NeuralChannel>) -> (values: Vec<NeuralChannel>)
    ensures
        walks(values@, channel_records(*map)),
{
    map.iter().map(|entry| entry.value().clone()).collect()
}

/// The interfaces that a map holds, by key.
pub uninterp spec fn interface_records(map: DashMap<String, Interface>) -> Map<Seq<char>, Interface>;

/// `DashMap::new` makes a map that holds nothing.
#[verifier::external_body]
fn new_interface_map() -> (fresh: DashMap<String, Interface>)
    ensures
        interface_records(fresh).dom() == Set::<Seq<char>>::empty(),
{
    DashMap::new()
}

/// `DashMap::insert` puts the record under the key, in place of what stood
/// there.
#[verifier::external_body]
fn put_interface(map: &mut DashMap<String, Interface>, key: String, interface: Interface)
    ensures
        interface_records(*final(map)) == interface_records(*old(map)).insert(key@, interface),
{
    map.insert(key, interface);
}

/// `DashMap::get` looks the key up; a copy of the record found is handed out.
#[verifier::external_body]
fn find_interface(map: &DashMap<String, Interface>, key: &str) -> (found: Option<Interface>)
    ensures
        found == if interface_records(*map).contains_key(key@) {
            Some(interface_records(*map)[key@])
        } else {
            None
        },
{
    map.get(key).map(|entry| entry.value().clone())
}

/// `DashMap::iter` goes through the shards of the map one after another and
/// yields every entry of each once; in which order is not determined. A copy
/// of each record is handed out.
#[verifier::external_body]
fn interface_values(map: &DashMap<String, Interface>) -> (values: Vec<Interface>)
    ensures
        walks(values@, interface_records(*map)),
{
    map.iter().map(|entry| entry.value().clone()).collect()
}

/// The four maps of the store.
pub struct EntityStore {
    nodes: DashMap<String, Node>,
    clusters: DashMap<String, Cluster>,
    channels: DashMap<String, NeuralChannel>,
    interfaces: DashMap<String, Interface>,
}

impl EntityStore {
    /// The nodes in the store, by key.
    pub closed spec fn nodes(&self) -> Map<Seq<char>, Node> {
        node_records(self.nodes)
    }

    /// The clusters in the store, by key.
    pub closed spec fn clusters(&self) -> Map<Seq<char>, Cluster> {
        cluster_records(self.clusters)
    }

    /// The channels in the store, by key.
    pub closed spec fn channels(&self) -> Map<Seq<char>, NeuralChannel> {
        channel_records(self.channels)
    }

    /// The interfaces in the store, by key.
    pub closed spec fn interfaces(&self) -> Map<Seq<char>, Interface> {
        interface_records(self.interfaces)
    }

    /// A store that holds nothing.
    pub fn new() -> (store: EntityStore)
        ensures
            store.nodes() == Map::<Seq<char>, Node>::empty(),
            store.clusters() == Map::<Seq<char>, Cluster>::empty(),
            store.channels() == Map::<Seq<char>, NeuralChannel>::empty(),
            store.interfaces() == Map::<Seq<char>, Interface>::empty(),
    {
        let store = EntityStore {
            nodes: new_node_map(),
            clusters: new_cluster_map(),
            channels: new_channel_map(),
            interfaces: new_interface_map(),
        };
        proof {
            assert(store.nodes() =~= Map::<Seq<char>, Node>::empty());
            assert(store.clusters() =~= Map::<Seq<char>, Cluster>::empty());
            assert(store.channels() =~= Map::<Seq<char>, NeuralChannel>::empty());
            assert(store.interfaces() =~= Map::<Seq<char>, Interface>::empty());
        }
        store
    }

    /// Stores a node under its identifier, in place of the record that stood
    /// there.
    pub fn insert_node(&mut self, node: Node)
        ensures
            final(self).nodes() == old(self).nodes().insert(node.id@, node),
            is_keyed_by_id(old(self).nodes()) ==> is_keyed_by_id(final(self).nodes()),
            final(self).clusters() == old(self).clusters(),
            final(self).channels() == old(self).channels(),
            final(self).interfaces() == old(self).interfaces(),
    {
        let key = node.id.clone();
        put_node(&mut self.nodes, key, node);
    }

    /// The node stored under `id`, if there is one.
    pub fn get_node(&self, id: &str) -> (found: Option<Node>)
        ensures
            found == if self.nodes().contains_key(id@) {
                Some(self.nodes()[id@])
            } else {
                None
            },
    {
        find_node(&self.nodes, id)
    }

    /// A snapshot of the nodes: every record once, in the order in which
    /// the map happens to be walked.
    pub fn snapshot_nodes(&self) -> (snapshot: Vec<Node>)
        ensures
            walks(snapshot@, self.nodes()),
    {
        node_values(&self.nodes)
    }

    /// Stores a cluster under its identifier, in place of the record that stood
    /// there.
    pub fn insert_cluster(&mut self, cluster: Cluster)
        ensures
            final(self).clusters() == old(self).clusters().insert(cluster.id@, cluster),
            final(self).nodes() == old(self).nodes(),
            final(self).channels() == old(self).channels(),
            final(self).interfaces() == old(self).interfaces(),
    {
        let key = cluster.id.clone();
        put_cluster(&mut self.clusters, key, cluster);
    }

    /// The cluster stored under `id`, if there is one.
    pub fn get_cluster(&self, id: &str) -> (found: Option<Cluster>)
        ensures
            found == if self.clusters().contains_key(id@) {
                Some(self.clusters()[id@])
            } else {
                None
            },
    {
        find_cluster(&self.clusters, id)
    }

    /// A snapshot of the clusters: every record once, in the order in which
    /// the map happens to be walked.
    pub fn snapshot_clusters(&self) -> (snapshot: Vec<Cluster>)
        ensures
            walks(snapshot@, self.clusters()),
    {
        cluster_values(&self.clusters)
    }

    /// Stores a channel under its identifier, in place of the record that stood
    /// there.
    pub fn insert_channel(&mut self, channel: NeuralChannel)
        ensures
            final(self).channels() == old(self).channels().insert(channel.id@, channel),
            final(self).nodes() == old(self).nodes(),
            final(self).clusters() == old(self).clusters(),
            final(self).interfaces() == old(self).interfaces(),
    {
        let key = channel.id.clone();
        put_channel(&mut self.channels, key, channel);
    }

    /// The channel stored under `id`, if there is one.
    pub fn get_channel(&self, id: &str) -> (found: Option<NeuralChannel>)
        ensures
            found == if self.channels().contains_key(id@) {
                Some(self.channels()[id@])
            } else {
                None
            },
    {
        find_channel(&self.channels, id)
    }

    /// A snapshot of the channels: every record once, in the order in which
    /// the map happens to be walked.
    pub fn snapshot_channels(&self) -> (snapshot: Vec<NeuralChannel>)
        ensures
            walks(snapshot@, self.channels()),
    {
        channel_values(&self.channels)
    }

    /// Stores an interface under its identifier, in place of the record that stood
    /// there.
    pub fn insert_interface(&mut self, interface: Interface)
        ensures
            final(self).interfaces() == old(self).interfaces().insert(interface.id@, interface),
            final(self).nodes() == old(self).nodes(),
            final(self).clusters() == old(self).clusters(),
            final(self).channels() == old(self).channels(),
    {
        let key = interface.id.clone();
        put_interface(&mut self.interfaces, key, interface);
    }

    /// The interface stored under `id`, if there is one.
    pub fn get_interface(&self, id: &str) -> (found: Option<Interface>)
        ensures
            found == if self.interfaces().contains_key(id@) {
                Some(self.interfaces()[id@])
            } else {
                None
            },
    {
        find_interface(&self.interfaces, id)
    }

    /// A snapshot of the interfaces: every record once, in the order in which
    /// the map happens to be walked.
    pub fn snapshot_interfaces(&self) -> (snapshot: Vec<Interface>)
        ensures
            walks(snapshot@, self.interfaces()),
    {
        interface_values(&self.interfaces)
    }

    /// The map of clusters itself, for a live read.
    pub fn live_clusters(&self) -> (clusters: &DashMap<String, Cluster>)
        ensures
            cluster_records(*clusters) == self.clusters(),
    {
        &self.clusters
    }
}

impl Default for EntityStore {
    fn default() -> (store: EntityStore)
        ensures
            store.nodes() == Map::<Seq<char>, Node>::empty(),
            store.clusters() == Map::<Seq<char>, Cluster>::empty(),
            store.channels() == Map::<Seq<char>, NeuralChannel>::empty(),
            store.interfaces() == Map::<Seq<char>, Interface>::empty(),
    {
        Self::new()
    }
}

} // verus!
