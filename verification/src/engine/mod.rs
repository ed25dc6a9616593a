//! The query pipeline: tokenizing, path resolution, cluster navigation, the
//! audit trail, and the engine that composes them.

pub mod audit_trail;
pub mod cluster_navigator;
pub mod path_resolver;
pub mod query_processor;
pub mod store;

pub use audit_trail::AuditTrail;
pub use cluster_navigator::ClusterNavigator;
pub use path_resolver::PathResolver;
pub use query_processor::QueryProcessor;
pub use store::EntityStore;

use crate::engine::audit_trail::{entry_hash, hashes, is_linked, is_logged, tip, AuditEntry};
use crate::engine::cluster_navigator::matching_cluster_ids;
use crate::engine::path_resolver::levels_through;
use crate::engine::store::{is_keyed_by_id, walks};
use crate::entities::channel::NeuralChannel;
use crate::entities::cluster::Cluster;
use crate::entities::node::{Node, NodeType};
use crate::i18n::lemma_store::KnotenlexikonStore;
use crate::utils::clock::Timestamp;
use crate::utils::ident::{fresh_id, is_uuid_text};
use crate::utils::text::clone_all;
use crate::validation::dual_path::{verdict, DualPathValidator};
use crate::EngineConfig;
use vstd::prelude::*;

verus! {

/// One query as the pipeline sees it: the raw text, the language it is asked
/// in, when it arrived, and the identifier of the request.
#[derive(Debug, Clone)]
pub struct QueryContext {
    pub query: String,
    pub language: String,
    pub timestamp: Timestamp,
    pub request_id: String,
}

/// A query with its paths resolved and nothing logged yet.
#[derive(Debug)]
pub struct ResolvedQuery {
    pub context: QueryContext,
    pub node_path: Vec<String>,
    pub cluster_path: Vec<String>,
    pub channel_interfaces: Vec<String>,
}

/// What a query is answered with.
#[derive(Debug)]
pub struct QueryResult {
    pub request_id: String,
    pub query: String,
    pub node_path: Vec<String>,
    pub cluster_path: Vec<String>,
    pub channel_interfaces: Vec<String>,
    pub audit_path: Vec<String>,
    pub explanation_en: String,
    pub explanation_de: String,
    pub validation_status: String,
    pub timestamp: Timestamp,
}

/// The explanation that every result carries in English.
pub open spec fn explanation_en() -> Seq<char> {
    "Query execution completed through neural node paths with cluster traversal and channel validation."@
}

/// The explanation that every result carries in German.
pub open spec fn explanation_de() -> Seq<char> {
    "Abfrageausführung über Neuroknotenpfade mit Clusterdurchquerung und Kanalvalidierung abgeschlossen."@
}

/// The identifiers of the channels, in their order.
pub open spec fn channel_ids(channels: Seq<NeuralChannel>) -> Seq<Seq<char>> {
    channels.map_values(|channel: NeuralChannel| channel.id@)
}

/// A node that stands for a file: it is named after the path it comes from
/// and has nothing else to it.
pub open spec fn is_file_node(node: Node, path: Seq<char>) -> bool {
    &&& node.name@ == path
    &&& node.source_path@ == path
    &&& node.node_type == NodeType::File
    &&& node.is_unlinked()
    &&& is_uuid_text(node.id@)
}

/// `records` after each of `nodes` in turn was stored under its identifier.
pub open spec fn with_nodes(records: Map<Seq<char>, Node>, nodes: Seq<Node>) -> Map<
    Seq<char>,
    Node,
>
    decreases nodes.len(),
{
    if nodes.len() == 0 {
        records
    } else {
        with_nodes(records, nodes.drop_last()).insert(nodes.last().id@, nodes.last())
    }
}

/// `nodes` are file nodes for `files`, one for one.
pub open spec fn are_file_nodes(nodes: Seq<Node>, files: Seq<Seq<char>>) -> bool {
    &&& nodes.len() == files.len()
    &&& forall|i: int| 0 <= i < nodes.len() ==> is_file_node(#[trigger] nodes[i], files[i])
}

/// The node path is what a walk from some snapshot of `nodes` gives.
pub open spec fn is_node_path(
    path: Seq<Seq<char>>,
    nodes: Map<Seq<char>, Node>,
    query: Seq<char>,
    max_depth: nat,
) -> bool {
    exists|snapshot: Seq<Node>| #[trigger]
        walks(snapshot, nodes) && path == levels_through(snapshot, query, max_depth)
}

/// The cluster path is what navigation over some walk of `clusters` gives.
pub open spec fn is_cluster_path(
    path: Seq<Seq<char>>,
    clusters: Map<Seq<char>, Cluster>,
    query: Seq<char>,
) -> bool {
    exists|walk: Seq<Cluster>| #[trigger]
        walks(walk, clusters) && path == matching_cluster_ids(walk, query)
}

/// The channel list names every channel of `channels`, as some walk meets
/// them.
pub open spec fn is_channel_list(
    listed: Seq<Seq<char>>,
    channels: Map<Seq<char>, NeuralChannel>,
) -> bool {
    exists|walk: Seq<NeuralChannel>| #[trigger] walks(walk, channels) && listed == channel_ids(walk)
}

/// The entry that logging `resolved` leaves at the end of a trail that held
/// `before`.
pub open spec fn is_record_of(
    entry: AuditEntry,
    resolved: ResolvedQuery,
    before: Seq<AuditEntry>,
) -> bool {
    &&& entry.timestamp == resolved.context.timestamp
    &&& entry.query == resolved.context.query
    &&& entry.node_path@ == resolved.node_path@
    &&& entry.cluster_path@ == resolved.cluster_path@
    &&& entry.hash@ == entry_hash(
        resolved.context.timestamp,
        resolved.node_path.deep_view(),
        resolved.cluster_path.deep_view(),
    )
    &&& entry.previous_hash.deep_view() == tip(before)
}

/// The result that answers `resolved` once it is logged in a trail that then
/// holds `entries`.
pub open spec fn is_answer_to(
    result: QueryResult,
    resolved: ResolvedQuery,
    entries: Seq<AuditEntry>,
    completed_at: Timestamp,
) -> bool {
    &&& result.request_id == resolved.context.request_id
    &&& result.query == resolved.context.query
    &&& result.node_path == resolved.node_path
    &&& result.cluster_path == resolved.cluster_path
    &&& result.channel_interfaces == resolved.channel_interfaces
    &&& result.audit_path.deep_view() == hashes(entries)
    &&& result.explanation_en@ == explanation_en()
    &&& result.explanation_de@ == explanation_de()
    &&& result.validation_status@ == verdict(
        resolved.node_path@.len(),
        resolved.cluster_path@.len(),
    )
    &&& result.timestamp == completed_at
}

/// The engine: it owns the entity store and the audit trail and answers
/// queries over them.
pub struct NeuroNodePathEngine {
    config: EngineConfig,
    store: EntityStore,
    audit_trail: AuditTrail,
    path_resolver: PathResolver,
    query_processor: QueryProcessor,
    cluster_navigator: ClusterNavigator,
    knotenlexikon: KnotenlexikonStore,
    dual_path_validator: DualPathValidator,
}

impl NeuroNodePathEngine {
    /// The nodes in the engine's store, by identifier.
    pub closed spec fn nodes(&self) -> Map<Seq<char>, Node> {
        self.store.nodes()
    }

    /// The clusters in the engine's store, by identifier.
    pub closed spec fn clusters(&self) -> Map<Seq<char>, Cluster> {
        self.store.clusters()
    }

    /// The channels in the engine's store, by identifier.
    pub closed spec fn channels(&self) -> Map<Seq<char>, NeuralChannel> {
        self.store.channels()
    }

    /// The entries of the engine's audit trail.
    pub closed spec fn audit_entries(&self) -> Seq<AuditEntry> {
        self.audit_trail@
    }

    /// The deepest level that path resolution reports.
    pub closed spec fn max_depth(&self) -> nat {
        self.path_resolver.max_depth()
    }

    /// The entries of the engine's dictionary.
    pub closed spec fn lemmas(&self) -> Seq<crate::i18n::lemma_store::LemmaEntry> {
        self.knotenlexikon@
    }

    /// An engine with an empty store, an empty audit trail and an empty
    /// dictionary, that resolves paths down to the configured depth.
    pub fn new(config: EngineConfig) -> (engine: NeuroNodePathEngine)
        ensures
            engine.nodes() == Map::<Seq<char>, Node>::empty(),
            engine.clusters() == Map::<Seq<char>, Cluster>::empty(),
            engine.channels() == Map::<Seq<char>, NeuralChannel>::empty(),
            engine.audit_entries().len() == 0,
            is_logged(engine.audit_entries()),
            engine.max_depth() == config.max_depth,
            engine.lemmas().len() == 0,
    {
        Self::with_store(config, EntityStore::new())
    }

    /// An engine over the store given, with an empty audit trail and an empty
    /// dictionary, that resolves paths down to the configured depth.
    pub fn with_store(config: EngineConfig, store: EntityStore) -> (engine: NeuroNodePathEngine)
        ensures
            engine.nodes() == store.nodes(),
            engine.clusters() == store.clusters(),
            engine.channels() == store.channels(),
            engine.audit_entries().len() == 0,
            is_logged(engine.audit_entries()),
            engine.max_depth() == config.max_depth,
            engine.lemmas().len() == 0,
    {
        let path_resolver = PathResolver::with_max_depth(config.max_depth);
        NeuroNodePathEngine {
            config,
            store,
            audit_trail: AuditTrail::new(),
            path_resolver,
            query_processor: QueryProcessor::new(),
            cluster_navigator: ClusterNavigator::new(),
            knotenlexikon: KnotenlexikonStore::default(),
            dual_path_validator: DualPathValidator::new(),
        }
    }

    /// Gives the engine another dictionary. The dictionary takes no part in
    /// answering a query.
    pub fn set_lemma_store(&mut self, store: KnotenlexikonStore)
        ensures
            final(self).lemmas() == store@,
            final(self).nodes() == old(self).nodes(),
            final(self).clusters() == old(self).clusters(),
            final(self).channels() == old(self).channels(),
            final(self).audit_entries() == old(self).audit_entries(),
            final(self).max_depth() == old(self).max_depth(),
    {
        self.knotenlexikon = store;
    }

    /// Stores a file node for each of `files`, in their order: a node named
    /// after the file, with a fresh identifier and nothing else to it.
    pub fn index_repository(&mut self, files: Vec<String>)
        ensures
            exists|added: Seq<Node>| #[trigger]
                are_file_nodes(added, files.deep_view()) && final(self).nodes() == with_nodes(
                    old(self).nodes(),
                    added,
                ),
            is_keyed_by_id(old(self).nodes()) ==> is_keyed_by_id(final(self).nodes()),
            final(self).clusters() == old(self).clusters(),
            final(self).channels() == old(self).channels(),
            final(self).audit_entries() == old(self).audit_entries(),
            final(self).max_depth() == old(self).max_depth(),
            final(self).lemmas() == old(self).lemmas(),
    {
        let ghost before = self.store.nodes();
        let ghost mut added: Seq<Node> = Seq::empty();
        let mut i: usize = 0;
        while i < files.len()
            invariant
                i <= files.len(),
                are_file_nodes(added, files.deep_view().take(i as int)),
                self.store.nodes() == with_nodes(before, added),
                is_keyed_by_id(before) ==> is_keyed_by_id(self.store.nodes()),
                self.store.clusters() == old(self).store.clusters(),
                self.store.channels() == old(self).store.channels(),
                self.store.interfaces() == old(self).store.interfaces(),
                self.audit_trail == old(self).audit_trail,
                self.path_resolver == old(self).path_resolver,
                self.knotenlexikon == old(self).knotenlexikon,
            decreases files.len() - i,
        {
            let node = Node::new(files[i].clone(), NodeType::File, files[i].clone());
            proof {
                let longer = added.push(node);
                assert(longer.drop_last() =~= added);
                assert forall|j: int| 0 <= j < longer.len() implies is_file_node(
                    #[trigger] longer[j],
                    files.deep_view().take(i + 1)[j],
                ) by {
                    if j < added.len() {
                        assert(longer[j] == added[j]);
                        assert(files.deep_view().take(i as int)[j] == files.deep_view().take(
                            i + 1,
                        )[j]);
                    }
                }
                added = longer;
            }
            self.store.insert_node(node);
            i += 1;
        }
        proof {
            assert(files.deep_view().take(files.len() as int) == files.deep_view());
        }
    }

    /// The first half of a query, which only reads: the node path from a
    /// snapshot of the nodes, the cluster path from the live map of clusters,
    /// and the identifiers of all channels.
    pub fn resolve_query(&self, context: QueryContext) -> (resolved: ResolvedQuery)
        ensures
            resolved.context == context,
            is_node_path(
                resolved.node_path.deep_view(),
                self.nodes(),
                context.query@,
                self.max_depth(),
            ),
            is_cluster_path(resolved.cluster_path.deep_view(), self.clusters(), context.query@),
            is_channel_list(resolved.channel_interfaces.deep_view(), self.channels()),
    {
        let nodes_snapshot = self.store.snapshot_nodes();
        let node_path = self.path_resolver.resolve(&context, nodes_snapshot.as_slice());
        let cluster_path = self.cluster_navigator.navigate(&context, self.store.live_clusters());
        let channels = self.store.snapshot_channels();
        let mut channel_interfaces: Vec<String> = Vec::new();
        let mut i: usize = 0;
        while i < channels.len()
            invariant
                i <= channels.len(),
                channel_interfaces.deep_view() == channel_ids(channels@.take(i as int)),
            decreases channels.len() - i,
        {
            let ghost listed = channel_interfaces.deep_view();
            channel_interfaces.push(channels[i].id.clone());
            proof {
                assert(channel_interfaces.deep_view() =~= listed.push(channels@[i as int].id@));
                assert(channel_ids(channels@.take(i + 1)) =~= channel_ids(
                    channels@.take(i as int),
                ).push(channels@[i as int].id@));
            }
            i += 1;
        }
        proof {
            assert(channels@.take(channels.len() as int) == channels@);
        }
        ResolvedQuery { context, node_path, cluster_path, channel_interfaces }
    }

    /// The second half of a query, which writes: logs the resolved query in
    /// the audit trail, judges the two paths against each other, and puts the
    /// result together.
    pub fn record_query(&mut self, resolved: ResolvedQuery, completed_at: Timestamp) -> (result:
        QueryResult)
        ensures
            final(self).audit_entries().len() == old(self).audit_entries().len() + 1,
            final(self).audit_entries().drop_last() == old(self).audit_entries(),
            is_record_of(final(self).audit_entries().last(), resolved, old(self).audit_entries()),
            is_linked(old(self).audit_entries()) ==> is_linked(final(self).audit_entries()),
            is_logged(old(self).audit_entries()) ==> is_logged(final(self).audit_entries()),
            is_answer_to(result, resolved, final(self).audit_entries(), completed_at),
            final(self).nodes() == old(self).nodes(),
            final(self).clusters() == old(self).clusters(),
            final(self).channels() == old(self).channels(),
            final(self).max_depth() == old(self).max_depth(),
            final(self).lemmas() == old(self).lemmas(),
    {
        let audit_path = self.audit_trail.log_query(
            &resolved.context,
            resolved.node_path.as_slice(),
            resolved.cluster_path.as_slice(),
        );
        let explanations = self.generate_explanations(resolved.node_path.as_slice());
        let validation_status = self.dual_path_validator.validate(
            resolved.node_path.as_slice(),
            resolved.cluster_path.as_slice(),
        );
        QueryResult {
            request_id: resolved.context.request_id,
            query: resolved.context.query,
            node_path: resolved.node_path,
            cluster_path: resolved.cluster_path,
            channel_interfaces: resolved.channel_interfaces,
            audit_path,
            explanation_en: explanations.0,
            explanation_de: explanations.1,
            validation_status,
            timestamp: completed_at,
        }
    }

    /// Answers a query asked now, in English, under a fresh request
    /// identifier: resolves its paths, logs it, and judges the paths.
    pub fn query(&mut self, query_str: &str) -> (result: QueryResult)
        ensures
            result.query@ == query_str@,
            is_uuid_text(result.request_id@),
            is_node_path(
                result.node_path.deep_view(),
                old(self).nodes(),
                query_str@,
                old(self).max_depth(),
            ),
            is_cluster_path(result.cluster_path.deep_view(), old(self).clusters(), query_str@),
            is_channel_list(result.channel_interfaces.deep_view(), old(self).channels()),
            result.validation_status@ == verdict(result.node_path@.len(), result.cluster_path@.len()),
            result.explanation_en@ == explanation_en(),
            result.explanation_de@ == explanation_de(),
            result.audit_path.deep_view() == hashes(final(self).audit_entries()),
            final(self).audit_entries().len() == old(self).audit_entries().len() + 1,
            final(self).audit_entries().drop_last() == old(self).audit_entries(),
            final(self).audit_entries().last().query@ == query_str@,
            final(self).audit_entries().last().node_path@ == result.node_path@,
            final(self).audit_entries().last().cluster_path@ == result.cluster_path@,
            final(self).audit_entries().last().hash@ == entry_hash(
                final(self).audit_entries().last().timestamp,
                result.node_path.deep_view(),
                result.cluster_path.deep_view(),
            ),
            final(self).audit_entries().last().previous_hash.deep_view() == tip(
                old(self).audit_entries(),
            ),
            is_linked(old(self).audit_entries()) ==> is_linked(final(self).audit_entries()),
            is_logged(old(self).audit_entries()) ==> is_logged(final(self).audit_entries()),
            final(self).nodes() == old(self).nodes(),
            final(self).clusters() == old(self).clusters(),
            final(self).channels() == old(self).channels(),
            final(self).max_depth() == old(self).max_depth(),
            final(self).lemmas() == old(self).lemmas(),
    {
        let context = QueryContext {
            query: query_str.to_owned(),
            language: "en".to_owned(),
            timestamp: Timestamp::now(),
            request_id: fresh_id(),
        };
        let resolved = self.resolve_query(context);
        self.record_query(resolved, Timestamp::now())
    }

    fn generate_explanations(&self, _node_path: &[String]) -> (explanations: (String, String))
        ensures
            explanations.0@ == explanation_en(),
            explanations.1@ == explanation_de(),
    {
        let en =
            "Query execution completed through neural node paths with cluster traversal and channel validation.".to_owned();
        let de =
            "Abfrageausführung über Neuroknotenpfade mit Clusterdurchquerung und Kanalvalidierung abgeschlossen.".to_owned();
        (en, de)
    }
}

} // verus!
