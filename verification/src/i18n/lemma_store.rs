//! The lemma store: dictionary entries by their canonical identifier.

use crate::utils::text::{contains, is_substring};
use vstd::prelude::*;

verus! {

#[derive(Debug, Clone)]
pub struct LemmaEntry {
    pub canonical_id: String,
    pub german_label: String,
    pub english_label: String,
    pub german_definition: String,
    pub english_definition: String,
    pub pronunciation_de: String,
    pub word_type: String,
    pub related_concepts: Vec<String>,
}

/// The texts of an entry.
pub struct LemmaText {
    pub canonical_id: Seq<char>,
    pub german_label: Seq<char>,
    pub english_label: Seq<char>,
    pub german_definition: Seq<char>,
    pub english_definition: Seq<char>,
    pub pronunciation_de: Seq<char>,
    pub word_type: Seq<char>,
    pub related_concepts: Seq<Seq<char>>,
}

impl View for LemmaEntry {
    type V = LemmaText;

    open spec fn view(&self) -> LemmaText {
        LemmaText {
            canonical_id: self.canonical_id@,
            german_label: self.german_label@,
            english_label: self.english_label@,
            german_definition: self.german_definition@,
            english_definition: self.english_definition@,
            pronunciation_de: self.pronunciation_de@,
            word_type: self.word_type@,
            related_concepts: self.related_concepts.deep_view(),
        }
    }
}

/// The entries of a new store, in the order in which they stand in it.
pub open spec fn default_lemmas() -> Seq<LemmaText> {
    seq![
        LemmaText {
            canonical_id: "neuro_node_path_engine"@,
            german_label: "NeuroKnotenpfad-Suchmaschine"@,
            english_label: "NeuroNodePath Engine"@,
            german_definition: "Ein computergestütztes System, das Code-Repositorien, Modelle und Protokolle als Organismusnetz interpretiert"@,
            english_definition: "A system that treats code repositories, models, and logs as an organism-like network of nodes, neurochannels, clusters, and interfaces"@,
            pronunciation_de: "NOY-ro-KNOH-ten-pfaat ZOOKH-ma-SHEE-nuh"@,
            word_type: "feminine, die NeuroKnotenpfad-Suchmaschine"@,
            related_concepts: seq![
                "neuro_node_path"@,
                "cluster_path"@,
                "neuro_channel_interface"@,
                "organism_network"@,
                "dual_path_validation"@,
            ],
        },
        LemmaText {
            canonical_id: "neuro_node_path"@,
            german_label: "Neuroknotenpfad"@,
            english_label: "NeuroNodePath"@,
            german_definition: "Ein nachvollziehbarer Pfad durch ein Netzwerk von miteinander verbundenen Knoten"@,
            english_definition: "A traceable path through an interconnected network of nodes"@,
            pronunciation_de: "NOY-ro-KNOH-ten-pfaat"@,
            word_type: "masculine, der Neuroknotenpfad"@,
            related_concepts: seq!["cluster_path"@, "audit_path"@],
        },
        LemmaText {
            canonical_id: "cluster_path"@,
            german_label: "Clusterpfad"@,
            english_label: "ClusterPath"@,
            german_definition: "Ein Pfad durch thematisch zusammenhängende Cluster"@,
            english_definition: "A path through thematically related clusters"@,
            pronunciation_de: "KLUS-ter-pfaat"@,
            word_type: "masculine, der Clusterpfad"@,
            related_concepts: seq!["cluster"@, "neuro_node_path"@],
        },
        LemmaText {
            canonical_id: "neuro_channel_interface"@,
            german_label: "NeurokanalSchnittstelle"@,
            english_label: "NeuralChannelInterface"@,
            german_definition: "Eine Schnittstelle für die Datenübertragung zwischen Neurokanälen"@,
            english_definition: "An interface for data transmission between neural channels"@,
            pronunciation_de: "NOY-ro-kah-NAHL-shhn-it-shteh-luh"@,
            word_type: "feminine, die NeurokanalSchnittstelle"@,
            related_concepts: seq!["neuro_channel"@, "interface"@],
        },
    ]
}

/// The first place in `entries` that holds an entry for `id`, or the length
/// of `entries` where none does.
pub open spec fn position(entries: Seq<LemmaEntry>, id: Seq<char>) -> int
    decreases entries.len(),
{
    if entries.len() == 0 {
        0
    } else if entries.first().canonical_id@ == id {
        0
    } else {
        1 + position(entries.drop_first(), id)
    }
}

/// `entries` with `entry` in the place of the entry for its identifier, or at
/// the end where there was none.
pub open spec fn upsert(entries: Seq<LemmaEntry>, entry: LemmaEntry) -> Seq<LemmaEntry> {
    let at = position(entries, entry.canonical_id@);
    if at < entries.len() {
        entries.update(at, entry)
    } else {
        entries.push(entry)
    }
}

/// No two entries have the same identifier.
pub open spec fn distinct_ids(entries: Seq<LemmaEntry>) -> bool {
    forall|i: int, j: int|
        0 <= i < j < entries.len() ==> (#[trigger] entries[i]).canonical_id@ != (
        #[trigger] entries[j]).canonical_id@
}

/// The test that holds of an entry whose German label or definition holds
/// `term`.
pub open spec fn in_german(term: Seq<char>) -> spec_fn(LemmaEntry) -> bool {
    |entry: LemmaEntry|
        is_substring(entry.german_label@, term) || is_substring(entry.german_definition@, term)
}

/// The test that holds of an entry whose English label or definition holds
/// `term`.
pub open spec fn in_english(term: Seq<char>) -> spec_fn(LemmaEntry) -> bool {
    |entry: LemmaEntry|
        is_substring(entry.english_label@, term) || is_substring(entry.english_definition@, term)
}

/// What the references in `found` point at.
pub open spec fn referents(found: Seq<&LemmaEntry>) -> Seq<LemmaEntry> {
    found.map_values(|entry: &LemmaEntry| *entry)
}

/// Where `position` points, the entry is for the identifier, and no entry
/// before it is.
pub proof fn lemma_position(entries: Seq<LemmaEntry>, id: Seq<char>)
    ensures
        0 <= position(entries, id) <= entries.len(),
        position(entries, id) < entries.len() ==> entries[position(entries, id)].canonical_id@
            == id,
        forall|i: int| 0 <= i < position(entries, id) ==> (#[trigger] entries[i]).canonical_id@ != id,
    decreases entries.len(),
{
    if entries.len() > 0 && entries.first().canonical_id@ != id {
        let rest = entries.drop_first();
        lemma_position(rest, id);
        assert forall|i: int| 0 <= i < position(entries, id) implies (
        #[trigger] entries[i]).canonical_id@ != id by {
            if i > 0 {
                assert(rest[i - 1] == entries[i]);
            }
        }
    }
}

/// Putting an entry into a store without repeated identifiers leaves a store
/// without repeated identifiers.
pub proof fn lemma_upsert_keeps_ids_distinct(entries: Seq<LemmaEntry>, entry: LemmaEntry)
    requires
        distinct_ids(entries),
    ensures
        distinct_ids(upsert(entries, entry)),
{
    lemma_position(entries, entry.canonical_id@);
    let at = position(entries, entry.canonical_id@);
    let after = upsert(entries, entry);
    assert forall|i: int, j: int| 0 <= i < j < after.len() implies (
    #[trigger] after[i]).canonical_id@ != (#[trigger] after[j]).canonical_id@ by {
        if at < entries.len() {
            if i != at && j != at {
                assert(after[i] == entries[i] && after[j] == entries[j]);
            } else if i == at {
                assert(after[j] == entries[j]);
                assert(entries[at].canonical_id@ != entries[j].canonical_id@);
            } else {
                assert(after[i] == entries[i]);
                assert(entries[i].canonical_id@ != entries[at].canonical_id@);
            }
        } else {
            if j < entries.len() {
                assert(after[i] == entries[i] && after[j] == entries[j]);
            } else {
                assert(after[i] == entries[i]);
            }
        }
    }
}

/// The store. It holds at most one entry for an identifier; the entries stand
/// in the order in which their identifiers were first added.
#[derive(Debug, Clone)]
pub struct KnotenlexikonStore {
    entries: Vec<LemmaEntry>,
}

impl View for KnotenlexikonStore {
    type V = Seq<LemmaEntry>;

    closed spec fn view(&self) -> Seq<LemmaEntry> {
        self.entries@
    }
}

/// An entry made of its texts.
fn lemma(
    canonical_id: &str,
    german_label: &str,
    english_label: &str,
    german_definition: &str,
    english_definition: &str,
    pronunciation_de: &str,
    word_type: &str,
    related_concepts: Vec<String>,
) -> (entry: LemmaEntry)
    ensures
        entry@ == (LemmaText {
            canonical_id: canonical_id@,
            german_label: german_label@,
            english_label: english_label@,
            german_definition: german_definition@,
            english_definition: english_definition@,
            pronunciation_de: pronunciation_de@,
            word_type: word_type@,
            related_concepts: related_concepts.deep_view(),
        }),
{
    LemmaEntry {
        canonical_id: canonical_id.to_owned(),
        german_label: german_label.to_owned(),
        english_label: english_label.to_owned(),
        german_definition: german_definition.to_owned(),
        english_definition: english_definition.to_owned(),
        pronunciation_de: pronunciation_de.to_owned(),
        word_type: word_type.to_owned(),
        related_concepts,
    }
}

impl KnotenlexikonStore {
    /// No two entries have the same identifier.
    pub open spec fn wf(&self) -> bool {
        distinct_ids(self@)
    }

    /// The texts of the entries, in order.
    pub open spec fn texts(&self) -> Seq<LemmaText> {
        self@.map_values(|entry: LemmaEntry| entry@)
    }

    /// A store that holds the default entries.
    pub fn new() -> (store: KnotenlexikonStore)
        ensures
            store.texts() == default_lemmas(),
            store.wf(),
    {
        let mut store = KnotenlexikonStore { entries: Vec::new() };
        store.populate_default_lemmas();
        store
    }

    fn populate_default_lemmas(&mut self)
        requires
            old(self)@.len() == 0,
        ensures
            final(self).texts() == default_lemmas(),
            final(self).wf(),
    {
        let mut first: Vec<String> = Vec::new();
        first.push("neuro_node_path".to_owned());
        first.push("cluster_path".to_owned());
        first.push("neuro_channel_interface".to_owned());
        first.push("organism_network".to_owned());
        first.push("dual_path_validation".to_owned());
        let mut second: Vec<String> = Vec::new();
        second.push("cluster_path".to_owned());
        second.push("audit_path".to_owned());
        let mut third: Vec<String> = Vec::new();
        third.push("cluster".to_owned());
        third.push("neuro_node_path".to_owned());
        let mut fourth: Vec<String> = Vec::new();
        fourth.push("neuro_channel".to_owned());
        fourth.push("interface".to_owned());
        proof {
            assert(first.deep_view() =~= default_lemmas()[0].related_concepts);
            assert(second.deep_view() =~= default_lemmas()[1].related_concepts);
            assert(third.deep_view() =~= default_lemmas()[2].related_concepts);
            assert(fourth.deep_view() =~= default_lemmas()[3].related_concepts);
        }
        self.entries.push(
            lemma(
                "neuro_node_path_engine",
                "NeuroKnotenpfad-Suchmaschine",
                "NeuroNodePath Engine",
                "Ein computergestütztes System, das Code-Repositorien, Modelle und Protokolle als Organismusnetz interpretiert",
                "A system that treats code repositories, models, and logs as an organism-like network of nodes, neurochannels, clusters, and interfaces",
                "NOY-ro-KNOH-ten-pfaat ZOOKH-ma-SHEE-nuh",
                "feminine, die NeuroKnotenpfad-Suchmaschine",
                first,
            ),
        );
        self.entries.push(
            lemma(
                "neuro_node_path",
                "Neuroknotenpfad",
                "NeuroNodePath",
                "Ein nachvollziehbarer Pfad durch ein Netzwerk von miteinander verbundenen Knoten",
                "A traceable path through an interconnected network of nodes",
                "NOY-ro-KNOH-ten-pfaat",
                "masculine, der Neuroknotenpfad",
                second,
            ),
        );
        self.entries.push(
            lemma(
                "cluster_path",
                "Clusterpfad",
                "ClusterPath",
                "Ein Pfad durch thematisch zusammenhängende Cluster",
                "A path through thematically related clusters",
                "KLUS-ter-pfaat",
                "masculine, der Clusterpfad",
                third,
            ),
        );
        self.entries.push(
            lemma(
                "neuro_channel_interface",
                "NeurokanalSchnittstelle",
                "NeuralChannelInterface",
                "Eine Schnittstelle für die Datenübertragung zwischen Neurokanälen",
                "An interface for data transmission between neural channels",
                "NOY-ro-kah-NAHL-shhn-it-shteh-luh",
                "feminine, die NeurokanalSchnittstelle",
                fourth,
            ),
        );
        proof {
            reveal_strlit("neuro_node_path_engine");
            reveal_strlit("neuro_node_path");
            reveal_strlit("cluster_path");
            reveal_strlit("neuro_channel_interface");
            assert(self.texts() =~= default_lemmas());
            let ids = self@;
            assert(ids[0].canonical_id@.len() == 22);
            assert(ids[1].canonical_id@.len() == 15);
            assert(ids[2].canonical_id@.len() == 12);
            assert(ids[3].canonical_id@.len() == 23);
        }
    }

    /// Puts the entry into the store, in the place of the entry for the same
    /// identifier where there is one, at the end otherwise.
    pub fn add_entry(&mut self, entry: LemmaEntry)
        ensures
            final(self)@ == upsert(old(self)@, entry),
            old(self).wf() ==> final(self).wf(),
    {
        proof {
            lemma_position(self@, entry.canonical_id@);
            if self.wf() {
                lemma_upsert_keeps_ids_distinct(self@, entry);
            }
        }
        match self.find(entry.canonical_id.as_str()) {
            Some(at) => {
                self.entries.set(at, entry);
            },
            None => {
                self.entries.push(entry);
            },
        }
    }

    /// Where the entry for `canonical_id` stands.
    fn find(&self, canonical_id: &str) -> (found: Option<usize>)
        ensures
            match found {
                Some(at) => at == position(self@, canonical_id@) && at < self@.len(),
                None => position(self@, canonical_id@) == self@.len(),
            },
    {
        let key = canonical_id.to_owned();
        let ghost entries = self.entries@;
        let mut i: usize = 0;
        proof {
            assert(entries.skip(0) == entries);
        }
        while i < self.entries.len()
            invariant
                i <= self.entries.len(),
                entries == self.entries@,
                key@ == canonical_id@,
                position(entries, canonical_id@) == i + position(
                    entries.skip(i as int),
                    canonical_id@,
                ),
            decreases self.entries.len() - i,
        {
            proof {
                assert(entries.skip(i as int).first() == entries[i as int]);
                assert(entries.skip(i as int).drop_first() == entries.skip(i + 1));
            }
            if self.entries[i].canonical_id == key {
                return Some(i);
            }
            i += 1;
        }
        None
    }

    /// The entry for `canonical_id`, if there is one.
    pub fn get_entry(&self, canonical_id: &str) -> (found: Option<&LemmaEntry>)
        ensures
            match found {
                Some(entry) => position(self@, canonical_id@) < self@.len() && *entry
                    == self@[position(self@, canonical_id@)],
                None => position(self@, canonical_id@) == self@.len(),
            },
            found matches Some(entry) ==> entry.canonical_id@ == canonical_id@,
            found is None ==> forall|i: int|
                0 <= i < self@.len() ==> (#[trigger] self@[i]).canonical_id@ != canonical_id@,
    {
        proof {
            lemma_position(self@, canonical_id@);
        }
        match self.find(canonical_id) {
            Some(at) => Some(&self.entries[at]),
            None => None,
        }
    }

    /// The entries whose German label or definition holds `term`, in the
    /// order of the store.
    pub fn search_by_german(&self, term: &str) -> (found: Vec<&LemmaEntry>)
        ensures
            referents(found@) == self@.filter(in_german(term@)),
    {
        let ghost entries = self.entries@;
        let ghost pred = in_german(term@);
        let mut found: Vec<&LemmaEntry> = Vec::new();
        let mut i: usize = 0;
        proof {
            assert(entries.take(0).filter(pred) =~= Seq::<LemmaEntry>::empty());
            assert(referents(found@) =~= Seq::<LemmaEntry>::empty());
        }
        while i < self.entries.len()
            invariant
                i <= self.entries.len(),
                entries == self.entries@,
                pred == in_german(term@),
                referents(found@) == entries.take(i as int).filter(pred),
            decreases self.entries.len() - i,
        {
            let entry = &self.entries[i];
            proof {
                assert(entries.take(i + 1) =~= entries.take(i as int).push(*entry));
                entries.take(i as int).lemma_filter_push(*entry, pred);
            }
            if contains(entry.german_label.as_str(), term) || contains(
                entry.german_definition.as_str(),
                term,
            ) {
                let ghost before = referents(found@);
                found.push(entry);
                proof {
                    assert(referents(found@) =~= before.push(*entry));
                }
            }
            i += 1;
        }
        proof {
            assert(entries.take(self.entries.len() as int) == entries);
        }
        found
    }

    /// The entries whose English label or definition holds `term`, in the
    /// order of the store.
    pub fn search_by_english(&self, term: &str) -> (found: Vec<&LemmaEntry>)
        ensures
            referents(found@) == self@.filter(in_english(term@)),
    {
        let ghost entries = self.entries@;
        let ghost pred = in_english(term@);
        let mut found: Vec<&LemmaEntry> = Vec::new();
        let mut i: usize = 0;
        proof {
            assert(entries.take(0).filter(pred) =~= Seq::<LemmaEntry>::empty());
            assert(referents(found@) =~= Seq::<LemmaEntry>::empty());
        }
        while i < self.entries.len()
            invariant
                i <= self.entries.len(),
                entries == self.entries@,
                pred == in_english(term@),
                referents(found@) == entries.take(i as int).filter(pred),
            decreases self.entries.len() - i,
        {
            let entry = &self.entries[i];
            proof {
                assert(entries.take(i + 1) =~= entries.take(i as int).push(*entry));
                entries.take(i as int).lemma_filter_push(*entry, pred);
            }
            if contains(entry.english_label.as_str(), term) || contains(
                entry.english_definition.as_str(),
                term,
            ) {
                let ghost before = referents(found@);
                found.push(entry);
                proof {
                    assert(referents(found@) =~= before.push(*entry));
                }
            }
            i += 1;
        }
        proof {
            assert(entries.take(self.entries.len() as int) == entries);
        }
        found
    }

    /// All entries, in the order of the store.
    pub fn get_all_entries(&self) -> (all: Vec<&LemmaEntry>)
        ensures
            referents(all@) == self@,
    {
        let mut all: Vec<&LemmaEntry> = Vec::new();
        let mut i: usize = 0;
        proof {
            assert(referents(all@) =~= self.entries@.take(0));
        }
        while i < self.entries.len()
            invariant
                i <= self.entries.len(),
                referents(all@) == self.entries@.take(i as int),
            decreases self.entries.len() - i,
        {
            let ghost before = referents(all@);
            all.push(&self.entries[i]);
            proof {
                assert(referents(all@) =~= before.push(self.entries@[i as int]));
                assert(self.entries@.take(i + 1) =~= before.push(self.entries@[i as int]));
            }
            i += 1;
        }
        proof {
            assert(self.entries@.take(self.entries.len() as int) == self.entries@);
        }
        all
    }
}

impl Default for KnotenlexikonStore {
    /// A store that holds nothing.
    fn default() -> (store: KnotenlexikonStore)
        ensures
            store@.len() == 0,
            store.wf(),
    {
        KnotenlexikonStore { entries: Vec::new() }
    }
}

} // verus!
