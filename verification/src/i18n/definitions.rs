//! Definitions of a lemma in English and German.

use vstd::prelude::*;

verus! {

#[derive(Debug, Clone)]
pub struct LemmaDefinition {
    pub canonical_id: String,
    pub term_en: String,
    pub term_de: String,
    pub definition_en: String,
    pub definition_de: String,
    pub category: String,
    pub examples: Vec<String>,
}

impl LemmaDefinition {
    /// A lemma with its two terms and nothing else: no definitions, no
    /// category, no examples.
    pub fn new(canonical_id: String, term_en: String, term_de: String) -> (lemma: LemmaDefinition)
        ensures
            lemma.canonical_id == canonical_id,
            lemma.term_en == term_en,
            lemma.term_de == term_de,
            lemma.definition_en@.len() == 0,
            lemma.definition_de@.len() == 0,
            lemma.category@.len() == 0,
            lemma.examples@.len() == 0,
    {
        LemmaDefinition {
            canonical_id,
            term_en,
            term_de,
            definition_en: String::new(),
            definition_de: String::new(),
            category: String::new(),
            examples: Vec::new(),
        }
    }

    pub fn with_definitions(self, def_en: String, def_de: String) -> (lemma: LemmaDefinition)
        ensures
            lemma == (LemmaDefinition { definition_en: def_en, definition_de: def_de, ..self }),
    {
        let mut lemma = self;
        lemma.definition_en = def_en;
        lemma.definition_de = def_de;
        lemma
    }

    pub fn with_category(self, category: String) -> (lemma: LemmaDefinition)
        ensures
            lemma == (LemmaDefinition { category, ..self }),
    {
        let mut lemma = self;
        lemma.category = category;
        lemma
    }

    /// Appends an example; the examples keep the order in which they were
    /// added.
    pub fn add_example(&mut self, example: String)
        ensures
            final(self).examples@ == old(self).examples@.push(example),
            *final(self) == (LemmaDefinition { examples: final(self).examples, ..*old(self) }),
    {
        self.examples.push(example);
    }
}

} // verus!
