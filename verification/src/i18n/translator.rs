//! Translations of single terms between languages.

use vstd::prelude::*;

verus! {

/// What a translation is found by: the language it is from, the language it
/// is into, and the term.
pub type TermKey = (Seq<char>, Seq<char>, Seq<char>);

/// One translation as it is kept.
struct Translation {
    from: String,
    to: String,
    source: String,
    target: String,
}

/// The translations listed in `log`, a later one overriding an earlier one for
/// the same key.
spec fn table_of(log: Seq<Translation>) -> Map<TermKey, Seq<char>>
    decreases log.len(),
{
    if log.len() == 0 {
        Map::empty()
    } else {
        table_of(log.drop_last()).insert(
            (log.last().from@, log.last().to@, log.last().source@),
            log.last().target@,
        )
    }
}

/// The translations that a new translator knows, all from English into
/// German.
pub open spec fn default_translations() -> Map<TermKey, Seq<char>> {
    Map::<TermKey, Seq<char>>::empty().insert(("en"@, "de"@, "neural"@), "neural"@).insert(
        ("en"@, "de"@, "cluster"@),
        "Cluster"@,
    ).insert(("en"@, "de"@, "node"@), "Knoten"@).insert(("en"@, "de"@, "path"@), "Pfad"@).insert(
        ("en"@, "de"@, "interface"@),
        "Schnittstelle"@,
    ).insert(("en"@, "de"@, "audit"@), "Überprüfung"@).insert(
        ("en"@, "de"@, "validation"@),
        "Validierung"@,
    ).insert(("en"@, "de"@, "channel"@), "Kanal"@).insert(
        ("en"@, "de"@, "repository"@),
        "Quelle"@,
    )
}

pub struct Translator {
    translations: Vec<Translation>,
}

impl Translator {
    /// The translations known, by key.
    pub closed spec fn translations(&self) -> Map<TermKey, Seq<char>> {
        table_of(self.translations@)
    }

    /// A translator that knows the default translations.
    pub fn new() -> (translator: Translator)
        ensures
            translator.translations() == default_translations(),
    {
        let mut translator = Translator { translations: Vec::new() };
        translator.populate_translations();
        translator
    }

    fn populate_translations(&mut self)
        requires
            old(self).translations() == Map::<TermKey, Seq<char>>::empty(),
        ensures
            final(self).translations() == default_translations(),
    {
        self.add_translation("en", "de", "neural", "neural");
        self.add_translation("en", "de", "cluster", "Cluster");
        self.add_translation("en", "de", "node", "Knoten");
        self.add_translation("en", "de", "path", "Pfad");
        self.add_translation("en", "de", "interface", "Schnittstelle");
        self.add_translation("en", "de", "audit", "Überprüfung");
        self.add_translation("en", "de", "validation", "Validierung");
        self.add_translation("en", "de", "channel", "Kanal");
        self.add_translation("en", "de", "repository", "Quelle");
    }

    /// Records that `source` in the language `from` is `target` in the
    /// language `to`, in place of what was recorded for the three before.
    pub fn add_translation(&mut self, from: &str, to: &str, source: &str, target: &str)
        ensures
            final(self).translations() == old(self).translations().insert(
                (from@, to@, source@),
                target@,
            ),
    {
        let ghost before = self.translations@;
        self.translations.push(
            Translation {
                from: from.to_owned(),
                to: to.to_owned(),
                source: source.to_owned(),
                target: target.to_owned(),
            },
        );
        proof {
            assert(self.translations@.drop_last() =~= before);
        }
    }

    /// What is recorded for `term` from the language `from` into the language
    /// `to`, if anything.
    pub fn translate(&self, from: &str, to: &str, term: &str) -> (target: Option<String>)
        ensures
            target.deep_view() == if self.translations().contains_key((from@, to@, term@)) {
                Some(self.translations()[(from@, to@, term@)])
            } else {
                None
            },
    {
        let from_key = from.to_owned();
        let to_key = to.to_owned();
        let term_key = term.to_owned();
        let ghost key = (from@, to@, term@);
        let ghost log = self.translations@;
        let mut i: usize = self.translations.len();
        proof {
            assert(log.take(i as int) == log);
        }
        while i > 0
            invariant
                i <= self.translations.len(),
                log == self.translations@,
                key == (from@, to@, term@),
                from_key@ == from@,
                to_key@ == to@,
                term_key@ == term@,
                table_of(log).contains_key(key) == table_of(log.take(i as int)).contains_key(key),
                table_of(log).contains_key(key) ==> table_of(log)[key] == table_of(
                    log.take(i as int),
                )[key],
            decreases i,
        {
            let entry = &self.translations[i - 1];
            proof {
                assert(log.take(i as int).drop_last() == log.take(i - 1));
                assert(log.take(i as int).last() == log[i - 1]);
            }
            if entry.from == from_key && entry.to == to_key && entry.source == term_key {
                return Some(entry.target.clone());
            }
            i -= 1;
        }
        proof {
            assert(log.take(0).len() == 0);
        }
        None
    }
}

impl Default for Translator {
    fn default() -> (translator: Translator)
        ensures
            translator.translations() == default_translations(),
    {
        Self::new()
    }
}

} // verus!
