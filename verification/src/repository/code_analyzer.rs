//! Lexical analysis of source code: what a fixed set of patterns finds.

use crate::utils::pattern::{captures_of, regex_accepts, regex_captures};
use vstd::prelude::*;

verus! {

/// The patterns, each with the kind of entity it finds. The name of the
/// entity is what the last group of a pattern captures.
pub open spec fn entity_patterns() -> Seq<(Seq<char>, Seq<char>)> {
    seq![
        ("(?m)^(pub\\s+)?async\\s+fn\\s+(\\w+)"@, "async_function"@),
        ("(?m)^(pub\\s+)?fn\\s+(\\w+)"@, "function"@),
        ("(?m)^(pub\\s+)?(struct|enum|trait)\\s+(\\w+)"@, "data_structure"@),
        ("(?m)^mod\\s+(\\w+)"@, "module"@),
    ]
}

/// What the last group of a match captured: nothing where it took no part.
pub open spec fn last_group(groups: Seq<Option<Seq<char>>>) -> Seq<char> {
    if groups.len() > 0 && groups.last() is Some {
        groups.last().unwrap()
    } else {
        Seq::empty()
    }
}

/// The names that the matches yield, in their order: the last group of each
/// match, unless it is empty.
pub open spec fn names_in(found: Seq<Seq<Option<Seq<char>>>>) -> Seq<Seq<char>>
    decreases found.len(),
{
    if found.len() == 0 {
        Seq::empty()
    } else if last_group(found.last()).len() > 0 {
        names_in(found.drop_last()).push(last_group(found.last()))
    } else {
        names_in(found.drop_last())
    }
}

/// The names that a pattern finds in the code: none where the pattern is
/// refused.
pub open spec fn names_found(pattern: Seq<char>, code: Seq<char>) -> Seq<Seq<char>> {
    if regex_accepts(pattern) {
        names_in(regex_captures(pattern, code))
    } else {
        Seq::empty()
    }
}

/// The entities of the code: for every pattern that finds a name, in the
/// order of the patterns, its kind with the names it finds.
pub open spec fn entities(patterns: Seq<(Seq<char>, Seq<char>)>, code: Seq<char>) -> Seq<
    (Seq<char>, Seq<Seq<char>>),
>
    decreases patterns.len(),
{
    if patterns.len() == 0 {
        Seq::empty()
    } else if names_found(patterns.last().0, code).len() > 0 {
        entities(patterns.drop_last(), code).push(
            (patterns.last().1, names_found(patterns.last().0, code)),
        )
    } else {
        entities(patterns.drop_last(), code)
    }
}

/// The names that matches yield.
fn collect_names(found: &Vec<Vec<Option<String>>>) -> (names: Vec<String>)
    ensures
        names.deep_view() == names_in(found.deep_view()),
{
    let ghost all = found.deep_view();
    let mut names: Vec<String> = Vec::new();
    let mut i: usize = 0;
    while i < found.len()
        invariant
            i <= found.len(),
            all == found.deep_view(),
            names.deep_view() == names_in(all.take(i as int)),
        decreases found.len() - i,
    {
        let groups = &found[i];
        proof {
            assert(all.take(i + 1).drop_last() == all.take(i as int));
            assert(all.take(i + 1).last() == groups.deep_view());
        }
        if groups.len() > 0 {
            proof {
                assert(groups.deep_view().last() == groups[groups.len() - 1].deep_view());
            }
            match &groups[groups.len() - 1] {
                Some(name) => {
                    if !name.as_str().is_empty() {
                        let ghost listed = names.deep_view();
                        names.push(name.clone());
                        proof {
                            assert(names.deep_view() =~= listed.push(name@));
                        }
                    }
                },
                None => {},
            }
        }
        i += 1;
    }
    proof {
        assert(all.take(found.len() as int) == all);
    }
    names
}

pub struct CodeAnalyzer {
    patterns: Vec<(String, String)>,
}

impl CodeAnalyzer {
    #[verifier::type_invariant]
    spec fn holds_patterns(self) -> bool {
        self.patterns.deep_view() == entity_patterns()
    }

    /// The patterns that the analyzer applies, each with its kind.
    pub closed spec fn patterns(&self) -> Seq<(Seq<char>, Seq<char>)> {
        self.patterns.deep_view()
    }

    /// An analyzer that applies the entity patterns.
    pub fn new() -> (analyzer: CodeAnalyzer)
        ensures
            analyzer.patterns() == entity_patterns(),
    {
        let mut patterns: Vec<(String, String)> = Vec::new();
        patterns.push(
            ("(?m)^(pub\\s+)?async\\s+fn\\s+(\\w+)".to_owned(), "async_function".to_owned()),
        );
        patterns.push(("(?m)^(pub\\s+)?fn\\s+(\\w+)".to_owned(), "function".to_owned()));
        patterns.push(
            (
                "(?m)^(pub\\s+)?(struct|enum|trait)\\s+(\\w+)".to_owned(),
                "data_structure".to_owned(),
            ),
        );
        patterns.push(("(?m)^mod\\s+(\\w+)".to_owned(), "module".to_owned()));
        proof {
            assert(patterns.deep_view() =~= entity_patterns());
        }
        CodeAnalyzer { patterns }
    }

    /// The entities that the patterns find in the code, by kind: asynchronous
    /// functions, functions, data structures and modules, each kind with the
    /// names found, and no kind without a name.
    pub fn analyze_code(&self, code: &str) -> (found: Vec<(String, Vec<String>)>)
        ensures
            found.deep_view() == entities(entity_patterns(), code@),
    {
        proof {
            use_type_invariant(self);
        }
        let ghost patterns = self.patterns.deep_view();
        let mut found: Vec<(String, Vec<String>)> = Vec::new();
        let mut i: usize = 0;
        while i < self.patterns.len()
            invariant
                i <= self.patterns.len(),
                patterns == self.patterns.deep_view(),
                found.deep_view() == entities(patterns.take(i as int), code@),
            decreases self.patterns.len() - i,
        {
            proof {
                assert(patterns.take(i + 1).drop_last() == patterns.take(i as int));
                assert(patterns.take(i + 1).last() == patterns[i as int]);
                assert(patterns[i as int] == (self.patterns[i as int].0@, self.patterns[i as int].1@));
            }
            let entry = &self.patterns[i];
            let names = match captures_of(entry.0.as_str(), code) {
                Some(matches) => collect_names(&matches),
                None => Vec::new(),
            };
            proof {
                assert(names.deep_view() =~= names_found(patterns[i as int].0, code@));
            }
            if names.len() > 0 {
                let ghost listed = found.deep_view();
                let ghost kind = patterns[i as int].1;
                let ghost named = names.deep_view();
                found.push((entry.1.clone(), names));
                proof {
                    assert(found.deep_view() =~= listed.push((kind, named)));
                }
            }
            i += 1;
        }
        proof {
            assert(patterns.take(self.patterns.len() as int) == patterns);
        }
        found
    }
}

impl Default for CodeAnalyzer {
    fn default() -> (analyzer: CodeAnalyzer)
        ensures
            analyzer.patterns() == entity_patterns(),
    {
        Self::new()
    }
}

} // verus!
