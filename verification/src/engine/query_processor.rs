//! The query tokenizer: which categories of the taxonomy a query touches, and
//! the coarse tokens of a query.

use crate::engine::QueryContext;
use crate::utils::pattern::{is_found_in, matches_pattern};
use crate::utils::text::{lowercase, split_words, to_lowercase, whitespace_words};
use vstd::prelude::*;
use vstd::utf8::encode_utf8;

verus! {

/// The taxonomy: keyword patterns, matched without regard to case, each with
/// the label of its category.
pub open spec fn taxonomy() -> Seq<(Seq<char>, Seq<char>)> {
    seq![
        ("(?i)(neural|neuro)"@, "neural_keyword"@),
        ("(?i)(cluster|clust)"@, "cluster_keyword"@),
        ("(?i)(path|route)"@, "path_keyword"@),
        ("(?i)(channel|interface)"@, "channel_keyword"@),
    ]
}

/// The categories that a query touches: for every pattern that matches, in
/// the order of the patterns, its label with the whole query as the one text
/// listed under it.
pub open spec fn categories(patterns: Seq<(Seq<char>, Seq<char>)>, query: Seq<char>) -> Seq<
    (Seq<char>, Seq<Seq<char>>),
>
    decreases patterns.len(),
{
    if patterns.len() == 0 {
        Seq::empty()
    } else if is_found_in(patterns.last().0, query) {
        categories(patterns.drop_last(), query).push((patterns.last().1, seq![query]))
    } else {
        categories(patterns.drop_last(), query)
    }
}

/// A token is kept if it is longer than three bytes.
pub open spec fn is_long_token() -> spec_fn(Seq<char>) -> bool {
    |token: Seq<char>| encode_utf8(token).len() > 3
}

/// The coarse tokens of a query: its words in lowercase, without those of
/// three bytes or less.
pub open spec fn entity_tokens(query: Seq<char>) -> Seq<Seq<char>> {
    whitespace_words(query).map_values(|word: Seq<char>| lowercase(word)).filter(is_long_token())
}

pub struct QueryProcessor {
    query_patterns: Vec<(String, String)>,
}

impl QueryProcessor {
    #[verifier::type_invariant]
    spec fn holds_taxonomy(self) -> bool {
        self.query_patterns.deep_view() == taxonomy()
    }

    /// The patterns that the processor matches, each with its label.
    pub closed spec fn patterns(&self) -> Seq<(Seq<char>, Seq<char>)> {
        self.query_patterns.deep_view()
    }

    /// A processor that matches the taxonomy.
    pub fn new() -> (processor: QueryProcessor)
        ensures
            processor.patterns() == taxonomy(),
    {
        let mut query_patterns: Vec<(String, String)> = Vec::new();
        query_patterns.push(("(?i)(neural|neuro)".to_owned(), "neural_keyword".to_owned()));
        query_patterns.push(("(?i)(cluster|clust)".to_owned(), "cluster_keyword".to_owned()));
        query_patterns.push(("(?i)(path|route)".to_owned(), "path_keyword".to_owned()));
        query_patterns.push(("(?i)(channel|interface)".to_owned(), "channel_keyword".to_owned()));
        proof {
            assert(query_patterns.deep_view() =~= taxonomy());
        }
        QueryProcessor { query_patterns }
    }

    /// The categories of the taxonomy that the query touches, each with the
    /// whole query listed under it.
    pub fn parse_query(&self, context: &QueryContext) -> (tokens: Vec<(String, Vec<String>)>)
        ensures
            tokens.deep_view() == categories(taxonomy(), context.query@),
    {
        proof {
            use_type_invariant(self);
        }
        let ghost patterns = self.query_patterns.deep_view();
        let mut tokens: Vec<(String, Vec<String>)> = Vec::new();
        let mut i: usize = 0;
        while i < self.query_patterns.len()
            invariant
                i <= self.query_patterns.len(),
                patterns == self.query_patterns.deep_view(),
                tokens.deep_view() == categories(patterns.take(i as int), context.query@),
            decreases self.query_patterns.len() - i,
        {
            proof {
                assert(patterns.take(i + 1).drop_last() == patterns.take(i as int));
                assert(patterns.take(i + 1).last() == patterns[i as int]);
                assert(patterns[i as int] == (
                    self.query_patterns[i as int].0@,
                    self.query_patterns[i as int].1@,
                ));
            }
            let entry = &self.query_patterns[i];
            let touched = match matches_pattern(entry.0.as_str(), context.query.as_str()) {
                Some(found) => found,
                None => false,
            };
            if touched {
                let ghost listed = tokens.deep_view();
                let mut texts: Vec<String> = Vec::new();
                texts.push(context.query.clone());
                tokens.push((entry.1.clone(), texts));
                proof {
                    assert(texts.deep_view() =~= seq![context.query@]);
                    assert(tokens.deep_view() =~= listed.push((patterns[i as int].1, seq![context.query@])));
                }
            }
            i += 1;
        }
        proof {
            assert(patterns.take(self.query_patterns.len() as int) == patterns);
        }
        tokens
    }

    /// The words of the query in lowercase, without those of three bytes or
    /// less.
    pub fn extract_entities(&self, query: &str) -> (tokens: Vec<String>)
        ensures
            tokens.deep_view() == entity_tokens(query@),
    {
        let words = split_words(query);
        let ghost lowered = words.deep_view().map_values(|word: Seq<char>| lowercase(word));
        let mut tokens: Vec<String> = Vec::new();
        let mut i: usize = 0;
        proof {
            assert(lowered.take(0).filter(is_long_token()) =~= Seq::<Seq<char>>::empty());
        }
        while i < words.len()
            invariant
                i <= words.len(),
                lowered == words.deep_view().map_values(|word: Seq<char>| lowercase(word)),
                tokens.deep_view() == lowered.take(i as int).filter(is_long_token()),
            decreases words.len() - i,
        {
            let token = to_lowercase(words[i].as_str());
            proof {
                assert(token@ == lowered[i as int]);
                assert(lowered.take(i + 1) =~= lowered.take(i as int).push(token@));
                lowered.take(i as int).lemma_filter_push(token@, is_long_token());
            }
            if token.as_str().as_bytes().len() > 3 {
                let ghost kept = tokens.deep_view();
                tokens.push(token);
                proof {
                    assert(tokens.deep_view() =~= kept.push(lowered[i as int]));
                }
            }
            i += 1;
        }
        proof {
            assert(lowered.take(words.len() as int) == lowered);
        }
        tokens
    }
}

impl Default for QueryProcessor {
    fn default() -> (processor: QueryProcessor)
        ensures
            processor.patterns() == taxonomy(),
    {
        Self::new()
    }
}

} // verus!
