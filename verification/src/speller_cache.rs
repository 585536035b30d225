//! The cache of a speller's answers: whether a word is spelled correctly,
//! and the suggestions for a word.
//!
//! The speller itself, and the background worker that computes suggestions
//! ahead of time, are the caller's: it asks the cache first and records the
//! speller's answer on a miss.
use vstd::prelude::*;
use crate::text::{views, str_eq, clone_strings, to_owned_string};

verus! {

/// The value of the last entry for `key` in an association list.
pub open spec fn assoc_lookup<V>(p: Seq<(Seq<char>, V)>, key: Seq<char>) -> Option<V>
    decreases p.len(),
{
    if p.len() == 0 {
        None
    } else if p.last().0 == key {
        Some(p.last().1)
    } else {
        assoc_lookup(p.drop_last(), key)
    }
}

/// The map that an association list describes.
pub open spec fn assoc_map<V>(p: Seq<(Seq<char>, V)>) -> Map<Seq<char>, V> {
    Map::new(|k: Seq<char>| assoc_lookup(p, k) is Some, |k: Seq<char>| assoc_lookup(p, k).unwrap())
}

proof fn lemma_assoc_push<V>(p: Seq<(Seq<char>, V)>, key: Seq<char>, value: V)
    ensures
        assoc_map(p.push((key, value))) == assoc_map(p).insert(key, value),
{
    let q = p.push((key, value));
    assert(q.drop_last() =~= p);
    assert forall|k: Seq<char>| #[trigger] assoc_lookup(q, k) == (if k == key {
        Some(value)
    } else {
        assoc_lookup(p, k)
    }) by {}
    assert(assoc_map(q) =~= assoc_map(p).insert(key, value));
}

proof fn lemma_assoc_skip_tail<V>(p: Seq<(Seq<char>, V)>, i: int, key: Seq<char>)
    requires
        0 <= i <= p.len(),
        forall|j: int| i <= j < p.len() ==> (#[trigger] p[j]).0 != key,
    ensures
        assoc_lookup(p, key) == assoc_lookup(p.take(i), key),
    decreases p.len() - i,
{
    if i < p.len() {
        assert(p.take(i + 1).drop_last() =~= p.take(i));
        assert(p.take(i + 1).last() == p[i]);
        lemma_assoc_skip_tail(p, i + 1, key);
    } else {
        assert(p.take(i) =~= p);
    }
}

/// What the cache knows.
pub struct SpellerCacheView {
    /// The speller's verdict on each word it was asked about.
    pub is_correct: Map<Seq<char>, bool>,
    /// The speller's suggestions for each word it was asked about.
    pub suggestions: Map<Seq<char>, Seq<Seq<char>>>,
}

/// The cache of one speller's answers.
pub struct SpellerCache {
    is_correct: Vec<(String, bool)>,
    suggestions: Vec<(String, Vec<String>)>,
}

/// The characters of the entries of the verdict list.
pub open spec fn verdict_entries(p: Seq<(String, bool)>) -> Seq<(Seq<char>, bool)> {
    p.map_values(|e: (String, bool)| (e.0@, e.1))
}

/// The characters of the entries of the suggestion list.
pub open spec fn suggestion_entries(p: Seq<(String, Vec<String>)>) -> Seq<(Seq<char>, Seq<Seq<char>>)> {
    p.map_values(|e: (String, Vec<String>)| (e.0@, views(e.1@)))
}

impl View for SpellerCache {
    type V = SpellerCacheView;

    closed spec fn view(&self) -> SpellerCacheView {
        SpellerCacheView {
            is_correct: assoc_map(verdict_entries(self.is_correct@)),
            suggestions: assoc_map(suggestion_entries(self.suggestions@)),
        }
    }
}

/// A cache that only holds answers of the speller stays so when it records
/// the speller's answers: after any number of recordings of answers given
/// by `speller`, every cached verdict is the speller's.
pub proof fn law_cache_agrees_with_speller(
    cache: Map<Seq<char>, bool>,
    speller: spec_fn(Seq<char>) -> bool,
    word: Seq<char>,
)
    requires
        forall|w: Seq<char>| #[trigger] cache.contains_key(w) ==> cache[w] == speller(w),
    ensures
        forall|w: Seq<char>|
            #[trigger] cache.insert(word, speller(word)).contains_key(w) ==> cache.insert(
                word,
                speller(word),
            )[w] == speller(w),
{
}

impl SpellerCache {
    /// An empty cache.
    pub fn new() -> (res: Self)
        ensures
            res@.is_correct == Map::<Seq<char>, bool>::empty(),
            res@.suggestions == Map::<Seq<char>, Seq<Seq<char>>>::empty(),
    {
        let res = SpellerCache { is_correct: Vec::new(), suggestions: Vec::new() };
        assert(assoc_map(verdict_entries(res.is_correct@)) =~= Map::empty());
        assert(assoc_map(suggestion_entries(res.suggestions@)) =~= Map::empty());
        res
    }

    /// The cached verdict on `word`, if the speller was asked about it.
    pub fn is_correct(&self, word: &str) -> (res: Option<bool>)
        ensures
            match res {
                Some(b) => self@.is_correct.contains_key(word@) && self@.is_correct[word@] == b,
                None => !self@.is_correct.contains_key(word@),
            },
    {
        let ghost p = verdict_entries(self.is_correct@);
        let mut i: usize = self.is_correct.len();
        while i > 0
            invariant
                i <= self.is_correct@.len(),
                p == verdict_entries(self.is_correct@),
                forall|j: int| i <= j < p.len() ==> (#[trigger] p[j]).0 != word@,
            decreases i,
        {
            let entry = &self.is_correct[i - 1];
            assert(p[i - 1] == (entry.0@, entry.1));
            if str_eq(entry.0.as_str(), word) {
                proof {
                    lemma_assoc_skip_tail(p, i as int, word@);
                    assert(p.take(i as int).last() == p[i - 1]);
                }
                return Some(entry.1);
            }
            i = i - 1;
        }
        proof {
            lemma_assoc_skip_tail(p, 0, word@);
        }
        None
    }

    /// Records the speller's verdict on `word`.
    pub fn record_is_correct(&mut self, word: &str, is_correct: bool)
        ensures
            final(self)@.is_correct == old(self)@.is_correct.insert(word@, is_correct),
            final(self)@.suggestions == old(self)@.suggestions,
    {
        let ghost p = verdict_entries(self.is_correct@);
        self.is_correct.push((to_owned_string(word), is_correct));
        proof {
            assert(verdict_entries(self.is_correct@) =~= p.push((word@, is_correct)));
            lemma_assoc_push(p, word@, is_correct);
        }
    }

    /// The cached suggestions for `word`, if the speller was asked for them.
    pub fn suggest_cache_only(&self, word: &str) -> (res: Option<Vec<String>>)
        ensures
            match res {
                Some(s) => self@.suggestions.contains_key(word@) && self@.suggestions[word@] == views(s@),
                None => !self@.suggestions.contains_key(word@),
            },
    {
        let ghost p = suggestion_entries(self.suggestions@);
        let mut i: usize = self.suggestions.len();
        while i > 0
            invariant
                i <= self.suggestions@.len(),
                p == suggestion_entries(self.suggestions@),
                forall|j: int| i <= j < p.len() ==> (#[trigger] p[j]).0 != word@,
            decreases i,
        {
            let entry = &self.suggestions[i - 1];
            assert(p[i - 1] == (entry.0@, views(entry.1@)));
            if str_eq(entry.0.as_str(), word) {
                proof {
                    lemma_assoc_skip_tail(p, i as int, word@);
                    assert(p.take(i as int).last() == p[i - 1]);
                }
                return Some(clone_strings(&entry.1));
            }
            i = i - 1;
        }
        proof {
            lemma_assoc_skip_tail(p, 0, word@);
        }
        None
    }

    /// Whether `word` should be handed to the background worker to have its
    /// suggestions computed: only when none are cached.
    pub fn prime(&self, word: &str) -> (res: bool)
        ensures
            res == !self@.suggestions.contains_key(word@),
    {
        self.suggest_cache_only(word).is_none()
    }

    /// Records the speller's suggestions for `word`.
    pub fn record_suggestions(&mut self, word: &str, suggestions: &Vec<String>)
        ensures
            final(self)@.suggestions == old(self)@.suggestions.insert(word@, views(suggestions@)),
            final(self)@.is_correct == old(self)@.is_correct,
    {
        let ghost p = suggestion_entries(self.suggestions@);
        let copy = clone_strings(suggestions);
        self.suggestions.push((to_owned_string(word), copy));
        proof {
            assert(suggestion_entries(self.suggestions@) =~= p.push((word@, views(suggestions@))));
            lemma_assoc_push(p, word@, views(suggestions@));
        }
    }

    /// The suggestions for `word`: the cached ones if there are any, else
    /// those the speller gave, which are then cached.
    pub fn suggest(&mut self, word: &str, computed: &Vec<String>) -> (res: Vec<String>)
        ensures
            old(self)@.suggestions.contains_key(word@) ==> views(res@) == old(self)@.suggestions[word@]
                && final(self)@ == old(self)@,
            !old(self)@.suggestions.contains_key(word@) ==> views(res@) == views(computed@)
                && final(self)@.suggestions == old(self)@.suggestions.insert(word@, views(computed@))
                && final(self)@.is_correct == old(self)@.is_correct,
    {
        match self.suggest_cache_only(word) {
            Some(s) => s,
            None => {
                self.record_suggestions(word, computed);
                clone_strings(computed)
            },
        }
    }
}

} // verus!
