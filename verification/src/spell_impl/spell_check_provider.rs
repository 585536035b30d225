//! The spell checker of one language: its identity, its options, and the
//! suggestions it makes for a word.
//!
//! The speller's verdict on a word, and the suggestions it has cached, are
//! asked for by the caller when the word lists leave the word undecided.
use vstd::prelude::*;
use crate::text::{views, to_owned_string};
use crate::hresult::{S_OK, S_FALSE, E_INVALIDARG};
use crate::wordlists::{Wordlists, WordlistsView};
use super::enum_string::EnumString;

verus! {

/// The suggestions for a word and the status code that goes with them.
pub struct Suggestions {
    pub suggestions: Vec<String>,
    pub status: i32,
}

/// What the word lists alone answer when asked for suggestions: an ignored
/// word is its own suggestion (`S_FALSE`), a corrected word gets its
/// replacement (`S_OK`), an added word is its own suggestion (`S_OK`); any
/// other word is left to the speller.
pub open spec fn wordlist_suggestions(wl: WordlistsView, word: Seq<char>) -> Option<(Seq<Seq<char>>, i32)> {
    if wl.ignore.contains(word) {
        Some((seq![word], S_FALSE))
    } else if wl.auto_correct.contains_key(word) {
        Some((seq![wl.auto_correct[word]], S_OK))
    } else if wl.add.contains(word) {
        Some((seq![word], S_OK))
    } else {
        None
    }
}

/// What is answered for a word left to the speller, given its verdict and
/// the suggestions it has cached so far: the cached suggestions for a word
/// it does not know; when there are none, the word itself with `S_FALSE`
/// unless the word is excluded.
pub open spec fn speller_suggestions(
    wl: WordlistsView,
    word: Seq<char>,
    is_correct: bool,
    cached: Option<Seq<Seq<char>>>,
) -> (Seq<Seq<char>>, i32) {
    let found = if !is_correct && cached is Some {
        cached.unwrap()
    } else {
        Seq::empty()
    };
    if found.len() == 0 && !wl.exclude.contains(word) {
        (seq![word], S_FALSE)
    } else {
        (found, S_OK)
    }
}

/// Checking and suggesting agree on words that the word lists leave to the
/// speller: a word the speller accepts is not reported by the error
/// enumerator, and is its own only suggestion with `S_FALSE`; a word it
/// rejects is reported with the action of asking for suggestions.
pub proof fn law_check_agrees_with_suggest(
    wl: WordlistsView,
    word: Seq<char>,
    correct: bool,
    cached: Option<Seq<Seq<char>>>,
)
    requires
        crate::spell_impl::spelling_error::needs_speller(wl, word),
    ensures
        wordlist_suggestions(wl, word) is None,
        correct ==> crate::spell_impl::spelling_error::word_report(wl, word, correct) is None,
        correct ==> speller_suggestions(wl, word, correct, cached) == (seq![word], S_FALSE),
        !correct ==> crate::spell_impl::spelling_error::word_report(wl, word, correct) == Some(
            (crate::hresult::CORRECTIVE_ACTION_GET_SUGGESTIONS, None::<Seq<char>>),
        ),
{
}

/// What to do after asking the enumerator of a new word list for a batch
/// of words, given the status of the request.
pub struct WordBatchStep {
    /// Whether the words fetched belong to the list.
    pub take_words: bool,
    /// Whether to ask for another batch.
    pub ask_again: bool,
}

/// Reads the status of a request for a batch of words while a word list is
/// being filled: the words fetched count after `S_OK` and `S_FALSE`, and only
/// `S_OK` is followed by another request.
pub fn word_batch_step(status: i32) -> (res: WordBatchStep)
    ensures
        res.take_words == (status == S_OK || status == S_FALSE),
        res.ask_again == (status == S_OK),
{
    WordBatchStep { take_words: status == S_OK || status == S_FALSE, ask_again: status == S_OK }
}

/// What the speller path answers: a word on the exclude list for which no
/// suggestion is found gets no suggestions and `S_OK`, whatever the
/// speller's verdict; any other word without suggestions is its own only
/// suggestion with `S_FALSE`; a rejected word with cached suggestions gets
/// them with `S_OK`.
pub proof fn law_speller_suggestions(
    wl: WordlistsView,
    word: Seq<char>,
    is_correct: bool,
    cached: Option<Seq<Seq<char>>>,
)
    ensures
        (is_correct || cached is None || cached.unwrap().len() == 0) && wl.exclude.contains(word)
            ==> speller_suggestions(wl, word, is_correct, cached) == (Seq::<Seq<char>>::empty(), S_OK),
        (is_correct || cached is None || cached.unwrap().len() == 0) && !wl.exclude.contains(word)
            ==> speller_suggestions(wl, word, is_correct, cached) == (seq![word], S_FALSE),
        !is_correct && cached is Some && cached.unwrap().len() > 0 ==> speller_suggestions(
            wl,
            word,
            is_correct,
            cached,
        ) == (cached.unwrap(), S_OK),
{
}

/// `windivvun`, the identifier of the provider.
pub open spec fn provider_id() -> Seq<char> {
    seq!['w', 'i', 'n', 'd', 'i', 'v', 'v', 'u', 'n']
}

/// `WinDivvun`, the name of the provider shown to users.
pub open spec fn provider_name() -> Seq<char> {
    seq!['W', 'i', 'n', 'D', 'i', 'v', 'v', 'u', 'n']
}

/// The spell checker of one language.
pub struct DivvunSpellCheckProvider {
    language_tag: String,
}

impl View for DivvunSpellCheckProvider {
    type V = Seq<char>;

    closed spec fn view(&self) -> Seq<char> {
        self.language_tag@
    }
}

impl DivvunSpellCheckProvider {
    /// The spell checker of the language `language_tag`.
    pub fn new(language_tag: &str) -> (res: Self)
        ensures
            res@ == language_tag@,
    {
        DivvunSpellCheckProvider { language_tag: to_owned_string(language_tag) }
    }

    /// The language tag of the checker.
    pub fn get_language_tag(&self) -> (res: String)
        ensures
            res@ == self@,
    {
        self.language_tag.clone()
    }

    /// The identifier of the provider.
    pub fn get_id(&self) -> (res: String)
        ensures
            res@ == provider_id(),
    {
        let s = String::from_str("windivvun");
        proof {
            reveal_strlit("windivvun");
        }
        assert(s@ =~= provider_id());
        s
    }

    /// The name of the provider shown to users.
    pub fn get_localized_name(&self) -> (res: String)
        ensures
            res@ == provider_name(),
    {
        let s = String::from_str("WinDivvun");
        proof {
            reveal_strlit("WinDivvun");
        }
        assert(s@ =~= provider_name());
        s
    }

    /// The options of the checker: there are none.
    pub fn get_option_ids(&self) -> (res: EnumString)
        ensures
            res@.values == Seq::<Seq<char>>::empty(),
            res@.offset == 0,
    {
        let v: Vec<String> = Vec::new();
        assert(views(v@) =~= Seq::<Seq<char>>::empty());
        EnumString::new(v)
    }

    /// Reading an option fails: there are none.
    pub fn get_option_value(&self, option_id: &str) -> (res: i32)
        ensures
            res == E_INVALIDARG,
    {
        E_INVALIDARG
    }

    /// Setting an option fails: there are none.
    pub fn set_option_value(&self, option_id: &str, value: u8) -> (res: i32)
        ensures
            res == E_INVALIDARG,
    {
        E_INVALIDARG
    }

    /// Describing an option fails: there are none.
    pub fn get_option_description(&self, option_id: &str) -> (res: i32)
        ensures
            res == E_INVALIDARG,
    {
        E_INVALIDARG
    }

    /// The suggestions that the word lists alone give for `word`, or `None`
    /// when the speller must be asked.
    pub fn suggest_from_wordlists(&self, wordlists: &Wordlists, word: &str) -> (res: Option<Suggestions>)
        ensures
            match res {
                Some(s) => wordlist_suggestions(wordlists@, word@) == Some((views(s.suggestions@), s.status)),
                None => wordlist_suggestions(wordlists@, word@) is None,
            },
    {
        let w = to_owned_string(word);
        if wordlists.contains_ignore(word) {
            let mut v: Vec<String> = Vec::new();
            v.push(w);
            assert(views(v@) =~= seq![word@]);
            return Some(Suggestions { suggestions: v, status: S_FALSE });
        }
        match wordlists.get_replacement(word) {
            Some(r) => {
                let ghost rv = r@;
                let mut v: Vec<String> = Vec::new();
                v.push(r);
                assert(views(v@) =~= seq![rv]);
                return Some(Suggestions { suggestions: v, status: S_OK });
            },
            None => {},
        }
        if wordlists.contains_add(word) {
            let mut v: Vec<String> = Vec::new();
            v.push(w);
            assert(views(v@) =~= seq![word@]);
            return Some(Suggestions { suggestions: v, status: S_OK });
        }
        None
    }

    /// The suggestions for a word that the word lists leave to the speller,
    /// given the speller's verdict and the suggestions it has cached.
    pub fn suggest_with_speller(
        &self,
        wordlists: &Wordlists,
        word: &str,
        is_correct: bool,
        cached: Option<Vec<String>>,
    ) -> (res: Suggestions)
        ensures
            (views(res.suggestions@), res.status) == speller_suggestions(
                wordlists@,
                word@,
                is_correct,
                match cached {
                    Some(c) => Some(views(c@)),
                    None => None,
                },
            ),
    {
        let mut suggestions: Vec<String> = Vec::new();
        let mut status = S_OK;
        if !is_correct {
            match cached {
                Some(c) => {
                    suggestions = c;
                },
                None => {},
            }
        }
        if suggestions.len() == 0 {
            if !wordlists.contains_exclude(word) {
                suggestions.push(to_owned_string(word));
                status = S_FALSE;
            }
        }
        proof {
            if suggestions@.len() == 1 && status == S_FALSE {
                assert(views(suggestions@) =~= seq![word@]);
            }
            if suggestions@.len() == 0 {
                assert(views(suggestions@) =~= Seq::<Seq<char>>::empty());
            }
        }
        Suggestions { suggestions, status }
    }
}

} // verus!
