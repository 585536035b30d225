//! Spelling errors and the enumerator that finds them in a text: the
//! decision, word by word, of whether and how a word is reported.
//!
//! Cutting the text into words and asking the speller whether a word is
//! spelled correctly are left to the caller: it hands each word token in,
//! and the speller's answer when it is asked for.
use vstd::prelude::*;
use crate::hresult::{CORRECTIVE_ACTION_GET_SUGGESTIONS, CORRECTIVE_ACTION_REPLACE};
use crate::wide::{to_u16s, spec_to_u16s};
use crate::wordlists::{Wordlists, WordlistsView};

verus! {

/// The wide string that a spelling error stores for its replacement: the
/// NUL-terminated UTF-16 of the replacement, or nothing when there is none
/// or it holds a NUL.
pub open spec fn replacement_units(replacement: Option<Seq<char>>) -> Seq<u16> {
    match replacement {
        Some(r) => match spec_to_u16s(r) {
            Ok(u) => u,
            Err(_) => Seq::empty(),
        },
        None => Seq::empty(),
    }
}

/// What a spelling error holds.
pub struct SpellingErrorView {
    pub start_index: u32,
    pub length: u32,
    pub corrective_action: u32,
    pub replacement: Seq<u16>,
}

/// A misspelled word: where it is, how long it is, what to do about it, and
/// its replacement, as the COM `ISpellingError` interface reports it.
pub struct DivvunSpellingError {
    start_index: u32,
    length: u32,
    corrective_action: u32,
    replacement: Vec<u16>,
}

impl View for DivvunSpellingError {
    type V = SpellingErrorView;

    closed spec fn view(&self) -> SpellingErrorView {
        SpellingErrorView {
            start_index: self.start_index,
            length: self.length,
            corrective_action: self.corrective_action,
            replacement: self.replacement@,
        }
    }
}

/// The characters of an optional string.
pub open spec fn opt_view(o: Option<String>) -> Option<Seq<char>> {
    match o {
        Some(s) => Some(s@),
        None => None,
    }
}

impl DivvunSpellingError {
    /// A spelling error at `start_index` of `length` units.
    pub fn new(start_index: u32, length: u32, corrective_action: u32, replacement: Option<String>) -> (res:
        Self)
        ensures
            res@ == (SpellingErrorView {
                start_index,
                length,
                corrective_action,
                replacement: replacement_units(opt_view(replacement)),
            }),
    {
        let units = match replacement {
            Some(r) => match to_u16s(r.as_str()) {
                Ok(u) => u,
                Err(_) => Vec::new(),
            },
            None => Vec::new(),
        };
        DivvunSpellingError { start_index, length, corrective_action, replacement: units }
    }

    /// Where the word starts.
    pub fn get_start_index(&self) -> (res: u32)
        ensures
            res == self@.start_index,
    {
        self.start_index
    }

    /// How long the word is.
    pub fn get_length(&self) -> (res: u32)
        ensures
            res == self@.length,
    {
        self.length
    }

    /// What to do about the word.
    pub fn get_corrective_action(&self) -> (res: u32)
        ensures
            res == self@.corrective_action,
    {
        self.corrective_action
    }

    /// The replacement, as a NUL-terminated wide string; there is none
    /// unless the action is to replace the word.
    pub fn get_replacement(&self) -> (res: Option<Vec<u16>>)
        ensures
            self@.corrective_action != CORRECTIVE_ACTION_REPLACE ==> res is None,
            self@.corrective_action == CORRECTIVE_ACTION_REPLACE ==> res is Some && res.unwrap()@
                == self@.replacement,
    {
        if self.corrective_action != CORRECTIVE_ACTION_REPLACE {
            None
        } else {
            Some(self.replacement.clone())
        }
    }
}

/// A word of the text being checked, with its byte offsets.
pub struct WordToken {
    pub start: usize,
    pub end: usize,
    pub value: String,
}

/// What the word lists alone decide about a word: the corrective action
/// and replacement they call for, or `None` when they call for none.
pub open spec fn wordlist_action(wl: WordlistsView, word: Seq<char>) -> Option<(u32, Option<Seq<char>>)> {
    if wl.auto_correct.contains_key(word) {
        Some((CORRECTIVE_ACTION_REPLACE, Some(wl.auto_correct[word])))
    } else if wl.exclude.contains(word) {
        Some((CORRECTIVE_ACTION_GET_SUGGESTIONS, None))
    } else {
        None
    }
}

/// Whether the speller must be asked about a word: the word lists neither
/// ignore, correct, exclude nor add it.
pub open spec fn needs_speller(wl: WordlistsView, word: Seq<char>) -> bool {
    !wl.ignore.contains(word) && wordlist_action(wl, word) is None && !wl.add.contains(word)
}

/// The action and replacement with which a word is reported, given the
/// speller's verdict (consulted only when `needs_speller`), or `None` when
/// the word is not reported. Ignored words and added words are never
/// reported; corrections and exclusions come before the speller.
pub open spec fn word_report(wl: WordlistsView, word: Seq<char>, correct: bool) -> Option<(u32, Option<Seq<char>>)> {
    if wl.ignore.contains(word) || wl.add.contains(word) {
        None
    } else if wordlist_action(wl, word) is Some {
        wordlist_action(wl, word)
    } else if correct {
        None
    } else {
        Some((CORRECTIVE_ACTION_GET_SUGGESTIONS, None))
    }
}

/// The word lists take precedence over the speller: an ignored word and an
/// added word are never reported, a corrected word is reported with its
/// replacement unless ignored or added, and a word the lists leave to the
/// speller is reported, with the action of asking for suggestions, exactly
/// when the speller rejects it.
pub proof fn law_word_report(wl: WordlistsView, word: Seq<char>, correct: bool)
    ensures
        wl.ignore.contains(word) ==> word_report(wl, word, correct) is None,
        wl.add.contains(word) ==> word_report(wl, word, correct) is None,
        !wl.ignore.contains(word) && !wl.add.contains(word) && wl.auto_correct.contains_key(word)
            ==> word_report(wl, word, correct) == Some(
            (CORRECTIVE_ACTION_REPLACE, Some(wl.auto_correct[word])),
        ),
        needs_speller(wl, word) ==> (word_report(wl, word, correct) is Some <==> !correct),
        needs_speller(wl, word) && !correct ==> word_report(wl, word, correct) == Some(
            (CORRECTIVE_ACTION_GET_SUGGESTIONS, None::<Seq<char>>),
        ),
        !needs_speller(wl, word) ==> word_report(wl, word, correct) == word_report(wl, word, !correct),
{
}

/// The spelling error that reports a token.
pub open spec fn token_error(tokenizer_start: usize, start: usize, end: usize, action: u32, replacement: Option<Seq<char>>) -> SpellingErrorView {
    SpellingErrorView {
        start_index: (tokenizer_start + start) as u32,
        length: (end - start) as u32,
        corrective_action: action,
        replacement: replacement_units(replacement),
    }
}

/// What the enumerator does with one word token.
pub enum TokenReview {
    /// The word is not reported; go on to the next one.
    Pass,
    /// Ask the speller whether the word is spelled correctly.
    AskSpeller,
    /// Report this spelling error.
    Report(DivvunSpellingError),
}

/// Where a run of reviews over word tokens stops.
pub enum NextStep {
    /// The token at this index is reported with this error.
    Report(DivvunSpellingError, usize),
    /// The speller must be asked about the token at this index.
    AskSpeller(usize),
    /// No token from the starting index on is reported.
    Exhausted,
}

/// Whether the word lists alone let a word pass.
pub open spec fn passes(wl: WordlistsView, word: Seq<char>) -> bool {
    !needs_speller(wl, word) && word_report(wl, word, true) is None
}

/// Whether the tokens are well-formed at `tokenizer_start`: each starts
/// before it ends, and its end lies within the range of offsets.
pub open spec fn tokens_fit(tokenizer_start: usize, tokens: Seq<WordToken>) -> bool {
    forall|i: int|
        0 <= i < tokens.len() ==> (#[trigger] tokens[i]).start <= tokens[i].end && tokenizer_start
            + tokens[i].end <= usize::MAX
}

/// The position in the text after a token.
pub open spec fn offset_after(tokenizer_start: usize, token_end: usize) -> int {
    tokenizer_start + token_end
}

/// The enumerator of the spelling errors in a text.
pub struct DivvunEnumSpellingError {
    text: String,
    text_offset: usize,
}

impl DivvunEnumSpellingError {
    /// An enumerator at the start of `text`.
    pub fn new(text: String) -> (res: Self)
        ensures
            res.text()@ == text@,
            res.text_offset() == 0,
    {
        DivvunEnumSpellingError { text, text_offset: 0 }
    }

    /// The text being checked.
    pub closed spec fn text(&self) -> String {
        self.text
    }

    /// The byte offset from which the next words are read.
    pub closed spec fn text_offset(&self) -> usize {
        self.text_offset
    }

    /// The text being checked.
    pub fn get_text(&self) -> (res: &String)
        ensures
            res == self.text(),
    {
        &self.text
    }

    /// The byte offset from which the next words are read.
    pub fn get_text_offset(&self) -> (res: usize)
        ensures
            res == self.text_offset(),
    {
        self.text_offset
    }

    /// Reviews the next word token, found `tokenizer_start` bytes into the
    /// text: moves past it, then passes it, asks for the speller's verdict,
    /// or reports it as the word lists decide.
    pub fn review_token(&mut self, wordlists: &Wordlists, tokenizer_start: usize, token: &WordToken) -> (res:
        TokenReview)
        requires
            tokenizer_start + token.end <= usize::MAX,
            token.start <= token.end,
        ensures
            final(self).text_offset() == tokenizer_start + token.end,
            final(self).text() == old(self).text(),
            res is AskSpeller <==> needs_speller(wordlists@, token.value@),
            res is Pass <==> !needs_speller(wordlists@, token.value@) && word_report(
                wordlists@,
                token.value@,
                true,
            ) is None,
            res matches TokenReview::Report(e) ==> {
                &&& !needs_speller(wordlists@, token.value@)
                &&& word_report(wordlists@, token.value@, true) is Some
                &&& e@ == token_error(
                    tokenizer_start,
                    token.start,
                    token.end,
                    word_report(wordlists@, token.value@, true).unwrap().0,
                    word_report(wordlists@, token.value@, true).unwrap().1,
                )
            },
    {
        self.text_offset = tokenizer_start + token.end;
        let word = token.value.as_str();
        if wordlists.contains_ignore(word) {
            return TokenReview::Pass;
        }
        let mut action: Option<u32> = None;
        let mut replacement: Option<String> = None;
        match wordlists.get_replacement(word) {
            Some(r) => {
                action = Some(CORRECTIVE_ACTION_REPLACE);
                replacement = Some(r);
            },
            None => {},
        }
        if action.is_none() && wordlists.contains_exclude(word) {
            action = Some(CORRECTIVE_ACTION_GET_SUGGESTIONS);
            replacement = None;
        }
        if wordlists.contains_add(word) {
            return TokenReview::Pass;
        }
        match action {
            None => TokenReview::AskSpeller,
            Some(a) => TokenReview::Report(
                DivvunSpellingError::new(
                    (tokenizer_start + token.start) as u32,
                    (token.end - token.start) as u32,
                    a,
                    replacement,
                ),
            ),
        }
    }

    /// Reviews the word tokens from index `from` on, found `tokenizer_start`
    /// bytes into the text, and stops at the first one that is to be
    /// reported or that the speller must be asked about.
    pub fn next_step(
        &mut self,
        wordlists: &Wordlists,
        tokenizer_start: usize,
        tokens: &Vec<WordToken>,
        from: usize,
    ) -> (res: NextStep)
        requires
            tokens_fit(tokenizer_start, tokens@),
        ensures
            final(self).text() == old(self).text(),
            match res {
                NextStep::Report(e, k) => {
                    &&& from <= k < tokens@.len()
                    &&& forall|j: int| from <= j < k ==> passes(wordlists@, (#[trigger] tokens@[j]).value@)
                    &&& !needs_speller(wordlists@, tokens@[k as int].value@)
                    &&& word_report(wordlists@, tokens@[k as int].value@, true) is Some
                    &&& e@ == token_error(
                        tokenizer_start,
                        tokens@[k as int].start,
                        tokens@[k as int].end,
                        word_report(wordlists@, tokens@[k as int].value@, true).unwrap().0,
                        word_report(wordlists@, tokens@[k as int].value@, true).unwrap().1,
                    )
                    &&& final(self).text_offset() == tokenizer_start + tokens@[k as int].end
                },
                NextStep::AskSpeller(k) => {
                    &&& from <= k < tokens@.len()
                    &&& forall|j: int| from <= j < k ==> passes(wordlists@, (#[trigger] tokens@[j]).value@)
                    &&& needs_speller(wordlists@, tokens@[k as int].value@)
                    &&& final(self).text_offset() == tokenizer_start + tokens@[k as int].end
                },
                NextStep::Exhausted => {
                    &&& forall|j: int| from <= j < tokens@.len() ==> passes(wordlists@, (#[trigger] tokens@[j]).value@)
                    &&& from < tokens@.len() ==> final(self).text_offset() == tokenizer_start + tokens@.last().end
                    &&& from >= tokens@.len() ==> final(self).text_offset() == old(self).text_offset()
                },
            },
    {
        let mut i = from;
        while i < tokens.len()
            invariant
                tokens_fit(tokenizer_start, tokens@),
                from <= i,
                self.text() == old(self).text(),
                forall|j: int| from <= j < i ==> passes(wordlists@, (#[trigger] tokens@[j]).value@),
                i > from ==> i <= tokens@.len() && self.text_offset() == tokenizer_start + tokens@[i - 1].end,
                i == from ==> self.text_offset() == old(self).text_offset(),
            decreases tokens@.len() - i,
        {
            let t = &tokens[i];
            assert(t.start <= t.end && tokenizer_start + t.end <= usize::MAX);
            match self.review_token(wordlists, tokenizer_start, t) {
                TokenReview::Pass => {},
                TokenReview::AskSpeller => {
                    return NextStep::AskSpeller(i);
                },
                TokenReview::Report(e) => {
                    return NextStep::Report(e, i);
                },
            }
            i = i + 1;
        }
        NextStep::Exhausted
    }

    /// Decides about a token that the speller was asked about: a word the
    /// speller does not know is reported, with the action of asking for
    /// suggestions.
    pub fn review_speller_verdict(&self, tokenizer_start: usize, token: &WordToken, is_correct: bool) -> (res:
        Option<DivvunSpellingError>)
        requires
            tokenizer_start + token.start <= usize::MAX,
            token.start <= token.end,
        ensures
            is_correct ==> res is None,
            !is_correct ==> res is Some && res.unwrap()@ == token_error(
                tokenizer_start,
                token.start,
                token.end,
                CORRECTIVE_ACTION_GET_SUGGESTIONS,
                None,
            ),
    {
        if is_correct {
            None
        } else {
            Some(
                DivvunSpellingError::new(
                    (tokenizer_start + token.start) as u32,
                    (token.end - token.start) as u32,
                    CORRECTIVE_ACTION_GET_SUGGESTIONS,
                    None,
                ),
            )
        }
    }
}

} // verus!
