//! The user's word lists: words to ignore, words added to the dictionary,
//! words excluded from it, and automatic corrections.
use vstd::prelude::*;
use crate::text::{views, str_eq, contains_str, clone_strings, to_owned_string};
use crate::hresult::{
    WORDLIST_TYPE_IGNORE, WORDLIST_TYPE_ADD, WORDLIST_TYPE_EXCLUDE, WORDLIST_TYPE_AUTOCORRECT,
};

verus! {

/// The characters of each (word, replacement) pair.
pub open spec fn pair_views(p: Seq<(String, String)>) -> Seq<(Seq<char>, Seq<char>)> {
    p.map_values(|x: (String, String)| (x.0@, x.1@))
}

/// The replacement of `word` in a list of corrections: that of its last
/// entry, as when the entries are inserted into a map one after another.
pub open spec fn lookup(p: Seq<(Seq<char>, Seq<char>)>, word: Seq<char>) -> Option<Seq<char>>
    decreases p.len(),
{
    if p.len() == 0 {
        None
    } else if p.last().0 == word {
        Some(p.last().1)
    } else {
        lookup(p.drop_last(), word)
    }
}

/// The map of corrections that a list of entries describes.
pub open spec fn corrections_map(p: Seq<(Seq<char>, Seq<char>)>) -> Map<Seq<char>, Seq<char>> {
    Map::new(|k: Seq<char>| lookup(p, k) is Some, |k: Seq<char>| lookup(p, k).unwrap())
}

/// The index of the first tab in `s`, or -1.
pub open spec fn first_tab(s: Seq<char>) -> int
    decreases s.len(),
{
    if s.len() == 0 {
        -1
    } else if s[0] == '\t' {
        0
    } else if first_tab(s.drop_first()) == -1 {
        -1
    } else {
        first_tab(s.drop_first()) + 1
    }
}

/// A line of an automatic-correction list: a word and its replacement,
/// separated by exactly one tab. Other lines describe no correction.
pub open spec fn correction_line(line: Seq<char>) -> Option<(Seq<char>, Seq<char>)> {
    let i = first_tab(line);
    if i == -1 || line.skip(i + 1).contains('\t') {
        None
    } else {
        Some((line.take(i), line.skip(i + 1)))
    }
}

/// The corrections that the lines of a list describe, in order.
pub open spec fn corrections_of_lines(lines: Seq<Seq<char>>) -> Seq<(Seq<char>, Seq<char>)>
    decreases lines.len(),
{
    if lines.len() == 0 {
        Seq::empty()
    } else {
        match correction_line(lines.last()) {
            Some(p) => corrections_of_lines(lines.drop_last()).push(p),
            None => corrections_of_lines(lines.drop_last()),
        }
    }
}

/// What the word lists hold.
pub struct WordlistsView {
    pub ignore: Set<Seq<char>>,
    pub add: Set<Seq<char>>,
    pub exclude: Set<Seq<char>>,
    pub auto_correct: Map<Seq<char>, Seq<char>>,
}

/// The user's word lists of one spell checker.
pub struct Wordlists {
    ignore: Vec<String>,
    add: Vec<String>,
    exclude: Vec<String>,
    auto_correct: Vec<(String, String)>,
}

impl View for Wordlists {
    type V = WordlistsView;

    closed spec fn view(&self) -> WordlistsView {
        WordlistsView {
            ignore: views(self.ignore@).to_set(),
            add: views(self.add@).to_set(),
            exclude: views(self.exclude@).to_set(),
            auto_correct: corrections_map(pair_views(self.auto_correct@)),
        }
    }
}

proof fn lemma_lookup_skip_tail(p: Seq<(Seq<char>, Seq<char>)>, i: int, word: Seq<char>)
    requires
        0 <= i <= p.len(),
        forall|j: int| i <= j < p.len() ==> (#[trigger] p[j]).0 != word,
    ensures
        lookup(p, word) == lookup(p.take(i), word),
    decreases p.len() - i,
{
    if i < p.len() {
        assert(p.take(i + 1).drop_last() =~= p.take(i));
        assert(p.take(i + 1).last() == p[i]);
        lemma_lookup_skip_tail(p, i + 1, word);
    } else {
        assert(p.take(i) =~= p);
    }
}

proof fn lemma_first_tab_bounds(s: Seq<char>)
    ensures
        -1 <= first_tab(s) < s.len(),
    decreases s.len(),
{
    if s.len() > 0 {
        lemma_first_tab_bounds(s.drop_first());
    }
}

fn find_first_tab(s: &str) -> (res: Option<usize>)
    ensures
        match res {
            Some(i) => i as int == first_tab(s@) && i < s@.len(),
            None => first_tab(s@) == -1,
        },
{
    let n = s.unicode_len();
    let mut i: usize = 0;
    assert(s@.skip(0) =~= s@);
    while i < n
        invariant
            n == s@.len(),
            i <= n,
            forall|j: int| 0 <= j < i ==> s@[j] != '\t',
            first_tab(s@) == (if first_tab(s@.skip(i as int)) == -1 {
                -1
            } else {
                first_tab(s@.skip(i as int)) + i
            }),
        decreases n - i,
    {
        let c = s.get_char(i);
        assert(s@.skip(i as int)[0] == c);
        if c == '\t' {
            return Some(i);
        }
        assert(s@.skip(i as int).drop_first() =~= s@.skip(i + 1));
        proof {
            lemma_first_tab_bounds(s@.skip(i + 1));
        }
        assert(first_tab(s@.skip(i as int)) == (if first_tab(s@.skip(i + 1)) == -1 {
            -1
        } else {
            first_tab(s@.skip(i + 1)) + 1
        }));
        i = i + 1;
    }
    assert(s@.skip(n as int).len() == 0);
    None
}

fn has_tab_from(s: &str, from: usize) -> (res: bool)
    requires
        from <= s@.len(),
    ensures
        res == s@.skip(from as int).contains('\t'),
{
    let n = s.unicode_len();
    let mut i: usize = from;
    while i < n
        invariant
            n == s@.len(),
            from <= i <= n,
            forall|j: int| from <= j < i ==> s@[j] != '\t',
        decreases n - i,
    {
        if s.get_char(i) == '\t' {
            assert(s@.skip(from as int)[i - from] == '\t');
            return true;
        }
        i = i + 1;
    }
    assert forall|k: int| 0 <= k < s@.skip(from as int).len() implies s@.skip(from as int)[k] != '\t' by {
        assert(s@.skip(from as int)[k] == s@[from + k]);
    }
    false
}

/// Splits a line of an automatic-correction list into the word and its
/// replacement; `None` unless the line holds exactly one tab.
pub fn split_correction_line(line: &str) -> (res: Option<(String, String)>)
    ensures
        match res {
            Some(p) => correction_line(line@) == Some((p.0@, p.1@)),
            None => correction_line(line@) is None,
        },
{
    let n = line.unicode_len();
    match find_first_tab(line) {
        None => None,
        Some(i) => {
            if has_tab_from(line, i + 1) {
                None
            } else {
                let word = to_owned_string(line.substring_char(0, i));
                let replacement = to_owned_string(line.substring_char(i + 1, n));
                assert(line@.subrange(0, i as int) =~= line@.take(i as int));
                assert(line@.subrange(i + 1, n as int) =~= line@.skip(i + 1));
                Some((word, replacement))
            }
        },
    }
}

/// The corrections that the lines of an automatic-correction list
/// describe; lines without exactly one tab are passed over.
pub fn parse_auto_correct(lines: &Vec<String>) -> (res: Vec<(String, String)>)
    ensures
        pair_views(res@) == corrections_of_lines(views(lines@)),
{
    let mut out: Vec<(String, String)> = Vec::new();
    let mut i: usize = 0;
    while i < lines.len()
        invariant
            i <= lines@.len(),
            pair_views(out@) == corrections_of_lines(views(lines@).take(i as int)),
        decreases lines@.len() - i,
    {
        let ghost l = views(lines@);
        assert(l.take(i + 1).drop_last() =~= l.take(i as int));
        assert(l.take(i + 1).last() == lines@[i as int]@);
        let ghost before = pair_views(out@);
        match split_correction_line(lines[i].as_str()) {
            Some(p) => {
                out.push(p);
                assert(pair_views(out@) =~= before.push((p.0@, p.1@)));
            },
            None => {},
        }
        i = i + 1;
    }
    assert(views(lines@).take(lines@.len() as int) =~= views(lines@));
    out
}

proof fn lemma_first_tab_of_pair(a: Seq<char>, b: Seq<char>)
    requires
        !a.contains('\t'),
    ensures
        first_tab(a + seq!['\t'] + b) == a.len(),
    decreases a.len(),
{
    let s = a + seq!['\t'] + b;
    if a.len() == 0 {
        assert(s[0] == '\t');
    } else {
        assert(s[0] == a[0]);
        assert(a[0] != '\t') by {
            if a[0] == '\t' {
                assert(a.contains('\t'));
            }
        }
        assert(s.drop_first() =~= a.drop_first() + seq!['\t'] + b);
        assert(!a.drop_first().contains('\t')) by {
            if a.drop_first().contains('\t') {
                let k = choose|k: int| 0 <= k < a.drop_first().len() && a.drop_first()[k] == '\t';
                assert(a[k + 1] == '\t');
            }
        }
        lemma_first_tab_of_pair(a.drop_first(), b);
    }
}

/// A list read back gives what was written: after a list of words is set,
/// a word is in it exactly when it was among the words set; after an
/// automatic-correction list is set whose last line is `word\treplacement`
/// (neither holding a tab), `word` is corrected to `replacement`.
pub proof fn law_lists_read_back(words: Seq<Seq<char>>, w: Seq<char>, lines: Seq<Seq<char>>, word: Seq<char>, replacement: Seq<char>)
    requires
        !word.contains('\t'),
        !replacement.contains('\t'),
    ensures
        words.to_set().contains(w) <==> words.contains(w),
        corrections_map(corrections_of_lines(lines.push(word + seq!['\t'] + replacement))).contains_key(word),
        corrections_map(corrections_of_lines(lines.push(word + seq!['\t'] + replacement)))[word] == replacement,
{
    let line = word + seq!['\t'] + replacement;
    lemma_first_tab_of_pair(word, replacement);
    assert(line.take(word.len() as int) =~= word);
    assert(line.skip(word.len() as int + 1) =~= replacement);
    assert(correction_line(line) == Some((word, replacement)));
    let all = lines.push(line);
    assert(all.drop_last() =~= lines);
    assert(all.last() == line);
    let c = corrections_of_lines(all);
    assert(c == corrections_of_lines(lines).push((word, replacement)));
    assert(c.last() == (word, replacement));
    assert(lookup(c, word) == Some(replacement));
}

impl Wordlists {
    /// Empty word lists.
    pub fn new() -> (res: Self)
        ensures
            res@.ignore == Set::<Seq<char>>::empty(),
            res@.add == Set::<Seq<char>>::empty(),
            res@.exclude == Set::<Seq<char>>::empty(),
            res@.auto_correct == Map::<Seq<char>, Seq<char>>::empty(),
    {
        let res = Wordlists {
            ignore: Vec::new(),
            add: Vec::new(),
            exclude: Vec::new(),
            auto_correct: Vec::new(),
        };
        assert(views(res.ignore@).to_set() =~= Set::empty());
        assert(views(res.add@).to_set() =~= Set::empty());
        assert(views(res.exclude@).to_set() =~= Set::empty());
        assert(corrections_map(pair_views(res.auto_correct@)) =~= Map::empty());
        res
    }

    /// Whether `word` was added to the dictionary.
    pub fn contains_add(&self, word: &str) -> (res: bool)
        ensures
            res == self@.add.contains(word@),
    {
        contains_str(&self.add, word)
    }

    /// Whether `word` is ignored.
    pub fn contains_ignore(&self, word: &str) -> (res: bool)
        ensures
            res == self@.ignore.contains(word@),
    {
        contains_str(&self.ignore, word)
    }

    /// Whether `word` is excluded from the dictionary.
    pub fn contains_exclude(&self, word: &str) -> (res: bool)
        ensures
            res == self@.exclude.contains(word@),
    {
        contains_str(&self.exclude, word)
    }

    /// The automatic correction of `word`, if there is one.
    pub fn get_replacement(&self, word: &str) -> (res: Option<String>)
        ensures
            match res {
                Some(r) => self@.auto_correct.contains_key(word@) && self@.auto_correct[word@] == r@,
                None => !self@.auto_correct.contains_key(word@),
            },
    {
        let ghost p = pair_views(self.auto_correct@);
        let mut i: usize = self.auto_correct.len();
        while i > 0
            invariant
                i <= self.auto_correct@.len(),
                p == pair_views(self.auto_correct@),
                forall|j: int| i <= j < p.len() ==> (#[trigger] p[j]).0 != word@,
            decreases i,
        {
            let entry = &self.auto_correct[i - 1];
            assert(p[i - 1] == (entry.0@, entry.1@));
            if str_eq(entry.0.as_str(), word) {
                proof {
                    lemma_lookup_skip_tail(p, i as int, word@);
                    assert(p.take(i as int).last() == p[i - 1]);
                }
                return Some(entry.1.clone());
            }
            i = i - 1;
        }
        proof {
            lemma_lookup_skip_tail(p, 0, word@);
        }
        None
    }

    /// Replaces the ignored words.
    pub fn set_ignore(&mut self, words: Vec<String>)
        ensures
            final(self)@.ignore == views(words@).to_set(),
            final(self)@.add == old(self)@.add,
            final(self)@.exclude == old(self)@.exclude,
            final(self)@.auto_correct == old(self)@.auto_correct,
    {
        self.ignore = words;
    }

    /// Replaces the words added to the dictionary.
    pub fn set_add(&mut self, words: Vec<String>)
        ensures
            final(self)@.add == views(words@).to_set(),
            final(self)@.ignore == old(self)@.ignore,
            final(self)@.exclude == old(self)@.exclude,
            final(self)@.auto_correct == old(self)@.auto_correct,
    {
        self.add = words;
    }

    /// Replaces the words excluded from the dictionary.
    pub fn set_exclude(&mut self, words: Vec<String>)
        ensures
            final(self)@.exclude == views(words@).to_set(),
            final(self)@.ignore == old(self)@.ignore,
            final(self)@.add == old(self)@.add,
            final(self)@.auto_correct == old(self)@.auto_correct,
    {
        self.exclude = words;
    }

    /// Replaces the automatic corrections by the given entries; where a word
    /// has several, the last one counts.
    pub fn set_auto_correct(&mut self, words: Vec<(String, String)>)
        ensures
            final(self)@.auto_correct == corrections_map(pair_views(words@)),
            final(self)@.ignore == old(self)@.ignore,
            final(self)@.add == old(self)@.add,
            final(self)@.exclude == old(self)@.exclude,
    {
        self.auto_correct = words;
    }

    /// Fills the list of the given type with the given words; for the
    /// automatic corrections each word is a line `word\treplacement`. An
    /// unknown type changes nothing.
    pub fn initialize_wordlist(&mut self, wordlist_type: u32, words: Vec<String>)
        ensures
            wordlist_type == WORDLIST_TYPE_IGNORE ==> final(self)@ == (WordlistsView {
                ignore: views(words@).to_set(),
                ..old(self)@
            }),
            wordlist_type == WORDLIST_TYPE_ADD ==> final(self)@ == (WordlistsView {
                add: views(words@).to_set(),
                ..old(self)@
            }),
            wordlist_type == WORDLIST_TYPE_EXCLUDE ==> final(self)@ == (WordlistsView {
                exclude: views(words@).to_set(),
                ..old(self)@
            }),
            wordlist_type == WORDLIST_TYPE_AUTOCORRECT ==> final(self)@ == (WordlistsView {
                auto_correct: corrections_map(corrections_of_lines(views(words@))),
                ..old(self)@
            }),
            wordlist_type > WORDLIST_TYPE_AUTOCORRECT ==> final(self)@ == old(self)@,
    {
        if wordlist_type == WORDLIST_TYPE_ADD {
            self.set_add(words);
        } else if wordlist_type == WORDLIST_TYPE_EXCLUDE {
            self.set_exclude(words);
        } else if wordlist_type == WORDLIST_TYPE_AUTOCORRECT {
            let pairs = parse_auto_correct(&words);
            self.set_auto_correct(pairs);
        } else if wordlist_type == WORDLIST_TYPE_IGNORE {
            self.set_ignore(words);
        }
    }
}

} // verus!
