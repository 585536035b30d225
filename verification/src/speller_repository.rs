//! The repository of speller archives: which archive files the speller
//! directories hold, which language tags each archive serves, and which
//! archive serves a given tag.
//!
//! Walking the directories and asking Windows to resolve a neutral locale
//! name are left to the caller, which hands in what it found.
use vstd::prelude::*;
use crate::text::{views, str_eq, to_owned_string, contains_str};
use crate::paths::{extension, file_stem, spec_extension, spec_file_stem};

verus! {

/// `zhfst`, the extension of speller archives.
pub open spec fn archive_extension() -> Seq<char> {
    seq!['z', 'h', 'f', 's', 't']
}

/// Whether a path names a speller archive.
pub open spec fn is_archive(path: Seq<char>) -> bool {
    spec_extension(path) == Some(archive_extension())
}

/// The archives among the files of one directory walk, in walk order.
pub open spec fn archives_in(files: Seq<Seq<char>>) -> Seq<Seq<char>>
    decreases files.len(),
{
    if files.len() == 0 {
        Seq::empty()
    } else if is_archive(files[0]) {
        seq![files[0]] + archives_in(files.drop_first())
    } else {
        archives_in(files.drop_first())
    }
}

/// The archives of all directory walks, one walk after another.
pub open spec fn archives_of_walks(walks: Seq<Seq<Seq<char>>>) -> Seq<Seq<char>>
    decreases walks.len(),
{
    if walks.len() == 0 {
        Seq::empty()
    } else {
        archives_in(walks[0]) + archives_of_walks(walks.drop_first())
    }
}

/// The Sámi languages whose regional tags are always offered.
pub open spec fn is_sami_neutral_tag(tag: Seq<char>) -> bool {
    ||| tag == seq!['s', 'e']
    ||| tag == seq!['s', 'm', 'a']
    ||| tag == seq!['s', 'm', 'n']
    ||| tag == seq!['s', 'm', 's']
    ||| tag == seq!['s', 'm', 'j']
}

/// `{tag}-Latn-{region}`.
pub open spec fn latn_tag(tag: Seq<char>, region: Seq<char>) -> Seq<char> {
    tag + seq!['-', 'L', 'a', 't', 'n', '-'] + region
}

/// The regional tags always offered for a neutral tag: for the Sámi
/// languages, the tag in Latin script in Norway, Sweden and Finland.
pub open spec fn hardcoded_tags(tag: Seq<char>) -> Seq<Seq<char>> {
    if is_sami_neutral_tag(tag) {
        seq![
            latn_tag(tag, seq!['N', 'O']),
            latn_tag(tag, seq!['S', 'V']),
            latn_tag(tag, seq!['F', 'I']),
        ]
    } else {
        Seq::empty()
    }
}

/// The language tags served by an archive whose name is `neutral_tag`:
/// the locale name that Windows resolved it to, if any, then the
/// hard-coded regional tags.
pub open spec fn local_names(neutral_tag: Seq<char>, resolved: Option<Seq<char>>) -> Seq<Seq<char>> {
    match resolved {
        Some(r) => seq![r] + hardcoded_tags(neutral_tag),
        None => hardcoded_tags(neutral_tag),
    }
}

/// The tags that one archive serves, given what its stem resolved to.
pub open spec fn archive_tags(path: Seq<char>, resolved: Option<Seq<char>>) -> Seq<Seq<char>> {
    match spec_file_stem(path) {
        Some(stem) => local_names(stem, resolved),
        None => Seq::empty(),
    }
}

/// The tags that all archives serve, archive by archive.
pub open spec fn languages_of(archives: Seq<Seq<char>>, resolved: Seq<Option<Seq<char>>>) -> Seq<Seq<char>>
    decreases archives.len(),
{
    if archives.len() == 0 {
        Seq::empty()
    } else {
        archive_tags(archives[0], resolved[0]) + languages_of(
            archives.drop_first(),
            resolved.drop_first(),
        )
    }
}

/// The first archive that serves `tag`.
pub open spec fn archive_for(
    archives: Seq<Seq<char>>,
    resolved: Seq<Option<Seq<char>>>,
    tag: Seq<char>,
) -> Option<Seq<char>>
    decreases archives.len(),
{
    if archives.len() == 0 {
        None
    } else if archive_tags(archives[0], resolved[0]).contains(tag) {
        Some(archives[0])
    } else {
        archive_for(archives.drop_first(), resolved.drop_first(), tag)
    }
}

/// The characters of each optional string.
pub open spec fn option_views(v: Seq<Option<String>>) -> Seq<Option<Seq<char>>> {
    v.map_values(|o: Option<String>| match o {
        Some(s) => Some(s@),
        None => None,
    })
}

/// The characters of each walk's file paths.
pub open spec fn walk_views(v: Seq<Vec<String>>) -> Seq<Seq<Seq<char>>> {
    v.map_values(|w: Vec<String>| views(w@))
}

/// The directories that hold speller archives.
pub struct SpellerRepository {
    base_directories: Vec<String>,
}

impl View for SpellerRepository {
    type V = Seq<Seq<char>>;

    closed spec fn view(&self) -> Seq<Seq<char>> {
        views(self.base_directories@)
    }
}

/// The regional tags always offered for a neutral tag.
pub fn hardcoded_tag_table(tag: &str) -> (res: Vec<String>)
    ensures
        views(res@) == hardcoded_tags(tag@),
{
    let mut out: Vec<String> = Vec::new();
    let sami = str_eq(tag, "se") || str_eq(tag, "sma") || str_eq(tag, "smn") || str_eq(tag, "sms")
        || str_eq(tag, "smj");
    proof {
        reveal_strlit("se");
        reveal_strlit("sma");
        reveal_strlit("smn");
        reveal_strlit("sms");
        reveal_strlit("smj");
        assert("se"@ =~= seq!['s', 'e']);
        assert("sma"@ =~= seq!['s', 'm', 'a']);
        assert("smn"@ =~= seq!['s', 'm', 'n']);
        assert("sms"@ =~= seq!['s', 'm', 's']);
        assert("smj"@ =~= seq!['s', 'm', 'j']);
    }
    if sami {
        let no = to_owned_string(tag).concat("-Latn-NO");
        let sv = to_owned_string(tag).concat("-Latn-SV");
        let fi = to_owned_string(tag).concat("-Latn-FI");
        proof {
            reveal_strlit("-Latn-NO");
            reveal_strlit("-Latn-SV");
            reveal_strlit("-Latn-FI");
            assert(no@ =~= latn_tag(tag@, seq!['N', 'O']));
            assert(sv@ =~= latn_tag(tag@, seq!['S', 'V']));
            assert(fi@ =~= latn_tag(tag@, seq!['F', 'I']));
        }
        out.push(no);
        out.push(sv);
        out.push(fi);
    }
    assert(views(out@) =~= hardcoded_tags(tag@));
    out
}

/// The language tags served by an archive named `neutral_tag`, given the
/// locale name that Windows resolved the name to, if any.
pub fn resolve_local_name(neutral_tag: &str, resolved: Option<String>) -> (res: Vec<String>)
    ensures
        views(res@) == local_names(
            neutral_tag@,
            match resolved {
                Some(r) => Some(r@),
                None => None,
            },
        ),
{
    let mut tags: Vec<String> = Vec::new();
    let ghost r = match &resolved {
        Some(r) => Some(r@),
        None => None::<Seq<char>>,
    };
    match resolved {
        Some(tag) => tags.push(tag),
        None => {},
    }
    let extra = hardcoded_tag_table(neutral_tag);
    let mut i: usize = 0;
    while i < extra.len()
        invariant
            i <= extra@.len(),
            views(extra@) == hardcoded_tags(neutral_tag@),
            views(tags@) == match r {
                Some(t) => seq![t],
                None => Seq::<Seq<char>>::empty(),
            } + views(extra@).take(i as int),
        decreases extra@.len() - i,
    {
        let t = extra[i].clone();
        let ghost before = tags@;
        tags.push(t);
        assert(views(tags@) =~= views(before).push(t@));
        assert(views(extra@).take(i + 1) =~= views(extra@).take(i as int).push(t@));
        i = i + 1;
    }
    assert(views(extra@).take(extra@.len() as int) =~= views(extra@));
    assert(views(tags@) =~= local_names(neutral_tag@, r));
    tags
}

/// The archives of a walk are exactly its files whose extension is
/// `zhfst`, in walk order: every such file is found, whatever comes before
/// it, and nothing else is.
pub proof fn law_archives_are_zhfst_files(files: Seq<Seq<char>>)
    ensures
        archives_in(files) == files.filter(|f: Seq<char>| spec_extension(f) == Some(seq!['z', 'h', 'f', 's', 't'])),
        forall|i: int| 0 <= i < files.len() && spec_extension(files[i]) == Some(seq!['z', 'h', 'f', 's', 't'])
            ==> #[trigger] archives_in(files).contains(files[i]),
        forall|x: Seq<char>| #[trigger] archives_in(files).contains(x) ==> files.contains(x) && spec_extension(x)
            == Some(seq!['z', 'h', 'f', 's', 't']),
    decreases files.len(),
{
    let pred = |f: Seq<char>| spec_extension(f) == Some(seq!['z', 'h', 'f', 's', 't']);
    if files.len() == 0 {
        reveal(Seq::filter);
    } else {
        law_archives_are_zhfst_files(files.drop_first());
        let head = seq![files[0]];
        assert(files =~= head + files.drop_first());
        Seq::filter_distributes_over_add(head, files.drop_first(), pred);
        reveal(Seq::filter);
        assert(head.drop_last() =~= Seq::<Seq<char>>::empty());
        assert(head.drop_last().filter(pred) =~= Seq::<Seq<char>>::empty());
        if pred(files[0]) {
            assert(head.filter(pred) =~= head);
        } else {
            assert(head.filter(pred) =~= Seq::<Seq<char>>::empty());
        }
        assert(archives_in(files) =~= files.filter(pred));
    }
    let out = archives_in(files);
    broadcast use vstd::seq_lib::group_filter_ensures;
    assert forall|i: int| 0 <= i < files.len() && spec_extension(files[i]) == Some(seq!['z', 'h', 'f', 's', 't'])
        implies #[trigger] archives_in(files).contains(files[i]) by {
        assert(pred(files[i]));
    }
    assert forall|x: Seq<char>| #[trigger] archives_in(files).contains(x) implies files.contains(x) && spec_extension(x)
        == Some(seq!['z', 'h', 'f', 's', 't']) by {
        let k = choose|k: int| 0 <= k < out.len() && out[k] == x;
        assert(pred(out[k]));
        files.lemma_filter_contains_rev(pred, x);
    }
}

/// The hard-coded regional tags: for each of `se`, `sma`, `smn`, `sms` and
/// `smj`, the tag followed by `-Latn-NO`, `-Latn-SV` and `-Latn-FI`, in that
/// order; for any other tag, none.
pub proof fn law_hardcoded_tags(tag: Seq<char>)
    ensures
        (tag == seq!['s', 'e'] || tag == seq!['s', 'm', 'a'] || tag == seq!['s', 'm', 'n'] || tag == seq![
            's',
            'm',
            's',
        ] || tag == seq!['s', 'm', 'j']) ==> hardcoded_tags(tag) == seq![
            tag + seq!['-', 'L', 'a', 't', 'n', '-', 'N', 'O'],
            tag + seq!['-', 'L', 'a', 't', 'n', '-', 'S', 'V'],
            tag + seq!['-', 'L', 'a', 't', 'n', '-', 'F', 'I'],
        ],
        !(tag == seq!['s', 'e'] || tag == seq!['s', 'm', 'a'] || tag == seq!['s', 'm', 'n'] || tag == seq![
            's',
            'm',
            's',
        ] || tag == seq!['s', 'm', 'j']) ==> hardcoded_tags(tag).len() == 0,
{
    assert(latn_tag(tag, seq!['N', 'O']) =~= tag + seq!['-', 'L', 'a', 't', 'n', '-', 'N', 'O']);
    assert(latn_tag(tag, seq!['S', 'V']) =~= tag + seq!['-', 'L', 'a', 't', 'n', '-', 'S', 'V']);
    assert(latn_tag(tag, seq!['F', 'I']) =~= tag + seq!['-', 'L', 'a', 't', 'n', '-', 'F', 'I']);
}

/// The archive found for a tag is the first, in the order of the walks,
/// whose tags include it: it serves the tag, and no archive before it does.
/// When none is found, no archive serves the tag.
pub proof fn law_archive_for_is_first(
    archives: Seq<Seq<char>>,
    resolved: Seq<Option<Seq<char>>>,
    tag: Seq<char>,
)
    requires
        resolved.len() == archives.len(),
    ensures
        archive_for(archives, resolved, tag) is Some ==> exists|k: int|
            0 <= k < archives.len() && archive_for(archives, resolved, tag) == Some(archives[k])
                && #[trigger] archive_tags(archives[k], resolved[k]).contains(tag) && forall|j: int|
                0 <= j < k ==> !(#[trigger] archive_tags(archives[j], resolved[j])).contains(tag),
        archive_for(archives, resolved, tag) is None ==> forall|j: int|
            0 <= j < archives.len() ==> !(#[trigger] archive_tags(archives[j], resolved[j])).contains(tag),
    decreases archives.len(),
{
    if archives.len() > 0 {
        let a1 = archives.drop_first();
        let r1 = resolved.drop_first();
        law_archive_for_is_first(a1, r1, tag);
        if archive_tags(archives[0], resolved[0]).contains(tag) {
            assert(archive_for(archives, resolved, tag) == Some(archives[0]));
            assert(archive_tags(archives[0], resolved[0]).contains(tag));
        } else {
            if archive_for(a1, r1, tag) is Some {
                let k = choose|k: int|
                    0 <= k < a1.len() && archive_for(a1, r1, tag) == Some(a1[k])
                        && #[trigger] archive_tags(a1[k], r1[k]).contains(tag) && forall|j: int|
                        0 <= j < k ==> !(#[trigger] archive_tags(a1[j], r1[j])).contains(tag);
                assert(archives[k + 1] == a1[k] && resolved[k + 1] == r1[k]);
                assert forall|j: int| 0 <= j < k + 1 implies !(#[trigger] archive_tags(archives[j], resolved[j])).contains(tag) by {
                    if j > 0 {
                        assert(archives[j] == a1[j - 1] && resolved[j] == r1[j - 1]);
                    }
                }
                assert(archive_tags(archives[k + 1], resolved[k + 1]).contains(tag));
            } else {
                assert forall|j: int| 0 <= j < archives.len() implies !(#[trigger] archive_tags(archives[j], resolved[j])).contains(tag) by {
                    if j > 0 {
                        assert(archives[j] == a1[j - 1] && resolved[j] == r1[j - 1]);
                    }
                }
            }
        }
    }
}

/// An archive is found for a tag exactly when the tag is among the
/// supported languages, and the archive found serves the tag.
pub proof fn law_archive_found_iff_supported(
    archives: Seq<Seq<char>>,
    resolved: Seq<Option<Seq<char>>>,
    tag: Seq<char>,
)
    requires
        resolved.len() == archives.len(),
    ensures
        archive_for(archives, resolved, tag) is Some <==> languages_of(archives, resolved).contains(tag),
        archive_for(archives, resolved, tag) is Some ==> archives.contains(archive_for(archives, resolved, tag).unwrap()),
    decreases archives.len(),
{
    if archives.len() > 0 {
        let head = archive_tags(archives[0], resolved[0]);
        let rest = languages_of(archives.drop_first(), resolved.drop_first());
        law_archive_found_iff_supported(archives.drop_first(), resolved.drop_first(), tag);
        assert(languages_of(archives, resolved) == head + rest);
        if head.contains(tag) {
            let k = choose|k: int| 0 <= k < head.len() && head[k] == tag;
            assert((head + rest)[k] == tag);
            assert(archives[0] == archives[0]);
            assert(archives.contains(archives[0]));
        } else {
            if rest.contains(tag) {
                let k = choose|k: int| 0 <= k < rest.len() && rest[k] == tag;
                assert((head + rest)[head.len() + k] == tag);
            }
            if (head + rest).contains(tag) {
                let k = choose|k: int| 0 <= k < (head + rest).len() && (head + rest)[k] == tag;
                if k < head.len() {
                    assert(head[k] == tag);
                } else {
                    assert(rest[k - head.len()] == tag);
                }
            }
            if archive_for(archives, resolved, tag) is Some {
                let p = archive_for(archives, resolved, tag).unwrap();
                let k = choose|k: int| 0 <= k < archives.drop_first().len() && archives.drop_first()[k] == p;
                assert(archives[k + 1] == p);
            }
        }
    }
}

impl SpellerRepository {
    /// A repository over the given directories.
    pub fn new(base_directories: Vec<String>) -> (res: Self)
        ensures
            res@ == views(base_directories@),
    {
        SpellerRepository { base_directories }
    }

    /// The directories of the repository.
    pub fn base_directories(&self) -> (res: Vec<String>)
        ensures
            views(res@) == self@,
    {
        crate::text::clone_strings(&self.base_directories)
    }

    /// The speller archives that the directory walks found: `walks[i]`
    /// holds the files found under the `i`-th directory, in walk order.
    pub fn get_speller_archives(&self, walks: &Vec<Vec<String>>) -> (res: Vec<String>)
        requires
            walks@.len() == self@.len(),
        ensures
            views(res@) == archives_of_walks(walk_views(walks@)),
    {
        let mut out: Vec<String> = Vec::new();
        let ghost all = walk_views(walks@);
        let mut i: usize = 0;
        assert(all.skip(0) =~= all);
        assert(views(out@) + archives_of_walks(all) =~= archives_of_walks(all));
        while i < walks.len()
            invariant
                i <= walks@.len(),
                all == walk_views(walks@),
                archives_of_walks(all) == views(out@) + archives_of_walks(all.skip(i as int)),
            decreases walks@.len() - i,
        {
            let files = &walks[i];
            let ghost fs = views(files@);
            assert(all[i as int] == fs);
            assert(all.skip(i as int).drop_first() =~= all.skip(i + 1));
            assert(archives_of_walks(all.skip(i as int)) == archives_in(fs) + archives_of_walks(
                all.skip(i + 1),
            ));
            let ghost start = views(out@);
            let mut j: usize = 0;
            assert(fs.skip(0) =~= fs);
            assert(start + archives_in(fs) =~= views(out@) + archives_in(fs.skip(0)));
            while j < files.len()
                invariant
                    j <= files@.len(),
                    fs == views(files@),
                    start + archives_in(fs) == views(out@) + archives_in(fs.skip(j as int)),
                decreases files@.len() - j,
            {
                let path = &files[j];
                assert(fs[j as int] == path@);
                assert(fs.skip(j as int).drop_first() =~= fs.skip(j + 1));
                let ext = extension(path.as_str());
                let found = match ext {
                    Some(e) => str_eq(e.as_str(), "zhfst"),
                    None => false,
                };
                proof {
                    reveal_strlit("zhfst");
                    assert("zhfst"@ =~= archive_extension());
                }
                let ghost before = views(out@);
                if found {
                    out.push(path.clone());
                    assert(views(out@) =~= before.push(path@));
                    assert(before + (seq![path@] + archives_in(fs.skip(j + 1))) =~= views(out@)
                        + archives_in(fs.skip(j + 1)));
                }
                j = j + 1;
            }
            assert(fs.skip(files@.len() as int) =~= Seq::<Seq<char>>::empty());
            assert(views(out@) + Seq::<Seq<char>>::empty() =~= views(out@));
            assert(start + archives_in(fs) + archives_of_walks(all.skip(i + 1)) =~= start + (
            archives_in(fs) + archives_of_walks(all.skip(i + 1))));
            i = i + 1;
        }
        assert(all.skip(walks@.len() as int) =~= Seq::<Seq<Seq<char>>>::empty());
        assert(views(out@) + Seq::<Seq<char>>::empty() =~= views(out@));
        out
    }

    /// The language tags that the archives serve: `resolved[i]` is the
    /// locale name that Windows resolved the stem of `archives[i]` to.
    pub fn languages_of_archives(archives: &Vec<String>, resolved: &Vec<Option<String>>) -> (res: Vec<
        String,
    >)
        requires
            resolved@.len() == archives@.len(),
        ensures
            views(res@) == languages_of(views(archives@), option_views(resolved@)),
    {
        let ghost a = views(archives@);
        let ghost r = option_views(resolved@);
        let mut out: Vec<String> = Vec::new();
        let mut i: usize = 0;
        assert(a.skip(0) =~= a);
        assert(r.skip(0) =~= r);
        assert(views(out@) + languages_of(a, r) =~= languages_of(a, r));
        while i < archives.len()
            invariant
                i <= archives@.len(),
                resolved@.len() == archives@.len(),
                a == views(archives@),
                r == option_views(resolved@),
                languages_of(a, r) == views(out@) + languages_of(a.skip(i as int), r.skip(i as int)),
            decreases archives@.len() - i,
        {
            assert(a.skip(i as int)[0] == archives@[i as int]@);
            assert(a.skip(i as int).drop_first() =~= a.skip(i + 1));
            assert(r.skip(i as int).drop_first() =~= r.skip(i + 1));
            let tags = Self::tags_of_archive(&archives[i], &resolved[i]);
            assert(views(tags@) == archive_tags(a.skip(i as int)[0], r.skip(i as int)[0]));
            let ghost before = views(out@);
            let mut k: usize = 0;
            while k < tags.len()
                invariant
                    k <= tags@.len(),
                    views(out@) == before + views(tags@).take(k as int),
                decreases tags@.len() - k,
            {
                let t = tags[k].clone();
                let ghost b2 = views(out@);
                out.push(t);
                assert(views(out@) =~= b2.push(t@));
                assert(views(tags@).take(k + 1) =~= views(tags@).take(k as int).push(t@));
                k = k + 1;
            }
            assert(views(tags@).take(tags@.len() as int) =~= views(tags@));
            i = i + 1;
        }
        assert(a.skip(archives@.len() as int) =~= Seq::<Seq<char>>::empty());
        assert(views(out@) + Seq::<Seq<char>>::empty() =~= views(out@));
        out
    }

    fn tags_of_archive(path: &String, resolved: &Option<String>) -> (res: Vec<String>)
        ensures
            views(res@) == archive_tags(
                path@,
                match resolved {
                    Some(s) => Some(s@),
                    None => None,
                },
            ),
    {
        match file_stem(path.as_str()) {
            Some(stem) => {
                let r = match resolved {
                    Some(s) => Some(s.clone()),
                    None => None,
                };
                resolve_local_name(stem.as_str(), r)
            },
            None => Vec::new(),
        }
    }

    /// The language tags that the archives found by the directory walks
    /// serve: `resolved[i]` is the locale name that Windows resolved the stem
    /// of the `i`-th archive to.
    pub fn get_supported_languages(&self, walks: &Vec<Vec<String>>, resolved: &Vec<Option<String>>) -> (res: Vec<String>)
        requires
            walks@.len() == self@.len(),
            resolved@.len() == archives_of_walks(walk_views(walks@)).len(),
        ensures
            views(res@) == languages_of(archives_of_walks(walk_views(walks@)), option_views(resolved@)),
    {
        let archives = self.get_speller_archives(walks);
        Self::languages_of_archives(&archives, resolved)
    }

    /// The first archive found by the directory walks that serves
    /// `language_tag`: `resolved[i]` is the locale name that Windows resolved
    /// the stem of the `i`-th archive to.
    pub fn get_speller_archive(
        &self,
        walks: &Vec<Vec<String>>,
        resolved: &Vec<Option<String>>,
        language_tag: &str,
    ) -> (res: Option<String>)
        requires
            walks@.len() == self@.len(),
            resolved@.len() == archives_of_walks(walk_views(walks@)).len(),
        ensures
            match res {
                Some(p) => archive_for(archives_of_walks(walk_views(walks@)), option_views(resolved@), language_tag@)
                    == Some(p@),
                None => archive_for(archives_of_walks(walk_views(walks@)), option_views(resolved@), language_tag@) is None,
            },
    {
        let archives = self.get_speller_archives(walks);
        Self::archive_for_tag(&archives, resolved, language_tag)
    }

    /// The first archive that serves `language_tag`: `resolved[i]` is the
    /// locale name that Windows resolved the stem of `archives[i]` to.
    pub fn archive_for_tag(
        archives: &Vec<String>,
        resolved: &Vec<Option<String>>,
        language_tag: &str,
    ) -> (res: Option<String>)
        requires
            resolved@.len() == archives@.len(),
        ensures
            match res {
                Some(p) => archive_for(views(archives@), option_views(resolved@), language_tag@)
                    == Some(p@),
                None => archive_for(views(archives@), option_views(resolved@), language_tag@) is None,
            },
    {
        let ghost a = views(archives@);
        let ghost r = option_views(resolved@);
        let mut i: usize = 0;
        assert(a.skip(0) =~= a);
        assert(r.skip(0) =~= r);
        while i < archives.len()
            invariant
                i <= archives@.len(),
                resolved@.len() == archives@.len(),
                a == views(archives@),
                r == option_views(resolved@),
                archive_for(a, r, language_tag@) == archive_for(
                    a.skip(i as int),
                    r.skip(i as int),
                    language_tag@,
                ),
            decreases archives@.len() - i,
        {
            assert(a.skip(i as int)[0] == archives@[i as int]@);
            assert(a.skip(i as int).drop_first() =~= a.skip(i + 1));
            assert(r.skip(i as int).drop_first() =~= r.skip(i + 1));
            let tags = Self::tags_of_archive(&archives[i], &resolved[i]);
            if contains_str(&tags, language_tag) {
                return Some(archives[i].clone());
            }
            i = i + 1;
        }
        None
    }
}

} // verus!
