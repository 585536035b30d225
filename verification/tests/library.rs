use windivvun::com::RefCount;
use windivvun::dll::{can_unload_now, get_class_object};
use windivvun::guid::{fmt_guid, iid_iclassfactory, iid_ienumstring, iid_iunknown, iid_ispellcheckproviderfactory, is_equal_guid, Guid};
use windivvun::hresult::{CLASS_E_CLASSNOTAVAILABLE, CORRECTIVE_ACTION_GET_SUGGESTIONS, CORRECTIVE_ACTION_REPLACE, E_INVALIDARG, E_NOINTERFACE, E_NOTIMPL, E_UNEXPECTED, S_FALSE, S_OK, WORDLIST_TYPE_ADD, WORDLIST_TYPE_AUTOCORRECT, WORDLIST_TYPE_EXCLUDE, WORDLIST_TYPE_IGNORE};
use windivvun::paths::{extension, file_name, file_stem};
use windivvun::speller_cache::SpellerCache;
use windivvun::speller_repository::{hardcoded_tag_table, resolve_local_name, SpellerRepository};
use windivvun::spell_impl::class_factory::DivvunSpellCheckProviderFactoryClassFactory;
use windivvun::spell_impl::enum_string::EnumString;
use windivvun::spell_impl::spell_check_provider::{word_batch_step, DivvunSpellCheckProvider};
use windivvun::spell_impl::spell_check_provider_factory::DivvunSpellCheckProviderFactory;
use windivvun::spell_impl::spelling_error::{DivvunEnumSpellingError, DivvunSpellingError, NextStep, TokenReview, WordToken};
use windivvun::wide::{resolve_locale_name, string_from_wide, to_u16s, wide_from_slice, WideStringError};
use windivvun::wordlists::{parse_auto_correct, split_correction_line, Wordlists};

fn strings(v: &[&str]) -> Vec<String> {
    v.iter().map(|s| s.to_string()).collect()
}

// ---- wide strings ----

#[test]
fn to_u16s_ascii_is_nul_terminated() {
    assert_eq!(to_u16s("se").unwrap(), vec![0x73, 0x65, 0]);
}

#[test]
fn to_u16s_encodes_surrogate_pairs() {
    assert_eq!(to_u16s("a\u{1F600}").unwrap(), vec![0x61, 0xD83D, 0xDE00, 0]);
    assert_eq!(to_u16s("č").unwrap(), vec![0x10D, 0]);
}

#[test]
fn to_u16s_refuses_interior_nul() {
    assert_eq!(to_u16s("a\0b"), Err(WideStringError::InteriorNul));
}

#[test]
fn to_u16s_empty() {
    assert_eq!(to_u16s("").unwrap(), vec![0]);
}

#[test]
fn wide_from_slice_stops_at_nul() {
    assert_eq!(wide_from_slice(&[0x61, 0x62, 0, 0x63, 0]), vec![0x61, 0x62]);
    assert_eq!(wide_from_slice(&[0, 1]), Vec::<u16>::new());
}

#[test]
fn string_from_wide_decodes_and_refuses_lone_surrogates() {
    assert_eq!(string_from_wide(&[0x61, 0xD83D, 0xDE00]), Some("a\u{1F600}".to_string()));
    assert_eq!(string_from_wide(&[0xD83D]), None);
    assert_eq!(string_from_wide(&[0xDE00, 0x61]), None);
    assert_eq!(string_from_wide(&[]), Some(String::new()));
}

#[test]
fn wide_round_trip() {
    for s in ["sámegiella", "nuvviDspeller", "\u{10FFFF}x", ""] {
        let w = to_u16s(s).unwrap();
        let units = wide_from_slice(&w);
        assert_eq!(string_from_wide(&units), Some(s.to_string()));
    }
}

#[test]
fn resolve_locale_name_reads_buffer() {
    let mut buf = vec![0u16; 85];
    for (i, c) in "se-NO".encode_utf16().enumerate() {
        buf[i] = c;
    }
    assert_eq!(resolve_locale_name(buf.clone(), 6), Some("se-NO".to_string()));
    assert_eq!(resolve_locale_name(buf.clone(), 0), None);
    assert_eq!(resolve_locale_name(buf.clone(), 1), None);
    assert_eq!(resolve_locale_name(buf.clone(), 3), Some("se".to_string()));
}

// ---- GUIDs ----

#[test]
fn fmt_guid_formats_upper_case() {
    let g = iid_ispellcheckproviderfactory();
    assert_eq!(fmt_guid(&g), "{9F671E11-77D6-4C92-AEFB-615215E3A4BE}");
    assert_eq!(fmt_guid(&iid_iunknown()), "{00000000-0000-0000-C000-000000000046}");
    let h = Guid { data1: 0xab, data2: 0x1, data3: 0xfff, data4: [0, 1, 2, 3, 4, 5, 6, 0xff] };
    assert_eq!(fmt_guid(&h), "{000000AB-0001-0FFF-0001-0203040506FF}");
    assert_eq!(fmt_guid(&h).len(), 38);
}

#[test]
fn guid_equality() {
    assert!(is_equal_guid(&iid_iunknown(), &iid_iunknown()));
    assert!(!is_equal_guid(&iid_iunknown(), &iid_iclassfactory()));
    let mut g = iid_ienumstring();
    g.data4[7] = 0x47;
    assert!(!is_equal_guid(&g, &iid_ienumstring()));
}

// ---- COM bookkeeping ----

#[test]
fn ref_count_add_and_release() {
    let mut r = RefCount::new();
    assert_eq!(r.get(), 1);
    assert_eq!(r.add_ref(), 2);
    assert_eq!(r.release(), 1);
    assert_eq!(r.release(), 0);
}

#[test]
fn query_interface_answers() {
    let mut r = RefCount::new();
    let own = iid_ienumstring();
    assert_eq!(r.query_interface(&own, &own), S_OK);
    assert_eq!(r.get(), 2);
    assert_eq!(r.query_interface(&iid_iunknown(), &own), S_OK);
    assert_eq!(r.get(), 3);
    assert_eq!(r.query_interface(&iid_iclassfactory(), &own), E_NOTIMPL);
    assert_eq!(r.get(), 3);
}

#[test]
fn class_object_only_for_class_factory() {
    assert!(get_class_object(&iid_iclassfactory()).is_ok());
    assert_eq!(get_class_object(&iid_iunknown()).err(), Some(CLASS_E_CLASSNOTAVAILABLE));
    assert_eq!(can_unload_now(), S_FALSE);
}

#[test]
fn class_factory_creates_provider_factory() {
    let cf = DivvunSpellCheckProviderFactoryClassFactory::new();
    assert!(cf.create_instance(&iid_ispellcheckproviderfactory()).is_ok());
    assert_eq!(cf.create_instance(&iid_ienumstring()).err(), Some(E_NOINTERFACE));
    let mut refs = RefCount::new();
    assert_eq!(DivvunSpellCheckProviderFactoryClassFactory::lock_server(&mut refs, true), (S_OK, 2));
    assert_eq!(DivvunSpellCheckProviderFactoryClassFactory::lock_server(&mut refs, false), (S_OK, 1));
    assert_eq!(refs.get(), 1);
}

// ---- paths ----

#[test]
fn path_parts() {
    assert_eq!(file_name("C:\\dicts\\se.zhfst"), Some("se.zhfst".to_string()));
    assert_eq!(file_stem("C:\\dicts\\se.zhfst"), Some("se".to_string()));
    assert_eq!(extension("dicts/sub/smj.zhfst"), Some("zhfst".to_string()));
    assert_eq!(extension("dicts/.zhfst"), None);
    assert_eq!(file_stem("dicts/.zhfst"), Some(".zhfst".to_string()));
    assert_eq!(extension("a/b.tar.gz"), Some("gz".to_string()));
    assert_eq!(file_stem("a/b.tar.gz"), Some("b.tar".to_string()));
    assert_eq!(extension("a/b"), None);
    assert_eq!(extension("a/b."), Some(String::new()));
    assert_eq!(file_name("a/"), None);
    assert_eq!(file_name("a/.."), None);
}

// ---- speller repository ----

#[test]
fn hardcoded_tags_for_sami() {
    assert_eq!(hardcoded_tag_table("se"), strings(&["se-Latn-NO", "se-Latn-SV", "se-Latn-FI"]));
    assert_eq!(hardcoded_tag_table("smj"), strings(&["smj-Latn-NO", "smj-Latn-SV", "smj-Latn-FI"]));
    assert!(hardcoded_tag_table("fi").is_empty());
}

#[test]
fn resolve_local_name_puts_windows_name_first() {
    assert_eq!(
        resolve_local_name("se", Some("se-NO".to_string())),
        strings(&["se-NO", "se-Latn-NO", "se-Latn-SV", "se-Latn-FI"])
    );
    assert_eq!(resolve_local_name("fi", Some("fi-FI".to_string())), strings(&["fi-FI"]));
    assert!(resolve_local_name("xx", None).is_empty());
}

#[test]
fn repository_finds_archives_and_languages() {
    let repo = SpellerRepository::new(strings(&["C:\\a", "C:\\b"]));
    assert_eq!(repo.base_directories(), strings(&["C:\\a", "C:\\b"]));
    let walks = vec![
        strings(&["C:\\a\\se.zhfst", "C:\\a\\readme.txt"]),
        strings(&["C:\\b\\x\\fi.zhfst", "C:\\b\\x\\sma.ZHFST"]),
    ];
    let archives = repo.get_speller_archives(&walks);
    assert_eq!(archives, strings(&["C:\\a\\se.zhfst", "C:\\b\\x\\fi.zhfst"]));
    let resolved = vec![Some("se-NO".to_string()), None];
    let langs = repo.get_supported_languages(&walks, &resolved);
    assert_eq!(langs, strings(&["se-NO", "se-Latn-NO", "se-Latn-SV", "se-Latn-FI"]));
    assert_eq!(repo.get_speller_archive(&walks, &resolved, "se-Latn-FI"), Some("C:\\a\\se.zhfst".to_string()));
    assert_eq!(repo.get_speller_archive(&walks, &resolved, "fi-FI"), None);
    let resolved2 = vec![None, Some("fi-FI".to_string())];
    assert_eq!(repo.get_speller_archive(&walks, &resolved2, "fi-FI"), Some("C:\\b\\x\\fi.zhfst".to_string()));
}

// ---- word lists ----

#[test]
fn correction_lines() {
    assert_eq!(split_correction_line("teh\tthe"), Some(("teh".to_string(), "the".to_string())));
    assert_eq!(split_correction_line("a\t"), Some(("a".to_string(), String::new())));
    assert_eq!(split_correction_line("a\tb\tc"), None);
    assert_eq!(split_correction_line("nothing"), None);
    assert_eq!(
        parse_auto_correct(&strings(&["x\ty", "bad", "x\tz"])),
        vec![("x".to_string(), "y".to_string()), ("x".to_string(), "z".to_string())]
    );
}

#[test]
fn wordlists_read_back_writes() {
    let mut wl = Wordlists::new();
    assert!(!wl.contains_add("foo"));
    wl.initialize_wordlist(WORDLIST_TYPE_ADD, strings(&["foo", "bar"]));
    assert!(wl.contains_add("foo") && wl.contains_add("bar") && !wl.contains_add("baz"));
    wl.initialize_wordlist(WORDLIST_TYPE_IGNORE, strings(&["ign"]));
    assert!(wl.contains_ignore("ign"));
    wl.initialize_wordlist(WORDLIST_TYPE_EXCLUDE, strings(&["ex"]));
    assert!(wl.contains_exclude("ex"));
    wl.initialize_wordlist(WORDLIST_TYPE_AUTOCORRECT, strings(&["teh\tthe", "x\ty", "x\tz", "bad"]));
    assert_eq!(wl.get_replacement("teh"), Some("the".to_string()));
    assert_eq!(wl.get_replacement("x"), Some("z".to_string()));
    assert_eq!(wl.get_replacement("bad"), None);
    wl.initialize_wordlist(7, strings(&["nothing"]));
    assert!(wl.contains_add("foo"));
    wl.initialize_wordlist(WORDLIST_TYPE_ADD, vec![]);
    assert!(!wl.contains_add("foo"));
}

// ---- enumerator of strings ----

#[test]
fn enum_string_batches() {
    let mut e = EnumString::new(strings(&["a", "b", "c"]));
    let r = e.next(2, true);
    assert_eq!((r.status, r.items), (S_OK, strings(&["a", "b"])));
    let r = e.next(2, true);
    assert_eq!((r.status, r.items), (S_FALSE, strings(&["c"])));
    let r = e.next(2, true);
    assert_eq!((r.status, r.items.len()), (S_FALSE, 0));
    assert_eq!(e.reset(), S_OK);
    let r = e.next(3, false);
    assert_eq!((r.status, r.items.len()), (E_UNEXPECTED, 0));
    assert_eq!(e.offset(), 0);
    let r = e.next(1, false);
    assert_eq!((r.status, r.items), (S_OK, strings(&["a"])));
    assert_eq!(e.skip(1), S_OK);
    let c = e.clone_enum();
    assert_eq!(c.offset(), 2);
    let r = e.next(5, true);
    assert_eq!((r.status, r.items), (S_FALSE, strings(&["c"])));
    let mut far = EnumString::new_with_offset(strings(&["a"]), 9);
    assert_eq!(far.next(1, true).status, S_FALSE);
}

// ---- spelling errors ----

#[test]
fn spelling_error_replacement_only_for_replace() {
    let e = DivvunSpellingError::new(3, 4, CORRECTIVE_ACTION_REPLACE, Some("the".to_string()));
    assert_eq!(e.get_start_index(), 3);
    assert_eq!(e.get_length(), 4);
    assert_eq!(e.get_corrective_action(), CORRECTIVE_ACTION_REPLACE);
    assert_eq!(e.get_replacement(), Some(vec![0x74, 0x68, 0x65, 0]));
    let e = DivvunSpellingError::new(0, 1, CORRECTIVE_ACTION_GET_SUGGESTIONS, Some("x".to_string()));
    assert_eq!(e.get_replacement(), None);
    let e = DivvunSpellingError::new(0, 1, CORRECTIVE_ACTION_REPLACE, Some("a\0".to_string()));
    assert_eq!(e.get_replacement(), Some(vec![]));
}

fn token(start: usize, end: usize, value: &str) -> WordToken {
    WordToken { start, end, value: value.to_string() }
}

#[test]
fn enumerator_reviews_words() {
    let mut wl = Wordlists::new();
    wl.set_ignore(strings(&["ign"]));
    wl.set_add(strings(&["added", "teh"]));
    wl.set_exclude(strings(&["ex"]));
    wl.set_auto_correct(vec![("teh".to_string(), "the".to_string()), ("fo".to_string(), "of".to_string())]);
    let mut e = DivvunEnumSpellingError::new("ign added teh ex fo word".to_string());
    assert_eq!(e.get_text_offset(), 0);
    assert!(matches!(e.review_token(&wl, 0, &token(0, 3, "ign")), TokenReview::Pass));
    assert_eq!(e.get_text_offset(), 3);
    assert!(matches!(e.review_token(&wl, 3, &token(1, 6, "added")), TokenReview::Pass));
    assert!(matches!(e.review_token(&wl, 9, &token(1, 4, "teh")), TokenReview::Pass));
    match e.review_token(&wl, 13, &token(1, 3, "ex")) {
        TokenReview::Report(err) => {
            assert_eq!(err.get_start_index(), 14);
            assert_eq!(err.get_length(), 2);
            assert_eq!(err.get_corrective_action(), CORRECTIVE_ACTION_GET_SUGGESTIONS);
        }
        _ => panic!("excluded word not reported"),
    }
    match e.review_token(&wl, 16, &token(1, 3, "fo")) {
        TokenReview::Report(err) => {
            assert_eq!(err.get_corrective_action(), CORRECTIVE_ACTION_REPLACE);
            assert_eq!(err.get_replacement(), Some(vec![0x6f, 0x66, 0]));
        }
        _ => panic!("corrected word not reported"),
    }
    assert!(matches!(e.review_token(&wl, 19, &token(1, 5, "word")), TokenReview::AskSpeller));
    assert_eq!(e.get_text_offset(), 24);
    assert!(e.review_speller_verdict(19, &token(1, 5, "word"), true).is_none());
    let err = e.review_speller_verdict(19, &token(1, 5, "word"), false).unwrap();
    assert_eq!((err.get_start_index(), err.get_length()), (20, 4));
    assert_eq!(err.get_corrective_action(), CORRECTIVE_ACTION_GET_SUGGESTIONS);
    assert_eq!(e.get_text(), "ign added teh ex fo word");
}

// ---- speller cache ----

#[test]
fn speller_cache_remembers() {
    let mut c = SpellerCache::new();
    assert_eq!(c.is_correct("w"), None);
    c.record_is_correct("w", false);
    assert_eq!(c.is_correct("w"), Some(false));
    assert_eq!(c.is_correct("v"), None);
    assert!(c.prime("w"));
    assert_eq!(c.suggest_cache_only("w"), None);
    c.record_suggestions("w", &strings(&["x", "y"]));
    assert!(!c.prime("w"));
    assert_eq!(c.suggest_cache_only("w"), Some(strings(&["x", "y"])));
    assert_eq!(c.suggest("w", &strings(&["z"])), strings(&["x", "y"]));
    assert_eq!(c.suggest("v", &strings(&["z"])), strings(&["z"]));
    assert_eq!(c.suggest_cache_only("v"), Some(strings(&["z"])));
}

// ---- provider and factory ----

#[test]
fn provider_suggestions() {
    let p = DivvunSpellCheckProvider::new("se-Latn-NO");
    assert_eq!(p.get_language_tag(), "se-Latn-NO");
    assert_eq!(p.get_id(), "windivvun");
    assert_eq!(p.get_localized_name(), "WinDivvun");
    assert_eq!(p.get_option_value("x"), E_INVALIDARG);
    assert_eq!(p.set_option_value("x", 1), E_INVALIDARG);
    assert_eq!(p.get_option_description("x"), E_INVALIDARG);
    let mut ids = p.get_option_ids();
    assert_eq!(ids.next(1, true).status, S_FALSE);

    let mut wl = Wordlists::new();
    wl.set_ignore(strings(&["ign"]));
    wl.set_add(strings(&["added"]));
    wl.set_exclude(strings(&["ex"]));
    wl.set_auto_correct(vec![("teh".to_string(), "the".to_string())]);
    let s = p.suggest_from_wordlists(&wl, "ign").unwrap();
    assert_eq!((s.suggestions, s.status), (strings(&["ign"]), S_FALSE));
    let s = p.suggest_from_wordlists(&wl, "teh").unwrap();
    assert_eq!((s.suggestions, s.status), (strings(&["the"]), S_OK));
    let s = p.suggest_from_wordlists(&wl, "added").unwrap();
    assert_eq!((s.suggestions, s.status), (strings(&["added"]), S_OK));
    assert!(p.suggest_from_wordlists(&wl, "other").is_none());

    let s = p.suggest_with_speller(&wl, "good", true, None);
    assert_eq!((s.suggestions, s.status), (strings(&["good"]), S_FALSE));
    let s = p.suggest_with_speller(&wl, "bad", false, Some(strings(&["bat", "bid"])));
    assert_eq!((s.suggestions, s.status), (strings(&["bat", "bid"]), S_OK));
    let s = p.suggest_with_speller(&wl, "bad", false, None);
    assert_eq!((s.suggestions, s.status), (strings(&["bad"]), S_FALSE));
    let s = p.suggest_with_speller(&wl, "ex", false, None);
    assert_eq!((s.suggestions.len(), s.status), (0, S_OK));
}

#[test]
fn factory_supports_listed_languages() {
    let f = DivvunSpellCheckProviderFactory::new();
    let langs = strings(&["se-NO", "sma-Latn-NO"]);
    assert!(f.is_supported(&langs, "se-NO"));
    assert!(!f.is_supported(&langs, "se"));
    let mut e = f.get_supported_languages(langs.clone());
    assert_eq!(e.next(5, true).items, langs);
    assert_eq!(f.create_spell_check_provider(&langs, "se").err(), Some(E_INVALIDARG));
    let p = f.create_spell_check_provider(&langs, "sma-Latn-NO").ok().unwrap();
    assert_eq!(p.get_language_tag(), "sma-Latn-NO");
    assert_eq!(DivvunSpellCheckProviderFactory::creation_status(true), S_OK);
    assert_eq!(DivvunSpellCheckProviderFactory::creation_status(false), E_INVALIDARG);
}

#[test]
fn enumerator_steps_over_tokens() {
    let mut wl = Wordlists::new();
    wl.set_ignore(strings(&["a"]));
    wl.set_exclude(strings(&["bad"]));
    let tokens = vec![token(0, 1, "a"), token(2, 5, "bad"), token(6, 10, "word"), token(11, 12, "a")];
    let mut e = DivvunEnumSpellingError::new("a bad word a".to_string());
    match e.next_step(&wl, 0, &tokens, 0) {
        NextStep::Report(err, k) => {
            assert_eq!(k, 1);
            assert_eq!((err.get_start_index(), err.get_length()), (2, 3));
        }
        _ => panic!("expected a report"),
    }
    assert_eq!(e.get_text_offset(), 5);
    assert!(matches!(e.next_step(&wl, 0, &tokens, 2), NextStep::AskSpeller(2)));
    assert_eq!(e.get_text_offset(), 10);
    assert!(matches!(e.next_step(&wl, 0, &tokens, 3), NextStep::Exhausted));
    assert_eq!(e.get_text_offset(), 12);
    assert!(matches!(e.next_step(&wl, 0, &tokens, 4), NextStep::Exhausted));
    assert_eq!(e.get_text_offset(), 12);
}

#[test]
fn word_batches() {
    let s = word_batch_step(S_OK);
    assert!(s.take_words && s.ask_again);
    let s = word_batch_step(S_FALSE);
    assert!(s.take_words && !s.ask_again);
    let s = word_batch_step(E_UNEXPECTED);
    assert!(!s.take_words && !s.ask_again);
}

#[test]
fn batches_concatenate() {
    let values = strings(&["a", "b", "c", "d"]);
    let mut split = EnumString::new(values.clone());
    let mut first = split.next(1, true).items;
    first.extend(split.next(2, true).items);
    let mut whole = EnumString::new(values);
    assert_eq!(first, whole.next(3, true).items);
    assert_eq!(split.offset(), whole.offset());
}

#[test]
fn check_agrees_with_suggest_for_speller_words() {
    let wl = Wordlists::new();
    let p = DivvunSpellCheckProvider::new("se");
    let mut e = DivvunEnumSpellingError::new("good".to_string());
    let t = token(0, 4, "good");
    assert!(matches!(e.review_token(&wl, 0, &t), TokenReview::AskSpeller));
    assert!(e.review_speller_verdict(0, &t, true).is_none());
    assert!(p.suggest_from_wordlists(&wl, "good").is_none());
    let s = p.suggest_with_speller(&wl, "good", true, Some(strings(&["ignored"])));
    assert_eq!((s.suggestions, s.status), (strings(&["good"]), S_FALSE));
    let err = e.review_speller_verdict(0, &t, false).unwrap();
    assert_eq!(err.get_corrective_action(), CORRECTIVE_ACTION_GET_SUGGESTIONS);
    assert_eq!(err.get_replacement(), None);
}

#[test]
fn archive_found_only_for_supported_tags() {
    let repo = SpellerRepository::new(strings(&["d"]));
    let walks = vec![strings(&["d/sma.zhfst", "d/x.zhfst"])];
    let resolved = vec![None, Some("x-YY".to_string())];
    let langs = repo.get_supported_languages(&walks, &resolved);
    assert_eq!(langs, strings(&["sma-Latn-NO", "sma-Latn-SV", "sma-Latn-FI", "x-YY"]));
    for tag in ["sma-Latn-NO", "sma-Latn-SV", "sma-Latn-FI", "x-YY", "sma", "x", "se-Latn-NO"] {
        let found = repo.get_speller_archive(&walks, &resolved, tag);
        assert_eq!(found.is_some(), langs.iter().any(|l| l == tag));
    }
    assert_eq!(repo.get_speller_archive(&walks, &resolved, "x-YY"), Some("d/x.zhfst".to_string()));
}
