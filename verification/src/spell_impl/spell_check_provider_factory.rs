//! The factory that tells which languages are supported and creates the
//! spell checker of a supported language.
use vstd::prelude::*;
use crate::text::{views, contains_str};
use crate::hresult::{S_OK, E_INVALIDARG};
use super::enum_string::EnumString;
use super::spell_check_provider::DivvunSpellCheckProvider;

verus! {

/// The factory of spell checkers. Its reference count is kept with the COM
/// object that carries it.
pub struct DivvunSpellCheckProviderFactory {}

impl DivvunSpellCheckProviderFactory {
    /// A factory.
    pub fn new() -> (res: Self) {
        DivvunSpellCheckProviderFactory {}
    }

    /// An enumerator over the supported languages.
    pub fn get_supported_languages(&self, languages: Vec<String>) -> (res: EnumString)
        ensures
            res@.values == views(languages@),
            res@.offset == 0,
    {
        EnumString::new(languages)
    }

    /// Whether `language_tag` is among the supported languages.
    pub fn is_supported(&self, languages: &Vec<String>, language_tag: &str) -> (res: bool)
        ensures
            res == views(languages@).contains(language_tag@),
    {
        contains_str(languages, language_tag)
    }

    /// The checker for `language_tag` if the language is supported, else the
    /// status `E_INVALIDARG`. Loading the speller of the checker is the
    /// caller's; if that fails, the answer is `E_INVALIDARG` too.
    pub fn create_spell_check_provider(&self, languages: &Vec<String>, language_tag: &str) -> (res:
        Result<DivvunSpellCheckProvider, i32>)
        ensures
            views(languages@).contains(language_tag@) <==> res is Ok,
            res matches Ok(p) ==> p@ == language_tag@,
            res matches Err(e) ==> e == E_INVALIDARG,
    {
        if !contains_str(languages, language_tag) {
            return Err(E_INVALIDARG);
        }
        Ok(DivvunSpellCheckProvider::new(language_tag))
    }

    /// The status of a request for a checker, given whether the checker
    /// could be created.
    pub fn creation_status(created: bool) -> (res: i32)
        ensures
            created ==> res == S_OK,
            !created ==> res == E_INVALIDARG,
    {
        if created {
            S_OK
        } else {
            E_INVALIDARG
        }
    }
}

} // verus!
