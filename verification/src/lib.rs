//! The decision logic of the WinDivvun spell-checking service: wide-string
//! conversion, the string enumerator, the spelling-error enumerator, the
//! user word lists, the speller result cache, the speller repository and the
//! COM object bookkeeping, each with a contract proved by Verus.
pub mod hresult;
pub mod text;
pub mod guid;
pub mod com;
pub mod wide;
pub mod paths;
pub mod speller_repository;
pub mod wordlists;
pub mod speller_cache;
pub mod spell_impl;
pub mod dll;
