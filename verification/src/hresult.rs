//! Status codes and enumeration values of the Windows spell-checking API.
use vstd::prelude::*;

verus! {

/// The `HRESULT` status type of COM calls.
pub type HRESULT = i32;

/// Success.
pub const S_OK: i32 = 0;
/// Success, with a negative or partial answer.
pub const S_FALSE: i32 = 1;
/// Catastrophic failure (0x8000FFFF).
pub const E_UNEXPECTED: i32 = -2147418113i32;
/// Not implemented (0x80004001).
pub const E_NOTIMPL: i32 = -2147467263i32;
/// One or more arguments are invalid (0x80070057).
pub const E_INVALIDARG: i32 = -2147024809i32;
/// No such interface supported (0x80004002).
pub const E_NOINTERFACE: i32 = -2147467262i32;
/// Invalid pointer (0x80004003).
pub const E_POINTER: i32 = -2147467261i32;
/// The class is not available from this module (0x80040111).
pub const CLASS_E_CLASSNOTAVAILABLE: i32 = -2147221231i32;

/// The word is spelled correctly.
pub const CORRECTIVE_ACTION_NONE: u32 = 0;
/// The word is misspelled: ask for suggestions.
pub const CORRECTIVE_ACTION_GET_SUGGESTIONS: u32 = 1;
/// The word is to be replaced by the given replacement.
pub const CORRECTIVE_ACTION_REPLACE: u32 = 2;
/// The word is to be deleted.
pub const CORRECTIVE_ACTION_DELETE: u32 = 3;

/// Words that are ignored by the checker.
pub const WORDLIST_TYPE_IGNORE: u32 = 0;
/// Words that are added to the dictionary.
pub const WORDLIST_TYPE_ADD: u32 = 1;
/// Words that are excluded from the dictionary.
pub const WORDLIST_TYPE_EXCLUDE: u32 = 2;
/// Automatic corrections, each a word and its replacement separated by a tab.
pub const WORDLIST_TYPE_AUTOCORRECT: u32 = 3;

} // verus!
