# windivvun

The WinDivvun speller service for Windows, with its decision logic verified
by Verus.

- `src/` is the verified library: wide-string conversion (`wide`), path
  parts (`paths`), GUIDs and their text form (`guid`), COM reference counts
  and interface queries (`com`), the speller repository
  (`speller_repository`), the user word lists (`wordlists`), the speller
  result cache (`speller_cache`), and the COM objects' logic under
  `spell_impl/`: the string enumerator, spelling errors and their
  enumerator, the spell checker, its factory and the class factory.
  `dll` holds the decisions of the DLL entry points.
- `app/` is the plumbing around it: the COM vtables and DLL exports
  (Windows only), the divvunspell speller and tokenizer, directory walks,
  locking of shared state, the background suggestion worker and logging.
- `tests/` runs the library on concrete values.
