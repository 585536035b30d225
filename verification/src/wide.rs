//! Conversion between strings and the NUL-terminated UTF-16 ("wide")
//! strings of the Windows API.
use vstd::prelude::*;
use vstd::utf8::{is_scalar, char_is_scalar, char_u32_cast};
use crate::text::push_char;

verus! {

/// Why a string cannot be handed to the Windows API.
#[derive(Clone, Copy, Debug, PartialEq, Eq)]
pub enum WideStringError {
    /// The string holds a NUL character, which would end it early.
    InteriorNul,
}

/// Whether `u` is a UTF-16 high (leading) surrogate.
pub open spec fn is_high_surrogate(u: u16) -> bool {
    0xD800 <= u && u < 0xDC00
}

/// Whether `u` is a UTF-16 low (trailing) surrogate.
pub open spec fn is_low_surrogate(u: u16) -> bool {
    0xDC00 <= u && u < 0xE000
}

/// The UTF-16 code units of one character.
pub open spec fn utf16_char(c: char) -> Seq<u16> {
    let v = c as u32;
    if v < 0x10000 {
        seq![v as u16]
    } else {
        seq![
            (0xD800 + (v - 0x10000) / 1024) as u16,
            (0xDC00 + (v - 0x10000) % 1024) as u16,
        ]
    }
}

/// The UTF-16 encoding of a sequence of characters.
pub open spec fn utf16_encode(s: Seq<char>) -> Seq<u16>
    decreases s.len(),
{
    if s.len() == 0 {
        Seq::empty()
    } else {
        utf16_char(s[0]) + utf16_encode(s.drop_first())
    }
}

/// The characters that well-formed UTF-16 code units spell, or `None`
/// where a surrogate stands unpaired.
pub open spec fn utf16_decode(u: Seq<u16>) -> Option<Seq<char>>
    decreases u.len(),
{
    if u.len() == 0 {
        Some(Seq::empty())
    } else if is_high_surrogate(u[0]) {
        if u.len() >= 2 && is_low_surrogate(u[1]) {
            let v = (0x10000 + (u[0] - 0xD800) * 1024 + (u[1] - 0xDC00)) as u32;
            match utf16_decode(u.skip(2)) {
                Some(rest) => Some(seq![v as char] + rest),
                None => None,
            }
        } else {
            None
        }
    } else if is_low_surrogate(u[0]) {
        None
    } else {
        match utf16_decode(u.skip(1)) {
            Some(rest) => Some(seq![u[0] as u32 as char] + rest),
            None => None,
        }
    }
}

/// The units of `u` before its first NUL.
pub open spec fn before_nul(u: Seq<u16>) -> Seq<u16>
    decreases u.len(),
{
    if u.len() == 0 || u[0] == 0 {
        Seq::empty()
    } else {
        seq![u[0]] + before_nul(u.skip(1))
    }
}

/// What `to_u16s` gives for the characters `s`.
pub open spec fn spec_to_u16s(s: Seq<char>) -> Result<Seq<u16>, WideStringError> {
    if s.contains('\0') {
        Err(WideStringError::InteriorNul)
    } else {
        Ok(utf16_encode(s).push(0u16))
    }
}

/// Encoding distributes over concatenation.
pub proof fn lemma_utf16_encode_concat(a: Seq<char>, b: Seq<char>)
    ensures
        utf16_encode(a + b) == utf16_encode(a) + utf16_encode(b),
    decreases a.len(),
{
    if a.len() == 0 {
        assert(a + b =~= b);
        assert(utf16_encode(a) + utf16_encode(b) =~= utf16_encode(b));
    } else {
        assert((a + b).drop_first() =~= a.drop_first() + b);
        lemma_utf16_encode_concat(a.drop_first(), b);
        assert(utf16_encode(a + b) =~= utf16_char(a[0]) + utf16_encode(a.drop_first() + b));
        assert(utf16_encode(a) + utf16_encode(b) =~= utf16_char(a[0]) + (utf16_encode(
            a.drop_first(),
        ) + utf16_encode(b)));
    }
}

proof fn lemma_utf16_encode_one(c: char)
    ensures
        utf16_encode(seq![c]) == utf16_char(c),
{
    let one = seq![c];
    assert(one.len() == 1);
    assert(one[0] == c);
    assert(one.drop_first() =~= Seq::<char>::empty());
    assert(utf16_encode(one.drop_first()) == Seq::<u16>::empty());
    assert(utf16_encode(one) == utf16_char(one[0]) + utf16_encode(one.drop_first()));
    assert(utf16_char(c) + Seq::<u16>::empty() =~= utf16_char(c));
}

/// A character other than NUL never encodes to a NUL unit.
proof fn lemma_utf16_char_no_nul(c: char)
    requires
        c != '\0',
    ensures
        !utf16_char(c).contains(0u16),
{
    char_is_scalar(c);
    char_u32_cast(c, c as u32);
    let v = c as u32;
    if v < 0x10000 {
        if utf16_char(c)[0] == 0 {
            assert(v == 0);
        }
    } else {
        assert forall|i: int| 0 <= i < utf16_char(c).len() implies utf16_char(c)[i] != 0 by {}
    }
}

proof fn lemma_utf16_encode_no_nul(s: Seq<char>)
    requires
        !s.contains('\0'),
    ensures
        !utf16_encode(s).contains(0u16),
    decreases s.len(),
{
    if s.len() > 0 {
        assert(s[0] != '\0') by {
            if s[0] == '\0' {
                assert(s.contains('\0'));
            }
        }
        lemma_utf16_char_no_nul(s[0]);
        assert(!s.drop_first().contains('\0')) by {
            if s.drop_first().contains('\0') {
                let k = choose|k: int| 0 <= k < s.drop_first().len() && s.drop_first()[k] == '\0';
                assert(s[k + 1] == '\0');
            }
        }
        lemma_utf16_encode_no_nul(s.drop_first());
        let e = utf16_encode(s);
        assert forall|i: int| 0 <= i < e.len() implies e[i] != 0u16 by {
            let h = utf16_char(s[0]);
            if i < h.len() {
                assert(e[i] == h[i]);
            } else {
                assert(e[i] == utf16_encode(s.drop_first())[i - h.len()]);
            }
        }
    }
}

proof fn lemma_before_nul_of_terminated(u: Seq<u16>)
    requires
        !u.contains(0u16),
    ensures
        before_nul(u.push(0u16)) == u,
    decreases u.len(),
{
    if u.len() == 0 {
        assert(u.push(0u16)[0] == 0);
    } else {
        assert(u.push(0u16)[0] == u[0]);
        assert(u[0] != 0) by {
            if u[0] == 0 {
                assert(u.contains(0u16));
            }
        }
        assert(u.push(0u16).skip(1) =~= u.skip(1).push(0u16));
        assert(!u.skip(1).contains(0u16)) by {
            if u.skip(1).contains(0u16) {
                let k = choose|k: int| 0 <= k < u.skip(1).len() && u.skip(1)[k] == 0u16;
                assert(u[k + 1] == 0u16);
            }
        }
        lemma_before_nul_of_terminated(u.skip(1));
        assert(seq![u[0]] + u.skip(1) =~= u);
    }
}

/// Decoding undoes encoding.
pub proof fn lemma_utf16_decode_encode(s: Seq<char>)
    ensures
        utf16_decode(utf16_encode(s)) == Some(s),
    decreases s.len(),
{
    if s.len() == 0 {
    } else {
        let c = s[0];
        let e = utf16_encode(s);
        let rest = utf16_encode(s.drop_first());
        lemma_utf16_decode_encode(s.drop_first());
        char_is_scalar(c);
        char_u32_cast(c, c as u32);
        let v = c as u32;
        assert(e =~= utf16_char(c) + rest);
        if v < 0x10000 {
            assert(e[0] == v as u16);
            assert(!is_high_surrogate(e[0]) && !is_low_surrogate(e[0]));
            assert(e.skip(1) =~= rest);
            assert((e[0] as u32) == v);
            assert(seq![c] + s.drop_first() =~= s);
        } else {
            let hi = (0xD800 + (v - 0x10000) / 1024) as u16;
            let lo = (0xDC00 + (v - 0x10000) % 1024) as u16;
            assert(e[0] == hi);
            assert(e[1] == lo);
            assert(is_high_surrogate(hi));
            assert(is_low_surrogate(lo));
            assert(e.skip(2) =~= rest);
            assert((0x10000 + (hi - 0xD800) * 1024 + (lo - 0xDC00)) as u32 == v);
            assert(seq![c] + s.drop_first() =~= s);
        }
    }
}

/// A string without NUL characters survives the way to the Windows API and
/// back: `to_u16s` accepts it, `wide_from_slice` finds the units before the
/// terminator, and `string_from_wide` reads the same characters back.
pub proof fn law_wide_round_trip(s: Seq<char>)
    requires
        !s.contains('\0'),
    ensures
        spec_to_u16s(s) is Ok,
        spec_to_u16s(s).unwrap().contains(0u16),
        before_nul(spec_to_u16s(s).unwrap()) == utf16_encode(s),
        utf16_decode(before_nul(spec_to_u16s(s).unwrap())) == Some(s),
{
    let w = utf16_encode(s).push(0u16);
    assert(w[w.len() - 1] == 0u16);
    lemma_utf16_encode_no_nul(s);
    lemma_before_nul_of_terminated(utf16_encode(s));
    lemma_utf16_decode_encode(s);
}

/// Converts a string to NUL-terminated UTF-16, refusing strings that
/// hold a NUL character.
pub fn to_u16s(s: &str) -> (res: Result<Vec<u16>, WideStringError>)
    ensures
        match res {
            Ok(v) => spec_to_u16s(s@) == Ok::<Seq<u16>, WideStringError>(v@),
            Err(e) => spec_to_u16s(s@) == Err::<Seq<u16>, WideStringError>(e),
        },
{
    let n = s.unicode_len();
    let mut out: Vec<u16> = Vec::new();
    let mut i: usize = 0;
    while i < n
        invariant
            n == s@.len(),
            i <= n,
            out@ == utf16_encode(s@.take(i as int)),
            forall|j: int| 0 <= j < i ==> s@[j] != '\0',
        decreases n - i,
    {
        let c = s.get_char(i);
        if c == '\0' {
            assert(s@.contains('\0'));
            return Err(WideStringError::InteriorNul);
        }
        proof {
            char_is_scalar(c);
            char_u32_cast(c, c as u32);
            assert(s@.take(i + 1) =~= s@.take(i as int) + seq![c]);
            lemma_utf16_encode_concat(s@.take(i as int), seq![c]);
            lemma_utf16_encode_one(c);
        }
        let v = c as u32;
        if v < 0x10000 {
            out.push(v as u16);
        } else {
            out.push((0xD800 + (v - 0x10000) / 1024) as u16);
            out.push((0xDC00 + (v - 0x10000) % 1024) as u16);
        }
        assert(out@ =~= utf16_encode(s@.take(i + 1)));
        i = i + 1;
    }
    assert(s@.take(n as int) =~= s@);
    assert(!s@.contains('\0'));
    out.push(0);
    Ok(out)
}

/// The wide string held in a buffer: the units before its first NUL.
/// The buffer must hold a NUL.
pub fn wide_from_slice(slice: &[u16]) -> (res: Vec<u16>)
    requires
        slice@.contains(0u16),
    ensures
        res@ == before_nul(slice@),
{
    let mut len: usize = 0;
    while slice[len] != 0
        invariant
            slice@.contains(0u16),
            len < slice@.len(),
            forall|j: int| 0 <= j < len ==> slice@[j] != 0,
        decreases slice@.len() - len,
    {
        len = len + 1;
        if len == slice.len() {
            proof {
                let k = choose|k: int| 0 <= k < slice@.len() && slice@[k] == 0u16;
                assert(slice@[k] == 0u16);
            }
        }
    }
    let mut out: Vec<u16> = Vec::new();
    let mut i: usize = 0;
    assert(slice@.skip(0) =~= slice@);
    assert(out@ + before_nul(slice@) =~= before_nul(slice@));
    while i < len
        invariant
            len < slice@.len(),
            slice@[len as int] == 0,
            forall|j: int| 0 <= j < len ==> slice@[j] != 0,
            i <= len,
            before_nul(slice@) == out@ + before_nul(slice@.skip(i as int)),
        decreases len - i,
    {
        let u = slice[i];
        let ghost before = out@;
        assert(slice@.skip(i as int)[0] == u);
        assert(slice@.skip(i as int).skip(1) =~= slice@.skip(i + 1));
        assert(before_nul(slice@.skip(i as int)) == seq![u] + before_nul(slice@.skip(i + 1)));
        out.push(u);
        assert(before + (seq![u] + before_nul(slice@.skip(i + 1))) =~= out@ + before_nul(slice@.skip(i + 1)));
        i = i + 1;
    }
    assert(slice@.skip(len as int)[0] == 0);
    assert(out@ + Seq::<u16>::empty() =~= out@);
    out
}

/// Converts a character code to a `char`.
///
/// Trusted: calls `char::from_u32`, which std documents to return `None`
/// exactly when the code is not a Unicode scalar value (a surrogate or
/// above U+10FFFF), and the character of that code otherwise.
#[verifier::external_body]
fn char_from_u32(v: u32) -> (res: Option<char>)
    ensures
        is_scalar(v) ==> res == Some(v as char),
        !is_scalar(v) ==> res is None,
{
    char::from_u32(v)
}

/// Decodes UTF-16 code units into a string; `None` where a surrogate
/// stands unpaired.
pub fn string_from_wide(units: &[u16]) -> (res: Option<String>)
    ensures
        match res {
            Some(s) => utf16_decode(units@) == Some(s@),
            None => utf16_decode(units@) is None,
        },
{
    let n = units.len();
    let mut out = String::new();
    let mut i: usize = 0;
    assert(units@.skip(0) =~= units@);
    proof {
        match utf16_decode(units@) {
            Some(rest) => {
                assert(out@ + rest =~= rest);
            },
            None => {},
        }
    }
    while i < n
        invariant
            n == units@.len(),
            i <= n,
            utf16_decode(units@) == (match utf16_decode(units@.skip(i as int)) {
                Some(rest) => Some(out@ + rest),
                None => None::<Seq<char>>,
            }),
        decreases n - i,
    {
        let ghost tail = units@.skip(i as int);
        let u = units[i];
        assert(tail[0] == u);
        if 0xD800 <= u && u < 0xDC00 {
            if i + 1 < n && 0xDC00 <= units[i + 1] && units[i + 1] < 0xE000 {
                let lo = units[i + 1];
                assert(tail[1] == lo);
                assert(tail.skip(2) =~= units@.skip(i + 2));
                let v: u32 = 0x10000 + ((u - 0xD800) as u32) * 1024 + ((lo - 0xDC00) as u32);
                assert(is_scalar(v));
                let c = match char_from_u32(v) {
                    Some(c) => c,
                    None => {
                        assert(false);
                        ' '
                    },
                };
                let ghost before = out@;
                push_char(&mut out, c);
                proof {
                    match utf16_decode(units@.skip(i + 2)) {
                        Some(rest) => {
                            assert(before + (seq![c] + rest) =~= out@ + rest);
                        },
                        None => {},
                    }
                }
                i = i + 2;
            } else {
                assert(utf16_decode(tail) is None);
                return None;
            }
        } else if 0xDC00 <= u && u < 0xE000 {
            assert(utf16_decode(tail) is None);
            return None;
        } else {
            let v: u32 = u as u32;
            assert(is_scalar(v));
            let c = match char_from_u32(v) {
                Some(c) => c,
                None => {
                    assert(false);
                    ' '
                },
            };
            assert(tail.skip(1) =~= units@.skip(i + 1));
            let ghost before = out@;
            push_char(&mut out, c);
            proof {
                match utf16_decode(units@.skip(i + 1)) {
                    Some(rest) => {
                        assert(before + (seq![c] + rest) =~= out@ + rest);
                    },
                    None => {},
                }
            }
            i = i + 1;
        }
    }
    assert(units@.skip(n as int) =~= Seq::<u16>::empty());
    assert(out@ + Seq::<char>::empty() =~= out@);
    Some(out)
}

} // verus!

verus! {

/// How many units of a locale-name buffer hold the name, given what the
/// Windows API reported as written: the count includes the terminating NUL,
/// and a negative count leaves the whole buffer.
pub open spec fn locale_name_len(buf_len: nat, written: int) -> nat {
    if written > 0 {
        if written - 1 <= buf_len {
            (written - 1) as nat
        } else {
            buf_len
        }
    } else {
        buf_len
    }
}

/// The locale name that a filled buffer holds: none when nothing was
/// written, when the name is empty, or when it is not well-formed UTF-16.
pub open spec fn spec_resolve_locale_name(buf: Seq<u16>, written: int) -> Option<Seq<char>> {
    if written == 0 {
        None
    } else {
        let k = locale_name_len(buf.len(), written);
        if k == 0 {
            None
        } else {
            utf16_decode(buf.take(k as int))
        }
    }
}

/// Reads the locale name out of the buffer that the Windows locale
/// resolver filled, given the count of units it reported as written.
pub fn resolve_locale_name(buf: Vec<u16>, written: i32) -> (res: Option<String>)
    ensures
        match res {
            Some(s) => spec_resolve_locale_name(buf@, written as int) == Some(s@),
            None => spec_resolve_locale_name(buf@, written as int) is None,
        },
{
    if written == 0 {
        return None;
    }
    let mut buf = buf;
    let ghost orig = buf@;
    if written > 0 {
        let keep: usize = if ((written - 1) as u32 as usize) <= buf.len() {
            (written - 1) as u32 as usize
        } else {
            buf.len()
        };
        buf.truncate(keep);
    }
    assert(buf@ =~= orig.take(locale_name_len(orig.len(), written as int) as int));
    if buf.len() == 0 {
        return None;
    }
    string_from_wide(buf.as_slice())
}

} // verus!
