//! Globally unique identifiers of COM classes and interfaces, and their
//! canonical text form.
use vstd::prelude::*;
use crate::text::push_char;

verus! {

/// A GUID, laid out as the Windows `GUID` structure.
#[derive(Clone, Copy, Debug)]
pub struct Guid {
    pub data1: u32,
    pub data2: u16,
    pub data3: u16,
    pub data4: [u8; 8],
}

/// The upper-case hexadecimal digit of `n`, for `0 <= n < 16`.
pub open spec fn spec_hex_digit(n: int) -> char {
    if n < 10 {
        (('0' as int) + n) as char
    } else {
        (('A' as int) + (n - 10)) as char
    }
}

/// The last `width` hexadecimal digits of `v`, most significant first,
/// padded with zeros.
pub open spec fn hex_digits(v: nat, width: nat) -> Seq<char>
    decreases width,
{
    if width == 0 {
        Seq::empty()
    } else {
        hex_digits(v / 16, (width - 1) as nat).push(spec_hex_digit((v % 16) as int))
    }
}

/// The text form `{XXXXXXXX-XXXX-XXXX-XXXX-XXXXXXXXXXXX}` of a GUID, in
/// upper-case hexadecimal.
pub open spec fn guid_text(g: Guid) -> Seq<char> {
    seq!['{'] + hex_digits(g.data1 as nat, 8) + seq!['-'] + hex_digits(g.data2 as nat, 4)
        + seq!['-'] + hex_digits(g.data3 as nat, 4) + seq!['-']
        + hex_digits(g.data4@[0] as nat, 2) + hex_digits(g.data4@[1] as nat, 2) + seq!['-']
        + hex_digits(g.data4@[2] as nat, 2) + hex_digits(g.data4@[3] as nat, 2)
        + hex_digits(g.data4@[4] as nat, 2) + hex_digits(g.data4@[5] as nat, 2)
        + hex_digits(g.data4@[6] as nat, 2) + hex_digits(g.data4@[7] as nat, 2) + seq!['}']
}

/// Two GUIDs are equal when all their parts are.
pub open spec fn same_guid(a: Guid, b: Guid) -> bool {
    &&& a.data1 == b.data1
    &&& a.data2 == b.data2
    &&& a.data3 == b.data3
    &&& a.data4@ == b.data4@
}

proof fn lemma_hex_digits_len(v: nat, width: nat)
    ensures
        hex_digits(v, width).len() == width,
    decreases width,
{
    if width > 0 {
        lemma_hex_digits_len(v / 16, (width - 1) as nat);
    }
}

/// The text form of a GUID is 38 characters long: 32 hexadecimal digits in
/// groups of 8, 4, 4, 4 and 12, joined by dashes, within braces.
pub proof fn law_guid_text_shape(g: Guid)
    ensures
        guid_text(g).len() == 38,
        guid_text(g)[0] == '{',
        guid_text(g)[9] == '-',
        guid_text(g)[14] == '-',
        guid_text(g)[19] == '-',
        guid_text(g)[24] == '-',
        guid_text(g)[37] == '}',
{
    lemma_hex_digits_len(g.data1 as nat, 8);
    lemma_hex_digits_len(g.data2 as nat, 4);
    lemma_hex_digits_len(g.data3 as nat, 4);
    lemma_hex_digits_len(g.data4@[0] as nat, 2);
    lemma_hex_digits_len(g.data4@[1] as nat, 2);
    lemma_hex_digits_len(g.data4@[2] as nat, 2);
    lemma_hex_digits_len(g.data4@[3] as nat, 2);
    lemma_hex_digits_len(g.data4@[4] as nat, 2);
    lemma_hex_digits_len(g.data4@[5] as nat, 2);
    lemma_hex_digits_len(g.data4@[6] as nat, 2);
    lemma_hex_digits_len(g.data4@[7] as nat, 2);
}

fn hex_digit(n: u64) -> (c: char)
    requires
        n < 16,
    ensures
        c == spec_hex_digit(n as int),
{
    match n {
        0 => '0',
        1 => '1',
        2 => '2',
        3 => '3',
        4 => '4',
        5 => '5',
        6 => '6',
        7 => '7',
        8 => '8',
        9 => '9',
        10 => 'A',
        11 => 'B',
        12 => 'C',
        13 => 'D',
        14 => 'E',
        _ => 'F',
    }
}

fn push_hex(s: &mut String, v: u64, width: usize)
    ensures
        final(s)@ == old(s)@ + hex_digits(v as nat, width as nat),
    decreases width,
{
    if width == 0 {
        assert(old(s)@ + hex_digits(v as nat, 0) =~= old(s)@);
    } else {
        push_hex(s, v / 16, width - 1);
        push_char(s, hex_digit(v % 16));
        assert(final(s)@ =~= old(s)@ + hex_digits(v as nat, width as nat));
    }
}

/// Formats a GUID as `{XXXXXXXX-XXXX-XXXX-XXXX-XXXXXXXXXXXX}`.
pub fn fmt_guid(guid: &Guid) -> (res: String)
    ensures
        res@ == guid_text(*guid),
{
    let mut s = String::new();
    push_char(&mut s, '{');
    push_hex(&mut s, guid.data1 as u64, 8);
    push_char(&mut s, '-');
    push_hex(&mut s, guid.data2 as u64, 4);
    push_char(&mut s, '-');
    push_hex(&mut s, guid.data3 as u64, 4);
    push_char(&mut s, '-');
    push_hex(&mut s, guid.data4[0] as u64, 2);
    push_hex(&mut s, guid.data4[1] as u64, 2);
    push_char(&mut s, '-');
    push_hex(&mut s, guid.data4[2] as u64, 2);
    push_hex(&mut s, guid.data4[3] as u64, 2);
    push_hex(&mut s, guid.data4[4] as u64, 2);
    push_hex(&mut s, guid.data4[5] as u64, 2);
    push_hex(&mut s, guid.data4[6] as u64, 2);
    push_hex(&mut s, guid.data4[7] as u64, 2);
    push_char(&mut s, '}');
    assert(s@ =~= guid_text(*guid));
    s
}

/// Returns whether two GUIDs are equal.
pub fn is_equal_guid(a: &Guid, b: &Guid) -> (res: bool)
    ensures
        res == same_guid(*a, *b),
{
    let mut i: usize = 0;
    while i < 8
        invariant
            i <= 8,
            forall|j: int| 0 <= j < i ==> a.data4@[j] == b.data4@[j],
        decreases 8 - i,
    {
        if a.data4[i] != b.data4[i] {
            return false;
        }
        i = i + 1;
    }
    assert(a.data4@ =~= b.data4@);
    a.data1 == b.data1 && a.data2 == b.data2 && a.data3 == b.data3
}

/// Whether `g` is the GUID with the given parts.
pub open spec fn guid_is(g: Guid, d1: u32, d2: u16, d3: u16, d4: Seq<u8>) -> bool {
    g.data1 == d1 && g.data2 == d2 && g.data3 == d3 && g.data4@ == d4
}

/// The identifier of the `IUnknown` interface.
pub fn iid_iunknown() -> (g: Guid)
    ensures
        guid_is(g, 0x00000000, 0x0000, 0x0000, seq![0xc0u8, 0x00, 0x00, 0x00, 0x00, 0x00, 0x00, 0x46]),
{
    let g = Guid { data1: 0x00000000, data2: 0x0000, data3: 0x0000, data4: [0xc0, 0x00, 0x00, 0x00, 0x00, 0x00, 0x00, 0x46] };
    assert(g.data4@ =~= seq![0xc0u8, 0x00, 0x00, 0x00, 0x00, 0x00, 0x00, 0x46]);
    g
}

/// The identifier of the `IClassFactory` interface.
pub fn iid_iclassfactory() -> (g: Guid)
    ensures
        guid_is(g, 0x00000001, 0x0000, 0x0000, seq![0xc0u8, 0x00, 0x00, 0x00, 0x00, 0x00, 0x00, 0x46]),
{
    let g = Guid { data1: 0x00000001, data2: 0x0000, data3: 0x0000, data4: [0xc0, 0x00, 0x00, 0x00, 0x00, 0x00, 0x00, 0x46] };
    assert(g.data4@ =~= seq![0xc0u8, 0x00, 0x00, 0x00, 0x00, 0x00, 0x00, 0x46]);
    g
}

/// The identifier of the `IEnumString` interface.
pub fn iid_ienumstring() -> (g: Guid)
    ensures
        guid_is(g, 0x00000101, 0x0000, 0x0000, seq![0xc0u8, 0x00, 0x00, 0x00, 0x00, 0x00, 0x00, 0x46]),
{
    let g = Guid { data1: 0x00000101, data2: 0x0000, data3: 0x0000, data4: [0xc0, 0x00, 0x00, 0x00, 0x00, 0x00, 0x00, 0x46] };
    assert(g.data4@ =~= seq![0xc0u8, 0x00, 0x00, 0x00, 0x00, 0x00, 0x00, 0x46]);
    g
}

/// The identifier of the `ISpellingError` interface.
pub fn iid_ispellingerror() -> (g: Guid)
    ensures
        guid_is(g, 0xb7c82d61, 0xfbe8, 0x4b47, seq![0x9bu8, 0x27, 0x6c, 0x0d, 0x2e, 0x0d, 0xe0, 0xa3]),
{
    let g = Guid { data1: 0xb7c82d61, data2: 0xfbe8, data3: 0x4b47, data4: [0x9b, 0x27, 0x6c, 0x0d, 0x2e, 0x0d, 0xe0, 0xa3] };
    assert(g.data4@ =~= seq![0x9bu8, 0x27, 0x6c, 0x0d, 0x2e, 0x0d, 0xe0, 0xa3]);
    g
}

/// The identifier of the `IEnumSpellingError` interface.
pub fn iid_ienumspellingerror() -> (g: Guid)
    ensures
        guid_is(g, 0x803e3bd4, 0x2828, 0x4410, seq![0x82u8, 0x90, 0x41, 0x8d, 0x1d, 0x73, 0xc7, 0x62]),
{
    let g = Guid { data1: 0x803e3bd4, data2: 0x2828, data3: 0x4410, data4: [0x82, 0x90, 0x41, 0x8d, 0x1d, 0x73, 0xc7, 0x62] };
    assert(g.data4@ =~= seq![0x82u8, 0x90, 0x41, 0x8d, 0x1d, 0x73, 0xc7, 0x62]);
    g
}

/// The identifier of the `ISpellCheckProvider` interface.
pub fn iid_ispellcheckprovider() -> (g: Guid)
    ensures
        guid_is(g, 0x73e976e0, 0x8ed4, 0x4eb1, seq![0x80u8, 0xd7, 0x1b, 0xe0, 0xa1, 0x6b, 0x0c, 0x38]),
{
    let g = Guid { data1: 0x73e976e0, data2: 0x8ed4, data3: 0x4eb1, data4: [0x80, 0xd7, 0x1b, 0xe0, 0xa1, 0x6b, 0x0c, 0x38] };
    assert(g.data4@ =~= seq![0x80u8, 0xd7, 0x1b, 0xe0, 0xa1, 0x6b, 0x0c, 0x38]);
    g
}

/// The identifier of the `ISpellCheckProviderFactory` interface.
pub fn iid_ispellcheckproviderfactory() -> (g: Guid)
    ensures
        guid_is(g, 0x9f671e11, 0x77d6, 0x4c92, seq![0xaeu8, 0xfb, 0x61, 0x52, 0x15, 0xe3, 0xa4, 0xbe]),
{
    let g = Guid { data1: 0x9f671e11, data2: 0x77d6, data3: 0x4c92, data4: [0xae, 0xfb, 0x61, 0x52, 0x15, 0xe3, 0xa4, 0xbe] };
    assert(g.data4@ =~= seq![0xaeu8, 0xfb, 0x61, 0x52, 0x15, 0xe3, 0xa4, 0xbe]);
    g
}

} // verus!
