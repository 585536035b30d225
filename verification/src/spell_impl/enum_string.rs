//! An enumerator over a list of strings, as the COM `IEnumString` interface
//! hands them out: a batch at a time, with skipping, rewinding and copying.
use vstd::prelude::*;
use crate::text::{views, clone_strings};
use crate::hresult::{S_OK, S_FALSE, E_UNEXPECTED};

verus! {

/// The values of an enumerator and the position of the next one to hand out.
pub struct EnumStringView {
    pub values: Seq<Seq<char>>,
    pub offset: nat,
}

/// Where a batch of `celt` values from `offset` starts in `values`.
pub open spec fn batch_start(len: nat, offset: nat) -> nat {
    if offset <= len {
        offset
    } else {
        len
    }
}

/// Where a batch of `celt` values from `offset` ends in `values`.
pub open spec fn batch_end(len: nat, offset: nat, celt: nat) -> nat {
    if offset + celt <= len {
        offset + celt
    } else {
        len
    }
}

/// The values that a request for `celt` values from `offset` finds.
pub open spec fn batch(values: Seq<Seq<char>>, offset: nat, celt: nat) -> Seq<Seq<char>> {
    values.subrange(
        batch_start(values.len(), offset) as int,
        batch_end(values.len(), offset, celt) as int,
    )
}

/// The status of a request for `celt` values: `S_FALSE` when none is left,
/// `E_UNEXPECTED` when more than one is asked for without room for the
/// count fetched, otherwise `S_OK` when all were found and `S_FALSE` when
/// fewer were.
pub open spec fn next_status(e: EnumStringView, celt: nat, wants_count: bool) -> i32 {
    let found = batch(e.values, e.offset, celt);
    if found.len() == 0 {
        S_FALSE
    } else if !wants_count && celt > 1 {
        E_UNEXPECTED
    } else if found.len() == celt {
        S_OK
    } else {
        S_FALSE
    }
}

/// Whether a request hands out values (and moves the position).
pub open spec fn next_hands_out(e: EnumStringView, celt: nat, wants_count: bool) -> bool {
    batch(e.values, e.offset, celt).len() > 0 && (wants_count || celt <= 1)
}

/// The outcome of one request for values.
pub struct EnumNext {
    /// The status code of the request.
    pub status: i32,
    /// The values handed out, in order.
    pub items: Vec<String>,
}

/// An enumerator over strings.
pub struct EnumString {
    values: Vec<String>,
    offset: usize,
}

impl View for EnumString {
    type V = EnumStringView;

    closed spec fn view(&self) -> EnumStringView {
        EnumStringView { values: views(self.values@), offset: self.offset as nat }
    }
}

/// Asking for `a` values and then for `b` more hands out the same values
/// as asking for `a + b` at once.
pub proof fn law_batches_concatenate(values: Seq<Seq<char>>, offset: nat, a: nat, b: nat)
    ensures
        batch(values, offset, a) + batch(
            values,
            offset + batch(values, offset, a).len(),
            b,
        ) == batch(values, offset, a + b),
{
    let first = batch(values, offset, a);
    let second = batch(values, offset + first.len(), b);
    assert(first + second =~= batch(values, offset, a + b));
}

/// A request that hands out values hands out the values from the position
/// on, as many as asked for when there are enough, and its status is `S_OK`
/// exactly when it hands out as many as asked for, also when they reach the
/// very end.
pub proof fn law_next_status_counts(e: EnumStringView, celt: nat, wants_count: bool)
    requires
        e.offset < e.values.len(),
        celt > 0,
        wants_count || celt == 1,
    ensures
        next_hands_out(e, celt, wants_count),
        e.offset + celt <= e.values.len() ==> batch(e.values, e.offset, celt) == e.values.subrange(
            e.offset as int,
            (e.offset + celt) as int,
        ) && next_status(e, celt, wants_count) == S_OK,
        e.offset + celt > e.values.len() ==> batch(e.values, e.offset, celt) == e.values.subrange(
            e.offset as int,
            e.values.len() as int,
        ) && next_status(e, celt, wants_count) == S_FALSE,
{
}

/// After a reset, a request for `n` values hands out the first `n` values
/// (all of them, when there are fewer).
pub proof fn law_reset_restarts(values: Seq<Seq<char>>, n: nat)
    ensures
        batch(values, 0, n) == values.take(if n <= values.len() { n as int } else { values.len() as int }),
{
    assert(batch(values, 0, n) =~= values.take(if n <= values.len() { n as int } else { values.len() as int }));
}

impl EnumString {
    /// An enumerator at the start of `values`.
    pub fn new(values: Vec<String>) -> (res: Self)
        ensures
            res@.values == views(values@),
            res@.offset == 0,
    {
        Self::new_with_offset(values, 0)
    }

    /// An enumerator over `values` at position `offset`.
    pub fn new_with_offset(values: Vec<String>, offset: usize) -> (res: Self)
        ensures
            res@.values == views(values@),
            res@.offset == offset,
    {
        EnumString { values, offset }
    }

    /// The position of the next value to hand out.
    pub fn offset(&self) -> (res: usize)
        ensures
            res == self@.offset,
    {
        self.offset
    }

    /// Hands out up to `celt` values; `wants_count` tells whether the caller
    /// gave room for the count of values fetched.
    pub fn next(&mut self, celt: u32, wants_count: bool) -> (res: EnumNext)
        ensures
            res.status == next_status(old(self)@, celt as nat, wants_count),
            next_hands_out(old(self)@, celt as nat, wants_count) ==> {
                &&& views(res.items@) == batch(old(self)@.values, old(self)@.offset, celt as nat)
                &&& final(self)@.offset == old(self)@.offset + res.items@.len()
            },
            !next_hands_out(old(self)@, celt as nat, wants_count) ==> {
                &&& res.items@.len() == 0
                &&& final(self)@.offset == old(self)@.offset
            },
            final(self)@.values == old(self)@.values,
    {
        let len = self.values.len();
        let celt_n = celt as usize;
        let start: usize = if self.offset <= len { self.offset } else { len };
        let end: usize = if self.offset <= len && celt_n <= len - self.offset {
            self.offset + celt_n
        } else {
            len
        };
        let ghost v = views(self.values@);
        assert(v.len() == len);
        if start == end {
            return EnumNext { status: S_FALSE, items: Vec::new() };
        }
        if !wants_count && celt > 1 {
            return EnumNext { status: E_UNEXPECTED, items: Vec::new() };
        }
        let mut items: Vec<String> = Vec::new();
        let mut i: usize = start;
        while i < end
            invariant
                start <= i <= end <= len,
                len == self.values@.len(),
                v == views(self.values@),
                views(items@) == v.subrange(start as int, i as int),
            decreases end - i,
        {
            let s = self.values[i].clone();
            let ghost before = views(items@);
            items.push(s);
            assert(views(items@) =~= before.push(s@));
            assert(v.subrange(start as int, i + 1) =~= v.subrange(start as int, i as int).push(v[i as int]));
            i = i + 1;
        }
        let fetched = end - start;
        self.offset = self.offset + fetched;
        let status = if fetched == celt_n { S_OK } else { S_FALSE };
        EnumNext { status, items }
    }

    /// Moves the position `celt` values on.
    pub fn skip(&mut self, celt: u32) -> (res: i32)
        requires
            old(self)@.offset + celt <= usize::MAX,
        ensures
            res == S_OK,
            final(self)@.offset == old(self)@.offset + celt,
            final(self)@.values == old(self)@.values,
    {
        self.offset = self.offset + celt as usize;
        S_OK
    }

    /// Moves the position back to the first value.
    pub fn reset(&mut self) -> (res: i32)
        ensures
            res == S_OK,
            final(self)@.offset == 0,
            final(self)@.values == old(self)@.values,
    {
        self.offset = 0;
        S_OK
    }

    /// A second enumerator over the same values at the same position.
    pub fn clone_enum(&self) -> (res: EnumString)
        ensures
            res@ == self@,
    {
        EnumString::new_with_offset(clone_strings(&self.values), self.offset)
    }
}

} // verus!
