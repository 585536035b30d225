//! The bookkeeping that every COM object of the provider shares: its
//! reference count and the interfaces it answers to.
use vstd::prelude::*;
use crate::guid::{Guid, is_equal_guid, iid_iunknown, same_guid, guid_is};
use crate::hresult::{S_OK, E_NOTIMPL};

verus! {

/// The reference count of a COM object.
pub struct RefCount {
    count: u32,
}

impl View for RefCount {
    type V = nat;

    closed spec fn view(&self) -> nat {
        self.count as nat
    }
}

/// Whether `g` is the identifier of `IUnknown`.
pub open spec fn is_iunknown(g: Guid) -> bool {
    guid_is(g, 0, 0, 0, seq![0xc0u8, 0x00, 0x00, 0x00, 0x00, 0x00, 0x00, 0x46])
}

/// What `QueryInterface` answers for an object that implements the
/// interface `own`: `S_OK` for that interface and for `IUnknown`,
/// `E_NOTIMPL` for any other.
pub open spec fn query_status(riid: Guid, own: Guid) -> i32 {
    if same_guid(riid, own) || is_iunknown(riid) {
        S_OK
    } else {
        E_NOTIMPL
    }
}

impl RefCount {
    /// The count of a newly created object, which its creator holds.
    pub fn new() -> (res: Self)
        ensures
            res@ == 1,
    {
        RefCount { count: 1 }
    }

    /// The current count.
    pub fn get(&self) -> (res: u32)
        ensures
            res == self@,
    {
        self.count
    }

    /// Takes one more reference, and returns the new count.
    pub fn add_ref(&mut self) -> (res: u32)
        requires
            old(self)@ < u32::MAX,
        ensures
            final(self)@ == old(self)@ + 1,
            res == final(self)@,
    {
        self.count = self.count + 1;
        self.count
    }

    /// Drops one reference, and returns the new count; the object is to be
    /// destroyed when it reaches 0.
    pub fn release(&mut self) -> (res: u32)
        requires
            old(self)@ > 0,
        ensures
            final(self)@ == old(self)@ - 1,
            res == final(self)@,
    {
        self.count = self.count - 1;
        self.count
    }

    /// Answers `QueryInterface` for an object that implements `own`; a
    /// successful answer hands out one more reference.
    pub fn query_interface(&mut self, riid: &Guid, own: &Guid) -> (res: i32)
        requires
            old(self)@ < u32::MAX,
        ensures
            res == query_status(*riid, *own),
            res == S_OK ==> final(self)@ == old(self)@ + 1,
            res != S_OK ==> final(self)@ == old(self)@,
    {
        let unknown = iid_iunknown();
        if is_equal_guid(riid, own) || is_equal_guid(riid, &unknown) {
            self.add_ref();
            S_OK
        } else {
            E_NOTIMPL
        }
    }
}

} // verus!
