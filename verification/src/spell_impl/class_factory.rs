//! The class factory through which Windows creates the provider factory.
use vstd::prelude::*;
use crate::guid::{Guid, is_equal_guid, iid_ispellcheckproviderfactory, guid_is};
use crate::hresult::{S_OK, E_NOINTERFACE};
use crate::com::RefCount;
use super::spell_check_provider_factory::DivvunSpellCheckProviderFactory;

verus! {

/// Whether `g` is the identifier of `ISpellCheckProviderFactory`.
pub open spec fn is_provider_factory_iid(g: Guid) -> bool {
    guid_is(g, 0x9f671e11, 0x77d6, 0x4c92, seq![0xaeu8, 0xfb, 0x61, 0x52, 0x15, 0xe3, 0xa4, 0xbe])
}

/// The class factory of the provider factory. Its reference count is kept
/// with the COM object that carries it.
pub struct DivvunSpellCheckProviderFactoryClassFactory {}

impl DivvunSpellCheckProviderFactoryClassFactory {
    /// A class factory.
    pub fn new() -> (res: Self) {
        DivvunSpellCheckProviderFactoryClassFactory {}
    }

    /// Creates an object of the interface `riid`: only the provider factory
    /// can be created; any other interface is answered `E_NOINTERFACE`.
    pub fn create_instance(&self, riid: &Guid) -> (res: Result<DivvunSpellCheckProviderFactory, i32>)
        ensures
            is_provider_factory_iid(*riid) <==> res is Ok,
            res matches Err(e) ==> e == E_NOINTERFACE,
    {
        let iid = iid_ispellcheckproviderfactory();
        if is_equal_guid(riid, &iid) {
            Ok(DivvunSpellCheckProviderFactory::new())
        } else {
            Err(E_NOINTERFACE)
        }
    }

    /// Locks the server in memory (`lock` true) by taking a reference on
    /// the class factory, or unlocks it by dropping one; returns `S_OK` and
    /// the new count.
    pub fn lock_server(refs: &mut RefCount, lock: bool) -> (res: (i32, u32))
        requires
            lock ==> old(refs)@ < u32::MAX,
            !lock ==> old(refs)@ > 0,
        ensures
            res.0 == S_OK,
            lock ==> final(refs)@ == old(refs)@ + 1,
            !lock ==> final(refs)@ == old(refs)@ - 1,
            res.1 == final(refs)@,
    {
        let count = if lock {
            refs.add_ref()
        } else {
            refs.release()
        };
        (S_OK, count)
    }
}

} // verus!
