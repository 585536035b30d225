//! The entry points through which Windows loads the provider.
use vstd::prelude::*;
use crate::guid::{Guid, is_equal_guid, iid_iclassfactory, guid_is};
use crate::hresult::{S_FALSE, CLASS_E_CLASSNOTAVAILABLE};
use crate::spell_impl::class_factory::DivvunSpellCheckProviderFactoryClassFactory;

verus! {

/// Whether `g` is the identifier of `IClassFactory`.
pub open spec fn is_class_factory_iid(g: Guid) -> bool {
    guid_is(g, 0x00000001, 0x0000, 0x0000, seq![0xc0u8, 0x00, 0x00, 0x00, 0x00, 0x00, 0x00, 0x46])
}

/// The class object for the interface `riid`: a class factory when the
/// class factory interface is asked for, else `CLASS_E_CLASSNOTAVAILABLE`.
pub fn get_class_object(riid: &Guid) -> (res: Result<DivvunSpellCheckProviderFactoryClassFactory, i32>)
    ensures
        is_class_factory_iid(*riid) <==> res is Ok,
        res matches Err(e) ==> e == CLASS_E_CLASSNOTAVAILABLE,
{
    let iid = iid_iclassfactory();
    if is_equal_guid(riid, &iid) {
        Ok(DivvunSpellCheckProviderFactoryClassFactory::new())
    } else {
        Err(CLASS_E_CLASSNOTAVAILABLE)
    }
}

/// Whether the module may be unloaded: it never says yes.
pub fn can_unload_now() -> (res: i32)
    ensures
        res == S_FALSE,
{
    S_FALSE
}

} // verus!
