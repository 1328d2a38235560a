//! Decisions of the `CreateDXGIFactory` detour: whether the factory it
//! returned may be patched, and where the `CreateSwapChain` entry of the
//! factory's vtable lies.
use vstd::prelude::*;

verus! {

/// Index of `IDXGIFactory::CreateSwapChain` in the factory's vtable.
pub const CREATE_SWAP_CHAIN_SLOT: usize = 10;

/// `windows_core::HRESULT::is_ok`: an HRESULT is a success code exactly when
/// its value is not negative (the severity bit is clear). The crate's source
/// defines it as `self.0 >= 0`, which this contract states.
#[verifier::external_body]
fn hresult_is_ok(code: i32) -> (ok: bool)
    ensures
        ok == (code >= 0),
{
    windows_core::HRESULT(code).is_ok()
}

/// Whether the factory returned by the real `CreateDXGIFactory` can be patched:
/// the call succeeded, the out-pointer is non-null and it received a non-null
/// interface pointer.
pub fn factory_is_patchable(hr: i32, out_is_null: bool, factory_is_null: bool) -> (patch: bool)
    ensures
        patch == (hr >= 0 && !out_is_null && !factory_is_null),
{
    hresult_is_ok(hr) && !out_is_null && !factory_is_null
}

/// Address of entry `slot` of a vtable at `vtable` whose entries are
/// `entry_size` bytes wide.
pub fn vtable_slot_address(vtable: usize, slot: usize, entry_size: usize) -> (addr: usize)
    requires
        vtable + slot * entry_size <= usize::MAX,
    ensures
        addr == vtable + slot * entry_size,
{
    proof {
        assert(0 <= slot * entry_size) by (nonlinear_arith);
    }
    vtable + slot * entry_size
}

} // verus!
