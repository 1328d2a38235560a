use boopass::dxgi::{factory_is_patchable, vtable_slot_address, CREATE_SWAP_CHAIN_SLOT};

#[test]
fn success_codes_allow_patching() {
    assert!(factory_is_patchable(0, false, false));
    assert!(factory_is_patchable(1, false, false));
    assert!(factory_is_patchable(i32::MAX, false, false));
}

#[test]
fn failure_codes_forbid_patching() {
    assert!(!factory_is_patchable(0x8000_4005u32 as i32, false, false));
    assert!(!factory_is_patchable(0x887A_0001u32 as i32, false, false));
    assert!(!factory_is_patchable(-1, false, false));
    assert!(!factory_is_patchable(i32::MIN, false, false));
}

#[test]
fn null_pointers_forbid_patching() {
    assert!(!factory_is_patchable(0, true, false));
    assert!(!factory_is_patchable(0, false, true));
    assert!(!factory_is_patchable(0, true, true));
}

#[test]
fn create_swap_chain_entry() {
    assert_eq!(CREATE_SWAP_CHAIN_SLOT, 10);
    assert_eq!(vtable_slot_address(0x1000, CREATE_SWAP_CHAIN_SLOT, 4), 0x1028);
    assert_eq!(vtable_slot_address(0x1000, CREATE_SWAP_CHAIN_SLOT, 8), 0x1050);
    assert_eq!(vtable_slot_address(0x1000, 0, 4), 0x1000);
}
