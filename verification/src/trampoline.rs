//! Layout of an inline hook: the five-byte jump written over the start of the
//! target function, and the trampoline that replays the overwritten bytes and
//! jumps back into the target right after them.
use vstd::prelude::*;
use crate::jump::{
    JMP_LEN, JMP_OPCODE, address_space, encode_jump, jump_bytes, jump_landing,
    lemma_jump_lands_on_target,
};

verus! {

/// Number of bytes of the target function that the hook overwrites.
pub const PATCH_SIZE: usize = 5;

/// Size of the trampoline: the overwritten bytes followed by a jump back.
pub const TRAMPOLINE_SIZE: usize = 10;

/// The bytes of an inline hook, ready to be copied into place.
pub struct InlineHook {
    /// The trampoline, written at the start of the detour allocation.
    pub trampoline: Vec<u8>,
    /// The jump written over the first `PATCH_SIZE` bytes of the target.
    pub patch: [u8; 5],
}

/// The trampoline placed at `detour`: the bytes taken from the target, then a
/// jump from the end of those bytes to the target's first byte after the patch.
pub open spec fn trampoline_bytes(stolen: Seq<u8>, detour: int, target: int) -> Seq<u8> {
    stolen + jump_bytes(detour + PATCH_SIZE, target + PATCH_SIZE)
}

/// The patch written over the start of `target`: a jump to `hook`.
pub open spec fn hook_patch_bytes(target: int, hook: int) -> Seq<u8> {
    jump_bytes(target, hook)
}

/// Builds the trampoline for a detour allocation at `detour`, given the
/// `PATCH_SIZE` bytes `stolen` read from the start of `target`, and the patch
/// that sends calls of `target` to `hook`.
pub fn plan_inline_hook(target: usize, hook: usize, detour: usize, stolen: [u8; 5]) -> (plan:
    InlineHook)
    requires
        target + PATCH_SIZE <= usize::MAX,
        detour + PATCH_SIZE <= usize::MAX,
    ensures
        plan.trampoline@ == trampoline_bytes(stolen@, detour as int, target as int),
        plan.patch@ == hook_patch_bytes(target as int, hook as int),
{
    let mut trampoline: Vec<u8> = Vec::new();
    let mut i: usize = 0;
    while i < PATCH_SIZE
        invariant
            i <= PATCH_SIZE,
            trampoline@ == stolen@.take(i as int),
        decreases PATCH_SIZE - i,
    {
        trampoline.push(stolen[i]);
        assert(stolen@.take(i as int + 1) =~= stolen@.take(i as int).push(stolen@[i as int]));
        i = i + 1;
    }
    let back = encode_jump(detour + PATCH_SIZE, target + PATCH_SIZE);
    let ghost front = trampoline@;
    let mut j: usize = 0;
    while j < JMP_LEN
        invariant
            j <= JMP_LEN,
            front == stolen@,
            trampoline@ == front + back@.take(j as int),
        decreases JMP_LEN - j,
    {
        trampoline.push(back[j]);
        assert(back@.take(j as int + 1) =~= back@.take(j as int).push(back@[j as int]));
        j = j + 1;
    }
    assert(stolen@.take(PATCH_SIZE as int) =~= stolen@);
    assert(back@.take(JMP_LEN as int) =~= back@);
    let patch = encode_jump(target, hook);
    InlineHook { trampoline, patch }
}

/// An inline hook routes control as intended: the patch at `target` is one
/// `jmp rel32` that lands on `hook`; the trampoline is `TRAMPOLINE_SIZE`
/// bytes, starts with the bytes the patch overwrote, and its jump, placed right
/// after them, lands on the first byte of `target` past the patch. Landings
/// are addresses of the 32-bit address space.
pub proof fn lemma_inline_hook_routes(stolen: Seq<u8>, target: int, hook: int, detour: int)
    requires
        stolen.len() == PATCH_SIZE,
    ensures
        hook_patch_bytes(target, hook).len() == PATCH_SIZE,
        hook_patch_bytes(target, hook)[0] == JMP_OPCODE,
        jump_landing(target, hook_patch_bytes(target, hook)) == hook % address_space(),
        trampoline_bytes(stolen, detour, target).len() == TRAMPOLINE_SIZE,
        trampoline_bytes(stolen, detour, target).take(PATCH_SIZE as int) == stolen,
        trampoline_bytes(stolen, detour, target)[PATCH_SIZE as int] == JMP_OPCODE,
        jump_landing(
            detour + PATCH_SIZE,
            trampoline_bytes(stolen, detour, target).skip(PATCH_SIZE as int),
        ) == (target + PATCH_SIZE) % address_space(),
{
    lemma_jump_lands_on_target(target, hook);
    lemma_jump_lands_on_target(detour + PATCH_SIZE, target + PATCH_SIZE);
    let t = trampoline_bytes(stolen, detour, target);
    assert(t.take(PATCH_SIZE as int) =~= stolen);
    assert(t.skip(PATCH_SIZE as int) =~= jump_bytes(detour + PATCH_SIZE, target + PATCH_SIZE));
}

} // verus!
