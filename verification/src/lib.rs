//! Verified core of a DXGI rendering hook and a `dinput8.dll` proxy loader for
//! 32-bit Windows: x86 `jmp rel32` encoding, trampoline and hook-patch layout,
//! vtable slot addressing, the protect/write/restore protocol for patching code
//! pages, and the text and paths the loader computes.
pub mod jump;
pub mod trampoline;
pub mod protect;
pub mod dxgi;
pub mod loader;
