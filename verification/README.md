# boopass

A card emulator overlay for Mario Kart Arcade GP DX, built as two 32-bit
Windows DLLs: a `dinput8.dll` proxy that the game loads, and `boopass.dll`,
which hooks DXGI to render its interface.

- `src/` is the verified library (Verus):
  - `jump`: encoding of the x86 `jmp rel32` instruction and the proof that an
    encoded jump lands on its target;
  - `trampoline`: the bytes of an inline hook (the patch over the target and
    the trampoline that replays the overwritten bytes and jumps back);
  - `protect`: the make-writable / write / restore protocol for code pages, as
    a state machine, with the proof that the saved protection is the one put
    back and that the write runs at most once, and never after a failure;
  - `dxgi`: when the factory returned by `CreateDXGIFactory` may be patched,
    and where its `CreateSwapChain` vtable entry lies;
  - `loader`: the path of the real `dinput8.dll` and the startup line naming
    the Windows (and Wine) version.
- `app/` holds the Win32 side: `DllMain`s, the detours, memory protection,
  module loading and console logging, calling the library for every decision.
- `tests/` runs the library on concrete values.
