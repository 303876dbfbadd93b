# nextcore_ise

Verified building blocks of an ISA-extension runtime: an x86 decoder,
emulator and trap policy for instructions the host lacks, and an AArch64
reference core with its MMU, pointer authentication, Apple M1 and VMApple
device graphs, the preOS entry decisions and a caller-owned memory service.

Layout:

- `src/` — the library, written and proved with Verus. Each module states
  its behaviour as `requires`/`ensures` over spec functions; the `lemma_*`
  proof functions state laws that relate several operations (write then
  read, map then translate, sign then authenticate, take then return).
  - `decoder`, `emulator`, `trap`, `cpu_features`: the x86 side.
  - `arch`, `mmu`, `pauth`, `exception_level`: the AArch64 reference core.
  - `m1`, `vmapple`, `platform`: device graphs and the platform profile.
  - `preos`, `memory_service`, `stage1`, `dynamic`, `memory_boot`: the
    embedding records and their validation.
  - `bfm_cases`, `multiply_add_cases`, `register_offset_provider_cases`,
    `ubfm_provider_cases`: instruction cases with their expected effects.
  - `bits`: shared bit-level facts.
- `tests/` — executable tests against the library.
- `app/` — the C entry points, error types with messages and the feature
  flags type; plain Rust around the library.

Not included: the stage-1 walker memory service (and its dynamic,
prepare/commit variant) that serves requests through guest page tables.
It rests on a detailed translation interface — per-level failure context,
memory attributes and a strict Normal-NC configuration of the MMU — that
the MMU here does not provide; only its control records and their
validation (`stage1`, `dynamic`) are part of the library.
