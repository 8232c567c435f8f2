# blueos_loader

A verified ELF loader core. Given the bytes of an ELF file and the mapping mode
of a memory mapper (`Fixed` for executables linked at their addresses,
`Allocated` for position-independent images), the library computes a
`LoadPlan`: the mapper calls that load the image, in order, and the outcome of
the load. Executables whose read-only segments run in place from flash
(`XipRegion`s) are loaded with `load_xip_elf`, which never writes those regions.

`load_elf` and `load_xip_elf` call goblin's ELF parser and are stated for
64-bit hosts, where that parser cannot panic. On narrower hosts goblin's offset
arithmetic can overflow on crafted files; there `app/` parses the file itself
and hands the result to `load_elf_from` / `load_xip_elf_from`, which are
verified for every parse result, so the promise of no panic covers everything
but goblin's parser on those hosts.

Layout:

- `src/xip.rs`: `XipRegion` and its range tests.
- `src/elf.rs`: the fields of a parsed ELF image that the loader reads, and the
  one call into `goblin` that parses a file.
- `src/plan.rs`: mapper calls, plans, and the specification of every load.
- `src/loader.rs`: the verified loader.
- `src/laws.rs`: properties of the loads, proved.
- `app/lib.rs`: runs a plan on a memory mapper, call by call as `next_step` says.
