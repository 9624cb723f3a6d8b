# aetherion_kernel

The logic of the Aetherion x86-64 kernel as a library verified with Verus:
every function states in `requires`/`ensures` what it does, and Verus
proves it.

- `src/` — the verified library: the cognitive bus (`ipc`), the virtual
  filesystem with device manifests and path checks (`fs`), the process
  hierarchy and file descriptors (`process`), the priority scheduler whose
  aging serves a process that has waited 100 steps (`scheduler`), the policy
  engine (`gatekeeper`), the ELF64 parser and loader that builds a user
  address space as a list of memory writes, never writable and executable at
  once (`elf`), system calls (`syscall`), boot measurements (`security`,
  with SHA-256 from the `sha2` crate), the network protocols and the VirtIO
  queue (`net`), physical frames, page arithmetic and resource tags
  (`memory`), the GPU VRAM allocator (`gpu`), descriptor tables, task
  contexts, PCI and fault decisions (`gdt`, `arch`), the text screen (`vga`)
  and the ACHA metrics and event log (`acha`).
- `tests/` — tests run against the compiled library.
- `app/` — a hosted program around the library: the boot sequence with
  standard output as the console and a map of frames as physical memory,
  loading executables named on the command line, and the floating-point
  signal processing of the software-defined radio.

The process table, sockets and ARP cache are std `BTreeMap`s keyed by
`u64`, whose behaviour vstd specifies. The filesystem's table of paths is
its own map (`fs::table::PathMap`, byte-string keys with no key twice): a
`BTreeMap<String, _>` would compile, but vstd states what `insert` and
`get` do only for key types whose ordering it models, and it models none
for `String` or `Vec<u8>`, so nothing could be proved of such a map's
contents.
