# matios_host

A host for small programs shipped as 64-bit ELF executables. The host reads the
executable's section table, lays the memory sections out in one image, applies
the relocations, and calls the entry point with a table of host services. The
program reaches the host through system calls: printing, creating and finding
resources (standard streams, a window, the desktop, the current directory), and
running their methods.

## Layout

- `src/` — the verified library (Verus):
  - `uuid.rs`: 128-bit identifiers and the parser of their textual forms;
  - `typed_value.rs`: tagged machine words exchanged with programs;
  - `elf_parser.rs`: the section table of an ELF file;
  - `loader.rs`: the memory image and its relocations;
  - `resource_local_registry.rs`: resources and the registry that holds them;
  - `resources.rs`: the well-known resources and resource paths;
  - `syscalls.rs`: requests, responses, and what the host decides for each call;
  - `host_machine.rs`: the identity of the machine.
- `app/` — the program around the library: reading the executable, executable
  memory, the console, the file system, the window system, and the raw
  system-call blocks shared with the running program.
- `tests/` — tests of the library.
