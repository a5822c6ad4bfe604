//! Host-side library of a small process host: identifiers, typed values,
//! ELF images, the resource registry and the system-call dispatcher.
#![allow(non_snake_case)]

pub mod uuid;
pub mod typed_value;
pub mod elf_parser;
pub mod loader;
pub mod resource_local_registry;
pub mod resources;
pub mod syscalls;
pub mod host_machine;
