//! Verified core of an ELF program loader.
//!
//! The library decides, from an ELF file and the mapping mode of the memory
//! mapper that receives it, which calls the mapper has to make to load the
//! image and which error ends the load. The mapper itself runs the calls.

pub mod elf;
pub mod laws;
mod loader;
pub mod plan;
pub mod xip;

pub use elf::{ElfImage, ElfModel, ProgramHeader, Reloc, ET_DYN, ET_EXEC, PF_W, PT_LOAD, R_RISCV_RELATIVE};
pub use loader::{copy_content_to_memory, load_elf, load_elf_from, load_xip_elf_from, load_parsed_elf, load_parsed_xip_elf, load_xip_elf};
pub use plan::{next_step, relocated_value, relocation_write, LoadPlan, Step, LoadResult, MapperOp, MappingModeKind};
pub use xip::XipRegion;
