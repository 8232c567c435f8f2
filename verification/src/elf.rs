use vstd::prelude::*;

verus! {

/// `e_type` of an executable image linked at fixed addresses.
pub const ET_EXEC: u16 = 2;

/// `e_type` of a position-independent (shared object) image.
pub const ET_DYN: u16 = 3;

/// `p_type` of a loadable segment.
pub const PT_LOAD: u32 = 1;

/// `p_flags` bit of a writable segment.
pub const PF_W: u32 = 2;

/// RISC-V relocation that adds the load base to an addend.
pub const R_RISCV_RELATIVE: u32 = 3;

/// The fields of an ELF program header that the loader reads.
#[derive(Clone, Copy, Debug, PartialEq, Eq, Structural)]
pub struct ProgramHeader {
    pub p_type: u32,
    pub p_flags: u32,
    pub p_offset: u64,
    pub p_vaddr: u64,
    pub p_filesz: u64,
    pub p_memsz: u64,
}

/// The fields of a dynamic relocation with addend that the loader reads.
#[derive(Clone, Copy, Debug, PartialEq, Eq, Structural)]
pub struct Reloc {
    pub r_offset: u64,
    pub r_addend: Option<i64>,
    pub r_type: u32,
}

/// What the loader reads of a parsed ELF image: its type, its entry point,
/// its program headers and its dynamic relocations with addend, in file order.
#[derive(Debug)]
pub struct ElfImage {
    pub e_type: u16,
    pub entry: u64,
    pub program_headers: Vec<ProgramHeader>,
    pub dynrelas: Vec<Reloc>,
}

/// The image as plain values: `(e_type, entry, program headers, dynamic relocations)`.
pub type ElfModel = (u16, u64, Seq<ProgramHeader>, Seq<Reloc>);

impl View for ElfImage {
    type V = ElfModel;

    open spec fn view(&self) -> ElfModel {
        (self.e_type, self.entry, self.program_headers@, self.dynrelas@)
    }
}

#[verifier::external_type_specification]
#[verifier::external_body]
pub struct ExGoblinError(goblin::error::Error);

/// What `goblin::elf::Elf::parse` makes of a byte buffer on a 64-bit host, read
/// as an `ElfModel`: `None` where it returns an error. goblin passes the entry
/// point and file offsets through `usize`, so the value is that of a 64-bit build.
pub uninterp spec fn goblin_elf_parse(bytes: Seq<u8>) -> Option<ElfModel>;

/// The four bytes that open every ELF file.
pub open spec fn has_elf_magic(bytes: Seq<u8>) -> bool {
    &&& bytes.len() >= 4
    &&& bytes[0] == 0x7fu8
    &&& bytes[1] == 0x45u8
    &&& bytes[2] == 0x4cu8
    &&& bytes[3] == 0x46u8
}

/// The buffer is too short for the 16-byte ELF identification, lacks the ELF
/// magic, or names a class other than 32-bit (1) or 64-bit (2).
pub open spec fn refused_by_header(bytes: Seq<u8>) -> bool {
    bytes.len() < 16 || !has_elf_magic(bytes) || (bytes[4] != 1u8 && bytes[4] != 2u8)
}

/// Parses `buffer` with `goblin::elf::Elf::parse` and keeps what the loader reads.
///
/// Trusted: the result is `goblin_elf_parse(buffer@)`, which depends on the bytes
/// alone; goblin refuses a buffer shorter than the 16-byte identification, one
/// without the ELF magic, and one whose class byte is neither 1 (32-bit) nor 2
/// (64-bit). Nothing else is claimed of goblin's parser. The call is admitted on
/// 64-bit hosts only: on 32-bit hosts built with overflow checks, goblin's own
/// offset arithmetic (the GNU hash table's bloom size, the largest relocation
/// symbol) overflows on crafted files and panics.
#[verifier::external_body]
pub(crate) fn parse_elf(buffer: &[u8]) -> (r: Result<ElfImage, goblin::error::Error>)
    requires
        usize::BITS == 64,
    ensures
        r is Ok <==> goblin_elf_parse(buffer@) is Some,
        r matches Ok(img) ==> goblin_elf_parse(buffer@) == Some(img@),
        refused_by_header(buffer@) ==> r is Err,
{
    let elf = goblin::elf::Elf::parse(buffer)?;
    let program_headers = elf.program_headers.iter().map(|p| ProgramHeader {
        p_type: p.p_type, p_flags: p.p_flags, p_offset: p.p_offset,
        p_vaddr: p.p_vaddr, p_filesz: p.p_filesz, p_memsz: p.p_memsz,
    }).collect();
    let dynrelas = elf.dynrelas.iter().map(|r| Reloc {
        r_offset: r.r_offset, r_addend: r.r_addend, r_type: r.r_type,
    }).collect();
    Ok(ElfImage { e_type: elf.header.e_type, entry: elf.entry, program_headers, dynrelas })
}

} // verus!
