use vstd::prelude::*;

use crate::elf::{ElfModel, ProgramHeader, Reloc, ET_DYN, ET_EXEC, PF_W, PT_LOAD, R_RISCV_RELATIVE};
use crate::xip::{region_holds, region_meets, XipRegion};

verus! {

/// The outcome of a load: `Err` carries the message that names the failure.
pub type LoadResult = core::result::Result<(), &'static str>;

/// How a memory mapper places an image: at the addresses it was linked for
/// (`Fixed`), or in memory that it allocates for it (`Allocated`).
#[derive(Clone, Copy, Debug, PartialEq, Eq, Structural)]
pub enum MappingModeKind {
    Fixed,
    Allocated,
}

/// One call on the memory mapper.
#[derive(Clone, Copy, Debug, PartialEq, Eq, Structural)]
pub enum MapperOp {
    /// `update_start(addr)`: a loadable segment starts at `addr`.
    UpdateStart(usize),
    /// `update_end(addr)`: a loadable segment ends at `addr`.
    UpdateEnd(usize),
    /// `set_entry(addr)`: the image's entry point.
    SetEntry(usize),
    /// `allocate_memory()`: reserve memory for the laid-out image.
    AllocateMemory,
    /// `write_slice_at(addr, &buffer[file_start..file_end])`.
    WriteSlice { addr: usize, file_start: usize, file_end: usize },
    /// `write_zeroes_at(addr, len)`.
    WriteZeroes { addr: usize, len: usize },
    /// `real_start()`, then `write_value_at` as `relocation_write` says.
    WriteRelative { vaddr: usize, addend: usize },
    /// Make the instruction stream see the bytes just written.
    SynchronizeInstructionStream,
    /// `real_entry()`: the last call of a load that the loader accepts.
    RealEntry,
}

/// A load as the mapper performs it: the calls in order, then the outcome.
/// `next_step` runs it: the calls run one after the other and the first one
/// that fails ends the load with its own error; when all succeed, the load
/// ends with `outcome`.
#[derive(Debug)]
pub struct LoadPlan {
    pub ops: Vec<MapperOp>,
    pub outcome: LoadResult,
}

/// What running a plan asks for next: a call on the mapper, or the end of the
/// load with its outcome.
#[derive(Clone, Copy, Debug)]
pub enum Step {
    Call(MapperOp),
    Finish(LoadResult),
}

/// The step of running `plan` after `done` of its calls have run, the last of
/// them with result `last` (`Ok(())` before the first call). A failed call ends
/// the load with its own error and nothing after it runs; the calls run in the
/// plan's order; once all have succeeded, the load ends with the plan's outcome.
pub fn next_step(plan: &LoadPlan, done: usize, last: LoadResult) -> (s: Step)
    ensures
        last is Err ==> s == Step::Finish(last),
        last is Ok && done < plan.ops@.len() ==> s == Step::Call(plan.ops@[done as int]),
        last is Ok && done >= plan.ops@.len() ==> s == Step::Finish(plan.outcome),
{
    if last.is_err() {
        Step::Finish(last)
    } else if done < plan.ops.len() {
        Step::Call(plan.ops[done])
    } else {
        Step::Finish(plan.outcome)
    }
}

/// The write of a RISC-V relative relocation, given what the mapper answered
/// for the image's real start: where it failed, the relocation ends with that
/// error and nothing is written; otherwise the word at `vaddr` receives the
/// relocated value.
pub fn relocation_write(real_start: Result<usize, &'static str>, vaddr: usize, addend: usize) -> (r: Result<
    (usize, usize),
    &'static str,
>)
    ensures
        match real_start {
            Ok(base) => r == Ok::<(usize, usize), &'static str>((vaddr, base.wrapping_add(addend))),
            Err(e) => r == Err::<(usize, usize), &'static str>(e),
        },
{
    match real_start {
        Ok(base) => Ok((vaddr, relocated_value(base, addend))),
        Err(e) => Err(e),
    }
}

/// The value that a RISC-V relative relocation stores: the real start of the
/// image plus the addend, both as machine words, wrapping around.
pub fn relocated_value(real_start: usize, addend: usize) -> (v: usize)
    ensures
        v == real_start.wrapping_add(addend),
{
    real_start.wrapping_add(addend)
}

/// Some XIP region holds the whole range `[start, end)`.
pub open spec fn any_holds(xips: Seq<XipRegion>, start: int, end: int) -> bool {
    exists|i: int| 0 <= i < xips.len() && region_holds(#[trigger] xips[i]@, start, end)
}

/// Some XIP region meets the range `[start, end)`.
pub open spec fn any_meets(xips: Seq<XipRegion>, start: int, end: int) -> bool {
    exists|i: int| 0 <= i < xips.len() && region_meets(#[trigger] xips[i]@, start, end)
}

pub open spec fn is_writable(ph: ProgramHeader) -> bool {
    ph.p_flags & PF_W != 0
}

/// The address where a loadable segment ends, as the layout reports it:
/// `p_vaddr + p_memsz` on 64 bits, wrapping around, then taken as a machine word.
pub open spec fn layout_end(ph: ProgramHeader) -> usize {
    ph.p_vaddr.wrapping_add(ph.p_memsz) as usize
}

/// The layout calls of the program headers, in order.
pub open spec fn layout_ops(phs: Seq<ProgramHeader>) -> Seq<MapperOp>
    decreases phs.len(),
{
    if phs.len() == 0 {
        seq![]
    } else {
        let ph = phs.last();
        layout_ops(phs.drop_last()) + if ph.p_type == PT_LOAD {
            seq![MapperOp::UpdateStart(ph.p_vaddr as usize), MapperOp::UpdateEnd(layout_end(ph))]
        } else {
            seq![]
        }
    }
}

/// Every layout call, then the entry point.
pub open spec fn layout_plan(m: ElfModel) -> Seq<MapperOp> {
    layout_ops(m.2).push(MapperOp::SetEntry(m.1 as usize))
}

/// What loading one program header asks of the mapper, or the error that
/// refuses it, for a file of `buf_len` bytes.
#[verifier::opaque]
pub open spec fn segment_ops(buf_len: nat, ph: ProgramHeader, xips: Seq<XipRegion>) -> Result<
    Seq<MapperOp>,
    &'static str,
> {
    let start = ph.p_vaddr as int;
    let end = ph.p_vaddr + ph.p_memsz;
    let file_end = ph.p_offset + ph.p_filesz;
    if ph.p_type != PT_LOAD {
        Ok(seq![])
    } else if ph.p_filesz > ph.p_memsz {
        Err("ELF segment file size exceeds memory size")
    } else if ph.p_vaddr > usize::MAX {
        Err("ELF address overflow")
    } else if ph.p_memsz > usize::MAX {
        Err("ELF size overflow")
    } else if end > usize::MAX {
        Err("ELF address overflow")
    } else if any_holds(xips, start, end) {
        if is_writable(ph) {
            Err("Writable ELF segment cannot execute in place")
        } else {
            Ok(seq![])
        }
    } else if any_meets(xips, start, end) {
        Err("ELF segment crosses an XIP region boundary")
    } else if ph.p_offset > usize::MAX || file_end > usize::MAX {
        Err("ELF file offset overflow")
    } else if file_end > buf_len {
        Err("Invalid indices to the buffer")
    } else {
        Ok(
            seq![
                MapperOp::WriteSlice {
                    addr: ph.p_vaddr as usize,
                    file_start: ph.p_offset as usize,
                    file_end: file_end as usize,
                },
                MapperOp::WriteZeroes {
                    addr: (ph.p_vaddr + ph.p_filesz) as usize,
                    len: (ph.p_memsz - ph.p_filesz) as usize,
                },
            ],
        )
    }
}

/// The calls that copy the program headers in order, up to the first refused
/// one, and the error that refuses it if there is one.
pub open spec fn copy_plan(buf_len: nat, phs: Seq<ProgramHeader>, xips: Seq<XipRegion>) -> (
    Seq<MapperOp>,
    LoadResult,
)
    decreases phs.len(),
{
    if phs.len() == 0 {
        (seq![], Ok(()))
    } else {
        let prev = copy_plan(buf_len, phs.drop_last(), xips);
        if prev.1 is Err {
            prev
        } else {
            match segment_ops(buf_len, phs.last(), xips) {
                Ok(s) => (prev.0 + s, Ok(())),
                Err(e) => (prev.0, Err(e)),
            }
        }
    }
}

/// The addend of a relocation, taken as a machine word (`0` when it has none).
pub open spec fn reloc_addend(r: Reloc) -> usize {
    match r.r_addend {
        Some(a) => a as usize,
        None => 0usize,
    }
}

/// The relocation calls, in order: one per RISC-V relative relocation.
pub open spec fn reloc_ops(rs: Seq<Reloc>) -> Seq<MapperOp>
    decreases rs.len(),
{
    if rs.len() == 0 {
        seq![]
    } else {
        let r = rs.last();
        reloc_ops(rs.drop_last()) + if r.r_type == R_RISCV_RELATIVE {
            seq![MapperOp::WriteRelative { vaddr: r.r_offset as usize, addend: reloc_addend(r) }]
        } else {
            seq![]
        }
    }
}

/// Loading a position-independent image.
pub open spec fn dyn_plan(buf_len: nat, m: ElfModel, mode: MappingModeKind) -> (
    Seq<MapperOp>,
    LoadResult,
) {
    if mode != MappingModeKind::Allocated {
        (seq![], Err("ET_DYN requires Allocated mapping mode"))
    } else {
        let before = layout_plan(m).push(MapperOp::AllocateMemory);
        let copy = copy_plan(buf_len, m.2, seq![]);
        if copy.1 is Err {
            (before + copy.0, copy.1)
        } else {
            (before + copy.0 + reloc_ops(m.3).push(MapperOp::RealEntry), Ok(()))
        }
    }
}

/// Loading an image linked at fixed addresses, skipping what the XIP regions hold.
pub open spec fn exec_plan(
    buf_len: nat,
    m: ElfModel,
    mode: MappingModeKind,
    xips: Seq<XipRegion>,
) -> (Seq<MapperOp>, LoadResult) {
    if mode != MappingModeKind::Fixed {
        (seq![], Err("ET_EXEC requires Fixed mapping mode"))
    } else {
        let copy = copy_plan(buf_len, m.2, xips);
        if copy.1 is Err {
            (layout_plan(m) + copy.0, copy.1)
        } else {
            (
                layout_plan(m) + copy.0 + seq![
                    MapperOp::SynchronizeInstructionStream,
                    MapperOp::RealEntry,
                ],
                Ok(()),
            )
        }
    }
}

/// Loading a parsed image by its type.
pub open spec fn parsed_elf_plan(buf_len: nat, m: ElfModel, mode: MappingModeKind) -> (
    Seq<MapperOp>,
    LoadResult,
) {
    if m.0 == ET_DYN {
        dyn_plan(buf_len, m, mode)
    } else if m.0 == ET_EXEC {
        exec_plan(buf_len, m, mode, seq![])
    } else {
        (seq![], Err("Unsupported ELF type"))
    }
}

/// Loading an ELF file.
pub open spec fn elf_plan(buffer: Seq<u8>, mode: MappingModeKind) -> (Seq<MapperOp>, LoadResult) {
    match crate::elf::goblin_elf_parse(buffer) {
        None => (seq![], Err("Unable to parse the buffer")),
        Some(m) => parsed_elf_plan(buffer.len(), m, mode),
    }
}

/// Loading a parsed executable whose read-only XIP segments are already mapped.
pub open spec fn parsed_xip_plan(
    buf_len: nat,
    m: ElfModel,
    mode: MappingModeKind,
    xips: Seq<XipRegion>,
) -> (Seq<MapperOp>, LoadResult) {
    if m.0 != ET_EXEC {
        (seq![], Err("XIP load requires an ET_EXEC image"))
    } else if m.1 > usize::MAX {
        (seq![], Err("ELF entry overflow"))
    } else if !any_holds(xips, m.1 as int, (m.1 as usize).saturating_add(1) as int) {
        (seq![], Err("ELF entry is outside mapped XIP regions"))
    } else {
        exec_plan(buf_len, m, mode, xips)
    }
}

/// Loading an executable file whose read-only XIP segments are already mapped.
pub open spec fn xip_plan(buffer: Seq<u8>, mode: MappingModeKind, xips: Seq<XipRegion>) -> (
    Seq<MapperOp>,
    LoadResult,
) {
    if mode != MappingModeKind::Fixed {
        (seq![], Err("XIP ET_EXEC requires Fixed mapping mode"))
    } else if xips.len() == 0 {
        (seq![], Err("XIP load requires at least one mapped region"))
    } else {
        match crate::elf::goblin_elf_parse(buffer) {
            None => (seq![], Err("Unable to parse the buffer")),
            Some(m) => parsed_xip_plan(buffer.len(), m, mode, xips),
        }
    }
}

} // verus!

verus! {

/// The range `[start, end)` that a copy or zero-fill call writes.
pub open spec fn write_range(op: MapperOp) -> Option<(int, int)> {
    match op {
        MapperOp::WriteSlice { addr, file_start, file_end } => Some(
            (addr as int, addr + file_end - file_start),
        ),
        MapperOp::WriteZeroes { addr, len } => Some((addr as int, addr + len)),
        _ => None,
    }
}

/// The call writes no byte of any XIP region: it writes nothing, or it copies
/// or zero-fills a range that meets none of them.
pub open spec fn spares_xip(op: MapperOp, xips: Seq<XipRegion>) -> bool {
    match write_range(op) {
        Some(r) => !any_meets(xips, r.0, r.1),
        None => !(op is WriteRelative),
    }
}

} // verus!
