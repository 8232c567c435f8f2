use vstd::prelude::*;

use crate::elf::{parse_elf, refused_by_header, ElfImage, ProgramHeader, Reloc, ET_DYN, ET_EXEC, PF_W, PT_LOAD, R_RISCV_RELATIVE};
use crate::plan::{
    any_holds, any_meets, copy_plan, dyn_plan, elf_plan, exec_plan, layout_ops, layout_plan, parsed_elf_plan,
    parsed_xip_plan, reloc_addend, reloc_ops, segment_ops, xip_plan, LoadPlan, LoadResult, MapperOp,
    MappingModeKind,
};
use crate::xip::{region_holds, region_meets, XipRegion};

verus! {

/// `x` as a machine word, where it fits in one.
fn usize_from_u64(x: u64) -> (r: Option<usize>)
    ensures
        r == (if x <= usize::MAX { Some(x as usize) } else { None::<usize> }),
{
    if x <= usize::MAX as u64 {
        Some(x as usize)
    } else {
        None
    }
}

/// Some region of `regions` holds the whole range `[start, end)`.
fn any_contains(regions: &[XipRegion], start: usize, end: usize) -> (b: bool)
    ensures
        b == any_holds(regions@, start as int, end as int),
{
    let mut i: usize = 0;
    while i < regions.len()
        invariant
            i <= regions@.len(),
            forall|j: int| 0 <= j < i ==> !region_holds(#[trigger] regions@[j]@, start as int, end as int),
        decreases regions@.len() - i,
    {
        if regions[i].contains(start, end) {
            return true;
        }
        i += 1;
    }
    false
}

/// Some region of `regions` meets the range `[start, end)`.
fn any_intersects(regions: &[XipRegion], start: usize, end: usize) -> (b: bool)
    ensures
        b == any_meets(regions@, start as int, end as int),
{
    let mut i: usize = 0;
    while i < regions.len()
        invariant
            i <= regions@.len(),
            forall|j: int| 0 <= j < i ==> !region_meets(#[trigger] regions@[j]@, start as int, end as int),
        decreases regions@.len() - i,
    {
        if regions[i].intersects(start, end) {
            return true;
        }
        i += 1;
    }
    false
}

/// Reports every loadable segment's bounds and the entry point.
fn build_memory_layout(image: &ElfImage, ops: &mut Vec<MapperOp>)
    ensures
        final(ops)@ == old(ops)@ + layout_plan(image@),
{
    let n = image.program_headers.len();
    let mut i: usize = 0;
    while i < n
        invariant
            n == image.program_headers@.len(),
            i <= n,
            ops@ == old(ops)@ + layout_ops(image.program_headers@.take(i as int)),
        decreases n - i,
    {
        let ph = image.program_headers[i];
        proof {
            assert(image.program_headers@.take(i + 1).drop_last() =~= image.program_headers@.take(
                i as int,
            ));
        }
        if ph.p_type == PT_LOAD {
            ops.push(MapperOp::UpdateStart(ph.p_vaddr as usize));
            ops.push(MapperOp::UpdateEnd(ph.p_vaddr.wrapping_add(ph.p_memsz) as usize));
        }
        assert(ops@ =~= old(ops)@ + layout_ops(image.program_headers@.take(i + 1)));
        i += 1;
    }
    assert(image.program_headers@.take(n as int) =~= image.program_headers@);
    ops.push(MapperOp::SetEntry(image.entry as usize));
    assert(ops@ =~= old(ops)@ + layout_plan(image@));
}

/// Reserves memory for the laid-out image.
fn allocate_memory_for_segments(ops: &mut Vec<MapperOp>)
    ensures
        final(ops)@ == old(ops)@.push(MapperOp::AllocateMemory),
{
    ops.push(MapperOp::AllocateMemory);
}

/// Checks one program header and, for a loadable segment outside the XIP
/// regions, copies its file bytes and zero-fills the rest of its memory.
fn load_segment(
    buffer: &[u8],
    ph: ProgramHeader,
    ops: &mut Vec<MapperOp>,
    xip_regions: &[XipRegion],
) -> (r: LoadResult)
    ensures
        match segment_ops(buffer@.len(), ph, xip_regions@) {
            Ok(s) => r is Ok && final(ops)@ == old(ops)@ + s,
            Err(e) => r == Err::<(), &'static str>(e) && final(ops)@ == old(ops)@,
        },
{
    reveal(segment_ops);
    if ph.p_type != PT_LOAD {
        return Ok(());
    }
    if ph.p_filesz > ph.p_memsz {
        return Err("ELF segment file size exceeds memory size");
    }
    let start = match usize_from_u64(ph.p_vaddr) {
        Some(v) => v,
        None => return Err("ELF address overflow"),
    };
    let mem_size = match usize_from_u64(ph.p_memsz) {
        Some(v) => v,
        None => return Err("ELF size overflow"),
    };
    let end = match start.checked_add(mem_size) {
        Some(v) => v,
        None => return Err("ELF address overflow"),
    };
    if any_contains(xip_regions, start, end) {
        if ph.p_flags & PF_W != 0 {
            return Err("Writable ELF segment cannot execute in place");
        }
        return Ok(());
    }
    if any_intersects(xip_regions, start, end) {
        return Err("ELF segment crosses an XIP region boundary");
    }
    let file_offset = match usize_from_u64(ph.p_offset) {
        Some(v) => v,
        None => return Err("ELF file offset overflow"),
    };
    let file_size = match usize_from_u64(ph.p_filesz) {
        Some(v) => v,
        None => return Err("ELF size overflow"),
    };
    let file_end = match file_offset.checked_add(file_size) {
        Some(v) => v,
        None => return Err("ELF file offset overflow"),
    };
    if file_end > buffer.len() {
        return Err("Invalid indices to the buffer");
    }
    let zero_size = mem_size - file_size;
    let zero_start = match start.checked_add(file_size) {
        Some(v) => v,
        None => return Err("ELF address overflow"),
    };
    ops.push(MapperOp::WriteSlice { addr: start, file_start: file_offset, file_end });
    ops.push(MapperOp::WriteZeroes { addr: zero_start, len: zero_size });
    assert(ops@ =~= old(ops)@ + segment_ops(buffer@.len(), ph, xip_regions@)->Ok_0);
    Ok(())
}

/// Copies every loadable segment in file order, stopping at the first one refused;
/// segments that an XIP region holds are left where they are mapped.
pub fn copy_content_to_memory(
    buffer: &[u8],
    image: &ElfImage,
    ops: &mut Vec<MapperOp>,
    xip_regions: &[XipRegion],
) -> (r: LoadResult)
    ensures
        final(ops)@ == old(ops)@ + copy_plan(buffer@.len(), image.program_headers@, xip_regions@).0,
        r == copy_plan(buffer@.len(), image.program_headers@, xip_regions@).1,
{
    let ghost phs = image.program_headers@;
    let n = image.program_headers.len();
    let mut i: usize = 0;
    while i < n
        invariant
            phs == image.program_headers@,
            n == phs.len(),
            i <= n,
            ops@ == old(ops)@ + copy_plan(buffer@.len(), phs.take(i as int), xip_regions@).0,
            copy_plan(buffer@.len(), phs.take(i as int), xip_regions@).1 is Ok,
        decreases n - i,
    {
        proof {
            assert(phs.take(i + 1).drop_last() =~= phs.take(i as int));
        }
        let ghost before = ops@;
        let r = load_segment(buffer, image.program_headers[i], ops, xip_regions);
        if r.is_err() {
            assert(phs.take(i + 1) =~= phs.take(i as int).push(phs[i as int]));
            proof {
                lemma_copy_plan_stops(buffer@.len(), phs, xip_regions@, (i + 1) as nat);
            }
            return r;
        }
        assert(ops@ =~= old(ops)@ + copy_plan(buffer@.len(), phs.take(i + 1), xip_regions@).0);
        i += 1;
    }
    assert(phs.take(n as int) =~= phs);
    Ok(())
}

/// Once one program header is refused, the later ones change nothing.
proof fn lemma_copy_plan_stops(buf_len: nat, phs: Seq<ProgramHeader>, xips: Seq<XipRegion>, k: nat)
    requires
        k <= phs.len(),
        copy_plan(buf_len, phs.take(k as int), xips).1 is Err,
    ensures
        copy_plan(buf_len, phs, xips) == copy_plan(buf_len, phs.take(k as int), xips),
    decreases phs.len() - k,
{
    if k == phs.len() {
        assert(phs.take(k as int) =~= phs);
    } else {
        assert(phs.take(k + 1 as int).drop_last() =~= phs.take(k as int));
        lemma_copy_plan_stops(buf_len, phs, xips, k + 1);
    }
}

/// Records one RISC-V relative relocation.
fn handle_riscv_relative_reloc(ops: &mut Vec<MapperOp>, reloc: &Reloc)
    ensures
        final(ops)@ == old(ops)@.push(
            MapperOp::WriteRelative { vaddr: reloc.r_offset as usize, addend: reloc_addend(*reloc) },
        ),
{
    let addend: i64 = match reloc.r_addend {
        Some(a) => a,
        None => 0,
    };
    ops.push(MapperOp::WriteRelative { vaddr: reloc.r_offset as usize, addend: addend as usize });
}

/// Applies the dynamic relocations in order; other relocation types are skipped.
fn relocate(image: &ElfImage, ops: &mut Vec<MapperOp>)
    ensures
        final(ops)@ == old(ops)@ + reloc_ops(image.dynrelas@),
{
    let n = image.dynrelas.len();
    let mut i: usize = 0;
    while i < n
        invariant
            n == image.dynrelas@.len(),
            i <= n,
            ops@ == old(ops)@ + reloc_ops(image.dynrelas@.take(i as int)),
        decreases n - i,
    {
        proof {
            assert(image.dynrelas@.take(i + 1).drop_last() =~= image.dynrelas@.take(i as int));
        }
        let reloc = image.dynrelas[i];
        if reloc.r_type == R_RISCV_RELATIVE {
            handle_riscv_relative_reloc(ops, &reloc);
        }
        assert(ops@ =~= old(ops)@ + reloc_ops(image.dynrelas@.take(i + 1)));
        i += 1;
    }
    assert(image.dynrelas@.take(n as int) =~= image.dynrelas@);
}

fn load_dyn_elf(buffer: &[u8], image: &ElfImage, mode: MappingModeKind, ops: &mut Vec<MapperOp>) -> (r: LoadResult)
    ensures
        final(ops)@ == old(ops)@ + dyn_plan(buffer@.len(), image@, mode).0,
        r == dyn_plan(buffer@.len(), image@, mode).1,
{
    if mode != MappingModeKind::Allocated {
        assert(old(ops)@ =~= old(ops)@ + Seq::<MapperOp>::empty());
        return Err("ET_DYN requires Allocated mapping mode");
    }
    build_memory_layout(image, ops);
    allocate_memory_for_segments(ops);
    let no_xip: Vec<XipRegion> = Vec::new();
    let r = copy_content_to_memory(buffer, image, ops, no_xip.as_slice());
    assert(no_xip@ =~= Seq::<XipRegion>::empty());
    if r.is_err() {
        return r;
    }
    relocate(image, ops);
    ops.push(MapperOp::RealEntry);
    assert(ops@ =~= old(ops)@ + dyn_plan(buffer@.len(), image@, mode).0);
    Ok(())
}

fn load_exec_elf(
    buffer: &[u8],
    image: &ElfImage,
    mode: MappingModeKind,
    ops: &mut Vec<MapperOp>,
    xip_regions: &[XipRegion],
) -> (r: LoadResult)
    ensures
        final(ops)@ == old(ops)@ + exec_plan(buffer@.len(), image@, mode, xip_regions@).0,
        r == exec_plan(buffer@.len(), image@, mode, xip_regions@).1,
{
    if mode != MappingModeKind::Fixed {
        assert(old(ops)@ =~= old(ops)@ + Seq::<MapperOp>::empty());
        return Err("ET_EXEC requires Fixed mapping mode");
    }
    build_memory_layout(image, ops);
    let r = copy_content_to_memory(buffer, image, ops, xip_regions);
    if r.is_err() {
        assert(ops@ =~= old(ops)@ + exec_plan(buffer@.len(), image@, mode, xip_regions@).0);
        return r;
    }
    ops.push(MapperOp::SynchronizeInstructionStream);
    ops.push(MapperOp::RealEntry);
    assert(ops@ =~= old(ops)@ + exec_plan(buffer@.len(), image@, mode, xip_regions@).0);
    Ok(())
}

/// Plans the load of a parsed image: a position-independent image needs an
/// `Allocated` mapper, an executable one a `Fixed` mapper; no other type loads.
pub fn load_parsed_elf(buffer: &[u8], image: &ElfImage, mode: MappingModeKind) -> (plan: LoadPlan)
    ensures
        (plan.ops@, plan.outcome) == parsed_elf_plan(buffer@.len(), image@, mode),
{
    let mut ops: Vec<MapperOp> = Vec::new();
    let outcome = if image.e_type == ET_DYN {
        load_dyn_elf(buffer, image, mode, &mut ops)
    } else if image.e_type == ET_EXEC {
        let no_xip: Vec<XipRegion> = Vec::new();
        assert(no_xip@ =~= Seq::<XipRegion>::empty());
        load_exec_elf(buffer, image, mode, &mut ops, no_xip.as_slice())
    } else {
        Err("Unsupported ELF type")
    };
    assert(ops@ =~= parsed_elf_plan(buffer@.len(), image@, mode).0);
    LoadPlan { ops, outcome }
}

/// Plans the load of the ELF file in `buffer` for a mapper in `mode`, given
/// what parsing it gave: `None` where the parser refused it.
pub fn load_elf_from(buffer: &[u8], mode: MappingModeKind, parsed: Option<ElfImage>) -> (plan: LoadPlan)
    ensures
        (plan.ops@, plan.outcome) == match parsed {
            None => (Seq::<MapperOp>::empty(), Err::<(), &'static str>("Unable to parse the buffer")),
            Some(image) => parsed_elf_plan(buffer@.len(), image@, mode),
        },
{
    match parsed {
        Some(image) => load_parsed_elf(buffer, &image, mode),
        None => LoadPlan { ops: Vec::new(), outcome: Err("Unable to parse the buffer") },
    }
}

/// Plans the load of the ELF file in `buffer` for a mapper in `mode`, on a
/// 64-bit host (the one on which goblin's parser cannot panic).
pub fn load_elf(buffer: &[u8], mode: MappingModeKind) -> (plan: LoadPlan)
    requires
        usize::BITS == 64,
    ensures
        (plan.ops@, plan.outcome) == elf_plan(buffer@, mode),
        refused_by_header(buffer@) ==> plan.ops@.len() == 0 && plan.outcome == Err::<(), &'static str>(
            "Unable to parse the buffer",
        ),
{
    let plan = load_elf_from(buffer, mode, parse_elf(buffer).ok());
    assert(plan.ops@ =~= elf_plan(buffer@, mode).0);
    plan
}

/// Plans the rest of an XIP load once the image is parsed: the image must be an
/// executable whose entry point lies in an XIP region; its read-only segments
/// inside the XIP regions are left where they are mapped, and the others are
/// copied and zero-filled.
pub fn load_parsed_xip_elf(
    buffer: &[u8],
    image: &ElfImage,
    mode: MappingModeKind,
    xip_regions: &[XipRegion],
) -> (plan: LoadPlan)
    ensures
        (plan.ops@, plan.outcome) == parsed_xip_plan(buffer@.len(), image@, mode, xip_regions@),
{
    if image.e_type != ET_EXEC {
        return LoadPlan { ops: Vec::new(), outcome: Err("XIP load requires an ET_EXEC image") };
    }
    let entry = match usize_from_u64(image.entry) {
        Some(v) => v,
        None => return LoadPlan { ops: Vec::new(), outcome: Err("ELF entry overflow") },
    };
    if !any_contains(xip_regions, entry, entry.saturating_add(1)) {
        return LoadPlan { ops: Vec::new(), outcome: Err("ELF entry is outside mapped XIP regions") };
    }
    let mut ops: Vec<MapperOp> = Vec::new();
    let outcome = load_exec_elf(buffer, image, mode, &mut ops, xip_regions);
    assert(ops@ =~= parsed_xip_plan(buffer@.len(), image@, mode, xip_regions@).0);
    LoadPlan { ops, outcome }
}

/// Plans an XIP load of the executable in `buffer`, given what parsing it gave:
/// `None` where the parser refused it. The mapping mode and the regions are
/// checked first, in that order.
pub fn load_xip_elf_from(
    buffer: &[u8],
    mode: MappingModeKind,
    xip_regions: &[XipRegion],
    parsed: Option<ElfImage>,
) -> (plan: LoadPlan)
    ensures
        (plan.ops@, plan.outcome) == (if mode != MappingModeKind::Fixed {
            (Seq::<MapperOp>::empty(), Err::<(), &'static str>("XIP ET_EXEC requires Fixed mapping mode"))
        } else if xip_regions@.len() == 0 {
            (
                Seq::<MapperOp>::empty(),
                Err::<(), &'static str>("XIP load requires at least one mapped region"),
            )
        } else {
            match parsed {
                None => (Seq::<MapperOp>::empty(), Err::<(), &'static str>("Unable to parse the buffer")),
                Some(image) => parsed_xip_plan(buffer@.len(), image@, mode, xip_regions@),
            }
        }),
{
    if mode != MappingModeKind::Fixed {
        return LoadPlan { ops: Vec::new(), outcome: Err("XIP ET_EXEC requires Fixed mapping mode") };
    }
    if xip_regions.len() == 0 {
        return LoadPlan { ops: Vec::new(), outcome: Err("XIP load requires at least one mapped region") };
    }
    match parsed {
        Some(image) => load_parsed_xip_elf(buffer, &image, mode, xip_regions),
        None => LoadPlan { ops: Vec::new(), outcome: Err("Unable to parse the buffer") },
    }
}

/// Plans the load of an executable whose read-only XIP segments are already
/// installed in flash and mapped at their linked addresses; the other loadable
/// segments are copied and zero-filled through the mapper. For a 64-bit host
/// (the one on which goblin's parser cannot panic); the file is parsed only
/// once the mapping mode and the regions pass.
pub fn load_xip_elf(buffer: &[u8], mode: MappingModeKind, xip_regions: &[XipRegion]) -> (plan: LoadPlan)
    requires
        usize::BITS == 64,
    ensures
        (plan.ops@, plan.outcome) == xip_plan(buffer@, mode, xip_regions@),
        mode == MappingModeKind::Fixed && xip_regions@.len() > 0 && refused_by_header(buffer@)
            ==> plan.ops@.len() == 0 && plan.outcome == Err::<(), &'static str>(
            "Unable to parse the buffer",
        ),
{
    let parsed = if mode == MappingModeKind::Fixed && xip_regions.len() > 0 {
        parse_elf(buffer).ok()
    } else {
        None
    };
    let plan = load_xip_elf_from(buffer, mode, xip_regions, parsed);
    assert(plan.ops@ =~= xip_plan(buffer@, mode, xip_regions@).0);
    plan
}

} // verus!
