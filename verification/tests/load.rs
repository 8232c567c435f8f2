use blueos_loader::{
    copy_content_to_memory, load_elf_from, load_xip_elf_from, next_step, relocation_write, LoadPlan, LoadResult, Step, load_elf, load_parsed_elf, load_parsed_xip_elf, load_xip_elf, relocated_value, ElfImage,
    MapperOp, MappingModeKind, ProgramHeader, Reloc, XipRegion, ET_DYN, ET_EXEC, PF_W, PT_LOAD,
    R_RISCV_RELATIVE,
};

const PT_DYNAMIC: u32 = 2;
const PF_X: u32 = 1;
const PF_R: u32 = 4;

struct Seg {
    p_type: u32,
    flags: u32,
    offset: u64,
    vaddr: u64,
    filesz: u64,
    memsz: u64,
}

fn put(b: &mut [u8], at: usize, bytes: &[u8]) {
    b[at..at + bytes.len()].copy_from_slice(bytes);
}

/// A little-endian 64-bit RISC-V ELF file of `len` bytes with the given program headers.
fn elf64(e_type: u16, entry: u64, segs: &[Seg], len: usize) -> Vec<u8> {
    let mut b = vec![0u8; len.max(64 + 56 * segs.len())];
    put(&mut b, 0, b"\x7fELF");
    b[4] = 2;
    b[5] = 1;
    b[6] = 1;
    put(&mut b, 16, &e_type.to_le_bytes());
    put(&mut b, 18, &0xf3u16.to_le_bytes());
    put(&mut b, 20, &1u32.to_le_bytes());
    put(&mut b, 24, &entry.to_le_bytes());
    put(&mut b, 32, &64u64.to_le_bytes());
    put(&mut b, 52, &64u16.to_le_bytes());
    put(&mut b, 54, &56u16.to_le_bytes());
    put(&mut b, 56, &(segs.len() as u16).to_le_bytes());
    put(&mut b, 58, &64u16.to_le_bytes());
    for (i, s) in segs.iter().enumerate() {
        let at = 64 + 56 * i;
        put(&mut b, at, &s.p_type.to_le_bytes());
        put(&mut b, at + 4, &s.flags.to_le_bytes());
        put(&mut b, at + 8, &s.offset.to_le_bytes());
        put(&mut b, at + 16, &s.vaddr.to_le_bytes());
        put(&mut b, at + 24, &s.vaddr.to_le_bytes());
        put(&mut b, at + 32, &s.filesz.to_le_bytes());
        put(&mut b, at + 40, &s.memsz.to_le_bytes());
        put(&mut b, at + 48, &0x1000u64.to_le_bytes());
    }
    b
}

fn load(flags: u32, offset: u64, vaddr: u64, filesz: u64, memsz: u64) -> Seg {
    Seg { p_type: PT_LOAD, flags, offset, vaddr, filesz, memsz }
}

/// An executable with a text segment and a data segment that is partly zero-filled.
fn exec_image_file() -> Vec<u8> {
    elf64(
        ET_EXEC,
        0x10000,
        &[
            load(PF_R | PF_X, 0x1000, 0x10000, 0x100, 0x100),
            load(PF_R | PF_W, 0x1100, 0x20000, 0x10, 0x40),
        ],
        0x1200,
    )
}

const IROM: (usize, usize) = (0x4200_0000, 0x4202_0000);
const DROM: (usize, usize) = (0x3c00_0000, 0x3c02_0000);

fn xip_regions() -> Vec<XipRegion> {
    vec![XipRegion::new(IROM.0, IROM.1), XipRegion::new(DROM.0, DROM.1)]
}

/// An executable whose code and read-only data run from flash and whose data is copied.
fn xip_image_file() -> Vec<u8> {
    elf64(
        ET_EXEC,
        IROM.0 as u64,
        &[
            load(PF_R | PF_X, 0x1000, IROM.0 as u64, 0x100, 0x100),
            load(PF_R, 0x1100, DROM.0 as u64, 0x80, 0x80),
            load(PF_R | PF_W, 0x1180, 0x3fc8_0000, 0x20, 0x80),
        ],
        0x1200,
    )
}

fn image(e_type: u16, entry: u64, phs: Vec<ProgramHeader>) -> ElfImage {
    ElfImage { e_type, entry, program_headers: phs, dynrelas: Vec::new() }
}

fn ph(p_flags: u32, p_offset: u64, p_vaddr: u64, p_filesz: u64, p_memsz: u64) -> ProgramHeader {
    ProgramHeader { p_type: PT_LOAD, p_flags, p_offset, p_vaddr, p_filesz, p_memsz }
}

#[test]
fn test_load_elf_and_run() {
    let buf = exec_image_file();
    let plan = load_elf(&buf, MappingModeKind::Fixed);
    assert!(plan.outcome.is_ok());
    assert_eq!(
        plan.ops,
        vec![
            MapperOp::UpdateStart(0x10000),
            MapperOp::UpdateEnd(0x10100),
            MapperOp::UpdateStart(0x20000),
            MapperOp::UpdateEnd(0x20040),
            MapperOp::SetEntry(0x10000),
            MapperOp::WriteSlice { addr: 0x10000, file_start: 0x1000, file_end: 0x1100 },
            MapperOp::WriteZeroes { addr: 0x10100, len: 0 },
            MapperOp::WriteSlice { addr: 0x20000, file_start: 0x1100, file_end: 0x1110 },
            MapperOp::WriteZeroes { addr: 0x20010, len: 0x30 },
            MapperOp::SynchronizeInstructionStream,
            MapperOp::RealEntry,
        ]
    );
}

#[test]
fn test_flash_load_uselibrs_elf_and_run_from_irom() {
    let buf = xip_image_file();
    let regions = xip_regions();
    let plan = load_xip_elf(&buf, MappingModeKind::Fixed, &regions);
    assert!(plan.outcome.is_ok());
    assert_eq!(
        plan.ops,
        vec![
            MapperOp::UpdateStart(IROM.0),
            MapperOp::UpdateEnd(IROM.0 + 0x100),
            MapperOp::UpdateStart(DROM.0),
            MapperOp::UpdateEnd(DROM.0 + 0x80),
            MapperOp::UpdateStart(0x3fc8_0000),
            MapperOp::UpdateEnd(0x3fc8_0080),
            MapperOp::SetEntry(IROM.0),
            MapperOp::WriteSlice { addr: 0x3fc8_0000, file_start: 0x1180, file_end: 0x11a0 },
            MapperOp::WriteZeroes { addr: 0x3fc8_0020, len: 0x60 },
            MapperOp::SynchronizeInstructionStream,
            MapperOp::RealEntry,
        ]
    );
}

#[test]
fn test_seek_and_parse_elf() {}

#[test]
fn test_invalid_magic() {
    let mut buf = exec_image_file();
    buf[1] = b'X';
    let plan = load_elf(buf.as_slice(), MappingModeKind::Fixed);
    assert!(plan.outcome.is_err());
    assert_eq!(plan.outcome, Err("Unable to parse the buffer"));
    assert!(plan.ops.is_empty());
}

#[test]
fn test_invalid_segment_size() {
    let buf = elf64(ET_EXEC, 0x10000, &[load(PF_R | PF_X, 0x1000, 0x10000, 0x200, 0x100)], 0x1200);
    let plan = load_elf(buf.as_slice(), MappingModeKind::Fixed);
    assert!(plan.outcome.is_err());
    assert_eq!(plan.outcome, Err("ELF segment file size exceeds memory size"));
    assert!(!plan.ops.contains(&MapperOp::RealEntry));
}

#[test]
fn test_exec_rejects_allocated_mapper() {
    let buf = exec_image_file();
    let plan = load_elf(&buf, MappingModeKind::Allocated);
    assert!(plan.outcome.is_err());
    assert_eq!(plan.outcome, Err("ET_EXEC requires Fixed mapping mode"));
    assert!(plan.ops.is_empty());
}

/// A position-independent image whose only segment covers the whole file and
/// whose dynamic section lists two relocations, one of them RISC-V relative.
fn dyn_image_file() -> Vec<u8> {
    let mut b = elf64(
        ET_DYN,
        0x100,
        &[
            load(PF_R | PF_W | PF_X, 0, 0, 0x300, 0x400),
            Seg { p_type: PT_DYNAMIC, flags: PF_R, offset: 0x200, vaddr: 0x200, filesz: 64, memsz: 64 },
        ],
        0x300,
    );
    for (i, (tag, val)) in [(7u64, 0x280u64), (8, 48), (9, 24), (0, 0)].iter().enumerate() {
        put(&mut b, 0x200 + 16 * i, &tag.to_le_bytes());
        put(&mut b, 0x208 + 16 * i, &val.to_le_bytes());
    }
    for (i, (offset, kind, addend)) in [(0x100u64, 3u64, 0x40i64), (0x108, 2, 5)].iter().enumerate() {
        put(&mut b, 0x280 + 24 * i, &offset.to_le_bytes());
        put(&mut b, 0x288 + 24 * i, &kind.to_le_bytes());
        put(&mut b, 0x290 + 24 * i, &addend.to_le_bytes());
    }
    b
}

#[test]
fn dyn_image_is_allocated_copied_and_relocated() {
    let buf = dyn_image_file();
    let plan = load_elf(&buf, MappingModeKind::Allocated);
    assert_eq!(plan.outcome, Ok(()));
    assert_eq!(
        plan.ops,
        vec![
            MapperOp::UpdateStart(0),
            MapperOp::UpdateEnd(0x400),
            MapperOp::SetEntry(0x100),
            MapperOp::AllocateMemory,
            MapperOp::WriteSlice { addr: 0, file_start: 0, file_end: 0x300 },
            MapperOp::WriteZeroes { addr: 0x300, len: 0x100 },
            MapperOp::WriteRelative { vaddr: 0x100, addend: 0x40 },
            MapperOp::RealEntry,
        ]
    );
}

#[test]
fn dyn_image_rejects_fixed_mapper() {
    let buf = dyn_image_file();
    let plan = load_elf(&buf, MappingModeKind::Fixed);
    assert_eq!(plan.outcome, Err("ET_DYN requires Allocated mapping mode"));
    assert!(plan.ops.is_empty());
}

#[test]
fn relocation_without_addend_adds_nothing() {
    let mut img = image(ET_DYN, 0, vec![]);
    img.dynrelas = vec![
        Reloc { r_offset: 0x10, r_addend: None, r_type: R_RISCV_RELATIVE },
        Reloc { r_offset: 0x18, r_addend: Some(-8), r_type: R_RISCV_RELATIVE },
        Reloc { r_offset: 0x20, r_addend: Some(1), r_type: 1 },
    ];
    let plan = load_parsed_elf(&[], &img, MappingModeKind::Allocated);
    assert_eq!(plan.outcome, Ok(()));
    assert_eq!(
        plan.ops,
        vec![
            MapperOp::SetEntry(0),
            MapperOp::AllocateMemory,
            MapperOp::WriteRelative { vaddr: 0x10, addend: 0 },
            MapperOp::WriteRelative { vaddr: 0x18, addend: (-8i64) as usize },
            MapperOp::RealEntry,
        ]
    );
}

#[test]
fn relocated_value_adds_and_wraps() {
    assert_eq!(relocated_value(0x8000_0000, 0x40), 0x8000_0040);
    assert_eq!(relocated_value(0x8000_0000, (-16i64) as usize), 0x7fff_fff0);
    assert_eq!(relocated_value(usize::MAX, 2), 1);
}

#[test]
fn unsupported_type_is_refused() {
    let buf = elf64(1, 0, &[], 0x100);
    let plan = load_elf(&buf, MappingModeKind::Fixed);
    assert_eq!(plan.outcome, Err("Unsupported ELF type"));
    assert!(plan.ops.is_empty());
}

#[test]
fn short_or_unknown_class_buffers_do_not_parse() {
    let plan = load_elf(b"\x7fELF", MappingModeKind::Fixed);
    assert_eq!(plan.outcome, Err("Unable to parse the buffer"));
    let mut buf = exec_image_file();
    buf[4] = 3;
    let plan = load_elf(&buf, MappingModeKind::Fixed);
    assert_eq!(plan.outcome, Err("Unable to parse the buffer"));
}

#[test]
fn segment_errors_are_named() {
    let cases: Vec<(ProgramHeader, &str)> = vec![
        (ph(PF_R, 0, u64::MAX - 4, 0, 8), "ELF address overflow"),
        (ph(PF_R, u64::MAX - 1, 0x1000, 4, 8), "ELF file offset overflow"),
        (ph(PF_R, 0x10, 0x1000, 0x20, 0x20), "Invalid indices to the buffer"),
        (ph(PF_R, 0, 0x1000, 0x20, 0x10), "ELF segment file size exceeds memory size"),
    ];
    for (p, msg) in cases {
        let plan = load_parsed_elf(&[0u8; 0x18], &image(ET_EXEC, 0, vec![p]), MappingModeKind::Fixed);
        assert_eq!(plan.outcome, Err(msg));
        assert_eq!(plan.ops.last(), Some(&MapperOp::SetEntry(0)));
    }
}

#[test]
fn later_segments_are_not_touched_after_a_refused_one() {
    let phs = vec![ph(PF_R, 0, 0x1000, 4, 8), ph(PF_R, 0, 0x2000, 9, 8), ph(PF_R, 0, 0x3000, 4, 4)];
    let plan = load_parsed_elf(&[0u8; 16], &image(ET_EXEC, 0x1000, phs), MappingModeKind::Fixed);
    assert_eq!(plan.outcome, Err("ELF segment file size exceeds memory size"));
    assert_eq!(
        plan.ops[6..].to_vec(),
        vec![
            MapperOp::SetEntry(0x1000),
            MapperOp::WriteSlice { addr: 0x1000, file_start: 0, file_end: 4 },
            MapperOp::WriteZeroes { addr: 0x1004, len: 4 },
        ]
    );
}

#[test]
fn non_load_segments_are_skipped() {
    let mut p = ph(PF_R | PF_W, 0, 0x1000, 0x100, 0x10);
    p.p_type = 4;
    let plan = load_parsed_elf(&[], &image(ET_EXEC, 0x1000, vec![p]), MappingModeKind::Fixed);
    assert_eq!(plan.outcome, Ok(()));
    assert_eq!(
        plan.ops,
        vec![MapperOp::SetEntry(0x1000), MapperOp::SynchronizeInstructionStream, MapperOp::RealEntry]
    );
}

#[test]
fn layout_end_wraps_around() {
    let p = ph(PF_R, 0, u64::MAX - 4, 0, 8);
    let plan = load_parsed_elf(&[], &image(ET_EXEC, 0, vec![p]), MappingModeKind::Fixed);
    assert_eq!(plan.ops[1], MapperOp::UpdateEnd(3));
}

#[test]
fn xip_refusals_are_named() {
    let buf = xip_image_file();
    let regions = xip_regions();
    let plan = load_xip_elf(&buf, MappingModeKind::Allocated, &regions);
    assert_eq!(plan.outcome, Err("XIP ET_EXEC requires Fixed mapping mode"));
    let plan = load_xip_elf(&buf, MappingModeKind::Fixed, &[]);
    assert_eq!(plan.outcome, Err("XIP load requires at least one mapped region"));
    let plan = load_xip_elf(b"not an elf file", MappingModeKind::Fixed, &regions);
    assert_eq!(plan.outcome, Err("Unable to parse the buffer"));
    let plan = load_xip_elf(&dyn_image_file(), MappingModeKind::Fixed, &regions);
    assert_eq!(plan.outcome, Err("XIP load requires an ET_EXEC image"));
    let plan = load_xip_elf(&exec_image_file(), MappingModeKind::Fixed, &regions);
    assert_eq!(plan.outcome, Err("ELF entry is outside mapped XIP regions"));
    assert!(plan.ops.is_empty());
}

#[test]
fn writable_segment_cannot_execute_in_place() {
    let phs = vec![ph(PF_R | PF_W | PF_X, 0, IROM.0 as u64, 0x10, 0x10)];
    let plan = load_parsed_xip_elf(&[0u8; 0x10], &image(ET_EXEC, IROM.0 as u64, phs), MappingModeKind::Fixed, &xip_regions());
    assert_eq!(plan.outcome, Err("Writable ELF segment cannot execute in place"));
    assert!(!plan.ops.iter().any(|op| matches!(op, MapperOp::WriteSlice { .. } | MapperOp::WriteZeroes { .. })));
}

#[test]
fn segment_across_an_xip_boundary_is_refused() {
    let phs = vec![ph(PF_R, 0, IROM.1 as u64 - 8, 0x10, 0x10)];
    let plan = load_parsed_xip_elf(&[0u8; 0x10], &image(ET_EXEC, IROM.0 as u64, phs), MappingModeKind::Fixed, &xip_regions());
    assert_eq!(plan.outcome, Err("ELF segment crosses an XIP region boundary"));
}

#[test]
fn entry_at_the_last_xip_byte_is_accepted() {
    let plan = load_parsed_xip_elf(&[], &image(ET_EXEC, IROM.1 as u64 - 1, vec![]), MappingModeKind::Fixed, &xip_regions());
    assert_eq!(plan.outcome, Ok(()));
    let plan = load_parsed_xip_elf(&[], &image(ET_EXEC, IROM.1 as u64, vec![]), MappingModeKind::Fixed, &xip_regions());
    assert_eq!(plan.outcome, Err("ELF entry is outside mapped XIP regions"));
}

#[test]
fn xip_load_never_writes_an_xip_region() {
    let buf = xip_image_file();
    let regions = xip_regions();
    let plan = load_xip_elf(&buf, MappingModeKind::Fixed, &regions);
    for op in &plan.ops {
        let range = match *op {
            MapperOp::WriteSlice { addr, file_start, file_end } => Some((addr, addr + file_end - file_start)),
            MapperOp::WriteZeroes { addr, len } => Some((addr, addr + len)),
            MapperOp::WriteRelative { .. } => panic!("an XIP load writes no relocation"),
            _ => None,
        };
        if let Some((s, e)) = range {
            assert!(regions.iter().all(|r| !r.intersects(s, e)));
        }
    }
}

#[test]
fn refused_loads_never_report_the_entry() {
    let bad = elf64(ET_EXEC, 0x10000, &[load(PF_R, 0x1000, 0x10000, 0x300, 0x100)], 0x1200);
    for plan in [
        load_elf(&bad, MappingModeKind::Fixed),
        load_elf(&exec_image_file(), MappingModeKind::Allocated),
        load_xip_elf(&exec_image_file(), MappingModeKind::Fixed, &xip_regions()),
    ] {
        assert!(plan.outcome.is_err());
        assert!(!plan.ops.contains(&MapperOp::RealEntry));
    }
    let plan = load_elf(&exec_image_file(), MappingModeKind::Fixed);
    assert_eq!(plan.ops.last(), Some(&MapperOp::RealEntry));
}

#[test]
fn executables_never_allocate_and_dyn_images_allocate_first() {
    let plan = load_elf(&exec_image_file(), MappingModeKind::Fixed);
    assert!(!plan.ops.iter().any(|op| matches!(op, MapperOp::AllocateMemory | MapperOp::WriteRelative { .. })));
    let plan = load_elf(&dyn_image_file(), MappingModeKind::Allocated);
    let alloc = plan.ops.iter().position(|op| *op == MapperOp::AllocateMemory).unwrap();
    let first_write = plan
        .ops
        .iter()
        .position(|op| matches!(op, MapperOp::WriteSlice { .. } | MapperOp::WriteZeroes { .. } | MapperOp::WriteRelative { .. }))
        .unwrap();
    assert!(alloc < first_write);
}

#[test]
fn elf_numbers_match_goblin() {
    assert_eq!(ET_EXEC, goblin::elf::header::ET_EXEC);
    assert_eq!(ET_DYN, goblin::elf::header::ET_DYN);
    assert_eq!(PT_LOAD, goblin::elf::program_header::PT_LOAD);
    assert_eq!(PF_W, goblin::elf::program_header::PF_W);
    assert_eq!(R_RISCV_RELATIVE, goblin::elf::reloc::R_RISCV_RELATIVE);
}

/// Runs `plan` with `next_step`, answering each call with `answer`; gives the
/// calls made and the outcome.
fn run(plan: &LoadPlan, answer: impl Fn(&MapperOp) -> LoadResult) -> (Vec<MapperOp>, LoadResult) {
    let mut made = Vec::new();
    let mut done = 0usize;
    let mut last: LoadResult = Ok(());
    loop {
        match next_step(plan, done, last) {
            Step::Finish(outcome) => return (made, outcome),
            Step::Call(op) => {
                last = answer(&op);
                made.push(op);
                done += 1;
            }
        }
    }
}

#[test]
fn all_calls_succeeding_end_with_the_plan_outcome() {
    let plan = load_elf(&exec_image_file(), MappingModeKind::Fixed);
    let (made, outcome) = run(&plan, |_| Ok(()));
    assert_eq!(made, plan.ops);
    assert_eq!(outcome, Ok(()));
    let bad = elf64(ET_EXEC, 0x10000, &[load(PF_R, 0x1000, 0x10000, 0x300, 0x100)], 0x1200);
    let plan = load_elf(&bad, MappingModeKind::Fixed);
    let (made, outcome) = run(&plan, |_| Ok(()));
    assert_eq!(made, plan.ops);
    assert_eq!(outcome, Err("ELF segment file size exceeds memory size"));
}

#[test]
fn next_step_reads_the_plan() {
    let plan = load_elf(&exec_image_file(), MappingModeKind::Fixed);
    assert!(matches!(next_step(&plan, 0, Ok(())), Step::Call(MapperOp::UpdateStart(0x10000))));
    assert!(matches!(next_step(&plan, 4, Ok(())), Step::Call(MapperOp::SetEntry(0x10000))));
    assert!(matches!(next_step(&plan, plan.ops.len(), Ok(())), Step::Finish(Ok(()))));
    assert!(matches!(next_step(&plan, 3, Err("refused")), Step::Finish(Err("refused"))));
}

/// The entry point lies in no segment: the plan reports it to the mapper,
/// whose `real_entry` decides, and its refusal is the load's outcome.
#[test]
fn test_invalid_entry() {
    let buf = elf64(ET_EXEC, 0x90000, &[load(PF_R | PF_X, 0x1000, 0x10000, 0x100, 0x100)], 0x1200);
    let plan = load_elf(buf.as_slice(), MappingModeKind::Fixed);
    assert_eq!(plan.outcome, Ok(()));
    assert!(plan.ops.contains(&MapperOp::SetEntry(0x90000)));
    assert_eq!(plan.ops.last(), Some(&MapperOp::RealEntry));
    let (made, outcome) = run(&plan, |op| {
        if *op == MapperOp::RealEntry { Err("entry outside the loaded image") } else { Ok(()) }
    });
    assert!(outcome.is_err());
    assert_eq!(made, plan.ops);
}

/// The mapper learns the whole layout before the first write, and a write it
/// refuses ends the load: nothing after it is written.
#[test]
fn test_exec_rejects_out_of_range_without_writing() {
    let buf = exec_image_file();
    let plan = load_elf(&buf, MappingModeKind::Fixed);
    let first_write = plan.ops.iter().position(|op| matches!(op, MapperOp::WriteSlice { .. })).unwrap();
    assert!(plan.ops[..first_write]
        .iter()
        .all(|op| matches!(op, MapperOp::UpdateStart(_) | MapperOp::UpdateEnd(_) | MapperOp::SetEntry(_))));
    let (made, outcome) = run(&plan, |op| match op {
        MapperOp::WriteSlice { .. } => Err("address out of the mapped regions"),
        _ => Ok(()),
    });
    assert!(outcome.is_err());
    assert_eq!(made, plan.ops[..=first_write].to_vec());
}

/// After every segment is written the plan asks for the entry point; a mapper
/// whose region cannot execute refuses there, and that is the load's outcome.
#[test]
fn test_exec_rejects_non_executable_region() {
    let buf = exec_image_file();
    let plan = load_elf(&buf, MappingModeKind::Fixed);
    let n = plan.ops.len();
    assert_eq!(plan.ops[n - 2..].to_vec(), vec![MapperOp::SynchronizeInstructionStream, MapperOp::RealEntry]);
    let (_, outcome) = run(&plan, |op| {
        if *op == MapperOp::RealEntry { Err("entry is not executable") } else { Ok(()) }
    });
    assert_eq!(outcome, Err("entry is not executable"));
}

#[test]
fn untouched_xip_regions_change_nothing() {
    let buf = [0u8; 0x40];
    let img = image(ET_EXEC, 0x1000, vec![ph(PF_R | PF_W, 0, 0x1000, 0x20, 0x40), ph(PF_R, 0x20, 0x2000, 0x20, 0x20)]);
    let far = vec![XipRegion::new(0x8000, 0x9000), XipRegion::new(0x2020, 0x3000)];
    let mut with_regions = Vec::new();
    let r1 = copy_content_to_memory(&buf, &img, &mut with_regions, &far);
    let mut without = Vec::new();
    let r2 = copy_content_to_memory(&buf, &img, &mut without, &[]);
    assert_eq!(r1, r2);
    assert_eq!(with_regions, without);
    assert_eq!(with_regions.len(), 4);
}

#[test]
fn copy_skips_held_segments_and_spares_regions() {
    let buf = [0u8; 0x40];
    let img = image(ET_EXEC, 0x1000, vec![ph(PF_R | PF_X, 0, 0x1000, 0x20, 0x20), ph(PF_R | PF_W, 0x20, 0x2000, 0x10, 0x20)]);
    let regions = vec![XipRegion::new(0x1000, 0x1800)];
    let mut ops = vec![MapperOp::AllocateMemory];
    let r = copy_content_to_memory(&buf, &img, &mut ops, &regions);
    assert_eq!(r, Ok(()));
    assert_eq!(
        ops,
        vec![
            MapperOp::AllocateMemory,
            MapperOp::WriteSlice { addr: 0x2000, file_start: 0x20, file_end: 0x30 },
            MapperOp::WriteZeroes { addr: 0x2010, len: 0x10 },
        ]
    );
}

#[test]
fn relocation_write_needs_the_real_start() {
    assert_eq!(relocation_write(Ok(0x8000_0000), 0x100, 0x40), Ok((0x100, 0x8000_0040)));
    assert_eq!(relocation_write(Ok(usize::MAX), 0x100, 2), Ok((0x100, 1)));
    assert_eq!(relocation_write(Err("no memory allocated"), 0x100, 0x40), Err("no memory allocated"));
}

#[test]
fn parse_result_decides_load_elf_from() {
    let plan = load_elf_from(&[], MappingModeKind::Fixed, None);
    assert_eq!(plan.outcome, Err("Unable to parse the buffer"));
    assert!(plan.ops.is_empty());
    let img = image(ET_EXEC, 0x1000, vec![]);
    let plan = load_elf_from(&[], MappingModeKind::Fixed, Some(img));
    assert_eq!(plan.outcome, Ok(()));
    assert_eq!(plan.ops, vec![MapperOp::SetEntry(0x1000), MapperOp::SynchronizeInstructionStream, MapperOp::RealEntry]);
}

#[test]
fn xip_checks_come_before_the_parse_result() {
    let regions = xip_regions();
    let plan = load_xip_elf_from(&[], MappingModeKind::Allocated, &regions, None);
    assert_eq!(plan.outcome, Err("XIP ET_EXEC requires Fixed mapping mode"));
    let plan = load_xip_elf_from(&[], MappingModeKind::Fixed, &[], None);
    assert_eq!(plan.outcome, Err("XIP load requires at least one mapped region"));
    let plan = load_xip_elf_from(&[], MappingModeKind::Fixed, &regions, None);
    assert_eq!(plan.outcome, Err("Unable to parse the buffer"));
    let img = image(ET_EXEC, IROM.0 as u64, vec![]);
    let plan = load_xip_elf_from(&[], MappingModeKind::Fixed, &regions, Some(img));
    assert_eq!(plan.outcome, Ok(()));
}
