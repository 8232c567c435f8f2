use vstd::prelude::*;

use crate::elf::{goblin_elf_parse, ElfModel, ProgramHeader, ET_DYN, ET_EXEC, PT_LOAD};
use crate::plan::{
    any_holds, any_meets, copy_plan, dyn_plan, elf_plan, exec_plan, is_writable, layout_ops,
    layout_plan, parsed_elf_plan, parsed_xip_plan, reloc_ops, segment_ops, spares_xip, write_range,
    xip_plan, MapperOp, MappingModeKind,
};
use crate::xip::{region_holds, region_meets, XipRegion};

verus! {

/// The calls that load one segment copy or zero-fill and spare every XIP region.
proof fn lemma_segment_ops_spare_xip(buf_len: nat, ph: ProgramHeader, xips: Seq<XipRegion>)
    requires
        segment_ops(buf_len, ph, xips) is Ok,
    ensures
        forall|j: int|
            0 <= j < segment_ops(buf_len, ph, xips)->Ok_0.len() ==> {
                let op = #[trigger] segment_ops(buf_len, ph, xips)->Ok_0[j];
                &&& write_range(op) is Some
                &&& spares_xip(op, xips)
            },
{
    reveal(segment_ops);
    let s = segment_ops(buf_len, ph, xips)->Ok_0;
    if s.len() > 0 {
        let a = ph.p_vaddr as int;
        let m = ph.p_vaddr + ph.p_filesz;
        let b = ph.p_vaddr + ph.p_memsz;
        assert(!any_meets(xips, a, b));
        assert forall|i: int| 0 <= i < xips.len() implies !region_meets(#[trigger] xips[i]@, a, m)
            && !region_meets(xips[i]@, m, b) by {
            assert(!region_meets(xips[i]@, a, b));
        }
        assert(write_range(s[0]) == Some((a, m)));
        assert(write_range(s[1]) == Some((m, b)));
    }
}

/// Every call that copying the segments makes copies or zero-fills a range that
/// meets no XIP region: no byte inside a mapped XIP region is ever written.
pub proof fn law_copy_spares_xip_regions(buf_len: nat, phs: Seq<ProgramHeader>, xips: Seq<XipRegion>)
    ensures
        forall|k: int|
            0 <= k < copy_plan(buf_len, phs, xips).0.len() ==> {
                let op = #[trigger] copy_plan(buf_len, phs, xips).0[k];
                &&& write_range(op) is Some
                &&& spares_xip(op, xips)
            },
    decreases phs.len(),
{
    if phs.len() > 0 {
        law_copy_spares_xip_regions(buf_len, phs.drop_last(), xips);
        let prev = copy_plan(buf_len, phs.drop_last(), xips);
        if prev.1 is Ok {
            if let Ok(s) = segment_ops(buf_len, phs.last(), xips) {
                lemma_segment_ops_spare_xip(buf_len, phs.last(), xips);
                assert forall|k: int| 0 <= k < (prev.0 + s).len() implies {
                    let op = #[trigger] (prev.0 + s)[k];
                    &&& write_range(op) is Some
                    &&& spares_xip(op, xips)
                } by {
                    if k >= prev.0.len() {
                        assert((prev.0 + s)[k] == s[k - prev.0.len()]);
                    }
                }
            }
        }
    }
}

/// The layout calls never write.
proof fn lemma_layout_ops_write_nothing(phs: Seq<ProgramHeader>)
    ensures
        forall|k: int|
            0 <= k < layout_ops(phs).len() ==> (#[trigger] layout_ops(phs)[k] is UpdateStart
                || layout_ops(phs)[k] is UpdateEnd),
    decreases phs.len(),
{
    if phs.len() > 0 {
        lemma_layout_ops_write_nothing(phs.drop_last());
    }
}

/// A region that holds a non-empty range meets it.
pub proof fn law_holding_region_meets(r: XipRegion, start: usize, end: usize)
    requires
        start < end,
        region_holds(r@, start as int, end as int),
    ensures
        region_meets(r@, start as int, end as int),
{
}


/// The copy succeeds exactly when every program header is accepted.
proof fn lemma_copy_plan_ok(buf_len: nat, phs: Seq<ProgramHeader>, xips: Seq<XipRegion>)
    ensures
        copy_plan(buf_len, phs, xips).1 is Ok <==> forall|i: int|
            0 <= i < phs.len() ==> segment_ops(buf_len, #[trigger] phs[i], xips) is Ok,
    decreases phs.len(),
{
    if phs.len() > 0 {
        lemma_copy_plan_ok(buf_len, phs.drop_last(), xips);
        if copy_plan(buf_len, phs, xips).1 is Ok {
            assert forall|i: int| 0 <= i < phs.len() implies segment_ops(
                buf_len,
                #[trigger] phs[i],
                xips,
            ) is Ok by {
                if i < phs.len() - 1 {
                    assert(phs.drop_last()[i] == phs[i]);
                }
            }
        } else {
            if copy_plan(buf_len, phs.drop_last(), xips).1 is Err {
                let i = choose|i: int|
                    0 <= i < phs.drop_last().len() && !(segment_ops(
                        buf_len,
                        #[trigger] phs.drop_last()[i],
                        xips,
                    ) is Ok);
                assert(phs.drop_last()[i] == phs[i]);
            } else {
                assert(segment_ops(buf_len, phs[phs.len() - 1], xips) is Err);
            }
        }
    }
}

/// `part` stands in `ops` from position `k` on.
pub open spec fn stands_at(ops: Seq<MapperOp>, part: Seq<MapperOp>, k: int) -> bool {
    0 <= k && k + part.len() <= ops.len() && ops.subrange(k, k + part.len()) == part
}

/// `part` stands somewhere in `ops`, its calls one after the other.
pub open spec fn stands_in(ops: Seq<MapperOp>, part: Seq<MapperOp>) -> bool {
    exists|k: int| stands_at(ops, part, k)
}

/// When the copy succeeds, the calls of every accepted program header stand in
/// it one after the other.
proof fn lemma_copy_plan_holds_segments(buf_len: nat, phs: Seq<ProgramHeader>, xips: Seq<XipRegion>)
    requires
        copy_plan(buf_len, phs, xips).1 is Ok,
    ensures
        forall|i: int|
            #![trigger phs[i]]
            0 <= i < phs.len() ==> stands_in(
                copy_plan(buf_len, phs, xips).0,
                segment_ops(buf_len, phs[i], xips)->Ok_0,
            ),
    decreases phs.len(),
{
    if phs.len() > 0 {
        let prev = copy_plan(buf_len, phs.drop_last(), xips);
        lemma_copy_plan_holds_segments(buf_len, phs.drop_last(), xips);
        let last = segment_ops(buf_len, phs.last(), xips)->Ok_0;
        let ops = copy_plan(buf_len, phs, xips).0;
        assert(ops == prev.0 + last);
        assert forall|i: int| #![trigger phs[i]] 0 <= i < phs.len() implies stands_in(
            ops,
            segment_ops(buf_len, phs[i], xips)->Ok_0,
        ) by {
            let s = segment_ops(buf_len, phs[i], xips)->Ok_0;
            if i < phs.len() - 1 {
                assert(phs.drop_last()[i] == phs[i]);
                assert(stands_in(prev.0, s));
                let k = choose|k: int| stands_at(prev.0, s, k);
                assert(ops.subrange(k, k + s.len()) =~= prev.0.subrange(k, k + s.len()));
                assert(stands_at(ops, s, k));
            } else {
                let k = prev.0.len() as int;
                assert(ops.subrange(k, k + s.len()) =~= s);
                assert(stands_at(ops, s, k));
            }
        }
    }
}

/// The relocation calls only write relocated words.
proof fn lemma_reloc_ops_relocate_only(rs: Seq<crate::elf::Reloc>)
    ensures
        forall|k: int| 0 <= k < reloc_ops(rs).len() ==> #[trigger] reloc_ops(rs)[k] is WriteRelative,
    decreases rs.len(),
{
    if rs.len() > 0 {
        lemma_reloc_ops_relocate_only(rs.drop_last());
    }
}

/// The two calls that load a segment outside the XIP regions: its file bytes
/// are copied to its address, and the rest of its memory is zero-filled.
pub open spec fn copy_and_zero_fill(ph: ProgramHeader) -> Seq<MapperOp> {
    seq![
        MapperOp::WriteSlice {
            addr: ph.p_vaddr as usize,
            file_start: ph.p_offset as usize,
            file_end: (ph.p_offset + ph.p_filesz) as usize,
        },
        MapperOp::WriteZeroes {
            addr: (ph.p_vaddr + ph.p_filesz) as usize,
            len: (ph.p_memsz - ph.p_filesz) as usize,
        },
    ]
}

/// The segment's file part is no larger than its memory, its memory lies in
/// the address space, and its file bytes lie in a file of `buf_len` bytes.
pub open spec fn segment_in_bounds(ph: ProgramHeader, buf_len: nat) -> bool {
    &&& ph.p_filesz <= ph.p_memsz
    &&& ph.p_vaddr + ph.p_memsz <= usize::MAX
    &&& ph.p_offset + ph.p_filesz <= buf_len
}

/// What an accepted loadable segment asks of the mapper.
proof fn lemma_segment_accepted(buf_len: nat, ph: ProgramHeader, xips: Seq<XipRegion>)
    requires
        segment_ops(buf_len, ph, xips) is Ok,
        ph.p_type == PT_LOAD,
    ensures
        ph.p_filesz <= ph.p_memsz,
        ph.p_vaddr + ph.p_memsz <= usize::MAX,
        any_holds(xips, ph.p_vaddr as int, ph.p_vaddr + ph.p_memsz) ==> !is_writable(ph)
            && segment_ops(buf_len, ph, xips)->Ok_0 == Seq::<MapperOp>::empty(),
        !any_holds(xips, ph.p_vaddr as int, ph.p_vaddr + ph.p_memsz) ==> segment_in_bounds(ph, buf_len)
            && segment_ops(buf_len, ph, xips)->Ok_0 == copy_and_zero_fill(ph),
{
    reveal(segment_ops);
}

proof fn lemma_stands_in_concat(a: Seq<MapperOp>, b: Seq<MapperOp>, c: Seq<MapperOp>, part: Seq<MapperOp>)
    requires
        stands_in(b, part),
    ensures
        stands_in(a + b + c, part),
{
    let k = choose|k: int| stands_at(b, part, k);
    assert((a + b + c).subrange(a.len() + k, a.len() + k + part.len()) =~= b.subrange(k, k + part.len()));
    assert(stands_at(a + b + c, part, a.len() + k));
}

/// Every loadable segment of an image that `load_elf` accepts lies in the
/// address space and in the file, and is copied to its address with the rest
/// of its memory zero-filled.
pub proof fn law_accepted_elf_loads_every_segment(buffer: Seq<u8>, mode: MappingModeKind)
    requires
        elf_plan(buffer, mode).1 is Ok,
    ensures
        goblin_elf_parse(buffer) is Some,
        forall|i: int|
            #![trigger goblin_elf_parse(buffer)->Some_0.2[i]]
            0 <= i < goblin_elf_parse(buffer)->Some_0.2.len()
                && goblin_elf_parse(buffer)->Some_0.2[i].p_type == PT_LOAD ==> {
                &&& segment_in_bounds(goblin_elf_parse(buffer)->Some_0.2[i], buffer.len())
                &&& stands_in(
                    elf_plan(buffer, mode).0,
                    copy_and_zero_fill(goblin_elf_parse(buffer)->Some_0.2[i]),
                )
            },
{
    let m = goblin_elf_parse(buffer)->Some_0;
    let no_xip = Seq::<XipRegion>::empty();
    let copy = copy_plan(buffer.len(), m.2, no_xip);
    lemma_copy_plan_ok(buffer.len(), m.2, no_xip);
    lemma_copy_plan_holds_segments(buffer.len(), m.2, no_xip);
    let ops = elf_plan(buffer, mode).0;
    assert forall|i: int|
        #![trigger m.2[i]]
        0 <= i < m.2.len() && m.2[i].p_type == PT_LOAD implies {
        &&& segment_in_bounds(m.2[i], buffer.len())
        &&& stands_in(ops, copy_and_zero_fill(m.2[i]))
    } by {
        lemma_segment_accepted(buffer.len(), m.2[i], no_xip);
        if m.0 == ET_DYN {
            let pre = layout_plan(m).push(MapperOp::AllocateMemory);
            let post = reloc_ops(m.3).push(MapperOp::RealEntry);
            lemma_stands_in_concat(pre, copy.0, post, copy_and_zero_fill(m.2[i]));
        } else {
            let post = seq![MapperOp::SynchronizeInstructionStream, MapperOp::RealEntry];
            lemma_stands_in_concat(layout_plan(m), copy.0, post, copy_and_zero_fill(m.2[i]));
        }
    }
}

/// An executable that `load_xip_elf` accepts has its entry point in an XIP
/// region; each of its loadable segments that an XIP region holds is read-only
/// and left where it is mapped, and each other one lies in the address space
/// and in the file and is copied to its address with the rest of its memory
/// zero-filled.
pub proof fn law_accepted_xip_load(buffer: Seq<u8>, mode: MappingModeKind, xips: Seq<XipRegion>)
    requires
        xip_plan(buffer, mode, xips).1 is Ok,
    ensures
        goblin_elf_parse(buffer) is Some,
        goblin_elf_parse(buffer)->Some_0.0 == ET_EXEC,
        ({
            let entry = goblin_elf_parse(buffer)->Some_0.1;
            entry <= usize::MAX && any_holds(xips, entry as int, (entry as usize).saturating_add(1) as int)
        }),
        forall|i: int|
            #![trigger goblin_elf_parse(buffer)->Some_0.2[i]]
            0 <= i < goblin_elf_parse(buffer)->Some_0.2.len()
                && goblin_elf_parse(buffer)->Some_0.2[i].p_type == PT_LOAD ==> {
                let ph = goblin_elf_parse(buffer)->Some_0.2[i];
                if any_holds(xips, ph.p_vaddr as int, ph.p_vaddr + ph.p_memsz) {
                    ph.p_flags & 2u32 == 0
                } else {
                    &&& segment_in_bounds(ph, buffer.len())
                    &&& stands_in(xip_plan(buffer, mode, xips).0, copy_and_zero_fill(ph))
                }
            },
{
    let m = goblin_elf_parse(buffer)->Some_0;
    let copy = copy_plan(buffer.len(), m.2, xips);
    lemma_copy_plan_ok(buffer.len(), m.2, xips);
    lemma_copy_plan_holds_segments(buffer.len(), m.2, xips);
    let ops = xip_plan(buffer, mode, xips).0;
    assert forall|i: int|
        #![trigger m.2[i]]
        0 <= i < m.2.len() && m.2[i].p_type == PT_LOAD implies {
        let ph = m.2[i];
        if any_holds(xips, ph.p_vaddr as int, ph.p_vaddr + ph.p_memsz) {
            ph.p_flags & 2u32 == 0
        } else {
            &&& segment_in_bounds(ph, buffer.len())
            &&& stands_in(ops, copy_and_zero_fill(ph))
        }
    } by {
        lemma_segment_accepted(buffer.len(), m.2[i], xips);
        if !any_holds(xips, m.2[i].p_vaddr as int, m.2[i].p_vaddr + m.2[i].p_memsz) {
            let post = seq![MapperOp::SynchronizeInstructionStream, MapperOp::RealEntry];
            lemma_stands_in_concat(layout_plan(m), copy.0, post, copy_and_zero_fill(m.2[i]));
        }
    }
}

/// No call of a load by `load_xip_elf`, accepted or refused, writes a byte of
/// an XIP region, and none writes a relocation.
pub proof fn law_xip_regions_are_never_written(
    buffer: Seq<u8>,
    mode: MappingModeKind,
    xips: Seq<XipRegion>,
)
    ensures
        forall|k: int|
            0 <= k < xip_plan(buffer, mode, xips).0.len() ==> spares_xip(
                #[trigger] xip_plan(buffer, mode, xips).0[k],
                xips,
            ),
{
    let ops = xip_plan(buffer, mode, xips).0;
    if ops.len() > 0 {
        let m = goblin_elf_parse(buffer)->Some_0;
        let copy = copy_plan(buffer.len(), m.2, xips);
        law_copy_spares_xip_regions(buffer.len(), m.2, xips);
        lemma_layout_ops_write_nothing(m.2);
        let lay = layout_plan(m);
        assert forall|k: int| 0 <= k < ops.len() implies spares_xip(#[trigger] ops[k], xips) by {
            if k < lay.len() {
                assert(ops[k] == lay[k]);
                if k < layout_ops(m.2).len() {
                    assert(lay[k] == layout_ops(m.2)[k]);
                }
            } else if k < lay.len() + copy.0.len() {
                assert(ops[k] == copy.0[k - lay.len()]);
            }
        }
    }
}


/// The load ends with the entry point being reported exactly when the loader
/// accepts it, and reports it nowhere else.
pub open spec fn reports_entry_on_acceptance(p: (Seq<MapperOp>, crate::plan::LoadResult)) -> bool {
    &&& (p.1 is Ok <==> (p.0.len() > 0 && p.0.last() == MapperOp::RealEntry))
    &&& forall|k: int| 0 <= k < p.0.len() - 1 ==> #[trigger] p.0[k] != MapperOp::RealEntry
}

/// The calls made before the copy are the layout calls, then the allocation
/// for a position-independent image; none of them reports the entry point.
proof fn lemma_plan_parts(m: ElfModel, buf_len: nat, xips: Seq<XipRegion>)
    ensures
        forall|k: int|
            0 <= k < layout_plan(m).len() ==> #[trigger] layout_plan(m)[k] is UpdateStart
                || layout_plan(m)[k] is UpdateEnd || layout_plan(m)[k] is SetEntry,
        forall|k: int|
            0 <= k < copy_plan(buf_len, m.2, xips).0.len() ==> write_range(
                #[trigger] copy_plan(buf_len, m.2, xips).0[k],
            ) is Some,
        forall|k: int| 0 <= k < reloc_ops(m.3).len() ==> #[trigger] reloc_ops(m.3)[k] is WriteRelative,
{
    lemma_layout_ops_write_nothing(m.2);
    law_copy_spares_xip_regions(buf_len, m.2, xips);
    lemma_reloc_ops_relocate_only(m.3);
    assert forall|k: int| 0 <= k < layout_plan(m).len() implies #[trigger] layout_plan(m)[k] is UpdateStart
        || layout_plan(m)[k] is UpdateEnd || layout_plan(m)[k] is SetEntry by {
        if k < layout_ops(m.2).len() {
            assert(layout_plan(m)[k] == layout_ops(m.2)[k]);
        }
    }
}

proof fn lemma_exec_plan_reports_entry_on_acceptance(
    buf_len: nat,
    m: ElfModel,
    mode: MappingModeKind,
    xips: Seq<XipRegion>,
)
    ensures
        reports_entry_on_acceptance(exec_plan(buf_len, m, mode, xips)),
{
    lemma_plan_parts(m, buf_len, xips);
    let p = exec_plan(buf_len, m, mode, xips);
    let lay = layout_plan(m);
    let copy = copy_plan(buf_len, m.2, xips).0;
    if p.0.len() > 0 {
        assert forall|k: int| 0 <= k < p.0.len() - 1 implies #[trigger] p.0[k] != MapperOp::RealEntry by {
            if k < lay.len() {
                assert(p.0[k] == lay[k]);
            } else if k < lay.len() + copy.len() {
                assert(p.0[k] == copy[k - lay.len()]);
            }
        }
        if p.1 is Err {
            let k = p.0.len() - 1;
            if k < lay.len() {
                assert(p.0[k] == lay[k]);
            } else {
                assert(p.0[k] == copy[k - lay.len()]);
            }
        }
    }
}

proof fn lemma_dyn_plan_reports_entry_on_acceptance(buf_len: nat, m: ElfModel, mode: MappingModeKind)
    ensures
        reports_entry_on_acceptance(dyn_plan(buf_len, m, mode)),
{
    let no_xip = Seq::<XipRegion>::empty();
    lemma_plan_parts(m, buf_len, no_xip);
    let p = dyn_plan(buf_len, m, mode);
    let pre = layout_plan(m).push(MapperOp::AllocateMemory);
    let copy = copy_plan(buf_len, m.2, no_xip).0;
    let rel = reloc_ops(m.3);
    if p.0.len() > 0 {
        assert forall|k: int| 0 <= k < p.0.len() - 1 implies #[trigger] p.0[k] != MapperOp::RealEntry by {
            if k < pre.len() {
                assert(p.0[k] == pre[k]);
                if k < layout_plan(m).len() {
                    assert(pre[k] == layout_plan(m)[k]);
                }
            } else if k < pre.len() + copy.len() {
                assert(p.0[k] == copy[k - pre.len()]);
            } else {
                assert(p.0[k] == rel[k - pre.len() - copy.len()]);
            }
        }
        if p.1 is Err {
            let k = p.0.len() - 1;
            if k < pre.len() {
                assert(p.0[k] == pre[k]);
                if k < layout_plan(m).len() {
                    assert(pre[k] == layout_plan(m)[k]);
                }
            } else {
                assert(p.0[k] == copy[k - pre.len()]);
            }
        }
    }
}

/// `load_elf` and `load_xip_elf` end a load with the entry point being reported
/// exactly when they accept it; a load they refuse never reports one.
pub proof fn law_entry_reported_only_on_acceptance(
    buffer: Seq<u8>,
    mode: MappingModeKind,
    xips: Seq<XipRegion>,
)
    ensures
        reports_entry_on_acceptance(elf_plan(buffer, mode)),
        reports_entry_on_acceptance(xip_plan(buffer, mode, xips)),
{
    if let Some(m) = goblin_elf_parse(buffer) {
        lemma_dyn_plan_reports_entry_on_acceptance(buffer.len(), m, mode);
        lemma_exec_plan_reports_entry_on_acceptance(buffer.len(), m, mode, Seq::empty());
        lemma_exec_plan_reports_entry_on_acceptance(buffer.len(), m, mode, xips);
    }
}

/// Loading an executable never allocates memory and never writes a relocation.
pub proof fn law_executables_are_not_relocated(buffer: Seq<u8>, mode: MappingModeKind)
    requires
        goblin_elf_parse(buffer) matches Some(m) && m.0 == ET_EXEC,
    ensures
        forall|k: int|
            0 <= k < elf_plan(buffer, mode).0.len() ==> !(#[trigger] elf_plan(buffer, mode).0[k] is AllocateMemory)
                && !(elf_plan(buffer, mode).0[k] is WriteRelative),
{
    let m = goblin_elf_parse(buffer)->Some_0;
    let no_xip = Seq::<XipRegion>::empty();
    lemma_plan_parts(m, buffer.len(), no_xip);
    let ops = elf_plan(buffer, mode).0;
    let lay = layout_plan(m);
    let copy = copy_plan(buffer.len(), m.2, no_xip).0;
    assert forall|k: int| 0 <= k < ops.len() implies !(#[trigger] ops[k] is AllocateMemory) && !(
    ops[k] is WriteRelative) by {
        if k < lay.len() {
            assert(ops[k] == lay[k]);
        } else if k < lay.len() + copy.len() {
            assert(ops[k] == copy[k - lay.len()]);
        }
    }
}

/// Loading a position-independent image allocates its memory right after the
/// layout calls, before it copies, zero-fills or relocates anything.
pub proof fn law_dyn_allocates_before_writing(buffer: Seq<u8>, mode: MappingModeKind)
    requires
        goblin_elf_parse(buffer) matches Some(m) && m.0 == ET_DYN,
    ensures
        ({
            let ops = elf_plan(buffer, mode).0;
            let a = layout_plan(goblin_elf_parse(buffer)->Some_0).len() as int;
            &&& ops.len() > 0 ==> a < ops.len() && ops[a] == MapperOp::AllocateMemory
            &&& forall|k: int|
                0 <= k < ops.len() && (write_range(#[trigger] ops[k]) is Some || ops[k] is WriteRelative)
                    ==> a < k
        }),
{
    let m = goblin_elf_parse(buffer)->Some_0;
    let no_xip = Seq::<XipRegion>::empty();
    lemma_plan_parts(m, buffer.len(), no_xip);
    let ops = elf_plan(buffer, mode).0;
    let pre = layout_plan(m).push(MapperOp::AllocateMemory);
    assert forall|k: int|
        0 <= k < ops.len() && (write_range(#[trigger] ops[k]) is Some || ops[k] is WriteRelative)
            implies layout_plan(m).len() < k by {
        if k <= layout_plan(m).len() {
            assert(ops[k] == pre[k]);
            if k < layout_plan(m).len() {
                assert(pre[k] == layout_plan(m)[k]);
            }
        }
    }
    if ops.len() > 0 {
        assert(ops[layout_plan(m).len() as int] == pre[layout_plan(m).len() as int]);
    }
}


/// Neither holding nor meeting the segment, the XIP regions leave its load as
/// it is without them.
proof fn lemma_untouched_xip_regions_segment(buf_len: nat, ph: ProgramHeader, xips: Seq<XipRegion>)
    requires
        ph.p_type == PT_LOAD && ph.p_vaddr + ph.p_memsz <= usize::MAX ==> !any_holds(
            xips,
            ph.p_vaddr as int,
            ph.p_vaddr + ph.p_memsz,
        ) && !any_meets(xips, ph.p_vaddr as int, ph.p_vaddr + ph.p_memsz),
    ensures
        segment_ops(buf_len, ph, xips) == segment_ops(buf_len, ph, Seq::<XipRegion>::empty()),
{
    reveal(segment_ops);
}

/// XIP regions that no loadable segment touches change nothing: copying the
/// segments makes the same calls and ends the same way as with no XIP region.
pub proof fn law_untouched_xip_regions_change_nothing(
    buf_len: nat,
    phs: Seq<ProgramHeader>,
    xips: Seq<XipRegion>,
)
    requires
        forall|i: int|
            #![trigger phs[i]]
            0 <= i < phs.len() && phs[i].p_type == PT_LOAD && phs[i].p_vaddr + phs[i].p_memsz
                <= usize::MAX ==> !any_holds(xips, phs[i].p_vaddr as int, phs[i].p_vaddr + phs[i].p_memsz)
                && !any_meets(xips, phs[i].p_vaddr as int, phs[i].p_vaddr + phs[i].p_memsz),
    ensures
        copy_plan(buf_len, phs, xips) == copy_plan(buf_len, phs, Seq::<XipRegion>::empty()),
    decreases phs.len(),
{
    if phs.len() > 0 {
        assert forall|i: int|
            #![trigger phs.drop_last()[i]]
            0 <= i < phs.drop_last().len() && phs.drop_last()[i].p_type == PT_LOAD
                && phs.drop_last()[i].p_vaddr + phs.drop_last()[i].p_memsz <= usize::MAX implies !any_holds(
            xips,
            phs.drop_last()[i].p_vaddr as int,
            phs.drop_last()[i].p_vaddr + phs.drop_last()[i].p_memsz,
        ) && !any_meets(
            xips,
            phs.drop_last()[i].p_vaddr as int,
            phs.drop_last()[i].p_vaddr + phs.drop_last()[i].p_memsz,
        ) by {
            assert(phs.drop_last()[i] == phs[i]);
        }
        law_untouched_xip_regions_change_nothing(buf_len, phs.drop_last(), xips);
        let last = phs[phs.len() - 1];
        assert(last == phs.last());
        lemma_untouched_xip_regions_segment(buf_len, last, xips);
    }
}


/// The relocation call that applies `r`: the word at `r_offset` receives the
/// image's real start plus the addend (`0` when there is none).
pub open spec fn relative_write(r: crate::elf::Reloc) -> MapperOp {
    MapperOp::WriteRelative {
        vaddr: r.r_offset as usize,
        addend: match r.r_addend {
            Some(a) => a as usize,
            None => 0usize,
        },
    }
}

/// A RISC-V relative relocation (type 3).
pub open spec fn relative_relocation() -> spec_fn(crate::elf::Reloc) -> bool {
    |r: crate::elf::Reloc| r.r_type == 3u32
}

/// A relocation write.
pub open spec fn relocation_call() -> spec_fn(MapperOp) -> bool {
    |op: MapperOp| op is WriteRelative
}

/// The relocations, filtered by `relative_relocation`, each turned into its call.
pub open spec fn relative_writes(rs: Seq<crate::elf::Reloc>) -> Seq<MapperOp> {
    rs.filter(relative_relocation()).map_values(|r: crate::elf::Reloc| relative_write(r))
}

proof fn lemma_filter_keeps_all<A>(s: Seq<A>, p: spec_fn(A) -> bool)
    requires
        forall|i: int| 0 <= i < s.len() ==> p(#[trigger] s[i]),
    ensures
        s.filter(p) == s,
    decreases s.len(),
{
    reveal(Seq::filter);
    if s.len() > 0 {
        lemma_filter_keeps_all(s.drop_last(), p);
        assert(s.drop_last().push(s.last()) =~= s);
    }
}

proof fn lemma_filter_drops_all<A>(s: Seq<A>, p: spec_fn(A) -> bool)
    requires
        forall|i: int| 0 <= i < s.len() ==> !p(#[trigger] s[i]),
    ensures
        s.filter(p) == Seq::<A>::empty(),
    decreases s.len(),
{
    reveal(Seq::filter);
    if s.len() > 0 {
        lemma_filter_drops_all(s.drop_last(), p);
    }
}

proof fn lemma_reloc_ops_are_relative_writes(rs: Seq<crate::elf::Reloc>)
    ensures
        reloc_ops(rs) == relative_writes(rs),
    decreases rs.len(),
{
    reveal(Seq::filter);
    if rs.len() > 0 {
        lemma_reloc_ops_are_relative_writes(rs.drop_last());
        let f = rs.drop_last().filter(relative_relocation());
        let w = |r: crate::elf::Reloc| relative_write(r);
        assert(rs.filter(relative_relocation()) == if rs.last().r_type == 3u32 {
            f.push(rs.last())
        } else {
            f
        });
        if rs.last().r_type == 3u32 {
            assert(f.push(rs.last()).map_values(w) =~= f.map_values(w).push(relative_write(rs.last())));
        }
        assert(reloc_ops(rs) =~= relative_writes(rs));
    }
}

/// Every RISC-V relative relocation of a position-independent image is applied,
/// in the order of the relocation table, each exactly once, and nothing else is
/// relocated: the relocation writes of an accepted load are the relative
/// relocations, each turned into its write.
pub proof fn law_every_relative_relocation_is_applied(buf_len: nat, m: ElfModel, mode: MappingModeKind)
    requires
        m.0 == ET_DYN,
        parsed_elf_plan(buf_len, m, mode).1 is Ok,
    ensures
        parsed_elf_plan(buf_len, m, mode).0.filter(relocation_call()) == relative_writes(m.3),
        parsed_elf_plan(buf_len, m, mode).0.filter(relocation_call()).len() == m.3.filter(
            relative_relocation(),
        ).len(),
{
    let no_xip = Seq::<XipRegion>::empty();
    lemma_plan_parts(m, buf_len, no_xip);
    lemma_reloc_ops_are_relative_writes(m.3);
    let pre = layout_plan(m).push(MapperOp::AllocateMemory);
    let copy = copy_plan(buf_len, m.2, no_xip).0;
    let rel = reloc_ops(m.3);
    let tail = seq![MapperOp::RealEntry];
    let p = relocation_call();
    assert(parsed_elf_plan(buf_len, m, mode).0 =~= pre + copy + rel + tail);
    assert forall|i: int| 0 <= i < pre.len() implies !p(#[trigger] pre[i]) by {
        if i < layout_plan(m).len() {
            assert(pre[i] == layout_plan(m)[i]);
        }
    }
    lemma_filter_drops_all(pre, p);
    lemma_filter_drops_all(copy, p);
    lemma_filter_keeps_all(rel, p);
    lemma_filter_drops_all(tail, p);
    Seq::filter_distributes_over_add(pre + copy + rel, tail, p);
    Seq::filter_distributes_over_add(pre + copy, rel, p);
    Seq::filter_distributes_over_add(pre, copy, p);
    assert(parsed_elf_plan(buf_len, m, mode).0.filter(p) =~= rel);
}

/// The layout reports exactly the loadable (`p_type` 1) program headers, in
/// order, each by its start and its end: a header of any other type adds no
/// layout call, and a loadable one adds its start and its end.
pub proof fn law_layout_reports_loadable_segments_only(phs: Seq<ProgramHeader>, ph: ProgramHeader)
    ensures
        layout_ops(Seq::<ProgramHeader>::empty()) == Seq::<MapperOp>::empty(),
        ph.p_type != 1u32 ==> layout_ops(phs.push(ph)) == layout_ops(phs),
        ph.p_type == 1u32 ==> layout_ops(phs.push(ph)) == layout_ops(phs) + seq![
            MapperOp::UpdateStart(ph.p_vaddr as usize),
            MapperOp::UpdateEnd(ph.p_vaddr.wrapping_add(ph.p_memsz) as usize),
        ],
{
    assert(phs.push(ph).drop_last() =~= phs);
    assert(layout_ops(phs) + Seq::<MapperOp>::empty() =~= layout_ops(phs));
}


/// The XIP region `r` is non-empty and holds the whole memory of the segment.
pub open spec fn held_by(ph: ProgramHeader, r: XipRegion) -> bool {
    &&& r@.0 < r@.1
    &&& ph.p_vaddr >= r@.0
    &&& ph.p_vaddr + ph.p_memsz <= r@.1
}

/// The XIP region `r` holds the segment's memory or shares an address with it.
pub open spec fn touched_by(ph: ProgramHeader, r: XipRegion) -> bool {
    held_by(ph, r) || (r@.0 < ph.p_vaddr + ph.p_memsz && ph.p_vaddr < r@.1)
}

/// A loadable segment whose file part is no larger than its memory, whose
/// memory lies in the address space, whose file bytes lie in the file, and
/// which no XIP region touches, is accepted and loaded by copying its file
/// bytes to its address and zero-filling the rest of its memory; a segment
/// with no file bytes is among them.
pub proof fn law_in_bounds_segment_is_copied(buf_len: nat, ph: ProgramHeader, xips: Seq<XipRegion>)
    requires
        buf_len <= usize::MAX,
        ph.p_type == 1u32,
        ph.p_filesz <= ph.p_memsz,
        ph.p_vaddr + ph.p_memsz <= usize::MAX,
        ph.p_offset + ph.p_filesz <= buf_len,
        forall|i: int| 0 <= i < xips.len() ==> !touched_by(ph, #[trigger] xips[i]),
    ensures
        segment_ops(buf_len, ph, xips) == Ok::<Seq<MapperOp>, &'static str>(copy_and_zero_fill(ph)),
{
    reveal(segment_ops);
    let a = ph.p_vaddr as int;
    let b = ph.p_vaddr + ph.p_memsz;
    assert forall|i: int| 0 <= i < xips.len() implies !region_holds(#[trigger] xips[i]@, a, b)
        && !region_meets(xips[i]@, a, b) by {
        assert(!touched_by(ph, xips[i]));
    }
    assert(segment_ops(buf_len, ph, xips)->Ok_0 =~= copy_and_zero_fill(ph));
}

/// A loadable segment that an XIP region holds and whose flags have the
/// writable bit (2) set is refused, whatever its other flags.
pub proof fn law_writable_segment_in_xip_is_refused(
    buf_len: nat,
    ph: ProgramHeader,
    xips: Seq<XipRegion>,
    i: int,
)
    requires
        ph.p_type == 1u32,
        ph.p_filesz <= ph.p_memsz,
        0 <= i < xips.len(),
        held_by(ph, xips[i]),
        ph.p_flags & 2u32 != 0,
    ensures
        segment_ops(buf_len, ph, xips) == Err::<Seq<MapperOp>, &'static str>(
            "Writable ELF segment cannot execute in place",
        ),
{
    reveal(segment_ops);
    assert(region_holds(xips[i]@, ph.p_vaddr as int, ph.p_vaddr + ph.p_memsz));
}

/// A loadable segment that an XIP region holds and whose flags lack the
/// writable bit (2) is accepted and left where it is mapped: nothing is written.
pub proof fn law_read_only_segment_in_xip_is_left_in_place(
    buf_len: nat,
    ph: ProgramHeader,
    xips: Seq<XipRegion>,
    i: int,
)
    requires
        ph.p_type == 1u32,
        ph.p_filesz <= ph.p_memsz,
        0 <= i < xips.len(),
        held_by(ph, xips[i]),
        ph.p_flags & 2u32 == 0,
    ensures
        segment_ops(buf_len, ph, xips) == Ok::<Seq<MapperOp>, &'static str>(Seq::<MapperOp>::empty()),
{
    reveal(segment_ops);
    assert(region_holds(xips[i]@, ph.p_vaddr as int, ph.p_vaddr + ph.p_memsz));
}

/// An image whose loadable segments all lie in the address space and in the
/// file, loaded by a mapper of the mode its type needs (`Fixed` for an
/// executable, `Allocated` for a position-independent image), is accepted, and
/// every loadable segment is copied and zero-filled.
pub proof fn law_in_bounds_image_is_accepted(buf_len: nat, m: ElfModel, mode: MappingModeKind)
    requires
        buf_len <= usize::MAX,
        (m.0 == ET_EXEC && mode == MappingModeKind::Fixed) || (m.0 == ET_DYN && mode
            == MappingModeKind::Allocated),
        forall|i: int|
            #![trigger m.2[i]]
            0 <= i < m.2.len() && m.2[i].p_type == 1u32 ==> {
                &&& m.2[i].p_filesz <= m.2[i].p_memsz
                &&& m.2[i].p_vaddr + m.2[i].p_memsz <= usize::MAX
                &&& m.2[i].p_offset + m.2[i].p_filesz <= buf_len
            },
    ensures
        parsed_elf_plan(buf_len, m, mode).1 == Ok::<(), &'static str>(()),
        forall|i: int|
            #![trigger m.2[i]]
            0 <= i < m.2.len() && m.2[i].p_type == 1u32 ==> stands_in(
                parsed_elf_plan(buf_len, m, mode).0,
                copy_and_zero_fill(m.2[i]),
            ),
{
    let no_xip = Seq::<XipRegion>::empty();
    assert forall|i: int| 0 <= i < m.2.len() implies segment_ops(buf_len, #[trigger] m.2[i], no_xip)
        is Ok by {
        if m.2[i].p_type == 1u32 {
            law_in_bounds_segment_is_copied(buf_len, m.2[i], no_xip);
        } else {
            reveal(segment_ops);
        }
    }
    lemma_copy_plan_ok(buf_len, m.2, no_xip);
    lemma_copy_plan_holds_segments(buf_len, m.2, no_xip);
    let copy = copy_plan(buf_len, m.2, no_xip);
    assert forall|i: int|
        #![trigger m.2[i]]
        0 <= i < m.2.len() && m.2[i].p_type == 1u32 implies stands_in(
        parsed_elf_plan(buf_len, m, mode).0,
        copy_and_zero_fill(m.2[i]),
    ) by {
        law_in_bounds_segment_is_copied(buf_len, m.2[i], no_xip);
        if m.0 == ET_DYN {
            let pre = layout_plan(m).push(MapperOp::AllocateMemory);
            let post = reloc_ops(m.3).push(MapperOp::RealEntry);
            lemma_stands_in_concat(pre, copy.0, post, copy_and_zero_fill(m.2[i]));
        } else {
            let post = seq![MapperOp::SynchronizeInstructionStream, MapperOp::RealEntry];
            lemma_stands_in_concat(layout_plan(m), copy.0, post, copy_and_zero_fill(m.2[i]));
        }
    }
}

/// The addresses `[entry, entry + 1)` that the entry check asks a region to
/// hold; at the top of the address space the range is empty.
pub open spec fn entry_end(entry: u64) -> int {
    if entry == usize::MAX {
        entry as int
    } else {
        entry + 1
    }
}

/// An executable whose entry point lies in any one of the XIP regions, in
/// whatever position it is given, passes the entry check: its XIP load is the
/// load of an executable with those regions.
pub proof fn law_entry_in_any_xip_region_passes(
    buf_len: nat,
    m: ElfModel,
    mode: MappingModeKind,
    xips: Seq<XipRegion>,
    i: int,
)
    requires
        m.0 == ET_EXEC,
        m.1 <= usize::MAX,
        0 <= i < xips.len(),
        xips[i]@.0 < xips[i]@.1,
        m.1 >= xips[i]@.0,
        entry_end(m.1) <= xips[i]@.1,
    ensures
        parsed_xip_plan(buf_len, m, mode, xips) == exec_plan(buf_len, m, mode, xips),
{
    assert(region_holds(xips[i]@, m.1 as int, (m.1 as usize).saturating_add(1) as int));
}

/// An executable whose entry point lies in none of the XIP regions is refused
/// before any call.
pub proof fn law_entry_outside_every_xip_region_is_refused(
    buf_len: nat,
    m: ElfModel,
    mode: MappingModeKind,
    xips: Seq<XipRegion>,
)
    requires
        m.0 == ET_EXEC,
        m.1 <= usize::MAX,
        forall|i: int|
            0 <= i < xips.len() ==> !(#[trigger] xips[i]@.0 < xips[i]@.1 && m.1 >= xips[i]@.0
                && entry_end(m.1) <= xips[i]@.1),
    ensures
        parsed_xip_plan(buf_len, m, mode, xips) == (
            Seq::<MapperOp>::empty(),
            Err::<(), &'static str>("ELF entry is outside mapped XIP regions"),
        ),
{
    assert forall|i: int| 0 <= i < xips.len() implies !region_holds(
        #[trigger] xips[i]@,
        m.1 as int,
        (m.1 as usize).saturating_add(1) as int,
    ) by {
        assert(!(xips[i]@.0 < xips[i]@.1 && m.1 >= xips[i]@.0 && entry_end(m.1) <= xips[i]@.1));
    }
}

proof fn lemma_same_regions_same_tests(xips: Seq<XipRegion>, ys: Seq<XipRegion>, a: int, b: int)
    requires
        forall|r: XipRegion| xips.contains(r) <==> ys.contains(r),
    ensures
        any_holds(xips, a, b) == any_holds(ys, a, b),
        any_meets(xips, a, b) == any_meets(ys, a, b),
{
    if any_holds(xips, a, b) {
        let i = choose|i: int| 0 <= i < xips.len() && region_holds(#[trigger] xips[i]@, a, b);
        assert(xips.contains(xips[i]));
        let j = choose|j: int| 0 <= j < ys.len() && ys[j] == xips[i];
        assert(region_holds(ys[j]@, a, b));
    }
    if any_holds(ys, a, b) {
        let i = choose|i: int| 0 <= i < ys.len() && region_holds(#[trigger] ys[i]@, a, b);
        assert(ys.contains(ys[i]));
        let j = choose|j: int| 0 <= j < xips.len() && xips[j] == ys[i];
        assert(region_holds(xips[j]@, a, b));
    }
    if any_meets(xips, a, b) {
        let i = choose|i: int| 0 <= i < xips.len() && region_meets(#[trigger] xips[i]@, a, b);
        assert(xips.contains(xips[i]));
        let j = choose|j: int| 0 <= j < ys.len() && ys[j] == xips[i];
        assert(region_meets(ys[j]@, a, b));
    }
    if any_meets(ys, a, b) {
        let i = choose|i: int| 0 <= i < ys.len() && region_meets(#[trigger] ys[i]@, a, b);
        assert(ys.contains(ys[i]));
        let j = choose|j: int| 0 <= j < xips.len() && xips[j] == ys[i];
        assert(region_meets(xips[j]@, a, b));
    }
}

proof fn lemma_same_regions_same_copy(buf_len: nat, phs: Seq<ProgramHeader>, xips: Seq<XipRegion>, ys: Seq<XipRegion>)
    requires
        forall|r: XipRegion| xips.contains(r) <==> ys.contains(r),
    ensures
        copy_plan(buf_len, phs, xips) == copy_plan(buf_len, phs, ys),
    decreases phs.len(),
{
    if phs.len() > 0 {
        lemma_same_regions_same_copy(buf_len, phs.drop_last(), xips, ys);
        let ph = phs.last();
        lemma_same_regions_same_tests(xips, ys, ph.p_vaddr as int, ph.p_vaddr + ph.p_memsz);
        reveal(segment_ops);
        assert(segment_ops(buf_len, ph, xips) == segment_ops(buf_len, ph, ys));
    }
}

/// Only which regions are given matters to an XIP load, not their order nor
/// their repetition: two lists of the same regions give the same load.
pub proof fn law_xip_region_order_is_irrelevant(
    buffer: Seq<u8>,
    mode: MappingModeKind,
    xips: Seq<XipRegion>,
    ys: Seq<XipRegion>,
)
    requires
        forall|r: XipRegion| xips.contains(r) <==> ys.contains(r),
    ensures
        xip_plan(buffer, mode, xips) == xip_plan(buffer, mode, ys),
{
    if xips.len() > 0 {
        assert(xips.contains(xips[0]));
    }
    if ys.len() > 0 {
        assert(ys.contains(ys[0]));
    }
    if let Some(m) = goblin_elf_parse(buffer) {
        lemma_same_regions_same_copy(buffer.len(), m.2, xips, ys);
        lemma_same_regions_same_tests(xips, ys, m.1 as int, (m.1 as usize).saturating_add(1) as int);
    }
}


/// An entry-point report.
pub open spec fn entry_call() -> spec_fn(MapperOp) -> bool {
    |op: MapperOp| op is SetEntry
}

proof fn lemma_no_entry_calls_before_copy(m: ElfModel)
    ensures
        layout_ops(m.2).filter(entry_call()) == Seq::<MapperOp>::empty(),
{
    lemma_layout_ops_write_nothing(m.2);
    lemma_filter_drops_all(layout_ops(m.2), entry_call());
}

proof fn lemma_no_entry_calls_in_copy(buf_len: nat, phs: Seq<ProgramHeader>)
    ensures
        copy_plan(buf_len, phs, Seq::<XipRegion>::empty()).0.filter(entry_call()) == Seq::<MapperOp>::empty(),
{
    law_copy_spares_xip_regions(buf_len, phs, Seq::<XipRegion>::empty());
    lemma_filter_drops_all(copy_plan(buf_len, phs, Seq::<XipRegion>::empty()).0, entry_call());
}

proof fn lemma_no_entry_calls_in_relocations(rs: Seq<crate::elf::Reloc>)
    ensures
        reloc_ops(rs).push(MapperOp::RealEntry).filter(entry_call()) == Seq::<MapperOp>::empty(),
{
    lemma_reloc_ops_relocate_only(rs);
    let rest = reloc_ops(rs).push(MapperOp::RealEntry);
    assert forall|i: int| 0 <= i < rest.len() implies !entry_call()(#[trigger] rest[i]) by {
        if i < reloc_ops(rs).len() {
            assert(rest[i] == reloc_ops(rs)[i]);
        }
    }
    lemma_filter_drops_all(rest, entry_call());
}

proof fn lemma_filter_five(
    a: Seq<MapperOp>,
    b: Seq<MapperOp>,
    c: Seq<MapperOp>,
    d: Seq<MapperOp>,
    e: Seq<MapperOp>,
    p: spec_fn(MapperOp) -> bool,
)
    requires
        a.filter(p) == Seq::<MapperOp>::empty(),
        c.filter(p) == Seq::<MapperOp>::empty(),
        d.filter(p) == Seq::<MapperOp>::empty(),
        e.filter(p) == Seq::<MapperOp>::empty(),
    ensures
        (a + b + c + d + e).filter(p) == b.filter(p),
{
    Seq::filter_distributes_over_add(a + b + c + d, e, p);
    Seq::filter_distributes_over_add(a + b + c, d, p);
    Seq::filter_distributes_over_add(a + b, c, p);
    Seq::filter_distributes_over_add(a, b, p);
    assert((a + b + c + d + e).filter(p) =~= b.filter(p));
}

proof fn lemma_dyn_entry_once(buf_len: nat, m: ElfModel)
    ensures
        dyn_plan(buf_len, m, MappingModeKind::Allocated).0.filter(entry_call()) == seq![
            MapperOp::SetEntry(m.1 as usize),
        ],
{
    let no_xip = Seq::<XipRegion>::empty();
    let lay = layout_ops(m.2);
    let ent = seq![MapperOp::SetEntry(m.1 as usize)];
    let mid = seq![MapperOp::AllocateMemory];
    let copy = copy_plan(buf_len, m.2, no_xip);
    let rest = if copy.1 is Err {
        Seq::<MapperOp>::empty()
    } else {
        reloc_ops(m.3).push(MapperOp::RealEntry)
    };
    assert(dyn_plan(buf_len, m, MappingModeKind::Allocated).0 =~= lay + ent + mid + copy.0 + rest);
    let p = entry_call();
    lemma_no_entry_calls_before_copy(m);
    lemma_no_entry_calls_in_copy(buf_len, m.2);
    lemma_filter_keeps_all(ent, p);
    lemma_filter_drops_all(mid, p);
    if copy.1 is Ok {
        lemma_no_entry_calls_in_relocations(m.3);
    } else {
        lemma_filter_drops_all(rest, p);
    }
    lemma_filter_five(lay, ent, mid, copy.0, rest, p);
}

proof fn lemma_exec_entry_once(buf_len: nat, m: ElfModel)
    ensures
        exec_plan(buf_len, m, MappingModeKind::Fixed, Seq::<XipRegion>::empty()).0.filter(entry_call())
            == seq![MapperOp::SetEntry(m.1 as usize)],
{
    let no_xip = Seq::<XipRegion>::empty();
    let lay = layout_ops(m.2);
    let ent = seq![MapperOp::SetEntry(m.1 as usize)];
    let mid = Seq::<MapperOp>::empty();
    let copy = copy_plan(buf_len, m.2, no_xip);
    let rest = if copy.1 is Err {
        Seq::<MapperOp>::empty()
    } else {
        seq![MapperOp::SynchronizeInstructionStream, MapperOp::RealEntry]
    };
    assert(exec_plan(buf_len, m, MappingModeKind::Fixed, no_xip).0 =~= lay + ent + mid + copy.0 + rest);
    let p = entry_call();
    lemma_no_entry_calls_before_copy(m);
    lemma_no_entry_calls_in_copy(buf_len, m.2);
    lemma_filter_keeps_all(ent, p);
    lemma_filter_drops_all(mid, p);
    lemma_filter_drops_all(rest, p);
    lemma_filter_five(lay, ent, mid, copy.0, rest, p);
}

/// A load by a mapper of the mode the image's type needs reports the image's
/// entry point exactly once, whatever else happens.
pub proof fn law_entry_point_reported_once(buf_len: nat, m: ElfModel, mode: MappingModeKind)
    requires
        (m.0 == ET_EXEC && mode == MappingModeKind::Fixed) || (m.0 == ET_DYN && mode
            == MappingModeKind::Allocated),
    ensures
        parsed_elf_plan(buf_len, m, mode).0.filter(entry_call()) == seq![MapperOp::SetEntry(m.1 as usize)],
{
    if m.0 == ET_DYN {
        lemma_dyn_entry_once(buf_len, m);
    } else {
        lemma_exec_entry_once(buf_len, m);
    }
}

/// A mapper of the wrong mode, or an image of a type that does not load, is
/// refused before any call: an executable needs a `Fixed` mapper, a
/// position-independent image an `Allocated` one, and no other type loads.
pub proof fn law_wrong_mode_or_type_is_refused(buf_len: nat, m: ElfModel, mode: MappingModeKind)
    ensures
        m.0 == 2u16 && mode == MappingModeKind::Allocated ==> parsed_elf_plan(buf_len, m, mode) == (
            Seq::<MapperOp>::empty(),
            Err::<(), &'static str>("ET_EXEC requires Fixed mapping mode"),
        ),
        m.0 == 3u16 && mode == MappingModeKind::Fixed ==> parsed_elf_plan(buf_len, m, mode) == (
            Seq::<MapperOp>::empty(),
            Err::<(), &'static str>("ET_DYN requires Allocated mapping mode"),
        ),
        m.0 != 2u16 && m.0 != 3u16 ==> parsed_elf_plan(buf_len, m, mode) == (
            Seq::<MapperOp>::empty(),
            Err::<(), &'static str>("Unsupported ELF type"),
        ),
{
}

/// The checks of an XIP load before its file is read: a mapper that is not
/// `Fixed` is refused first, then an empty list of regions, each before any call.
pub proof fn law_xip_needs_fixed_mapper_and_regions(
    buffer: Seq<u8>,
    mode: MappingModeKind,
    xips: Seq<XipRegion>,
)
    ensures
        mode != MappingModeKind::Fixed ==> xip_plan(buffer, mode, xips) == (
            Seq::<MapperOp>::empty(),
            Err::<(), &'static str>("XIP ET_EXEC requires Fixed mapping mode"),
        ),
        mode == MappingModeKind::Fixed && xips.len() == 0 ==> xip_plan(buffer, mode, xips) == (
            Seq::<MapperOp>::empty(),
            Err::<(), &'static str>("XIP load requires at least one mapped region"),
        ),
        mode == MappingModeKind::Fixed && xips.len() > 0 && goblin_elf_parse(buffer) is Some
            && goblin_elf_parse(buffer)->Some_0.0 != 2u16 ==> xip_plan(buffer, mode, xips) == (
            Seq::<MapperOp>::empty(),
            Err::<(), &'static str>("XIP load requires an ET_EXEC image"),
        ),
{
}

/// Segments are copied in file order: after an accepted copy of some program
/// headers, one more in-bounds loadable segment that no XIP region touches
/// adds its copy and zero-fill at the end, and the copy stays accepted.
pub proof fn law_copy_appends_in_file_order(
    buf_len: nat,
    phs: Seq<ProgramHeader>,
    ph: ProgramHeader,
    xips: Seq<XipRegion>,
)
    requires
        copy_plan(buf_len, phs, xips).1 is Ok,
        buf_len <= usize::MAX,
        ph.p_type == 1u32,
        ph.p_filesz <= ph.p_memsz,
        ph.p_vaddr + ph.p_memsz <= usize::MAX,
        ph.p_offset + ph.p_filesz <= buf_len,
        forall|i: int| 0 <= i < xips.len() ==> !touched_by(ph, #[trigger] xips[i]),
    ensures
        copy_plan(buf_len, phs.push(ph), xips) == (
            copy_plan(buf_len, phs, xips).0 + copy_and_zero_fill(ph),
            Ok::<(), &'static str>(()),
        ),
{
    law_in_bounds_segment_is_copied(buf_len, ph, xips);
    assert(phs.push(ph).drop_last() =~= phs);
}

} // verus!
