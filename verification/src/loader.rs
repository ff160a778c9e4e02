//! Loading a kernel module: where its segments go, which relocations it
//! needs, and its registration with the module manager.
use vstd::prelude::*;
use crate::config::PAGE_SIZE;
use crate::elf::{
    DynEntry, DynSym, DynSymView, DynTag, ElfKind, ElfModuleInfo, ProgramHeaderInfo, RelocData,
    RelocDataView, RelocEntry, SectionInfo, SectionView,
};
use crate::lkm::{resolve_spec, LoadedModule, ModuleManager, ModuleState, StubSymbol};

verus! {

/// Relocation type: nothing to do.
pub const REL_NONE: usize = 0;
/// Relocation type: a 32-bit absolute value, which the loader refuses.
pub const REL_OFFSET32: usize = 1;
/// Relocation type: the symbol's address plus the addend.
pub const REL_SYMBOLIC: usize = 2;
/// Relocation type: a global offset table slot, the symbol's address plus
/// the addend. On RISC-V such slots are relocated with the same 64-bit
/// type as a symbolic word.
pub const REL_GOT: usize = 2;
/// Relocation type: the load base plus the addend.
pub const REL_RELATIVE: usize = 3;
/// Relocation type: a procedure-linkage slot, the symbol's address plus the
/// addend.
pub const REL_PLT: usize = 5;

/// Page number of the page holding address `v`.
pub open spec fn vfloor(v: int) -> int {
    v / PAGE_SIZE as int
}

/// Page number of the first page boundary at or above address `v`.
pub open spec fn vceil(v: int) -> int {
    if v == 0 {
        0
    } else {
        (v - 1 + PAGE_SIZE) / PAGE_SIZE as int
    }
}

/// Lowest virtual address of the loadable segments, `usize::MAX` when
/// there are none.
pub open spec fn load_min(phs: Seq<ProgramHeaderInfo>) -> int
    decreases phs.len(),
{
    if phs.len() == 0 {
        usize::MAX as int
    } else {
        let m = load_min(phs.drop_last());
        let p = phs.last();
        if p.load == Some(true) && (p.vaddr as usize) < m {
            p.vaddr as usize as int
        } else {
            m
        }
    }
}

/// Highest end address of the loadable segments, 0 when there are none.
pub open spec fn load_max(phs: Seq<ProgramHeaderInfo>) -> int
    decreases phs.len(),
{
    if phs.len() == 0 {
        0
    } else {
        let m = load_max(phs.drop_last());
        let p = phs.last();
        if p.load == Some(true) && ((p.vaddr + p.mem_size) as usize) > m {
            (p.vaddr + p.mem_size) as usize as int
        } else {
            m
        }
    }
}

/// The program headers can be read, there is a loadable segment, and the
/// segments end low enough for their page bounds to be computed.
pub open spec fn program_headers_ok(phs: Seq<ProgramHeaderInfo>) -> bool {
    &&& forall|i: int| 0 <= i < phs.len() ==> (#[trigger] phs[i]).load is Some
    &&& exists|i: int| 0 <= i < phs.len() && (#[trigger] phs[i]).load == Some(true)
    &&& forall|i: int|
        0 <= i < phs.len() ==> (#[trigger] phs[i]).vaddr + phs[i].mem_size <= usize::MAX
    &&& load_max(phs) <= usize::MAX - PAGE_SIZE + 1
}

/// The module would be accepted as a 64-bit shared object not yet loaded.
pub open spec fn module_acceptable(mgr: &ModuleManager, name: Seq<char>, info: &ElfModuleInfo) -> bool {
    &&& !(exists|i: int| 0 <= i < mgr.modules().len() && mgr.modules()[i].name@ == name)
    &&& !info.header.is_32
    &&& info.header.kind == ElfKind::SharedObject
}

/// Where the module's address range starts before relocation, and its
/// length: from the page holding the lowest segment to the page boundary
/// after the highest one.
pub open spec fn module_layout(phs: Seq<ProgramHeaderInfo>) -> (int, int) {
    (
        vfloor(load_min(phs)) * PAGE_SIZE,
        (vceil(load_max(phs)) - vfloor(load_min(phs))) * PAGE_SIZE,
    )
}

proof fn lemma_load_bounds(phs: Seq<ProgramHeaderInfo>)
    requires
        forall|i: int| 0 <= i < phs.len() ==> (#[trigger] phs[i]).load is Some,
        forall|i: int|
            0 <= i < phs.len() ==> (#[trigger] phs[i]).vaddr + phs[i].mem_size <= usize::MAX,
    ensures
        0 <= load_min(phs) <= usize::MAX,
        0 <= load_max(phs) <= usize::MAX,
        (exists|i: int| 0 <= i < phs.len() && (#[trigger] phs[i]).load == Some(true))
            ==> load_min(phs) <= load_max(phs),
    decreases phs.len(),
{
    if phs.len() > 0 {
        let q = phs.drop_last();
        assert forall|i: int| 0 <= i < q.len() implies (#[trigger] q[i]).load is Some by {
            assert(q[i] == phs[i]);
        }
        assert forall|i: int| 0 <= i < q.len() implies (#[trigger] q[i]).vaddr + q[i].mem_size
            <= usize::MAX by {
            assert(q[i] == phs[i]);
        }
        lemma_load_bounds(q);
        let p = phs.last();
        if exists|i: int| 0 <= i < phs.len() && (#[trigger] phs[i]).load == Some(true) {
            if p.load == Some(true) {
                assert(p.vaddr as usize <= (p.vaddr + p.mem_size) as usize);
                if !(exists|i: int| 0 <= i < q.len() && (#[trigger] q[i]).load == Some(true)) {
                    lemma_load_none(q);
                }
            } else {
                let i = choose|i: int| 0 <= i < phs.len() && (#[trigger] phs[i]).load == Some(true);
                assert(i < q.len());
                assert(q[i] == phs[i]);
            }
        }
    }
}

proof fn lemma_load_none(phs: Seq<ProgramHeaderInfo>)
    requires
        !(exists|i: int| 0 <= i < phs.len() && (#[trigger] phs[i]).load == Some(true)),
    ensures
        load_min(phs) == usize::MAX,
        load_max(phs) == 0,
    decreases phs.len(),
{
    if phs.len() > 0 {
        let q = phs.drop_last();
        assert(!(exists|i: int| 0 <= i < q.len() && (#[trigger] q[i]).load == Some(true))) by {
            if exists|i: int| 0 <= i < q.len() && (#[trigger] q[i]).load == Some(true) {
                let i = choose|i: int| 0 <= i < q.len() && (#[trigger] q[i]).load == Some(true);
                assert(phs[i] == q[i]);
            }
        }
        lemma_load_none(q);
        assert(phs[phs.len() - 1] == phs.last());
    }
}

/// The first checks of loading module `module_name` from `info`: refused
/// when a module of that name is loaded, when the file is a 32-bit one, or
/// when it is not a shared object. Otherwise the start and length of the
/// address range the module needs, page-aligned, for the caller to find a
/// free area of that length.
pub fn init_module_layout(mgr: &ModuleManager, module_name: &str, info: &ElfModuleInfo) -> (r: Result<
    (usize, usize),
    (),
>)
    requires
        module_acceptable(mgr, module_name@, info) ==> program_headers_ok(info.program_headers@),
    ensures
        r is Err <==> !module_acceptable(mgr, module_name@, info),
        r matches Ok(l) ==> (l.0 as int, l.1 as int) == module_layout(info.program_headers@),
{
    if mgr.is_loaded(module_name) {
        return Err(());
    }
    if info.header.is_32 {
        return Err(());
    }
    match info.header.kind {
        ElfKind::Executable => {
            return Err(());
        },
        ElfKind::SharedObject => {},
        ElfKind::Other => {
            return Err(());
        },
    }
    let phs = &info.program_headers;
    let ghost s = phs@;
    proof {
        lemma_load_bounds(s);
    }
    let mut max_addr: usize = 0;
    let mut min_addr: usize = usize::MAX;
    let mut i: usize = 0;
    while i < phs.len()
        invariant
            s == phs@,
            i <= s.len(),
            program_headers_ok(s),
            min_addr as int == load_min(s.subrange(0, i as int)),
            max_addr as int == load_max(s.subrange(0, i as int)),
        decreases s.len() - i,
    {
        proof {
            assert(s.subrange(0, i + 1).drop_last() =~= s.subrange(0, i as int));
            assert(s.subrange(0, i + 1).last() == s[i as int]);
            assert(s[i as int].load is Some);
            assert(s[i as int].vaddr + s[i as int].mem_size <= usize::MAX);
        }
        let ph = phs[i];
        if ph.load == Some(true) {
            if (ph.vaddr as usize) < min_addr {
                min_addr = ph.vaddr as usize;
            }
            if ((ph.vaddr + ph.mem_size) as usize) > max_addr {
                max_addr = (ph.vaddr + ph.mem_size) as usize;
            }
        }
        i = i + 1;
    }
    proof {
        assert(s.subrange(0, s.len() as int) =~= s);
    }
    let ceil = if max_addr == 0 {
        0
    } else {
        (max_addr - 1 + PAGE_SIZE) / PAGE_SIZE
    };
    let floor = min_addr / PAGE_SIZE;
    proof {
        assert(floor <= ceil) by (nonlinear_arith)
            requires
                min_addr <= max_addr,
                floor == (min_addr as int) / 0x1000,
                ceil == (if max_addr == 0 {
                    0
                } else {
                    (max_addr as int - 1 + 0x1000) / 0x1000
                }),
        ;
        assert(ceil * 0x1000 <= usize::MAX) by (nonlinear_arith)
            requires
                max_addr <= usize::MAX - 0x1000 + 1,
                ceil == (if max_addr == 0 {
                    0
                } else {
                    (max_addr as int - 1 + 0x1000) / 0x1000
                }),
        ;
        assert((ceil - floor) * PAGE_SIZE <= usize::MAX) by (nonlinear_arith)
            requires
                ceil * 0x1000 <= usize::MAX,
                0 <= floor <= ceil,
                PAGE_SIZE == 0x1000,
        ;
        assert(floor * PAGE_SIZE <= min_addr) by (nonlinear_arith)
            requires
                floor == (min_addr as int) / 0x1000,
                PAGE_SIZE == 0x1000,
        ;
    }
    let map_len = (ceil - floor) * PAGE_SIZE;
    let start = min_addr - min_addr % PAGE_SIZE;
    proof {
        assert(start == floor * PAGE_SIZE) by (nonlinear_arith)
            requires
                floor == (min_addr as int) / 0x1000,
                start == (min_addr as int) - (min_addr as int) % 0x1000,
                PAGE_SIZE == 0x1000,
        ;
    }
    Ok((start, map_len))
}


/// Whether [`program_headers_ok`] holds of `phs`: a caller tests it before
/// asking for the layout of an acceptable module.
pub fn program_headers_valid(phs: &Vec<ProgramHeaderInfo>) -> (r: bool)
    ensures
        r == program_headers_ok(phs@),
{
    let ghost s = phs@;
    let mut any_load = false;
    let mut max_addr: usize = 0;
    let mut i: usize = 0;
    while i < phs.len()
        invariant
            s == phs@,
            i <= s.len(),
            forall|k: int| 0 <= k < i ==> (#[trigger] s[k]).load is Some,
            forall|k: int| 0 <= k < i ==> (#[trigger] s[k]).vaddr + s[k].mem_size <= usize::MAX,
            any_load <==> exists|k: int| 0 <= k < i && (#[trigger] s[k]).load == Some(true),
            max_addr as int == load_max(s.subrange(0, i as int)),
        decreases s.len() - i,
    {
        let ph = phs[i];
        if ph.load.is_none() {
            return false;
        }
        let end = match ph.vaddr.checked_add(ph.mem_size) {
            Some(e) => e,
            None => {
                return false;
            },
        };
        if end > usize::MAX as u64 {
            return false;
        }
        proof {
            assert(s.subrange(0, i + 1).drop_last() =~= s.subrange(0, i as int));
            assert(s.subrange(0, i + 1).last() == s[i as int]);
        }
        if ph.load == Some(true) {
            any_load = true;
            if (end as usize) > max_addr {
                max_addr = end as usize;
            }
        }
        i = i + 1;
    }
    proof {
        assert(s.subrange(0, s.len() as int) =~= s);
    }
    any_load && max_addr <= usize::MAX - PAGE_SIZE + 1
}

/// A range of pages to map for a loadable segment, with its access
/// rights, and the index of the program header it comes from.
#[derive(Clone, Copy, PartialEq, Eq, Structural)]
pub struct SegmentMap {
    pub start_vpn: usize,
    pub end_vpn: usize,
    pub read: bool,
    pub write: bool,
    pub execute: bool,
    pub ph_index: usize,
}

/// The pages to map for the loadable segments among the first `n` program
/// headers, for a module placed at `base`, in order.
pub open spec fn segment_maps_spec(phs: Seq<ProgramHeaderInfo>, base: int, n: int) -> Seq<SegmentMap>
    decreases n,
{
    if n <= 0 {
        Seq::empty()
    } else {
        let prev = segment_maps_spec(phs, base, n - 1);
        let p = phs[n - 1];
        if p.load == Some(true) {
            let start = base + p.vaddr;
            prev.push(
                SegmentMap {
                    start_vpn: vfloor(start) as usize,
                    end_vpn: vceil(start + p.mem_size) as usize,
                    read: p.read,
                    write: p.write,
                    execute: p.execute,
                    ph_index: (n - 1) as usize,
                },
            )
        } else {
            prev
        }
    }
}

proof fn lemma_load_max_bounds(phs: Seq<ProgramHeaderInfo>, i: int)
    requires
        0 <= i < phs.len(),
        phs[i].load == Some(true),
        forall|k: int| 0 <= k < phs.len() ==> (#[trigger] phs[k]).vaddr + phs[k].mem_size <= usize::MAX,
    ensures
        phs[i].vaddr + phs[i].mem_size <= load_max(phs),
    decreases phs.len(),
{
    let q = phs.drop_last();
    if i < phs.len() - 1 {
        assert(q[i] == phs[i]);
        assert forall|k: int| 0 <= k < q.len() implies (#[trigger] q[k]).vaddr + q[k].mem_size
            <= usize::MAX by {
            assert(q[k] == phs[k]);
        }
        lemma_load_max_bounds(q, i);
    }
}

/// The pages to map for the module's loadable segments when it is placed
/// at `base`.
pub fn segment_maps(phs: &Vec<ProgramHeaderInfo>, base: usize) -> (r: Vec<SegmentMap>)
    requires
        program_headers_ok(phs@),
        base + load_max(phs@) <= usize::MAX - PAGE_SIZE + 1,
    ensures
        r@ == segment_maps_spec(phs@, base as int, phs@.len() as int),
{
    let mut maps: Vec<SegmentMap> = Vec::new();
    let mut i: usize = 0;
    while i < phs.len()
        invariant
            i <= phs@.len(),
            program_headers_ok(phs@),
            base + load_max(phs@) <= usize::MAX - PAGE_SIZE + 1,
            maps@ == segment_maps_spec(phs@, base as int, i as int),
        decreases phs@.len() - i,
    {
        let ph = phs[i];
        if ph.load == Some(true) {
            proof {
                lemma_load_max_bounds(phs@, i as int);
            }
            let start = base + ph.vaddr as usize;
            let end = start + ph.mem_size as usize;
            let start_vpn = start / PAGE_SIZE;
            let end_vpn = if end == 0 {
                0
            } else {
                (end - 1 + PAGE_SIZE) / PAGE_SIZE
            };
            maps.push(
                SegmentMap {
                    start_vpn,
                    end_vpn,
                    read: ph.read,
                    write: ph.write,
                    execute: ph.execute,
                    ph_index: i,
                },
            );
        }
        i = i + 1;
    }
    maps
}

/// A relocation table: its address, total size and entry size.
pub type RelocTable = (usize, usize, usize);

/// The three relocation tables named by the first `n` dynamic entries:
/// procedure-linkage, `Rel` and `Rela`; `None` when one of these entries
/// has an invalid tag.
pub open spec fn reloc_tables_spec(entries: Seq<DynEntry>, n: int) -> Option<
    (RelocTable, RelocTable, RelocTable),
>
    decreases n,
{
    if n <= 0 {
        Some(((0, 0, 0), (0, 0, 16), (0, 0, 24)))
    } else {
        match reloc_tables_spec(entries, n - 1) {
            None => None,
            Some(t) => {
                let (j, rel, rela) = t;
                let e = entries[n - 1];
                let v = e.value as usize;
                match e.tag {
                    None => None,
                    Some(DynTag::JmpRel) => Some(((v, j.1, j.2), rel, rela)),
                    Some(DynTag::PltRelSize) => Some(((j.0, v, j.2), rel, rela)),
                    Some(DynTag::PltRel) => Some(
                        ((j.0, j.1, if e.value == 7 {
                            24usize
                        } else {
                            16usize
                        }), rel, rela),
                    ),
                    Some(DynTag::Rel) => Some((j, (v, rel.1, rel.2), rela)),
                    Some(DynTag::RelSize) => Some((j, (rel.0, v, rel.2), rela)),
                    Some(DynTag::Rela) => Some((j, rel, (v, rela.1, rela.2))),
                    Some(DynTag::RelaSize) => Some((j, rel, (rela.0, v, rela.2))),
                    Some(DynTag::Other) => Some((j, rel, rela)),
                }
            },
        }
    }
}

/// Reads the relocation tables from the dynamic entries.
pub fn reloc_tables(entries: &Vec<DynEntry>) -> (r: Option<(RelocTable, RelocTable, RelocTable)>)
    ensures
        r == reloc_tables_spec(entries@, entries@.len() as int),
{
    let mut jmprel: RelocTable = (0, 0, 0);
    let mut rel: RelocTable = (0, 0, 16);
    let mut rela: RelocTable = (0, 0, 24);
    let mut i: usize = 0;
    while i < entries.len()
        invariant
            i <= entries@.len(),
            reloc_tables_spec(entries@, i as int) == Some((jmprel, rel, rela)),
        decreases entries@.len() - i,
    {
        let e = entries[i];
        let v = e.value as usize;
        match e.tag {
            None => {
                proof {
                    lemma_reloc_tables_none(entries@, i as int + 1, entries@.len() as int);
                }
                return None;
            },
            Some(DynTag::JmpRel) => {
                jmprel.0 = v;
            },
            Some(DynTag::PltRelSize) => {
                jmprel.1 = v;
            },
            Some(DynTag::PltRel) => {
                jmprel.2 = if e.value == 7 {
                    24
                } else {
                    16
                };
            },
            Some(DynTag::Rel) => {
                rel.0 = v;
            },
            Some(DynTag::RelSize) => {
                rel.1 = v;
            },
            Some(DynTag::Rela) => {
                rela.0 = v;
            },
            Some(DynTag::RelaSize) => {
                rela.1 = v;
            },
            Some(DynTag::Other) => {},
        }
        i = i + 1;
    }
    Some((jmprel, rel, rela))
}

proof fn lemma_reloc_tables_none(entries: Seq<DynEntry>, k: int, n: int)
    requires
        1 <= k <= n,
        reloc_tables_spec(entries, k) is None,
    ensures
        reloc_tables_spec(entries, n) is None,
    decreases n - k,
{
    if k < n {
        lemma_reloc_tables_none(entries, k + 1, n);
    }
}

/// Address that symbol `sti` of `dynsym` stands for in a module placed at
/// `base`: 0 for the null symbol, the symbol's value past `base` when the
/// module defines it, else what the name resolves to among the kernel's
/// stubs and the loaded modules (`None` when it resolves to nothing, or
/// when it is undefined and dependencies are not searched).
pub open spec fn symbol_loc_spec(
    stubs: Seq<StubSymbol>,
    mods: Seq<LoadedModule>,
    dynsym: Seq<DynSymView>,
    base: int,
    sti: int,
    find_dependency: bool,
) -> Option<usize> {
    if sti == 0 {
        Some(0)
    } else if dynsym[sti].shndx == 0 {
        if find_dependency {
            resolve_spec(stubs, mods, dynsym[sti].name->Some_0)
        } else {
            None
        }
    } else {
        Some((base + dynsym[sti].value as usize) as usize)
    }
}

/// Looking symbol `sti` up does not fail: it is in the table, an undefined
/// one has a readable name, and a defined one's address fits.
pub open spec fn symbol_loc_ok(dynsym: Seq<DynSymView>, base: int, sti: int, find_dependency: bool) -> bool {
    sti != 0 ==> {
        &&& sti < dynsym.len()
        &&& dynsym[sti].shndx == 0 && find_dependency ==> dynsym[sti].name is Some
        &&& dynsym[sti].shndx != 0 ==> base + (dynsym[sti].value as usize) <= usize::MAX
    }
}

/// The word a relocation writes, as (address, value), once the symbol's
/// address is `sym_val`; `None` for a relocation that writes nothing.
pub open spec fn reloc_write_spec(base: int, e: RelocEntry, sym_val: Option<usize>) -> Option<(usize, usize)> {
    match sym_val {
        None => None,
        Some(v) => {
            let t = e.rtype as usize;
            if t == REL_SYMBOLIC || t == REL_GOT || t == REL_PLT {
                Some(((base + e.offset as usize) as usize, (v + e.addend as usize) as usize))
            } else if t == REL_RELATIVE {
                Some(((base + e.offset as usize) as usize, (base + e.addend as usize) as usize))
            } else {
                None
            }
        },
    }
}

/// A relocation is of a type the loader handles and its arithmetic fits,
/// once its symbol's address is `sym_val`.
pub open spec fn reloc_type_ok(base: int, e: RelocEntry, sym_val: Option<usize>) -> bool {
    sym_val matches Some(v) ==> {
        let t = e.rtype as usize;
        &&& t == REL_NONE || t == REL_SYMBOLIC || t == REL_GOT || t == REL_PLT || t == REL_RELATIVE
        &&& t != REL_NONE ==> base + e.offset as usize <= usize::MAX
        &&& (t == REL_SYMBOLIC || t == REL_GOT || t == REL_PLT) ==> v + e.addend as usize <= usize::MAX
        &&& t == REL_RELATIVE ==> base + e.addend as usize <= usize::MAX
    }
}

/// The words the relocations `entries` write, in order.
pub open spec fn reloc_writes_spec(
    stubs: Seq<StubSymbol>,
    mods: Seq<LoadedModule>,
    dynsym: Seq<DynSymView>,
    base: int,
    entries: Seq<RelocEntry>,
) -> Seq<(usize, usize)>
    decreases entries.len(),
{
    if entries.len() == 0 {
        Seq::empty()
    } else {
        let prev = reloc_writes_spec(stubs, mods, dynsym, base, entries.drop_last());
        let e = entries.last();
        let v = symbol_loc_spec(stubs, mods, dynsym, base, e.sym_index as int, true);
        match reloc_write_spec(base, e, v) {
            Some(w) => prev.push(w),
            None => prev,
        }
    }
}

/// Every relocation of `entries` can be applied without failing.
pub open spec fn relocs_ok(
    stubs: Seq<StubSymbol>,
    mods: Seq<LoadedModule>,
    dynsym: Seq<DynSymView>,
    base: int,
    entries: Seq<RelocEntry>,
) -> bool {
    forall|i: int|
        0 <= i < entries.len() ==> {
            let e = #[trigger] entries[i];
            &&& symbol_loc_ok(dynsym, base, e.sym_index as int, true)
            &&& reloc_type_ok(
                base,
                e,
                symbol_loc_spec(stubs, mods, dynsym, base, e.sym_index as int, true),
            )
        }
}

/// Index of the first section at or after `i` whose file offset is `start`.
pub open spec fn section_at(sections: Seq<SectionView>, start: usize, i: int) -> int
    decreases sections.len() - i,
{
    if i < 0 || i >= sections.len() {
        sections.len() as int
    } else if sections[i].offset as usize == start {
        i
    } else {
        section_at(sections, start, i + 1)
    }
}

/// The relocations of the table `table`: those of the first section whose
/// file offset is the table's address; none for an empty table or when no
/// section is there.
pub open spec fn table_relocs(sections: Seq<SectionView>, table: RelocTable) -> Seq<RelocEntry> {
    let j = section_at(sections, table.0, 0);
    if table.1 == 0 || j >= sections.len() {
        Seq::empty()
    } else {
        match sections[j].data {
            Some(RelocDataView::Rela(v)) => v,
            Some(RelocDataView::Rel(v)) => v,
            _ => Seq::empty(),
        }
    }
}

/// The section the table `table` names holds relocations, as the loader
/// requires of a non-empty table.
pub open spec fn table_ok(sections: Seq<SectionView>, table: RelocTable) -> bool {
    let j = section_at(sections, table.0, 0);
    (table.1 != 0 && j < sections.len()) ==> (sections[j].data matches Some(d) && !(d is Other))
}

proof fn lemma_section_at(sections: Seq<SectionView>, start: usize, i: int)
    requires
        0 <= i <= sections.len(),
    ensures
        i <= section_at(sections, start, i) <= sections.len(),
        forall|k: int| i <= k < section_at(sections, start, i) ==> (#[trigger] sections[k]).offset as usize != start,
        section_at(sections, start, i) < sections.len() ==> sections[section_at(sections, start, i)].offset as usize == start,
    decreases sections.len() - i,
{
    if i < sections.len() && sections[i].offset as usize != start {
        lemma_section_at(sections, start, i + 1);
    }
}

impl ModuleManager {
    /// Address that symbol `symbol_index` of `dynsym` stands for in a module
    /// placed at `base`; see [`symbol_loc_spec`].
    pub fn get_symbol_loc(
        &self,
        symbol_index: usize,
        dynsym: &Vec<DynSym>,
        base: usize,
        find_dependency: bool,
        this_module: usize,
    ) -> (r: Option<usize>)
        requires
            symbol_loc_ok(dynsym@.map_values(|s: DynSym| s@), base as int, symbol_index as int, find_dependency),
        ensures
            r == symbol_loc_spec(
                self.stubs(),
                self.modules(),
                dynsym@.map_values(|s: DynSym| s@),
                base as int,
                symbol_index as int,
                find_dependency,
            ),
    {
        if symbol_index == 0 {
            return Some(0);
        }
        let selected_symbol = &dynsym[symbol_index];
        if selected_symbol.shndx == 0 {
            if find_dependency {
                match &selected_symbol.name {
                    Some(name) => self.find_symbol_in_deps(name.as_str(), this_module),
                    None => None,
                }
            } else {
                None
            }
        } else {
            Some(base + selected_symbol.value as usize)
        }
    }

    /// The word one relocation writes, as (address, value): nothing when
    /// its symbol resolves to nothing or its type is `REL_NONE`; the
    /// symbol's address plus the addend for `REL_SYMBOLIC`, `REL_GOT` and
    /// `REL_PLT`; the base plus the addend for `REL_RELATIVE`.
    pub fn relocate_single_symbol(
        &self,
        base: usize,
        entry: RelocEntry,
        dynsym: &Vec<DynSym>,
        this_module: usize,
    ) -> (r: Option<(usize, usize)>)
        requires
            symbol_loc_ok(dynsym@.map_values(|s: DynSym| s@), base as int, entry.sym_index as int, true),
            reloc_type_ok(
                base as int,
                entry,
                symbol_loc_spec(
                    self.stubs(),
                    self.modules(),
                    dynsym@.map_values(|s: DynSym| s@),
                    base as int,
                    entry.sym_index as int,
                    true,
                ),
            ),
        ensures
            r == reloc_write_spec(
                base as int,
                entry,
                symbol_loc_spec(
                    self.stubs(),
                    self.modules(),
                    dynsym@.map_values(|s: DynSym| s@),
                    base as int,
                    entry.sym_index as int,
                    true,
                ),
            ),
    {
        let sym_val = self.get_symbol_loc(entry.sym_index as usize, dynsym, base, true, this_module);
        let sym_val = match sym_val {
            None => {
                return None;
            },
            Some(v) => v,
        };
        let itype = entry.rtype as usize;
        let reloc_addr = entry.offset as usize;
        let addend = entry.addend as usize;
        if itype == REL_SYMBOLIC || itype == REL_GOT || itype == REL_PLT {
            Some((base + reloc_addr, sym_val + addend))
        } else if itype == REL_RELATIVE {
            Some((base + reloc_addr, base + addend))
        } else {
            None
        }
    }

    /// The words that the relocations of `entries` write, in order.
    fn relocate_all(
        &self,
        base: usize,
        entries: &Vec<RelocEntry>,
        dynsym: &Vec<DynSym>,
        this_module: usize,
        writes: &mut Vec<(usize, usize)>,
    )
        requires
            relocs_ok(self.stubs(), self.modules(), dynsym@.map_values(|s: DynSym| s@), base as int, entries@),
        ensures
            final(writes)@ == old(writes)@ + reloc_writes_spec(
                self.stubs(),
                self.modules(),
                dynsym@.map_values(|s: DynSym| s@),
                base as int,
                entries@,
            ),
    {
        let ghost ds = dynsym@.map_values(|s: DynSym| s@);
        let mut i: usize = 0;
        while i < entries.len()
            invariant
                i <= entries@.len(),
                ds == dynsym@.map_values(|s: DynSym| s@),
                relocs_ok(self.stubs(), self.modules(), ds, base as int, entries@),
                writes@ == old(writes)@ + reloc_writes_spec(
                    self.stubs(),
                    self.modules(),
                    ds,
                    base as int,
                    entries@.subrange(0, i as int),
                ),
            decreases entries@.len() - i,
        {
            let e = entries[i];
            proof {
                assert(entries@.subrange(0, i + 1).drop_last() =~= entries@.subrange(0, i as int));
                assert(entries@.subrange(0, i + 1).last() == e);
                assert(entries@[i as int] == e);
            }
            match self.relocate_single_symbol(base, e, dynsym, this_module) {
                Some(w) => {
                    writes.push(w);
                },
                None => {},
            }
            proof {
                assert(writes@ =~= old(writes)@ + reloc_writes_spec(
                    self.stubs(),
                    self.modules(),
                    ds,
                    base as int,
                    entries@.subrange(0, i + 1),
                ));
            }
            i = i + 1;
        }
        proof {
            assert(entries@.subrange(0, entries@.len() as int) =~= entries@);
        }
    }

    /// Applies the relocation table `table`: the relocations of the first
    /// section whose file offset is the table's address; none for an empty
    /// table or when no section is there.
    #[verifier::loop_isolation(false)]
    pub fn reloc_symbols(
        &self,
        sections: &Vec<SectionInfo>,
        table: RelocTable,
        base: usize,
        dynsym: &Vec<DynSym>,
        this_module: usize,
        writes: &mut Vec<(usize, usize)>,
    )
        requires
            table_ok(sections@.map_values(|s: SectionInfo| s@), table),
            relocs_ok(
                self.stubs(),
                self.modules(),
                dynsym@.map_values(|s: DynSym| s@),
                base as int,
                table_relocs(sections@.map_values(|s: SectionInfo| s@), table),
            ),
        ensures
            final(writes)@ == old(writes)@ + reloc_writes_spec(
                self.stubs(),
                self.modules(),
                dynsym@.map_values(|s: DynSym| s@),
                base as int,
                table_relocs(sections@.map_values(|s: SectionInfo| s@), table),
            ),
    {
        let ghost sv = sections@.map_values(|s: SectionInfo| s@);
        let (start, total_size, _single_size) = table;
        if total_size == 0 {
            proof {
                assert(reloc_writes_spec(self.stubs(), self.modules(), dynsym@.map_values(|s: DynSym| s@), base as int, Seq::<RelocEntry>::empty()) =~= Seq::empty());
                assert(old(writes)@ + Seq::<(usize, usize)>::empty() =~= old(writes)@);
            }
            return;
        }
        proof {
            lemma_section_at(sv, start, 0);
        }
        let mut k: usize = 0;
        while k < sections.len()
            invariant
                k <= sections@.len(),
                *writes == *old(writes),
                forall|m: int| 0 <= m < k ==> (#[trigger] sv[m]).offset as usize != start,
            decreases sections@.len() - k,
        {
            if sections[k].offset as usize == start {
                proof {
                    assert(sv[k as int] == sections@[k as int]@);
                    assert(section_at(sv, start, 0) == k);
                }
                match &sections[k].data {
                    Some(RelocData::Rela(items)) => {
                        self.relocate_all(base, items, dynsym, this_module, writes);
                    },
                    Some(RelocData::Rel(items)) => {
                        self.relocate_all(base, items, dynsym, this_module, writes);
                    },
                    _ => {
                        proof {
                            assert(false);
                        }
                    },
                }
                return;
            }
            proof {
                assert(sv[k as int] == sections@[k as int]@);
            }
            k = k + 1;
        }
        proof {
            assert(section_at(sv, start, 0) == sections@.len());
            assert(reloc_writes_spec(self.stubs(), self.modules(), dynsym@.map_values(|s: DynSym| s@), base as int, Seq::<RelocEntry>::empty()) =~= Seq::empty());
            assert(old(writes)@ + Seq::<(usize, usize)>::empty() =~= old(writes)@);
        }
    }
}

/// Whether [`symbol_loc_ok`] holds.
fn symbol_loc_valid(dynsym: &Vec<DynSym>, base: usize, sti: usize, find_dependency: bool) -> (r: bool)
    ensures
        r == symbol_loc_ok(dynsym@.map_values(|s: DynSym| s@), base as int, sti as int, find_dependency),
{
    if sti == 0 {
        return true;
    }
    if sti >= dynsym.len() {
        return false;
    }
    let sym = &dynsym[sti];
    proof {
        assert(dynsym@.map_values(|s: DynSym| s@)[sti as int] == sym@);
    }
    if sym.shndx == 0 {
        !find_dependency || sym.name.is_some()
    } else {
        (sym.value as usize) <= usize::MAX - base
    }
}

/// Whether [`reloc_type_ok`] holds.
fn reloc_type_valid(base: usize, e: RelocEntry, sym_val: Option<usize>) -> (r: bool)
    ensures
        r == reloc_type_ok(base as int, e, sym_val),
{
    match sym_val {
        None => true,
        Some(v) => {
            let t = e.rtype as usize;
            if !(t == REL_NONE || t == REL_SYMBOLIC || t == REL_GOT || t == REL_PLT || t == REL_RELATIVE) {
                return false;
            }
            if t != REL_NONE && (e.offset as usize) > usize::MAX - base {
                return false;
            }
            if (t == REL_SYMBOLIC || t == REL_GOT || t == REL_PLT) && (e.addend as usize) > usize::MAX - v {
                return false;
            }
            if t == REL_RELATIVE && (e.addend as usize) > usize::MAX - base {
                return false;
            }
            true
        },
    }
}

/// The relocations of the table `table` (see [`table_relocs`]), and
/// whether [`table_ok`] holds of it.
#[verifier::loop_isolation(false)]
fn table_entries(sections: &Vec<SectionInfo>, table: RelocTable) -> (r: (bool, Vec<RelocEntry>))
    ensures
        r.0 == table_ok(sections@.map_values(|s: SectionInfo| s@), table),
        r.1@ == table_relocs(sections@.map_values(|s: SectionInfo| s@), table),
{
    let ghost sv = sections@.map_values(|s: SectionInfo| s@);
    let (start, total_size, _single_size) = table;
    proof {
        lemma_section_at(sv, start, 0);
    }
    let mut k: usize = 0;
    while k < sections.len()
        invariant
            k <= sections@.len(),
            sv == sections@.map_values(|s: SectionInfo| s@),
            forall|m: int| 0 <= m < k ==> (#[trigger] sv[m]).offset as usize != start,
        decreases sections@.len() - k,
    {
        proof {
            assert(sv[k as int] == sections@[k as int]@);
        }
        if sections[k].offset as usize == start {
            proof {
                assert(section_at(sv, start, 0) == k);
            }
            if total_size == 0 {
                return (true, Vec::new());
            }
            return match &sections[k].data {
                Some(RelocData::Rela(items)) => (true, items.clone()),
                Some(RelocData::Rel(items)) => (true, items.clone()),
                Some(RelocData::Other) => (false, Vec::new()),
                None => (false, Vec::new()),
            };
        }
        k = k + 1;
    }
    proof {
        assert(section_at(sv, start, 0) == sections@.len());
    }
    (true, Vec::new())
}

impl ModuleManager {
    /// Whether [`relocs_ok`] holds of `entries`.
    fn entries_valid(&self, base: usize, entries: &Vec<RelocEntry>, dynsym: &Vec<DynSym>) -> (r: bool)
        ensures
            r == relocs_ok(self.stubs(), self.modules(), dynsym@.map_values(|s: DynSym| s@), base as int, entries@),
    {
        let ghost dv = dynsym@.map_values(|s: DynSym| s@);
        let mut i: usize = 0;
        while i < entries.len()
            invariant
                i <= entries@.len(),
                dv == dynsym@.map_values(|s: DynSym| s@),
                forall|k: int| 0 <= k < i ==> {
                    let e = #[trigger] entries@[k];
                    &&& symbol_loc_ok(dv, base as int, e.sym_index as int, true)
                    &&& reloc_type_ok(base as int, e, symbol_loc_spec(self.stubs(), self.modules(), dv, base as int, e.sym_index as int, true))
                },
            decreases entries@.len() - i,
        {
            let e = entries[i];
            if !symbol_loc_valid(dynsym, base, e.sym_index as usize, true) {
                return false;
            }
            let v = self.get_symbol_loc(e.sym_index as usize, dynsym, base, true, 0);
            if !reloc_type_valid(base, e, v) {
                return false;
            }
            i = i + 1;
        }
        true
    }

    /// Whether [`module_relocs_ok`] holds: a caller tests it before loading
    /// the module from `info` at `base`.
    pub fn module_relocs_valid(&self, info: &ElfModuleInfo, base: usize) -> (r: bool)
        ensures
            r == module_relocs_ok(self, info, base as int),
    {
        let dynsym = match &info.dynsym {
            Some(d) => d,
            None => {
                return true;
            },
        };
        let dynamic = match &info.dynamic {
            Some(d) => d,
            None => {
                return true;
            },
        };
        let tables = match reloc_tables(dynamic) {
            Some(t) => t,
            None => {
                return true;
            },
        };
        let (ok0, e0) = table_entries(&info.sections, tables.0);
        let (ok1, e1) = table_entries(&info.sections, tables.1);
        let (ok2, e2) = table_entries(&info.sections, tables.2);
        ok0 && ok1 && ok2 && self.entries_valid(base, &e0, dynsym) && self.entries_valid(base, &e1, dynsym)
            && self.entries_valid(base, &e2, dynsym)
    }
}

/// The words the three relocation tables `tables` write, in order.
pub open spec fn module_writes_spec(
    stubs: Seq<StubSymbol>,
    mods: Seq<LoadedModule>,
    dynsym: Seq<DynSymView>,
    base: int,
    sections: Seq<SectionView>,
    tables: (RelocTable, RelocTable, RelocTable),
) -> Seq<(usize, usize)> {
    reloc_writes_spec(stubs, mods, dynsym, base, table_relocs(sections, tables.0))
        + reloc_writes_spec(stubs, mods, dynsym, base, table_relocs(sections, tables.1))
        + reloc_writes_spec(stubs, mods, dynsym, base, table_relocs(sections, tables.2))
}

/// Relocating the module does not fail: each relocation table names a
/// section of relocations, and each relocation can be applied.
pub open spec fn module_relocs_ok(mgr: &ModuleManager, info: &ElfModuleInfo, base: int) -> bool {
    match (info.dynsym, info.dynamic) {
        (Some(ds), Some(dy)) => match reloc_tables_spec(dy@, dy@.len() as int) {
            Some(t) => {
                let sv = info.sections@.map_values(|s: SectionInfo| s@);
                let dv = ds@.map_values(|s: DynSym| s@);
                &&& table_ok(sv, t.0)
                &&& table_ok(sv, t.1)
                &&& table_ok(sv, t.2)
                &&& relocs_ok(mgr.stubs(), mgr.modules(), dv, base, table_relocs(sv, t.0))
                &&& relocs_ok(mgr.stubs(), mgr.modules(), dv, base, table_relocs(sv, t.1))
                &&& relocs_ok(mgr.stubs(), mgr.modules(), dv, base, table_relocs(sv, t.2))
            },
            None => true,
        },
        _ => true,
    }
}

/// The record of a freshly loaded module `name` occupying `vspace`: it
/// exports nothing yet, nothing depends on it, it holds the one reference
/// to itself, and it is ready.
pub open spec fn fresh_module(m: LoadedModule, name: Seq<char>, vspace: (usize, usize)) -> bool {
    &&& m.name@ == name
    &&& m.exported_symbols@.len() == 0
    &&& m.used_counts == 0
    &&& m.using_counts == 1
    &&& m.vspace == vspace
    &&& m.state == ModuleState::Ready
}

impl ModuleManager {
    /// Loads module `module_name` from `info` into the area `vspace` (start
    /// and length) that the caller found for the layout that
    /// [`init_module_layout`] gave. Refused, with nothing to map and nothing
    /// changed, when a module of that name is loaded, when the file is a
    /// 32-bit one or when it is not a shared object. Otherwise returns the
    /// pages to map for its segments, and then either the words that
    /// relocation writes into the module, in order, with the module
    /// registered as loaded, or an error when the file has no readable
    /// `.dynsym` or `.dynamic` table or a dynamic entry has an invalid tag.
    pub fn init_module(&mut self, module_name: &str, info: &ElfModuleInfo, vspace: (usize, usize)) -> (r: (
        Vec<SegmentMap>,
        Result<Vec<(usize, usize)>, ()>,
    ))
        requires
            module_acceptable(old(self), module_name@, info) ==> {
                &&& program_headers_ok(info.program_headers@)
                &&& vspace.0 + load_max(info.program_headers@) <= usize::MAX - PAGE_SIZE + 1
                &&& module_relocs_ok(old(self), info, vspace.0 as int)
            },
        ensures
            !module_acceptable(old(self), module_name@, info) ==> {
                &&& r.0@.len() == 0
                &&& r.1 is Err
                &&& final(self).stubs() == old(self).stubs()
                &&& final(self).modules() == old(self).modules()
            },
            module_acceptable(old(self), module_name@, info) ==> r.0@ == segment_maps_spec(
                info.program_headers@,
                vspace.0 as int,
                info.program_headers@.len() as int,
            ),
            module_acceptable(old(self), module_name@, info) ==> (r.1 is Err <==> (info.dynsym is None
                || info.dynamic is None || reloc_tables_spec(
                info.dynamic->Some_0@,
                info.dynamic->Some_0@.len() as int,
            ) is None)),
            r.1 is Err ==> final(self).stubs() == old(self).stubs() && final(self).modules() == old(self).modules(),
            r.1 matches Ok(w) ==> {
                &&& w@ == module_writes_spec(
                    old(self).stubs(),
                    old(self).modules(),
                    info.dynsym->Some_0@.map_values(|s: DynSym| s@),
                    vspace.0 as int,
                    info.sections@.map_values(|s: SectionInfo| s@),
                    reloc_tables_spec(info.dynamic->Some_0@, info.dynamic->Some_0@.len() as int)->Some_0,
                )
                &&& final(self).stubs() == old(self).stubs()
                &&& final(self).modules().len() == old(self).modules().len() + 1
                &&& final(self).modules().drop_last() == old(self).modules()
                &&& fresh_module(final(self).modules().last(), module_name@, vspace)
            },
    {
        if self.is_loaded(module_name) || info.header.is_32 {
            return (Vec::new(), Err(()));
        }
        match info.header.kind {
            ElfKind::SharedObject => {},
            _ => {
                return (Vec::new(), Err(()));
            },
        }
        let base = vspace.0;
        let segments = segment_maps(&info.program_headers, base);
        let dynsym = match &info.dynsym {
            Some(d) => d,
            None => {
                return (segments, Err(()));
            },
        };
        let dynamic = match &info.dynamic {
            Some(d) => d,
            None => {
                return (segments, Err(()));
            },
        };
        let tables = match reloc_tables(dynamic) {
            Some(t) => t,
            None => {
                return (segments, Err(()));
            },
        };
        let this_module: usize = 0;
        let mut writes: Vec<(usize, usize)> = Vec::new();
        self.reloc_symbols(&info.sections, tables.0, base, dynsym, this_module, &mut writes);
        self.reloc_symbols(&info.sections, tables.1, base, dynsym, this_module, &mut writes);
        self.reloc_symbols(&info.sections, tables.2, base, dynsym, this_module, &mut writes);
        let loaded = LoadedModule {
            name: String::from_str(module_name),
            exported_symbols: Vec::new(),
            used_counts: 0,
            using_counts: 1,
            vspace,
            state: ModuleState::Ready,
        };
        self.push_module(loaded);
        proof {
            assert(self.modules().drop_last() =~= old(self).modules());
        }
        (segments, Ok(writes))
    }
}

} // verus!
