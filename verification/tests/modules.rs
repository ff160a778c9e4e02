use rcore_n::elf::{
    dynamic_table, dynsym_table, symbol_table, DynEntry, DynSym, DynTag, ElfHeaderInfo, ElfKind, ElfModuleInfo, ElfSymbol,
    ProgramHeaderInfo, RelocData, RelocEntry, SectionInfo,
};
use rcore_n::lkm::{get_symbol_addr, kernel_rt, user_rt, LoadedModule, ModuleManager, ModuleState, ModuleSymbol};
use rcore_n::loader::{init_module_layout, reloc_tables, segment_maps, SegmentMap, REL_RELATIVE, REL_SYMBOLIC};

fn ph(load: bool, vaddr: u64, mem_size: u64, write: bool, execute: bool) -> ProgramHeaderInfo {
    ProgramHeaderInfo { load: Some(load), vaddr, mem_size, offset: 0, read: true, write, execute }
}

fn dynsym(name: &str, shndx: u16, value: u64) -> DynSym {
    DynSym { name: Some(name.to_string()), shndx, value }
}

fn module_info(dynamic: Option<Vec<DynEntry>>) -> ElfModuleInfo {
    ElfModuleInfo {
        header: ElfHeaderInfo { is_32: false, kind: ElfKind::SharedObject },
        program_headers: vec![ph(true, 0x1000, 0x1800, false, true), ph(false, 0, 0x10, false, false), ph(true, 0x3000, 0x100, true, false)],
        dynsym: Some(vec![dynsym("", 0, 0), dynsym("local", 5, 0x20), dynsym("put_str", 0, 0)]),
        dynamic,
        sections: vec![
            SectionInfo { offset: 0, data: Some(RelocData::Other) },
            SectionInfo {
                offset: 0x400,
                data: Some(RelocData::Rela(vec![
                    RelocEntry { offset: 0x8, addend: 0x4, sym_index: 1, rtype: 2 },
                    RelocEntry { offset: 0x10, addend: 0x40, sym_index: 0, rtype: 3 },
                    RelocEntry { offset: 0x18, addend: 0, sym_index: 2, rtype: 5 },
                    RelocEntry { offset: 0x20, addend: 0, sym_index: 0, rtype: 0 },
                ])),
            },
        ],
    }
}

fn rela_dynamic() -> Vec<DynEntry> {
    vec![
        DynEntry { tag: Some(DynTag::Rela), value: 0x400 },
        DynEntry { tag: Some(DynTag::RelaSize), value: 96 },
        DynEntry { tag: Some(DynTag::Other), value: 0 },
    ]
}

fn manager_with_put_str() -> ModuleManager {
    let mut m = ModuleManager::new();
    m.insert_stub("put_str", ModuleSymbol::create_symbol("put_char", 0xdead));
    m
}

#[test]
fn stubs_resolve_before_modules() {
    let mut m = ModuleManager::new();
    assert_eq!(m.resolve_symbol("alloc"), None);
    m.push_module(LoadedModule {
        name: "a".to_string(),
        exported_symbols: vec![ModuleSymbol::create_symbol("alloc", 0x10), ModuleSymbol::create_symbol("f", 0x11)],
        used_counts: 0,
        using_counts: 1,
        vspace: (0x1000, 0x1000),
        state: ModuleState::Ready,
    });
    m.push_module(LoadedModule {
        name: "b".to_string(),
        exported_symbols: vec![ModuleSymbol::create_symbol("f", 0x21)],
        used_counts: 0,
        using_counts: 1,
        vspace: (0x2000, 0x1000),
        state: ModuleState::Ready,
    });
    // the most recently loaded module first
    assert_eq!(m.resolve_symbol("f"), Some(0x21));
    assert_eq!(m.resolve_symbol("alloc"), Some(0x10));
    m.insert_stub("alloc", ModuleSymbol::create_symbol("alloc", 0x99));
    assert_eq!(m.resolve_symbol("alloc"), Some(0x99));
    // a stub under the same key replaces the former one
    m.insert_stub("alloc", ModuleSymbol::create_symbol("alloc", 0x98));
    assert_eq!(m.find_symbol_in_deps("alloc", 0), Some(0x98));
    assert!(m.is_loaded("a") && m.is_loaded("b") && !m.is_loaded("c"));
}

#[test]
fn unloading_is_always_refused() {
    let mut m = ModuleManager::new();
    assert_eq!(m.delete_module("x", 0), Err(()));
    m.push_module(LoadedModule {
        name: "x".to_string(),
        exported_symbols: vec![],
        used_counts: 0,
        using_counts: 1,
        vspace: (0, 0),
        state: ModuleState::Ready,
    });
    assert_eq!(m.delete_module("x", 0), Err(()));
    assert!(m.is_loaded("x"));
}

#[test]
fn grab_counts_references() {
    let mut lm = LoadedModule {
        name: "x".to_string(),
        exported_symbols: vec![],
        used_counts: 0,
        using_counts: 1,
        vspace: (0, 0),
        state: ModuleState::Ready,
    };
    let _r = lm.grab();
    assert_eq!(lm.using_counts, 2);
}

fn sym(name: &str, value: u64) -> ElfSymbol {
    ElfSymbol { name: Some(name.to_string()), value }
}

#[test]
fn runtime_symbols() {
    let k = kernel_rt(1, 2, 3, 4, 5);
    let keys: Vec<&str> = k.iter().map(|s| s.key.as_str()).collect();
    assert_eq!(keys, vec!["put_str", "alloc", "dealloc", "main", "executor_ptr"]);
    assert_eq!(k[0].symbol.name, "put_char");
    let locs: Vec<usize> = k.iter().map(|s| s.symbol.loc).collect();
    assert_eq!(locs, vec![1, 2, 3, 4, 5]);

    let symtab = vec![sym("main", 0x40), sym("put_str", 0x10), sym("main", 0x50), sym("other", 7)];
    // the last symbol of that name wins; a missing one is 0
    assert_eq!(get_symbol_addr(&symtab, "main"), 0x50);
    assert_eq!(get_symbol_addr(&symtab, "alloc"), 0);
    let u = user_rt(&symtab);
    let locs: Vec<usize> = u.iter().map(|s| s.symbol.loc).collect();
    assert_eq!(locs, vec![0x10, 0, 0, 0x50, 0]);
    assert_eq!(u[0].symbol.name, "put_str");
}

#[test]
fn module_layout_is_page_aligned() {
    let m = ModuleManager::new();
    let info = module_info(Some(rela_dynamic()));
    assert_eq!(init_module_layout(&m, "mod", &info), Ok((0x1000, 0x3000)));
}

#[test]
fn module_layout_refusals() {
    let m = manager_with_put_str();
    let mut info = module_info(None);
    info.header.is_32 = true;
    assert_eq!(init_module_layout(&m, "mod", &info), Err(()));
    info.header = ElfHeaderInfo { is_32: false, kind: ElfKind::Executable };
    assert_eq!(init_module_layout(&m, "mod", &info), Err(()));
    info.header.kind = ElfKind::Other;
    assert_eq!(init_module_layout(&m, "mod", &info), Err(()));
    let mut m = m;
    m.push_module(LoadedModule {
        name: "mod".to_string(),
        exported_symbols: vec![],
        used_counts: 0,
        using_counts: 1,
        vspace: (0, 0),
        state: ModuleState::Ready,
    });
    let info = module_info(None);
    assert_eq!(init_module_layout(&m, "mod", &info), Err(()));
}

#[test]
fn segments_to_map() {
    let info = module_info(None);
    let maps = segment_maps(&info.program_headers, 0x10_0000);
    assert!(maps == vec![
        SegmentMap { start_vpn: 0x101, end_vpn: 0x103, read: true, write: false, execute: true, ph_index: 0 },
        SegmentMap { start_vpn: 0x103, end_vpn: 0x104, read: true, write: true, execute: false, ph_index: 2 },
    ]);
}

#[test]
fn relocation_tables_from_dynamic_entries() {
    assert_eq!(reloc_tables(&vec![]), Some(((0, 0, 0), (0, 0, 16), (0, 0, 24))));
    let entries = vec![
        DynEntry { tag: Some(DynTag::JmpRel), value: 0x500 },
        DynEntry { tag: Some(DynTag::PltRelSize), value: 48 },
        DynEntry { tag: Some(DynTag::PltRel), value: 7 },
        DynEntry { tag: Some(DynTag::Rel), value: 0x600 },
        DynEntry { tag: Some(DynTag::RelSize), value: 32 },
        DynEntry { tag: Some(DynTag::Rela), value: 0x400 },
        DynEntry { tag: Some(DynTag::RelaSize), value: 96 },
    ];
    assert_eq!(reloc_tables(&entries), Some(((0x500, 48, 24), (0x600, 32, 16), (0x400, 96, 24))));
    let bad = vec![DynEntry { tag: Some(DynTag::Rela), value: 1 }, DynEntry { tag: None, value: 0 }];
    assert_eq!(reloc_tables(&bad), None);
}

#[test]
fn single_relocations() {
    let m = manager_with_put_str();
    let info = module_info(None);
    let ds = info.dynsym.as_ref().unwrap();
    let base = 0x10_0000;
    let e = RelocEntry { offset: 0x8, addend: 0x4, sym_index: 1, rtype: REL_SYMBOLIC as u32 };
    assert_eq!(m.relocate_single_symbol(base, e, ds, 0), Some((0x10_0008, 0x10_0024)));
    let e = RelocEntry { offset: 0x10, addend: 0x40, sym_index: 0, rtype: REL_RELATIVE as u32 };
    assert_eq!(m.relocate_single_symbol(base, e, ds, 0), Some((0x10_0010, 0x10_0040)));
    let e = RelocEntry { offset: 0x18, addend: 1, sym_index: 2, rtype: 5 };
    assert_eq!(m.relocate_single_symbol(base, e, ds, 0), Some((0x10_0018, 0xdeae)));
    assert_eq!(m.get_symbol_loc(2, ds, base, false, 0), None);
    assert_eq!(m.get_symbol_loc(1, ds, base, false, 0), Some(0x10_0020));
    // an undefined symbol nothing offers: nothing is written
    let empty = ModuleManager::new();
    assert_eq!(empty.relocate_single_symbol(base, e, ds, 0), None);
}

#[test]
fn loading_a_module() {
    let mut m = manager_with_put_str();
    let info = module_info(Some(rela_dynamic()));
    let (start, len) = init_module_layout(&m, "mod", &info).unwrap();
    assert_eq!((start, len), (0x1000, 0x3000));
    let (maps, writes) = m.init_module("mod", &info, (0x10_0000, len));
    assert_eq!(maps.len(), 2);
    assert_eq!(writes, Ok(vec![(0x10_0008, 0x10_0024), (0x10_0010, 0x10_0040), (0x10_0018, 0xdead)]));
    assert!(m.is_loaded("mod"));
    // a second load of the same name is refused
    assert_eq!(init_module_layout(&m, "mod", &info), Err(()));
    let (maps, writes) = m.init_module("mod", &info, (0x20_0000, len));
    assert!(maps.is_empty());
    assert_eq!(writes, Err(()));
}

#[test]
fn loading_refuses_32_bit_and_executable_files() {
    let mut m = manager_with_put_str();
    let mut info = module_info(Some(rela_dynamic()));
    info.header.is_32 = true;
    let (maps, writes) = m.init_module("mod", &info, (0x10_0000, 0x3000));
    assert!(maps.is_empty());
    assert_eq!(writes, Err(()));
    info.header.is_32 = false;
    info.header.kind = ElfKind::Executable;
    let (maps, writes) = m.init_module("mod", &info, (0x10_0000, 0x3000));
    assert!(maps.is_empty());
    assert_eq!(writes, Err(()));
    assert!(!m.is_loaded("mod"));
}

#[test]
fn loading_without_dynamic_table_fails() {
    let mut m = manager_with_put_str();
    let info = module_info(None);
    let (maps, writes) = m.init_module("mod", &info, (0x10_0000, 0x3000));
    assert_eq!(maps.len(), 2);
    assert_eq!(writes, Err(()));
    assert!(!m.is_loaded("mod"));
}

/// A 64-bit ELF header of a shared object with `phnum` program headers
/// right after it, followed by those headers.
fn elf_bytes(phs: &[(u32, u32, u64, u64)]) -> Vec<u8> {
    let mut v = vec![0x7f, b'E', b'L', b'F', 2, 1, 1, 0, 0, 0, 0, 0, 0, 0, 0, 0];
    v.extend_from_slice(&3u16.to_le_bytes()); // shared object
    v.extend_from_slice(&0xf3u16.to_le_bytes());
    v.extend_from_slice(&1u32.to_le_bytes());
    v.extend_from_slice(&0u64.to_le_bytes()); // entry
    v.extend_from_slice(&(if phs.is_empty() { 0u64 } else { 64u64 }).to_le_bytes());
    v.extend_from_slice(&0u64.to_le_bytes()); // section headers
    v.extend_from_slice(&0u32.to_le_bytes());
    v.extend_from_slice(&64u16.to_le_bytes());
    v.extend_from_slice(&56u16.to_le_bytes());
    v.extend_from_slice(&(phs.len() as u16).to_le_bytes());
    v.extend_from_slice(&64u16.to_le_bytes());
    v.extend_from_slice(&0u16.to_le_bytes());
    v.extend_from_slice(&0u16.to_le_bytes());
    assert_eq!(v.len(), 64);
    for &(ptype, flags, vaddr, memsz) in phs {
        v.extend_from_slice(&ptype.to_le_bytes());
        v.extend_from_slice(&flags.to_le_bytes());
        v.extend_from_slice(&0u64.to_le_bytes());
        v.extend_from_slice(&vaddr.to_le_bytes());
        v.extend_from_slice(&vaddr.to_le_bytes());
        v.extend_from_slice(&memsz.to_le_bytes());
        v.extend_from_slice(&memsz.to_le_bytes());
        v.extend_from_slice(&0x1000u64.to_le_bytes());
    }
    v
}

#[test]
fn parse_refuses_what_is_not_elf() {
    assert!(ElfModuleInfo::parse(b"not an elf file at all, definitely not").is_none());
    assert!(ElfModuleInfo::parse(&[]).is_none());
    assert!(symbol_table(&[0x7f, b'E', b'L']).is_none());
}

#[test]
fn parse_reads_header_and_program_headers() {
    let bytes = elf_bytes(&[(1, 0b101, 0x1000, 0x1800), (6, 0b100, 0x40, 0x38), (1, 0b110, 0x3000, 0x100)]);
    let data = bytes;
    let info = ElfModuleInfo::parse(&data).unwrap();
    assert!(info.header == ElfHeaderInfo { is_32: false, kind: ElfKind::SharedObject });
    assert_eq!(info.program_headers.len(), 3);
    assert!(info.program_headers[0] == ProgramHeaderInfo { load: Some(true), vaddr: 0x1000, mem_size: 0x1800, offset: 0, read: true, write: false, execute: true });
    assert!(info.program_headers[1].load == Some(false));
    assert!(info.program_headers[2].write && !info.program_headers[2].execute);
    assert!(info.dynsym.is_none());
    assert!(info.dynamic.is_none());
    assert!(info.sections.is_empty());
    assert!(matches!(symbol_table(&data), Some(None)));
    assert!(matches!(dynsym_table(&data), Some(None)));
    assert!(matches!(dynamic_table(&data), Some(None)));
    assert!(dynamic_table(b"garbage").is_none());
    // the layout the loader computes from what was read
    let m = ModuleManager::new();
    assert_eq!(init_module_layout(&m, "m", &info), Ok((0x1000, 0x3000)));
}

fn align8(v: &mut Vec<u8>) {
    while v.len() % 8 != 0 {
        v.push(0);
    }
}

fn push_sym(v: &mut Vec<u8>, name: u32, shndx: u16, value: u64) {
    v.extend_from_slice(&name.to_le_bytes());
    v.push(0x12); // global function
    v.push(0);
    v.extend_from_slice(&shndx.to_le_bytes());
    v.extend_from_slice(&value.to_le_bytes());
    v.extend_from_slice(&0u64.to_le_bytes());
}

/// A 64-bit shared object with one loadable segment and the sections
/// `.shstrtab`, `.dynsym`, `.dynstr`, `.dynamic`, `.symtab`, `.strtab` and
/// `.rela.dyn`; returns the bytes and the offset of `.rela.dyn`.
fn module_file() -> (Vec<u8>, u64) {
    let shstr = b"\0.shstrtab\0.dynsym\0.dynstr\0.dynamic\0.symtab\0.strtab\0.rela.dyn\0";
    let name_of = |s: &str| -> u32 {
        let pat = format!("\0{}\0", s);
        (shstr.windows(pat.len()).position(|w| w == pat.as_bytes()).unwrap() + 1) as u32
    };
    let mut body: Vec<u8> = Vec::new();
    // sections' contents, right after the header and the program header
    let base = 120usize;
    let mut offs = Vec::new();
    let mut sizes = Vec::new();
    let mut add = |body: &mut Vec<u8>, bytes: Vec<u8>| {
        align8(body);
        offs.push((base + body.len()) as u64);
        sizes.push(bytes.len() as u64);
        body.extend_from_slice(&bytes);
    };
    add(&mut body, shstr.to_vec());
    add(&mut body, b"\0put_str\0local\0".to_vec());
    let mut dynsym = Vec::new();
    push_sym(&mut dynsym, 0, 0, 0);
    push_sym(&mut dynsym, 1, 0, 0);
    push_sym(&mut dynsym, 9, 5, 0x20);
    add(&mut body, dynsym);
    // .dynamic comes before .rela.dyn is placed: its offset is computed below
    let rela_off_guess = 0u64;
    let mut dynamic = Vec::new();
    for (tag, val) in [(7i64, rela_off_guess), (8, 48), (0, 0)] {
        dynamic.extend_from_slice(&tag.to_le_bytes());
        dynamic.extend_from_slice(&val.to_le_bytes());
    }
    add(&mut body, dynamic);
    add(&mut body, b"\0main\0alloc\0".to_vec());
    let mut symtab = Vec::new();
    push_sym(&mut symtab, 0, 0, 0);
    push_sym(&mut symtab, 1, 5, 0x40);
    push_sym(&mut symtab, 6, 5, 0x50);
    add(&mut body, symtab);
    let mut rela = Vec::new();
    for (off, sym, ty, addend) in [(0x8u64, 2u64, 2u64, 4i64), (0x18, 1, 5, 0)] {
        rela.extend_from_slice(&off.to_le_bytes());
        rela.extend_from_slice(&((sym << 32) | ty).to_le_bytes());
        rela.extend_from_slice(&addend.to_le_bytes());
    }
    add(&mut body, rela);
    align8(&mut body);
    let shoff = (base + body.len()) as u64;
    let rela_off = offs[6];
    // patch DT_RELA with the offset of .rela.dyn
    let dyn_pos = (offs[3] as usize) - base + 8;
    body[dyn_pos..dyn_pos + 8].copy_from_slice(&rela_off.to_le_bytes());

    let mut v = vec![0x7f, b'E', b'L', b'F', 2, 1, 1, 0, 0, 0, 0, 0, 0, 0, 0, 0];
    v.extend_from_slice(&3u16.to_le_bytes());
    v.extend_from_slice(&0xf3u16.to_le_bytes());
    v.extend_from_slice(&1u32.to_le_bytes());
    v.extend_from_slice(&0u64.to_le_bytes());
    v.extend_from_slice(&64u64.to_le_bytes());
    v.extend_from_slice(&shoff.to_le_bytes());
    v.extend_from_slice(&0u32.to_le_bytes());
    v.extend_from_slice(&64u16.to_le_bytes());
    v.extend_from_slice(&56u16.to_le_bytes());
    v.extend_from_slice(&1u16.to_le_bytes());
    v.extend_from_slice(&64u16.to_le_bytes());
    v.extend_from_slice(&8u16.to_le_bytes());
    v.extend_from_slice(&1u16.to_le_bytes());
    // the loadable segment
    v.extend_from_slice(&1u32.to_le_bytes());
    v.extend_from_slice(&0b101u32.to_le_bytes());
    v.extend_from_slice(&0u64.to_le_bytes());
    v.extend_from_slice(&0u64.to_le_bytes());
    v.extend_from_slice(&0u64.to_le_bytes());
    v.extend_from_slice(&0x100u64.to_le_bytes());
    v.extend_from_slice(&0x100u64.to_le_bytes());
    v.extend_from_slice(&0x1000u64.to_le_bytes());
    align8(&mut v);
    assert_eq!(v.len(), base);
    v.extend_from_slice(&body);
    // section headers: null, then the seven sections
    v.extend_from_slice(&[0u8; 64]);
    let specs: [(&str, u32, u32, u64); 7] = [
        (".shstrtab", 3, 0, 0),
        (".dynsym", 11, 3, 24),
        (".dynstr", 3, 0, 0),
        (".dynamic", 6, 3, 16),
        (".strtab", 3, 0, 0),
        (".symtab", 2, 5, 24),
        (".rela.dyn", 4, 2, 24),
    ];
    // contents were added in the order shstrtab, dynstr, dynsym, dynamic,
    // strtab, symtab, rela.dyn
    let content = [0usize, 2, 1, 3, 4, 5, 6];
    for (i, (name, ty, link, entsize)) in specs.iter().enumerate() {
        let c = content[i];
        v.extend_from_slice(&name_of(*name).to_le_bytes());
        v.extend_from_slice(&ty.to_le_bytes());
        v.extend_from_slice(&0u64.to_le_bytes());
        v.extend_from_slice(&0u64.to_le_bytes());
        v.extend_from_slice(&offs[c].to_le_bytes());
        v.extend_from_slice(&sizes[c].to_le_bytes());
        v.extend_from_slice(&link.to_le_bytes());
        v.extend_from_slice(&0u32.to_le_bytes());
        v.extend_from_slice(&8u64.to_le_bytes());
        v.extend_from_slice(&entsize.to_le_bytes());
    }
    (v, rela_off)
}

#[test]
fn parse_reads_dynamic_symbols_sections_and_symbols() {
    let (data, rela_off) = module_file();
    let dynsym = dynsym_table(&data).unwrap().unwrap();
    let names: Vec<Option<String>> = dynsym.iter().map(|s| s.name.clone()).collect();
    assert_eq!(names, vec![Some(String::new()), Some("put_str".to_string()), Some("local".to_string())]);
    assert_eq!((dynsym[2].shndx, dynsym[2].value), (5, 0x20));
    let dynamic = dynamic_table(&data).unwrap().unwrap();
    assert!(dynamic[0] == DynEntry { tag: Some(DynTag::Rela), value: rela_off });
    assert!(dynamic[1] == DynEntry { tag: Some(DynTag::RelaSize), value: 48 });
    assert!(dynamic[2].tag == Some(DynTag::Other));
    let symtab = symbol_table(&data).unwrap().unwrap();
    assert_eq!(get_symbol_addr(&symtab, "alloc"), 0x50);
    assert_eq!(user_rt(&symtab)[3].symbol.loc, 0x40);
    let info = ElfModuleInfo::parse(&data).unwrap();
    assert_eq!(info.sections.len(), 8);
    assert_eq!(info.sections[7].offset, rela_off);
    match &info.sections[7].data {
        Some(RelocData::Rela(entries)) => {
            assert!(entries[0] == RelocEntry { offset: 0x8, addend: 4, sym_index: 2, rtype: 2 });
            assert!(entries[1] == RelocEntry { offset: 0x18, addend: 0, sym_index: 1, rtype: 5 });
        }
        _ => panic!("expected relocations"),
    }
    assert!(matches!(info.sections[1].data, Some(RelocData::Other)));

    // loading it: the relocations resolve against the module and the stubs
    let mut m = manager_with_put_str();
    let (start, len) = init_module_layout(&m, "file", &info).unwrap();
    assert_eq!((start, len), (0, 0x1000));
    assert!(m.module_relocs_valid(&info, 0x10_0000));
    let (maps, writes) = m.init_module("file", &info, (0x10_0000, len));
    assert_eq!(maps.len(), 1);
    assert_eq!(writes, Ok(vec![(0x10_0008, 0x10_0024), (0x10_0018, 0xdead)]));
}

fn find(data: &[u8], pat: &[u8]) -> usize {
    data.windows(pat.len()).position(|w| w == pat).unwrap()
}

#[test]
fn parse_does_not_depend_on_where_the_bytes_lie() {
    let (data, rela_off) = module_file();
    // the same file one byte into a buffer: not aligned for its headers
    let mut shifted = vec![0u8];
    shifted.extend_from_slice(&data);
    let info = ElfModuleInfo::parse(&shifted[1..]).unwrap();
    assert_eq!(info.sections.len(), 8);
    assert_eq!(info.sections[7].offset, rela_off);
    assert_eq!(info.dynsym.as_ref().unwrap()[1].name.as_deref(), Some("put_str"));
    assert!(dynamic_table(&shifted[1..]).unwrap().is_some());
}

#[test]
fn parse_refuses_a_section_table_past_the_end() {
    let (data, _) = module_file();
    // cut the file inside its section headers
    let cut = &data[..data.len() - 32];
    assert!(ElfModuleInfo::parse(cut).is_none());
    assert!(dynamic_table(cut).is_none());
    assert!(dynsym_table(cut).is_none());
}

#[test]
fn unreadable_names_read_as_none() {
    let (mut data, _) = module_file();
    // a symbol name that is not ASCII: only that name is unreadable
    let p = find(&data, b"put_str");
    data[p] = 0xff;
    let dynsym = dynsym_table(&data).unwrap().unwrap();
    let names: Vec<Option<String>> = dynsym.iter().map(|s| s.name.clone()).collect();
    assert_eq!(names, vec![Some(String::new()), None, Some("local".to_string())]);
    // a section name that is not ASCII: no section can be looked up by name
    let (mut data, _) = module_file();
    let q = find(&data, b".rela.dyn");
    data[q + 1] = 0xff;
    assert!(matches!(dynsym_table(&data), Some(None)));
    assert!(matches!(dynamic_table(&data), Some(None)));
    assert!(matches!(symbol_table(&data), Some(None)));
    let info = ElfModuleInfo::parse(&data).unwrap();
    assert!(info.dynsym.is_none() && info.dynamic.is_none());
    // the sections themselves are read by index
    assert_eq!(info.sections.len(), 8);
    assert!(matches!(info.sections[7].data, Some(RelocData::Rela(_))));
}

#[test]
fn a_32_bit_file_reads_only_its_header() {
    let mut v = vec![0x7f, b'E', b'L', b'F', 1, 1, 1, 0, 0, 0, 0, 0, 0, 0, 0, 0];
    v.extend_from_slice(&3u16.to_le_bytes());
    v.resize(52, 0);
    let info = ElfModuleInfo::parse(&v).unwrap();
    assert!(info.header == ElfHeaderInfo { is_32: true, kind: ElfKind::SharedObject });
    assert!(info.program_headers.is_empty() && info.sections.is_empty());
    assert!(info.dynsym.is_none() && info.dynamic.is_none());
    assert!(matches!(dynsym_table(&v), Some(None)));
    // one byte short of the 32-bit header
    assert!(ElfModuleInfo::parse(&v[..51]).is_none());
}

#[test]
fn relocations_without_addends_read_with_addend_zero() {
    let (mut data, rela_off) = module_file();
    // make `.rela.dyn` a table of 16-byte relocations without addends
    let shoff = u64::from_le_bytes(data[40..48].try_into().unwrap()) as usize;
    let h = shoff + 7 * 64;
    data[h + 4..h + 8].copy_from_slice(&9u32.to_le_bytes());
    let info = ElfModuleInfo::parse(&data).unwrap();
    assert_eq!(info.sections[7].offset, rela_off);
    match &info.sections[7].data {
        Some(RelocData::Rel(entries)) => {
            assert_eq!(entries.len(), 3);
            assert!(entries[0] == RelocEntry { offset: 0x8, addend: 0, sym_index: 2, rtype: 2 });
            assert!(entries[1] == RelocEntry { offset: 4, addend: 0, sym_index: 0, rtype: 0x18 });
        }
        _ => panic!("expected relocations without addends"),
    }
    // a section of an unknown type has no contents the loader can read
    data[h + 4..h + 8].copy_from_slice(&12u32.to_le_bytes());
    let info = ElfModuleInfo::parse(&data).unwrap();
    assert!(info.sections[7].data.is_none());
}
