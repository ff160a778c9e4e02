//! What the module loader reads of an ELF file, as plain values, and the
//! calls into the `xmas_elf` crate that read it.
//!
//! `xmas_elf` reads the file in place: it asserts that each header and
//! table it reads lies inside the bytes, is aligned for its type and, for
//! a table, is a whole number of entries, and that each name it reads ends
//! with a NUL byte and is valid UTF-8. The file is therefore first copied
//! into storage aligned for 64-bit headers, and each reading call is made
//! only on bytes that the checks here found to meet those conditions (a
//! name must be ASCII); where they do not hold, the reading reports the
//! table or the name as unreadable. Multi-byte fields are read in the
//! machine's byte order, which the contracts take to be little-endian, as
//! on the machines this kernel runs on.
use vstd::prelude::*;
use xmas_elf::ElfFile;
use xmas_elf::header::{HeaderPt2, Type as ElfType};
use xmas_elf::program::Type as PhType;
use xmas_elf::dynamic::Tag;
use xmas_elf::sections::SectionData;
use xmas_elf::symbol_table::Entry;

verus! {


/// The object type of an ELF file, as far as the loader tells types apart.
#[derive(Clone, Copy, PartialEq, Eq, Structural)]
pub enum ElfKind {
    Executable,
    SharedObject,
    Other,
}

/// The ELF header: whether the file is a 32-bit one, and its object type.
#[derive(Clone, Copy, PartialEq, Eq, Structural)]
pub struct ElfHeaderInfo {
    pub is_32: bool,
    pub kind: ElfKind,
}

/// A program header: whether it is a loadable segment (`None` when its type
/// is invalid), its virtual address, its size in memory, its offset in the
/// file and its access flags.
#[derive(Clone, Copy, PartialEq, Eq, Structural)]
pub struct ProgramHeaderInfo {
    pub load: Option<bool>,
    pub vaddr: u64,
    pub mem_size: u64,
    pub offset: u64,
    pub read: bool,
    pub write: bool,
    pub execute: bool,
}

/// The tags of dynamic entries that the loader reads.
#[derive(Clone, Copy, PartialEq, Eq, Structural)]
pub enum DynTag {
    JmpRel,
    PltRelSize,
    PltRel,
    Rel,
    RelSize,
    Rela,
    RelaSize,
    Other,
}

/// A dynamic entry: its tag (`None` when the tag value is invalid) and its
/// value or address.
#[derive(Clone, Copy, PartialEq, Eq, Structural)]
pub struct DynEntry {
    pub tag: Option<DynTag>,
    pub value: u64,
}

/// A dynamic symbol: its name (`None` when unreadable), the index of the
/// section it is defined in (0 when undefined) and its value.
pub struct DynSym {
    pub name: Option<String>,
    pub shndx: u16,
    pub value: u64,
}

/// Abstract value of a [`DynSym`].
pub struct DynSymView {
    pub name: Option<Seq<char>>,
    pub shndx: u16,
    pub value: u64,
}

impl View for DynSym {
    type V = DynSymView;

    open spec fn view(&self) -> DynSymView {
        DynSymView {
            name: match self.name {
                Some(s) => Some(s@),
                None => None,
            },
            shndx: self.shndx,
            value: self.value,
        }
    }
}

/// A relocation: where, with which addend, against which symbol, of which
/// type.
#[derive(Clone, Copy, PartialEq, Eq, Structural)]
pub struct RelocEntry {
    pub offset: u64,
    pub addend: u64,
    pub sym_index: u32,
    pub rtype: u32,
}

/// The contents of a section, as far as relocation reads them.
pub enum RelocData {
    Rela(Vec<RelocEntry>),
    Rel(Vec<RelocEntry>),
    Other,
}

/// Abstract value of a [`RelocData`].
pub enum RelocDataView {
    Rela(Seq<RelocEntry>),
    Rel(Seq<RelocEntry>),
    Other,
}

impl View for RelocData {
    type V = RelocDataView;

    open spec fn view(&self) -> RelocDataView {
        match self {
            RelocData::Rela(v) => RelocDataView::Rela(v@),
            RelocData::Rel(v) => RelocDataView::Rel(v@),
            RelocData::Other => RelocDataView::Other,
        }
    }
}

/// A section: its offset in the file and its contents (`None` when
/// unreadable).
pub struct SectionInfo {
    pub offset: u64,
    pub data: Option<RelocData>,
}

/// Abstract value of a [`SectionInfo`].
pub struct SectionView {
    pub offset: u64,
    pub data: Option<RelocDataView>,
}

impl View for SectionInfo {
    type V = SectionView;

    open spec fn view(&self) -> SectionView {
        SectionView {
            offset: self.offset,
            data: match self.data {
                Some(d) => Some(d@),
                None => None,
            },
        }
    }
}

/// An entry of the `.symtab` table: its name (`None` when unreadable) and
/// its value.
pub struct ElfSymbol {
    pub name: Option<String>,
    pub value: u64,
}

/// Abstract value of an [`ElfSymbol`].
pub struct ElfSymbolView {
    pub name: Option<Seq<char>>,
    pub value: u64,
}

impl View for ElfSymbol {
    type V = ElfSymbolView;

    open spec fn view(&self) -> ElfSymbolView {
        ElfSymbolView {
            name: match self.name {
                Some(s) => Some(s@),
                None => None,
            },
            value: self.value,
        }
    }
}

/// The little-endian 16-bit value at offset `o` of `b`.
pub open spec fn le16(b: Seq<u8>, o: int) -> int {
    b[o] as int + 256 * b[o + 1] as int
}

/// The little-endian 32-bit value at offset `o` of `b`.
pub open spec fn le32(b: Seq<u8>, o: int) -> int {
    le16(b, o) + 65536 * le16(b, o + 2)
}

/// The little-endian 64-bit value at offset `o` of `b`.
pub open spec fn le64(b: Seq<u8>, o: int) -> int {
    le32(b, o) + 4294967296 * le32(b, o + 4)
}

/// Whether `xmas_elf::ElfFile::new` accepts `b`: the ELF magic number, a
/// 32-bit or 64-bit class, and room for the whole ELF header.
pub open spec fn elf_accepts(b: Seq<u8>) -> bool {
    &&& b.len() >= 16
    &&& b[0] == 0x7f && b[1] == 0x45 && b[2] == 0x4c && b[3] == 0x46
    &&& (b[4] == 1 && b.len() >= 52) || (b[4] == 2 && b.len() >= 64)
}

/// The object type of the ELF type field value `t`.
pub open spec fn elf_kind_of(t: int) -> ElfKind {
    if t == 2 {
        ElfKind::Executable
    } else if t == 3 {
        ElfKind::SharedObject
    } else {
        ElfKind::Other
    }
}

/// The ELF header of `b` as `xmas_elf` reads it; `None` when it refuses
/// the file.
pub open spec fn elf_header_spec(b: Seq<u8>) -> Option<ElfHeaderInfo> {
    if elf_accepts(b) {
        Some(ElfHeaderInfo { is_32: b[4] == 1, kind: elf_kind_of(le16(b, 16)) })
    } else {
        None
    }
}

/// `b` is an accepted 64-bit ELF file.
pub open spec fn is_elf64(b: Seq<u8>) -> bool {
    elf_accepts(b) && b[4] == 2
}

/// `b` is an accepted 64-bit shared object.
pub open spec fn is_elf64_shared(b: Seq<u8>) -> bool {
    is_elf64(b) && le16(b, 16) == 3
}

/// Every program header that `xmas_elf` reads from the 64-bit file `b`
/// lies in it, aligned: there are none (no count, offset or entry size),
/// or the table of `count` entries of at least 56 bytes each ends inside
/// the file, at an offset and with an entry size that are multiples of 8.
pub open spec fn ph_table_ok(b: Seq<u8>) -> bool {
    let off = le64(b, 32);
    let es = le16(b, 54);
    let n = le16(b, 56);
    n == 0 || off == 0 || es == 0 || (off % 8 == 0 && es % 8 == 0 && es >= 56 && off + n * es
        <= b.len())
}

/// Number of section headers of the 64-bit file `b`.
pub open spec fn shnum(b: Seq<u8>) -> int {
    le16(b, 60)
}

/// Index of the section holding the section names of `b`.
pub open spec fn shstrndx(b: Seq<u8>) -> int {
    le16(b, 62)
}

/// Every section header of the 64-bit file `b` lies in it, aligned: there
/// are none, or at most 0xff00 of at least 64 bytes each end inside the
/// file, at an offset and with an entry size that are multiples of 8.
pub open spec fn sh_table_ok(b: Seq<u8>) -> bool {
    let off = le64(b, 40);
    let es = le16(b, 58);
    let n = shnum(b);
    n == 0 || (n <= 0xff00 && off % 8 == 0 && es % 8 == 0 && es >= 64 && off + n * es <= b.len())
}

/// Offset in `b` of section header `i`.
pub open spec fn sh_base(b: Seq<u8>, i: int) -> int {
    le64(b, 40) + i * le16(b, 58)
}

/// Name field (an offset in the section names) of section `i`.
pub open spec fn sh_name(b: Seq<u8>, i: int) -> int {
    le32(b, sh_base(b, i))
}

/// Type of section `i`.
pub open spec fn sh_type(b: Seq<u8>, i: int) -> int {
    le32(b, sh_base(b, i) + 4)
}

/// File offset of section `i`.
pub open spec fn sh_offset(b: Seq<u8>, i: int) -> int {
    le64(b, sh_base(b, i) + 24)
}

/// Size of section `i`.
pub open spec fn sh_size(b: Seq<u8>, i: int) -> int {
    le64(b, sh_base(b, i) + 32)
}

/// Whether `t` is a section type that `xmas_elf` knows.
pub open spec fn valid_sh_type(t: int) -> bool {
    (0 <= t <= 11) || (14 <= t <= 18) || (0x60000000 <= t <= 0xffffffff)
}

/// A NUL-terminated ASCII string starts at `p` of `b` and ends before
/// `end`.
pub open spec fn cstr_ok(b: Seq<u8>, p: int, end: int) -> bool {
    &&& 0 <= p <= end <= b.len()
    &&& exists|k: int|
        p <= k < end && b[k] == 0 && forall|j: int| p <= j < k ==> #[trigger] b[j] != 0 && b[j] < 128
}

/// The characters of the NUL-terminated ASCII string at `p` of `b`.
pub open spec fn cstr_chars(b: Seq<u8>, p: int) -> Seq<char> {
    let k = choose|k: int| p <= k < b.len() && b[k] == 0 && forall|j: int| p <= j < k ==> #[trigger] b[j] != 0;
    Seq::new((k - p) as nat, |i: int| b[p + i] as char)
}

/// Position in `b` of the name of section `i`.
pub open spec fn sh_name_pos(b: Seq<u8>, i: int) -> int {
    sh_offset(b, shstrndx(b)) + sh_name(b, i)
}

/// The name of section `i` reads without fault: sections of no or unknown
/// type have none; the others name an ASCII string of the section names.
pub open spec fn name_ok(b: Seq<u8>, i: int) -> bool {
    (valid_sh_type(sh_type(b, i)) && sh_type(b, i) != 0) ==> (shstrndx(b) < shnum(b) && cstr_ok(
        b,
        sh_name_pos(b, i),
        b.len() as int,
    ))
}

/// Every section name of `b` reads without fault.
pub open spec fn names_ok(b: Seq<u8>) -> bool {
    forall|i: int| 0 <= i < shnum(b) ==> #[trigger] name_ok(b, i)
}

/// Section `i` has a name, and it is `s` (which holds no NUL byte).
pub open spec fn name_is(b: Seq<u8>, i: int, s: Seq<u8>) -> bool {
    &&& valid_sh_type(sh_type(b, i))
    &&& sh_type(b, i) != 0
    &&& shstrndx(b) < shnum(b)
    &&& 0 <= sh_name_pos(b, i)
    &&& sh_name_pos(b, i) + s.len() < b.len()
    &&& b.subrange(sh_name_pos(b, i), sh_name_pos(b, i) + s.len()) == s
    &&& b[sh_name_pos(b, i) + s.len()] == 0
}

/// Section `i` is the first section named `s`.
pub open spec fn first_named(b: Seq<u8>, s: Seq<u8>, i: int) -> bool {
    &&& 0 <= i < shnum(b)
    &&& name_is(b, i, s)
    &&& forall|j: int| 0 <= j < i ==> !#[trigger] name_is(b, j, s)
}

/// The contents of section `i` lie in `b`, aligned for 64-bit entries, and
/// are a whole number of entries of `es` bytes.
pub open spec fn table_ok(b: Seq<u8>, i: int, es: int) -> bool {
    &&& sh_offset(b, i) + sh_size(b, i) <= b.len()
    &&& sh_offset(b, i) % 8 == 0
    &&& sh_size(b, i) % es == 0
}

/// Section `i` is a table of `es`-byte entries of type `t` that reads
/// without fault.
pub open spec fn typed_table_ok(b: Seq<u8>, i: int, t: int, es: int) -> bool {
    &&& 0 <= i < shnum(b)
    &&& sh_type(b, i) == t
    &&& table_ok(b, i, es)
}

/// The bytes of ".dynsym".
pub open spec fn dynsym_name() -> Seq<u8> {
    seq![0x2eu8, 0x64, 0x79, 0x6e, 0x73, 0x79, 0x6d]
}

/// The bytes of ".dynstr".
pub open spec fn dynstr_name() -> Seq<u8> {
    seq![0x2eu8, 0x64, 0x79, 0x6e, 0x73, 0x74, 0x72]
}

/// The bytes of ".dynamic".
pub open spec fn dynamic_name() -> Seq<u8> {
    seq![0x2eu8, 0x64, 0x79, 0x6e, 0x61, 0x6d, 0x69, 0x63]
}

/// The bytes of ".symtab".
pub open spec fn symtab_name() -> Seq<u8> {
    seq![0x2eu8, 0x73, 0x79, 0x6d, 0x74, 0x61, 0x62]
}

/// The bytes of ".strtab".
pub open spec fn strtab_name() -> Seq<u8> {
    seq![0x2eu8, 0x73, 0x74, 0x72, 0x74, 0x61, 0x62]
}

/// The name of entry `j` of the symbol table in section `k`, found in the
/// string table in section `s`, reads without fault.
pub open spec fn sym_name_ok(b: Seq<u8>, k: int, j: int, s: int) -> bool {
    let n = le32(b, sh_offset(b, k) + 24 * j);
    &&& sh_offset(b, s) + sh_size(b, s) <= b.len()
    &&& n <= sh_size(b, s)
    &&& cstr_ok(b, sh_offset(b, s) + n, sh_offset(b, s) + sh_size(b, s))
}

/// Position in `b` of the name of entry `j` of the symbol table in section
/// `k`, found in the string table in section `s`.
pub open spec fn sym_name_pos(b: Seq<u8>, k: int, j: int, s: int) -> int {
    sh_offset(b, s) + le32(b, sh_offset(b, k) + 24 * j)
}

/// Section index field of entry `j` of the symbol table in section `k`.
pub open spec fn sym_shndx(b: Seq<u8>, k: int, j: int) -> int {
    le16(b, sh_offset(b, k) + 24 * j + 6)
}

/// Value field of entry `j` of the symbol table in section `k`.
pub open spec fn sym_value(b: Seq<u8>, k: int, j: int) -> int {
    le64(b, sh_offset(b, k) + 24 * j + 8)
}

/// Entry `j` of the relocation table with addends in section `k`.
pub open spec fn rela_entry(b: Seq<u8>, k: int, j: int) -> RelocEntry {
    let o = sh_offset(b, k) + 24 * j;
    RelocEntry {
        offset: le64(b, o) as u64,
        addend: le64(b, o + 16) as u64,
        sym_index: le32(b, o + 12) as u32,
        rtype: le32(b, o + 8) as u32,
    }
}

/// Entry `j` of the relocation table without addends in section `k`: its
/// offset, symbol index and type.
pub open spec fn rel_entry(b: Seq<u8>, k: int, j: int) -> (u64, u32, u32) {
    let o = sh_offset(b, k) + 16 * j;
    (le64(b, o) as u64, le32(b, o + 12) as u32, le32(b, o + 8) as u32)
}

/// Whether `t` is a program header type that `xmas_elf` knows.
pub open spec fn valid_ph_type(t: int) -> bool {
    (0 <= t <= 7) || (0x60000000 <= t <= 0x7fffffff)
}

/// Number of program headers that `xmas_elf` reads from the 64-bit file
/// `b`: none when the table has no offset or no entry size.
pub open spec fn ph_count(b: Seq<u8>) -> int {
    if le64(b, 32) == 0 || le16(b, 54) == 0 {
        0
    } else {
        le16(b, 56)
    }
}

/// Program header `i` of the 64-bit file `b`: whether it is a loadable
/// segment (`None` for an unknown type), its virtual address, size in
/// memory, file offset, and its read, write and execute flags.
pub open spec fn ph_entry(b: Seq<u8>, i: int) -> ProgramHeaderInfo {
    let o = le64(b, 32) + i * le16(b, 54);
    let t = le32(b, o);
    let f = le32(b, o + 4);
    ProgramHeaderInfo {
        load: if valid_ph_type(t) {
            Some(t == 1)
        } else {
            None
        },
        vaddr: le64(b, o + 16) as u64,
        mem_size: le64(b, o + 40) as u64,
        offset: le64(b, o + 8) as u64,
        read: (f / 4) % 2 == 1,
        write: (f / 2) % 2 == 1,
        execute: f % 2 == 1,
    }
}

/// The program headers of the 64-bit file `b`, in order.
pub open spec fn program_headers_spec(b: Seq<u8>) -> Seq<ProgramHeaderInfo> {
    Seq::new(ph_count(b) as nat, |i: int| ph_entry(b, i))
}

/// Whether `t` is a dynamic entry tag that `xmas_elf` knows.
pub open spec fn valid_dyn_tag(t: int) -> bool {
    (0 <= t <= 30) || (32 <= t <= 37) || t == 0x6ffffffb || (0x6000000d <= t < 0x80000000)
}

/// The tag the loader sees of the tag value `t`: `None` when it is
/// unknown, `Other` for one the loader does not read.
pub open spec fn dyn_tag_of(t: int) -> Option<DynTag> {
    if !valid_dyn_tag(t) {
        None
    } else if t == 23 {
        Some(DynTag::JmpRel)
    } else if t == 2 {
        Some(DynTag::PltRelSize)
    } else if t == 20 {
        Some(DynTag::PltRel)
    } else if t == 17 {
        Some(DynTag::Rel)
    } else if t == 18 {
        Some(DynTag::RelSize)
    } else if t == 7 {
        Some(DynTag::Rela)
    } else if t == 8 {
        Some(DynTag::RelaSize)
    } else {
        Some(DynTag::Other)
    }
}

/// Entry `j` of the dynamic table in section `k` of `b`: its tag, and its
/// value or address, which is 0 for a tag that holds neither (an unknown
/// one, the terminating entry, `DT_SYMBOLIC`, `DT_TEXTREL`, `DT_BIND_NOW`).
pub open spec fn dyn_entry(b: Seq<u8>, k: int, j: int) -> DynEntry {
    let o = sh_offset(b, k) + 16 * j;
    let t = le64(b, o);
    DynEntry {
        tag: dyn_tag_of(t),
        value: if valid_dyn_tag(t) && t != 0 && t != 16 && t != 22 && t != 24 {
            le64(b, o + 8) as u64
        } else {
            0
        },
    }
}

/// An ELF file copied into storage aligned for its 64-bit headers and
/// tables; its view is the file's bytes.
pub struct ElfImage {
    words: Vec<u64>,
    len: usize,
    bytes: Ghost<Seq<u8>>,
}

impl View for ElfImage {
    type V = Seq<u8>;

    closed spec fn view(&self) -> Seq<u8> {
        self.bytes@
    }
}

/// Copies `data` into `words` zeroed 64-bit words, seen as bytes through
/// `bytemuck::cast_slice_mut` (which, from `u64` to `u8`, never fails).
/// The contract claims that the image holds exactly the bytes of `data`.
#[verifier::external_body]
fn aligned_copy(data: &[u8], words: usize) -> (r: ElfImage)
    requires
        data.len() <= words * 8,
    ensures
        r@ == data@,
{
    let mut buf = vec![0u64; words];
    bytemuck::cast_slice_mut::<u64, u8>(&mut buf)[..data.len()].copy_from_slice(data);
    ElfImage { words: buf, len: data.len(), bytes: Ghost(data@) }
}

/// Reads the ELF header of the image with `xmas_elf::ElfFile::new`, whose
/// bytes are seen through `bytemuck::cast_slice`: `None` when the crate
/// refuses the file, else whether it is a 32-bit one (`HeaderPt2::Header32`)
/// and its object type (`type_().as_type()`). The contract states that
/// result over the bytes.
#[verifier::external_body]
fn read_elf_header(img: &ElfImage) -> (r: Option<ElfHeaderInfo>)
    ensures
        r == elf_header_spec(img@),
{
    let elf = ElfFile::new(&bytemuck::cast_slice::<u64, u8>(&img.words)[..img.len]).ok()?;
    let is_32 = match elf.header.pt2 {
        HeaderPt2::Header32(_) => true,
        HeaderPt2::Header64(_) => false,
    };
    let kind = match elf.header.pt2.type_().as_type() {
        ElfType::Executable => ElfKind::Executable,
        ElfType::SharedObject => ElfKind::SharedObject,
        _ => ElfKind::Other,
    };
    Some(ElfHeaderInfo { is_32, kind })
}

/// Reads the program headers of the 64-bit image with `program_iter` of
/// `xmas_elf`, one plain record per header, in order; the table lies in
/// the image, aligned. The contract states the records over the bytes.
#[verifier::external_body]
fn read_program_headers(img: &ElfImage) -> (r: Vec<ProgramHeaderInfo>)
    requires
        is_elf64(img@),
        ph_table_ok(img@),
    ensures
        r@ == program_headers_spec(img@),
{
    let elf = ElfFile::new(&bytemuck::cast_slice::<u64, u8>(&img.words)[..img.len]).unwrap();
    elf.program_iter().map(|ph| ProgramHeaderInfo {
        load: ph.get_type().ok().map(|t| t == PhType::Load),
        vaddr: ph.virtual_addr(),
        mem_size: ph.mem_size(),
        offset: ph.offset(),
        read: ph.flags().is_read(),
        write: ph.flags().is_write(),
        execute: ph.flags().is_execute(),
    }).collect()
}

/// File offset of section `index` of the 64-bit image, read with
/// `section_header` and `offset` of `xmas_elf`; the section header table
/// lies in the image, aligned. The contract states the offset.
#[verifier::external_body]
fn read_section_offset(img: &ElfImage, index: u16) -> (r: u64)
    requires
        is_elf64(img@),
        sh_table_ok(img@),
        index < shnum(img@),
    ensures
        r == sh_offset(img@, index as int),
{
    let elf = ElfFile::new(&bytemuck::cast_slice::<u64, u8>(&img.words)[..img.len]).unwrap();
    elf.section_header(index).unwrap().offset()
}

/// The relocations with addends of section `index` of the 64-bit image,
/// read with `get_data` of `xmas_elf` (`SectionData::Rela64`) and the
/// entries' `get_offset`, `get_addend`, `get_symbol_table_index` and
/// `get_type`; the section is of that type and its table lies in the
/// image, aligned. The contract states the entries over the bytes.
#[verifier::external_body]
fn read_rela(img: &ElfImage, index: u16) -> (r: Vec<RelocEntry>)
    requires
        is_elf64(img@),
        sh_table_ok(img@),
        typed_table_ok(img@, index as int, 4, 24),
    ensures
        r@.len() == sh_size(img@, index as int) / 24,
        forall|j: int| 0 <= j < r@.len() ==> r@[j] == rela_entry(img@, index as int, j),
{
    let elf = ElfFile::new(&bytemuck::cast_slice::<u64, u8>(&img.words)[..img.len]).unwrap();
    match elf.section_header(index).unwrap().get_data(&elf).unwrap() {
        SectionData::Rela64(t) => t.iter().map(|e| RelocEntry { offset: e.get_offset(),
            addend: e.get_addend(), sym_index: e.get_symbol_table_index(), rtype: e.get_type() }).collect(),
        _ => Vec::new(),
    }
}

/// The relocations without addends of section `index` of the 64-bit
/// image, read with `get_data` of `xmas_elf` (`SectionData::Rel64`): each
/// entry's offset, symbol index and type; the section is of that type and
/// its table lies in the image, aligned. The contract states the entries
/// over the bytes.
#[verifier::external_body]
fn read_rel(img: &ElfImage, index: u16) -> (r: Vec<(u64, u32, u32)>)
    requires
        is_elf64(img@),
        sh_table_ok(img@),
        typed_table_ok(img@, index as int, 9, 16),
    ensures
        r@.len() == sh_size(img@, index as int) / 16,
        forall|j: int| 0 <= j < r@.len() ==> r@[j] == rel_entry(img@, index as int, j),
{
    let elf = ElfFile::new(&bytemuck::cast_slice::<u64, u8>(&img.words)[..img.len]).unwrap();
    match elf.section_header(index).unwrap().get_data(&elf).unwrap() {
        SectionData::Rel64(t) => t.iter().map(|e| (e.get_offset(), e.get_symbol_table_index(),
            e.get_type())).collect(),
        _ => Vec::new(),
    }
}

/// The section index and value of each entry of the dynamic symbol table
/// of the 64-bit image, the section that `find_section_by_name(".dynsym")`
/// of `xmas_elf` finds (every section name reads without fault), read with
/// `get_data` (`SectionData::DynSymbolTable64`) and the entries' `shndx`
/// and `value`; the table lies in the image, aligned. The contract states
/// the entries over the bytes.
#[verifier::external_body]
fn read_dynsym(img: &ElfImage) -> (r: Vec<(u16, u64)>)
    requires
        is_elf64(img@),
        sh_table_ok(img@),
        names_ok(img@),
        find_named_spec(img@, dynsym_name()) is Some,
        typed_table_ok(img@, find_named_spec(img@, dynsym_name())->Some_0, 11, 24),
    ensures
        r@.len() == sh_size(img@, find_named_spec(img@, dynsym_name())->Some_0) / 24,
        forall|j: int| 0 <= j < r@.len() ==> r@[j] == (
            sym_shndx(img@, find_named_spec(img@, dynsym_name())->Some_0, j) as u16,
            sym_value(img@, find_named_spec(img@, dynsym_name())->Some_0, j) as u64,
        ),
{
    let elf = ElfFile::new(&bytemuck::cast_slice::<u64, u8>(&img.words)[..img.len]).unwrap();
    match elf.find_section_by_name(".dynsym").unwrap().get_data(&elf).unwrap() {
        SectionData::DynSymbolTable64(t) => t.iter().map(|s| (s.shndx(), s.value())).collect(),
        _ => Vec::new(),
    }
}

/// The name of entry `j` of the dynamic symbol table of the 64-bit image
/// (found by `find_section_by_name(".dynsym")`), read with `get_name` of
/// `xmas_elf`, which finds the section `.dynstr` by name: every section name reads without fault, a
/// section is named `.dynstr`, and the name is an ASCII string inside the
/// first one. The contract states the name over the bytes.
#[verifier::external_body]
fn read_dynsym_name(img: &ElfImage, j: usize) -> (r: String)
    requires
        is_elf64(img@),
        sh_table_ok(img@),
        names_ok(img@),
        find_named_spec(img@, dynsym_name()) is Some,
        typed_table_ok(img@, find_named_spec(img@, dynsym_name())->Some_0, 11, 24),
        j < sh_size(img@, find_named_spec(img@, dynsym_name())->Some_0) / 24,
        find_named_spec(img@, dynstr_name()) is Some,
        sym_name_ok(img@, find_named_spec(img@, dynsym_name())->Some_0, j as int, find_named_spec(img@, dynstr_name())->Some_0),
    ensures
        r@ == cstr_chars(
            img@,
            sym_name_pos(img@, find_named_spec(img@, dynsym_name())->Some_0, j as int, find_named_spec(img@, dynstr_name())->Some_0),
        ),
{
    let elf = ElfFile::new(&bytemuck::cast_slice::<u64, u8>(&img.words)[..img.len]).unwrap();
    match elf.find_section_by_name(".dynsym").unwrap().get_data(&elf).unwrap() {
        SectionData::DynSymbolTable64(t) => String::from(t[j].get_name(&elf).unwrap()),
        _ => String::new(),
    }
}

/// The value of each entry of the symbol table of the 64-bit image, the
/// section that `find_section_by_name(".symtab")` of `xmas_elf` finds
/// (every section name reads without fault), read with `get_data`
/// (`SectionData::SymbolTable64`) and the entries' `value`; the table lies
/// in the image, aligned. The contract states the values over the bytes.
#[verifier::external_body]
fn read_symtab(img: &ElfImage) -> (r: Vec<u64>)
    requires
        is_elf64(img@),
        sh_table_ok(img@),
        names_ok(img@),
        find_named_spec(img@, symtab_name()) is Some,
        typed_table_ok(img@, find_named_spec(img@, symtab_name())->Some_0, 2, 24),
    ensures
        r@.len() == sh_size(img@, find_named_spec(img@, symtab_name())->Some_0) / 24,
        forall|j: int| 0 <= j < r@.len() ==> r@[j] == sym_value(img@, find_named_spec(img@, symtab_name())->Some_0, j) as u64,
{
    let elf = ElfFile::new(&bytemuck::cast_slice::<u64, u8>(&img.words)[..img.len]).unwrap();
    match elf.find_section_by_name(".symtab").unwrap().get_data(&elf).unwrap() {
        SectionData::SymbolTable64(t) => t.iter().map(|s| s.value()).collect(),
        _ => Vec::new(),
    }
}

/// The name of entry `j` of the symbol table of the 64-bit image (found by
/// `find_section_by_name(".symtab")`), read with `get_name` of `xmas_elf`,
/// which finds the section `.strtab` by name and requires it to be a
/// string table: every section name reads without fault, the first section
/// named `.strtab` is of type string table, and the name is an ASCII string
/// inside it. The contract states the name over the bytes.
#[verifier::external_body]
fn read_symtab_name(img: &ElfImage, j: usize) -> (r: String)
    requires
        is_elf64(img@),
        sh_table_ok(img@),
        names_ok(img@),
        find_named_spec(img@, symtab_name()) is Some,
        typed_table_ok(img@, find_named_spec(img@, symtab_name())->Some_0, 2, 24),
        j < sh_size(img@, find_named_spec(img@, symtab_name())->Some_0) / 24,
        find_named_spec(img@, strtab_name()) is Some,
        sh_type(img@, find_named_spec(img@, strtab_name())->Some_0) == 3,
        sym_name_ok(img@, find_named_spec(img@, symtab_name())->Some_0, j as int, find_named_spec(img@, strtab_name())->Some_0),
    ensures
        r@ == cstr_chars(
            img@,
            sym_name_pos(img@, find_named_spec(img@, symtab_name())->Some_0, j as int, find_named_spec(img@, strtab_name())->Some_0),
        ),
{
    let elf = ElfFile::new(&bytemuck::cast_slice::<u64, u8>(&img.words)[..img.len]).unwrap();
    match elf.find_section_by_name(".symtab").unwrap().get_data(&elf).unwrap() {
        SectionData::SymbolTable64(t) => String::from(t[j].get_name(&elf).unwrap()),
        _ => String::new(),
    }
}

/// The tag of entry `j` of the dynamic table of the 64-bit image, the
/// section that `find_section_by_name(".dynamic")` of `xmas_elf` finds
/// (every section name reads without fault), read with `get_data`
/// (`SectionData::Dynamic64`) and `get_tag`: `None` when the tag value is
/// invalid, `Other` for a tag the loader does not read; the table lies in
/// the image, aligned. The contract states the entry over the bytes.
#[verifier::external_body]
fn read_dynamic_tag(img: &ElfImage, j: usize) -> (r: Option<DynTag>)
    requires
        is_elf64(img@),
        sh_table_ok(img@),
        names_ok(img@),
        find_named_spec(img@, dynamic_name()) is Some,
        typed_table_ok(img@, find_named_spec(img@, dynamic_name())->Some_0, 6, 16),
        j < sh_size(img@, find_named_spec(img@, dynamic_name())->Some_0) / 16,
    ensures
        r == dyn_entry(img@, find_named_spec(img@, dynamic_name())->Some_0, j as int).tag,
{
    let elf = ElfFile::new(&bytemuck::cast_slice::<u64, u8>(&img.words)[..img.len]).unwrap();
    let t = match elf.find_section_by_name(".dynamic").unwrap().get_data(&elf).unwrap() {
        SectionData::Dynamic64(t) => t,
        _ => return None,
    };
    match t[j].get_tag().ok()? {
        Tag::JmpRel => Some(DynTag::JmpRel),
        Tag::PltRelSize => Some(DynTag::PltRelSize),
        Tag::PltRel => Some(DynTag::PltRel),
        Tag::Rel => Some(DynTag::Rel),
        Tag::RelSize => Some(DynTag::RelSize),
        Tag::Rela => Some(DynTag::Rela),
        Tag::RelaSize => Some(DynTag::RelaSize),
        _ => Some(DynTag::Other),
    }
}

/// The value or address of entry `j` of the dynamic table of the 64-bit
/// image (found by `find_section_by_name(".dynamic")`), read with
/// `get_data` of `xmas_elf` and `get_val` or, where the tag holds an
/// address, `get_ptr`; the table lies
/// in the image, aligned. The contract states the entry over the bytes.
#[verifier::external_body]
fn read_dynamic_value(img: &ElfImage, j: usize) -> (r: u64)
    requires
        is_elf64(img@),
        sh_table_ok(img@),
        names_ok(img@),
        find_named_spec(img@, dynamic_name()) is Some,
        typed_table_ok(img@, find_named_spec(img@, dynamic_name())->Some_0, 6, 16),
        j < sh_size(img@, find_named_spec(img@, dynamic_name())->Some_0) / 16,
    ensures
        r == dyn_entry(img@, find_named_spec(img@, dynamic_name())->Some_0, j as int).value,
{
    let elf = ElfFile::new(&bytemuck::cast_slice::<u64, u8>(&img.words)[..img.len]).unwrap();
    match elf.find_section_by_name(".dynamic").unwrap().get_data(&elf).unwrap() {
        SectionData::Dynamic64(t) => t[j].get_val().or(t[j].get_ptr()).unwrap_or(0),
        _ => 0,
    }
}

/// The little-endian 16-bit value at offset `o` of `d`.
fn rd16(d: &[u8], o: usize) -> (r: u16)
    requires
        o + 2 <= d@.len(),
    ensures
        r == le16(d@, o as int),
{
    (d[o] as u16) + (d[o + 1] as u16) * 256
}

/// The little-endian 32-bit value at offset `o` of `d`.
fn rd32(d: &[u8], o: usize) -> (r: u32)
    requires
        o + 4 <= d@.len(),
    ensures
        r == le32(d@, o as int),
{
    let dlen = d.len();
    let lo = rd16(d, o);
    let hi = rd16(d, o + 2);
    assert((hi as u32) * 65536 <= 0xffff0000) by (nonlinear_arith)
        requires
            hi <= 0xffff,
    ;
    (lo as u32) + (hi as u32) * 65536
}

/// The little-endian 64-bit value at offset `o` of `d`.
fn rd64(d: &[u8], o: usize) -> (r: u64)
    requires
        o + 8 <= d@.len(),
    ensures
        r == le64(d@, o as int),
{
    let dlen = d.len();
    let lo = rd32(d, o);
    let hi = rd32(d, o + 4);
    assert((hi as u64) * 4294967296 <= 0xffff_ffff_0000_0000) by (nonlinear_arith)
        requires
            hi <= 0xffff_ffff,
    ;
    (lo as u64) + (hi as u64) * 4294967296
}

/// Whether `xmas_elf` accepts `d` as an ELF file.
fn accepts_check(d: &[u8]) -> (r: bool)
    ensures
        r == elf_accepts(d@),
{
    if d.len() < 16 {
        return false;
    }
    if !(d[0] == 0x7f && d[1] == 0x45 && d[2] == 0x4c && d[3] == 0x46) {
        return false;
    }
    if d[4] == 1 {
        d.len() >= 52
    } else if d[4] == 2 {
        d.len() >= 64
    } else {
        false
    }
}

/// Whether the program header table of the 64-bit file `d` reads without
/// fault.
fn ph_table_check(d: &[u8]) -> (r: bool)
    requires
        is_elf64(d@),
    ensures
        r == ph_table_ok(d@),
{
    let off = rd64(d, 32);
    let es = rd16(d, 54);
    let n = rd16(d, 56);
    if n == 0 || off == 0 || es == 0 {
        return true;
    }
    if off % 8 != 0 || es % 8 != 0 || es < 56 {
        return false;
    }
    assert((n as u64) * (es as u64) <= 0xffff * 0xffff) by (nonlinear_arith)
        requires
            n <= 0xffff,
            es <= 0xffff,
    ;
    let total: u64 = (n as u64) * (es as u64);
    (off as u128) + (total as u128) <= (d.len() as u128)
}

/// Whether the section header table of the 64-bit file `d` reads without
/// fault.
fn sh_table_check(d: &[u8]) -> (r: bool)
    requires
        is_elf64(d@),
    ensures
        r == sh_table_ok(d@),
{
    let off = rd64(d, 40);
    let es = rd16(d, 58);
    let n = rd16(d, 60);
    if n == 0 {
        return true;
    }
    if n > 0xff00 || off % 8 != 0 || es % 8 != 0 || es < 64 {
        return false;
    }
    assert((n as u64) * (es as u64) <= 0xffff * 0xffff) by (nonlinear_arith)
        requires
            n <= 0xffff,
            es <= 0xffff,
    ;
    let total: u64 = (n as u64) * (es as u64);
    (off as u128) + (total as u128) <= (d.len() as u128)
}

/// Offset in `d` of section header `i`.
fn sh_base_at(d: &[u8], i: u16) -> (r: usize)
    requires
        is_elf64(d@),
        sh_table_ok(d@),
        i < shnum(d@),
    ensures
        r == sh_base(d@, i as int),
        r + 64 <= d@.len(),
{
    let dlen = d.len();
    let off = rd64(d, 40);
    let es = rd16(d, 58);
    let ghost n = shnum(d@);
    assert((i as int + 1) * es <= n * es) by (nonlinear_arith)
        requires
            i < n,
            es >= 0,
    ;
    assert((i as int) * es + es == (i as int + 1) * es) by (nonlinear_arith);
    assert(off + n * es <= dlen);
    let step: usize = (i as usize) * (es as usize);
    (off as usize) + step
}

/// Type of section `i` of `d`.
fn sh_type_at(d: &[u8], i: u16) -> (r: u32)
    requires
        is_elf64(d@),
        sh_table_ok(d@),
        i < shnum(d@),
    ensures
        r == sh_type(d@, i as int),
{
    let dlen = d.len();
    let base = sh_base_at(d, i);
    rd32(d, base + 4)
}

/// Name field of section `i` of `d`.
fn sh_name_at(d: &[u8], i: u16) -> (r: u32)
    requires
        is_elf64(d@),
        sh_table_ok(d@),
        i < shnum(d@),
    ensures
        r == sh_name(d@, i as int),
{
    let dlen = d.len();
    let base = sh_base_at(d, i);
    rd32(d, base)
}

/// File offset of section `i` of `d`.
fn sh_offset_at(d: &[u8], i: u16) -> (r: u64)
    requires
        is_elf64(d@),
        sh_table_ok(d@),
        i < shnum(d@),
    ensures
        r == sh_offset(d@, i as int),
{
    let dlen = d.len();
    let base = sh_base_at(d, i);
    rd64(d, base + 24)
}

/// Size of section `i` of `d`.
fn sh_size_at(d: &[u8], i: u16) -> (r: u64)
    requires
        is_elf64(d@),
        sh_table_ok(d@),
        i < shnum(d@),
    ensures
        r == sh_size(d@, i as int),
{
    let dlen = d.len();
    let base = sh_base_at(d, i);
    rd64(d, base + 32)
}

/// Whether `t` is a section type that `xmas_elf` knows.
fn valid_type(t: u32) -> (r: bool)
    ensures
        r == valid_sh_type(t as int),
{
    t <= 11 || (14 <= t && t <= 18) || t >= 0x60000000
}

/// Whether a NUL-terminated ASCII string starts at `p` of `d` and ends
/// before `end`.
fn cstr_check(d: &[u8], p: usize, end: usize) -> (r: bool)
    requires
        p <= end <= d@.len(),
    ensures
        r == cstr_ok(d@, p as int, end as int),
{
    let mut k = p;
    while k < end
        invariant
            p <= k <= end <= d@.len(),
            forall|j: int| p <= j < k ==> #[trigger] d@[j] != 0 && d@[j] < 128,
        decreases end - k,
    {
        if d[k] == 0 {
            return true;
        }
        if d[k] >= 128 {
            proof {
                assert forall|k2: int| p <= k2 < end && d@[k2] == 0 implies !(forall|j: int|
                    p <= j < k2 ==> #[trigger] d@[j] != 0 && d@[j] < 128) by {
                    if k < k2 {
                        assert(!(d@[k as int] != 0 && d@[k as int] < 128));
                    }
                }
            }
            return false;
        }
        k = k + 1;
    }
    false
}

/// Whether every section name of `d` reads without fault.
fn names_check(d: &[u8]) -> (r: bool)
    requires
        is_elf64(d@),
        sh_table_ok(d@),
    ensures
        r == names_ok(d@),
{
    let dlen = d.len();
    let n = rd16(d, 60);
    let mut i: u16 = 0;
    while i < n
        invariant
            is_elf64(d@),
            sh_table_ok(d@),
            n == shnum(d@),
            dlen == d@.len(),
            i <= n,
            forall|j: int| 0 <= j < i ==> #[trigger] name_ok(d@, j),
        decreases n - i,
    {
        let t = sh_type_at(d, i);
        if valid_type(t) && t != 0 {
            let sx = rd16(d, 62);
            if sx >= n {
                assert(!name_ok(d@, i as int));
                return false;
            }
            let so = sh_offset_at(d, sx);
            let nm = sh_name_at(d, i);
            if (so as u128) + (nm as u128) > (dlen as u128) {
                assert(!name_ok(d@, i as int));
                return false;
            }
            let pos = (so as usize) + (nm as usize);
            if !cstr_check(d, pos, dlen) {
                assert(!name_ok(d@, i as int));
                return false;
            }
        }
        i = i + 1;
    }
    true
}

/// Whether section `i` of `d` has a name, and it is `s`.
fn name_is_check(d: &[u8], i: u16, s: &Vec<u8>) -> (r: bool)
    requires
        is_elf64(d@),
        sh_table_ok(d@),
        i < shnum(d@),
    ensures
        r == name_is(d@, i as int, s@),
{
    let dlen = d.len();
    let t = sh_type_at(d, i);
    if !(valid_type(t) && t != 0) {
        return false;
    }
    let n = rd16(d, 60);
    let sx = rd16(d, 62);
    if sx >= n {
        return false;
    }
    let so = sh_offset_at(d, sx);
    let nm = sh_name_at(d, i);
    if (so as u128) + (nm as u128) + (s.len() as u128) >= (dlen as u128) {
        return false;
    }
    let pos = (so as usize) + (nm as usize);
    let mut q: usize = 0;
    while q < s.len()
        invariant
            pos + s@.len() < d@.len(),
            dlen == d@.len(),
            pos == sh_name_pos(d@, i as int),
            valid_sh_type(sh_type(d@, i as int)),
            sh_type(d@, i as int) != 0,
            shstrndx(d@) < shnum(d@),
            q <= s@.len(),
            forall|k: int| 0 <= k < q ==> d@[pos + k] == s@[k],
        decreases s@.len() - q,
    {
        if d[pos + q] != s[q] {
            assert(d@.subrange(pos as int, pos + s@.len())[q as int] != s@[q as int]);
            return false;
        }
        q = q + 1;
    }
    assert(d@.subrange(pos as int, pos + s@.len()) =~= s@);
    d[pos + s.len()] == 0
}

/// Two sections that are both the first named `s` are one.
proof fn lemma_first_named_unique(b: Seq<u8>, s: Seq<u8>, i: int, k: int)
    requires
        first_named(b, s, i),
        first_named(b, s, k),
    ensures
        i == k,
{
    if i < k {
        assert(!name_is(b, i, s));
    } else if k < i {
        assert(!name_is(b, k, s));
    }
}

/// The first section named `s`, as `find_section_by_name` of `xmas_elf`
/// finds it where every section name reads without fault.
pub open spec fn find_named_spec(b: Seq<u8>, s: Seq<u8>) -> Option<int> {
    if exists|i: int| first_named(b, s, i) {
        Some(choose|i: int| first_named(b, s, i))
    } else {
        None
    }
}

/// The first section of `d` named `s`: the one that `find_section_by_name`
/// of `xmas_elf` finds, computed from the bytes to check its table before
/// the crate reads it.
fn find_named(d: &[u8], s: &Vec<u8>) -> (r: Option<u16>)
    requires
        is_elf64(d@),
        sh_table_ok(d@),
    ensures
        match r {
            Some(i) => find_named_spec(d@, s@) == Some(i as int) && first_named(d@, s@, i as int),
            None => find_named_spec(d@, s@) is None,
        },
{
    let n = rd16(d, 60);
    let mut i: u16 = 0;
    while i < n
        invariant
            is_elf64(d@),
            sh_table_ok(d@),
            n == shnum(d@),
            i <= n,
            forall|j: int| 0 <= j < i ==> !#[trigger] name_is(d@, j, s@),
        decreases n - i,
    {
        if name_is_check(d, i, s) {
            proof {
                assert(first_named(d@, s@, i as int));
                let c = choose|c: int| first_named(d@, s@, c);
                lemma_first_named_unique(d@, s@, c, i as int);
            }
            return Some(i);
        }
        i = i + 1;
    }
    None
}

/// Whether section `i` of `d` is a table of `es`-byte entries of type `t`
/// that reads without fault.
fn table_check(d: &[u8], i: u16, t: u32, es: u64) -> (r: bool)
    requires
        is_elf64(d@),
        sh_table_ok(d@),
        i < shnum(d@),
        es > 0,
    ensures
        r == typed_table_ok(d@, i as int, t as int, es as int),
{
    if sh_type_at(d, i) != t {
        return false;
    }
    let o = sh_offset_at(d, i);
    let z = sh_size_at(d, i);
    (o as u128) + (z as u128) <= (d.len() as u128) && o % 8 == 0 && z % es == 0
}

/// Whether the name of entry `j` of the symbol table in section `k` of `d`,
/// found in the string table in section `s`, reads without fault.
fn sym_name_check(d: &[u8], k: u16, j: usize, s: u16) -> (r: bool)
    requires
        is_elf64(d@),
        sh_table_ok(d@),
        s < shnum(d@),
        k < shnum(d@),
        table_ok(d@, k as int, 24),
        j < sh_size(d@, k as int) / 24,
    ensures
        r == sym_name_ok(d@, k as int, j as int, s as int),
{
    let dlen = d.len();
    let ko = sh_offset_at(d, k);
    let ghost ks = sh_size(d@, k as int);
    proof {
        vstd::arithmetic::div_mod::lemma_fundamental_div_mod(ks, 24);
    }
    let pos = (ko as usize) + 24 * j;
    let n = rd32(d, pos);
    let so = sh_offset_at(d, s);
    let sz = sh_size_at(d, s);
    if (so as u128) + (sz as u128) > (dlen as u128) || (n as u64) > sz {
        return false;
    }
    cstr_check(d, (so as usize) + (n as usize), (so as usize) + (sz as usize))
}

/// A relocation without addend as one with addend 0.
pub open spec fn rel_as_reloc(e: (u64, u32, u32)) -> RelocEntry {
    RelocEntry { offset: e.0, addend: 0, sym_index: e.1, rtype: e.2 }
}

/// The contents of section `i` of `b` as the loader reads them: its
/// relocations when it is a relocation table that reads without fault,
/// `Other` for a section of another known type, `None` for an unknown
/// type or a relocation table that does not read.
pub open spec fn section_data_spec(b: Seq<u8>, i: int) -> Option<RelocDataView> {
    let t = sh_type(b, i);
    if t == 4 {
        if table_ok(b, i, 24) {
            Some(
                RelocDataView::Rela(
                    Seq::new((sh_size(b, i) / 24) as nat, |j: int| rela_entry(b, i, j)),
                ),
            )
        } else {
            None
        }
    } else if t == 9 {
        if table_ok(b, i, 16) {
            Some(
                RelocDataView::Rel(
                    Seq::new((sh_size(b, i) / 16) as nat, |j: int| rel_as_reloc(rel_entry(b, i, j))),
                ),
            )
        } else {
            None
        }
    } else if valid_sh_type(t) {
        Some(RelocDataView::Other)
    } else {
        None
    }
}

/// The sections of `b` as the loader reads them.
pub open spec fn sections_spec(b: Seq<u8>) -> Seq<SectionView> {
    Seq::new(
        shnum(b) as nat,
        |i: int| SectionView { offset: sh_offset(b, i) as u64, data: section_data_spec(b, i) },
    )
}

/// The name of entry `j` of the symbol table in section `k` of `b`, looked
/// up in the first section named `strs`, which must be of type `str_type`
/// when that is `Some`: `None` when it does not read.
pub open spec fn sym_name_spec(
    b: Seq<u8>,
    k: int,
    j: int,
    strs: Seq<u8>,
    str_type: Option<int>,
) -> Option<Seq<char>> {
    match find_named_spec(b, strs) {
        Some(s) => if names_ok(b) && (str_type matches Some(t) ==> sh_type(b, s) == t)
            && sym_name_ok(b, k, j, s) {
            Some(cstr_chars(b, sym_name_pos(b, k, j, s)))
        } else {
            None
        },
        None => None,
    }
}

/// The `.dynsym` table of the 64-bit file `b`: `None` when it is missing,
/// not a dynamic symbol table or does not read, or when a section name does
/// not read (the lookup by name reads them all).
pub open spec fn dynsym_spec(b: Seq<u8>) -> Option<Seq<DynSymView>> {
    match find_named_spec(b, dynsym_name()) {
        Some(k) => if names_ok(b) && typed_table_ok(b, k, 11, 24) {
            Some(
                Seq::new(
                    (sh_size(b, k) / 24) as nat,
                    |j: int|
                        DynSymView {
                            name: sym_name_spec(b, k, j, dynstr_name(), None),
                            shndx: sym_shndx(b, k, j) as u16,
                            value: sym_value(b, k, j) as u64,
                        },
                ),
            )
        } else {
            None
        },
        None => None,
    }
}

/// The `.symtab` table of the 64-bit file `b`: `None` when it is missing,
/// not a symbol table or does not read, or when a section name does not
/// read (the lookup by name reads them all).
pub open spec fn symtab_spec(b: Seq<u8>) -> Option<Seq<ElfSymbolView>> {
    match find_named_spec(b, symtab_name()) {
        Some(k) => if names_ok(b) && typed_table_ok(b, k, 2, 24) {
            Some(
                Seq::new(
                    (sh_size(b, k) / 24) as nat,
                    |j: int|
                        ElfSymbolView {
                            name: sym_name_spec(b, k, j, strtab_name(), Some(3)),
                            value: sym_value(b, k, j) as u64,
                        },
                ),
            )
        } else {
            None
        },
        None => None,
    }
}

/// The `.dynamic` table of the 64-bit file `b`: `None` when it is missing,
/// not a dynamic table or does not read, or when a section name does not
/// read (the lookup by name reads them all).
pub open spec fn dynamic_spec(b: Seq<u8>) -> Option<Seq<DynEntry>> {
    match find_named_spec(b, dynamic_name()) {
        Some(k) => if names_ok(b) && typed_table_ok(b, k, 6, 16) {
            Some(Seq::new((sh_size(b, k) / 16) as nat, |j: int| dyn_entry(b, k, j)))
        } else {
            None
        },
        None => None,
    }
}

/// The bytes of a section name.
fn name_bytes(which: u8) -> (r: Vec<u8>)
    ensures
        which == 0 ==> r@ == dynsym_name(),
        which == 1 ==> r@ == dynstr_name(),
        which == 2 ==> r@ == dynamic_name(),
        which == 3 ==> r@ == symtab_name(),
        which == 4 ==> r@ == strtab_name(),
{
    let mut v: Vec<u8> = Vec::new();
    v.push(0x2e);
    if which <= 2 {
        v.push(0x64);
        v.push(0x79);
        v.push(0x6e);
        if which == 0 {
            v.push(0x73);
            v.push(0x79);
            v.push(0x6d);
        } else if which == 1 {
            v.push(0x73);
            v.push(0x74);
            v.push(0x72);
        } else {
            v.push(0x61);
            v.push(0x6d);
            v.push(0x69);
            v.push(0x63);
        }
    } else {
        v.push(0x73);
        if which == 3 {
            v.push(0x79);
            v.push(0x6d);
        } else {
            v.push(0x74);
            v.push(0x72);
        }
        v.push(0x74);
        v.push(0x61);
        v.push(0x62);
    }
    proof {
        if which == 0 {
            assert(v@ =~= dynsym_name());
        } else if which == 1 {
            assert(v@ =~= dynstr_name());
        } else if which == 2 {
            assert(v@ =~= dynamic_name());
        } else if which == 3 {
            assert(v@ =~= symtab_name());
        } else if which == 4 {
            assert(v@ =~= strtab_name());
        }
    }
    v
}

/// Reads every section of the 64-bit image: its offset and, for a
/// relocation table, its relocations.
fn read_sections(d: &[u8], img: &ElfImage) -> (r: Vec<SectionInfo>)
    requires
        img@ == d@,
        is_elf64(d@),
        sh_table_ok(d@),
    ensures
        r@.map_values(|s: SectionInfo| s@) == sections_spec(d@),
{
    let n = rd16(d, 60);
    let mut v: Vec<SectionInfo> = Vec::new();
    let mut i: u16 = 0;
    while i < n
        invariant
            img@ == d@,
            is_elf64(d@),
            sh_table_ok(d@),
            n == shnum(d@),
            i <= n,
            v@.len() == i,
            forall|j: int| 0 <= j < i ==> (#[trigger] v@[j])@ == sections_spec(d@)[j],
        decreases n - i,
    {
        let offset = read_section_offset(img, i);
        let t = sh_type_at(d, i);
        let data = if t == 4 {
            if table_check(d, i, 4, 24) {
                let e = read_rela(img, i);
                proof {
                    assert(e@ =~= Seq::new(
                        (sh_size(d@, i as int) / 24) as nat,
                        |j: int| rela_entry(d@, i as int, j),
                    ));
                }
                Some(RelocData::Rela(e))
            } else {
                None
            }
        } else if t == 9 {
            if table_check(d, i, 9, 16) {
                let raw = read_rel(img, i);
                let mut e: Vec<RelocEntry> = Vec::new();
                let mut q: usize = 0;
                while q < raw.len()
                    invariant
                        raw@.len() == sh_size(d@, i as int) / 16,
                        forall|j: int| 0 <= j < raw@.len() ==> raw@[j] == rel_entry(d@, i as int, j),
                        q <= raw@.len(),
                        e@.len() == q,
                        forall|k: int| 0 <= k < q ==> #[trigger] e@[k] == rel_as_reloc(raw@[k]),
                    decreases raw@.len() - q,
                {
                    let (off, sym, ty) = raw[q];
                    e.push(RelocEntry { offset: off, addend: 0, sym_index: sym, rtype: ty });
                    q = q + 1;
                }
                proof {
                    assert(e@ =~= Seq::new(
                        (sh_size(d@, i as int) / 16) as nat,
                        |j: int| rel_as_reloc(rel_entry(d@, i as int, j)),
                    ));
                }
                Some(RelocData::Rel(e))
            } else {
                None
            }
        } else if valid_type(t) {
            Some(RelocData::Other)
        } else {
            None
        };
        let ghost before = v@;
        v.push(SectionInfo { offset, data });
        proof {
            assert forall|j: int| 0 <= j < i + 1 implies (#[trigger] v@[j])@ == sections_spec(d@)[j] by {
                if j < i {
                    assert(v@[j] == before[j]);
                }
            }
        }
        i = i + 1;
    }
    proof {
        assert(v@.map_values(|s: SectionInfo| s@) =~= sections_spec(d@));
    }
    v
}

/// Reads the `.dynsym` table of the 64-bit image; `names` tells whether
/// every section name reads without fault.
fn read_dynsym_table(d: &[u8], img: &ElfImage, names: bool) -> (r: Option<Vec<DynSym>>)
    requires
        img@ == d@,
        is_elf64(d@),
        sh_table_ok(d@),
        names == names_ok(d@),
    ensures
        dynsym_spec(d@) == match r {
            Some(v) => Some(v@.map_values(|s: DynSym| s@)),
            None => None,
        },
{
    if !names {
        return None;
    }
    let k = match find_named(d, &name_bytes(0)) {
        Some(k) => k,
        None => {
            return None;
        },
    };
    if !table_check(d, k, 11, 24) {
        return None;
    }
    let entries = read_dynsym(img);
    let strs = find_named(d, &name_bytes(1));
    let ghost spec = dynsym_spec(d@)->Some_0;
    let mut v: Vec<DynSym> = Vec::new();
    let mut j: usize = 0;
    while j < entries.len()
        invariant
            img@ == d@,
            is_elf64(d@),
            sh_table_ok(d@),
            names == names_ok(d@),
            names,
            typed_table_ok(d@, k as int, 11, 24),
            find_named_spec(d@, dynsym_name()) == Some(k as int),
            first_named(d@, dynsym_name(), k as int),
            match strs {
                Some(s) => find_named_spec(d@, dynstr_name()) == Some(s as int) && first_named(
                    d@,
                    dynstr_name(),
                    s as int,
                ),
                None => find_named_spec(d@, dynstr_name()) is None,
            },
            entries@.len() == sh_size(d@, k as int) / 24,
            forall|q: int|
                0 <= q < entries@.len() ==> entries@[q] == (
                    sym_shndx(d@, k as int, q) as u16,
                    sym_value(d@, k as int, q) as u64,
                ),
            spec == dynsym_spec(d@)->Some_0,
            spec.len() == entries@.len(),
            j <= entries@.len(),
            v@.len() == j,
            forall|q: int| 0 <= q < j ==> (#[trigger] v@[q])@ == spec[q],
        decreases entries@.len() - j,
    {
        let name = match strs {
            Some(s) => {
                if names && sym_name_check(d, k, j, s) {
                    Some(read_dynsym_name(img, j))
                } else {
                    None
                }
            },
            None => None,
        };
        let (shndx, value) = entries[j];
        let ghost before = v@;
        v.push(DynSym { name, shndx, value });
        proof {
            assert forall|q: int| 0 <= q < j + 1 implies (#[trigger] v@[q])@ == spec[q] by {
                if q < j {
                    assert(v@[q] == before[q]);
                }
            }
        }
        j = j + 1;
    }
    proof {
        assert(v@.map_values(|s: DynSym| s@) =~= spec);
    }
    Some(v)
}

/// Reads the `.symtab` table of the 64-bit image; `names` tells whether
/// every section name reads without fault.
fn read_symtab_table(d: &[u8], img: &ElfImage, names: bool) -> (r: Option<Vec<ElfSymbol>>)
    requires
        img@ == d@,
        is_elf64(d@),
        sh_table_ok(d@),
        names == names_ok(d@),
    ensures
        symtab_spec(d@) == match r {
            Some(v) => Some(v@.map_values(|s: ElfSymbol| s@)),
            None => None,
        },
{
    if !names {
        return None;
    }
    let k = match find_named(d, &name_bytes(3)) {
        Some(k) => k,
        None => {
            return None;
        },
    };
    if !table_check(d, k, 2, 24) {
        return None;
    }
    let values = read_symtab(img);
    let strs = find_named(d, &name_bytes(4));
    let ghost spec = symtab_spec(d@)->Some_0;
    let mut v: Vec<ElfSymbol> = Vec::new();
    let mut j: usize = 0;
    while j < values.len()
        invariant
            img@ == d@,
            is_elf64(d@),
            sh_table_ok(d@),
            names == names_ok(d@),
            names,
            typed_table_ok(d@, k as int, 2, 24),
            find_named_spec(d@, symtab_name()) == Some(k as int),
            match strs {
                Some(s) => find_named_spec(d@, strtab_name()) == Some(s as int) && first_named(
                    d@,
                    strtab_name(),
                    s as int,
                ),
                None => find_named_spec(d@, strtab_name()) is None,
            },
            values@.len() == sh_size(d@, k as int) / 24,
            forall|q: int| 0 <= q < values@.len() ==> values@[q] == sym_value(d@, k as int, q) as u64,
            spec == symtab_spec(d@)->Some_0,
            spec.len() == values@.len(),
            j <= values@.len(),
            v@.len() == j,
            forall|q: int| 0 <= q < j ==> (#[trigger] v@[q])@ == spec[q],
        decreases values@.len() - j,
    {
        let name = match strs {
            Some(s) => {
                if names && sh_type_at(d, s) == 3 && sym_name_check(d, k, j, s) {
                    Some(read_symtab_name(img, j))
                } else {
                    None
                }
            },
            None => None,
        };
        let value = values[j];
        let ghost before = v@;
        v.push(ElfSymbol { name, value });
        proof {
            assert forall|q: int| 0 <= q < j + 1 implies (#[trigger] v@[q])@ == spec[q] by {
                if q < j {
                    assert(v@[q] == before[q]);
                }
            }
        }
        j = j + 1;
    }
    proof {
        assert(v@.map_values(|s: ElfSymbol| s@) =~= spec);
    }
    Some(v)
}

/// Reads the `.dynamic` table of the 64-bit image; `names` tells whether
/// every section name reads without fault.
fn read_dynamic_table(d: &[u8], img: &ElfImage, names: bool) -> (r: Option<Vec<DynEntry>>)
    requires
        img@ == d@,
        is_elf64(d@),
        sh_table_ok(d@),
        names == names_ok(d@),
    ensures
        dynamic_spec(d@) == match r {
            Some(v) => Some(v@),
            None => None,
        },
{
    if !names {
        return None;
    }
    let k = match find_named(d, &name_bytes(2)) {
        Some(k) => k,
        None => {
            return None;
        },
    };
    if !table_check(d, k, 6, 16) {
        return None;
    }
    let dlen = d.len();
    let z = sh_size_at(d, k);
    assert(z <= dlen);
    let n = (z / 16) as usize;
    let mut v: Vec<DynEntry> = Vec::new();
    let mut j: usize = 0;
    while j < n
        invariant
            img@ == d@,
            is_elf64(d@),
            sh_table_ok(d@),
            names_ok(d@),
            find_named_spec(d@, dynamic_name()) == Some(k as int),
            typed_table_ok(d@, k as int, 6, 16),
            n == sh_size(d@, k as int) / 16,
            j <= n,
            v@ == Seq::new(j as nat, |q: int| dyn_entry(d@, k as int, q)),
        decreases n - j,
    {
        let tag = read_dynamic_tag(img, j);
        let value = read_dynamic_value(img, j);
        v.push(DynEntry { tag, value });
        proof {
            assert(v@ =~= Seq::new((j + 1) as nat, |q: int| dyn_entry(d@, k as int, q)));
        }
        j = j + 1;
    }
    Some(v)
}

/// The `.dynamic` table of the ELF file `data`: `None` when `xmas_elf`
/// refuses the file or its section headers do not read, `Some(None)` when
/// the table is missing, not 64-bit, or does not read.
pub fn dynamic_table(data: &[u8]) -> (r: Option<Option<Vec<DynEntry>>>)
    ensures
        r is None <==> !elf_accepts(data@) || (is_elf64(data@) && !sh_table_ok(data@)),
        r matches Some(t) ==> match t {
            Some(v) => is_elf64(data@) && dynamic_spec(data@) == Some(v@),
            None => !is_elf64(data@) || dynamic_spec(data@) is None,
        },
{
    if !accepts_check(data) {
        return None;
    }
    if data[4] != 2 {
        return Some(None);
    }
    if !sh_table_check(data) {
        return None;
    }
    let img = image_of(data);
    let names = names_check(data);
    Some(read_dynamic_table(data, &img, names))
}

/// The `.dynsym` table of the ELF file `data`: `None` when `xmas_elf`
/// refuses the file or its section headers do not read, `Some(None)` when
/// the table is missing, not 64-bit, or does not read.
pub fn dynsym_table(data: &[u8]) -> (r: Option<Option<Vec<DynSym>>>)
    ensures
        r is None <==> !elf_accepts(data@) || (is_elf64(data@) && !sh_table_ok(data@)),
        r matches Some(t) ==> match t {
            Some(v) => is_elf64(data@) && dynsym_spec(data@) == Some(v@.map_values(|s: DynSym| s@)),
            None => !is_elf64(data@) || dynsym_spec(data@) is None,
        },
{
    if !accepts_check(data) {
        return None;
    }
    if data[4] != 2 {
        return Some(None);
    }
    if !sh_table_check(data) {
        return None;
    }
    let img = image_of(data);
    let names = names_check(data);
    Some(read_dynsym_table(data, &img, names))
}

/// The `.symtab` table of the ELF file `data`: `None` when `xmas_elf`
/// refuses the file or its section headers do not read, `Some(None)` when
/// the table is missing, not 64-bit, or does not read.
pub fn symbol_table(data: &[u8]) -> (r: Option<Option<Vec<ElfSymbol>>>)
    ensures
        r is None <==> !elf_accepts(data@) || (is_elf64(data@) && !sh_table_ok(data@)),
        r matches Some(t) ==> match t {
            Some(v) => is_elf64(data@) && symtab_spec(data@) == Some(v@.map_values(|s: ElfSymbol| s@)),
            None => !is_elf64(data@) || symtab_spec(data@) is None,
        },
{
    if !accepts_check(data) {
        return None;
    }
    if data[4] != 2 {
        return Some(None);
    }
    if !sh_table_check(data) {
        return None;
    }
    let img = image_of(data);
    let names = names_check(data);
    Some(read_symtab_table(data, &img, names))
}

/// `data` copied into aligned storage.
fn image_of(data: &[u8]) -> (r: ElfImage)
    ensures
        r@ == data@,
{
    let words = data.len() / 8 + 1;
    proof {
        vstd::arithmetic::div_mod::lemma_fundamental_div_mod(data@.len() as int, 8);
    }
    aligned_copy(data, words)
}

/// Everything the module loader reads of an ELF file.
pub struct ElfModuleInfo {
    pub header: ElfHeaderInfo,
    pub program_headers: Vec<ProgramHeaderInfo>,
    pub dynsym: Option<Vec<DynSym>>,
    pub dynamic: Option<Vec<DynEntry>>,
    pub sections: Vec<SectionInfo>,
}

impl ElfModuleInfo {
    /// Reads `data` through `xmas_elf`: `None` when the crate refuses it,
    /// or when it is a 64-bit shared object whose program or section
    /// headers do not read. Of a file the loader refuses by its header (a
    /// 32-bit one, or not a shared object) only the header is read.
    pub fn parse(data: &[u8]) -> (r: Option<Self>)
        ensures
            r is None <==> !elf_accepts(data@) || (is_elf64_shared(data@) && !(ph_table_ok(data@)
                && sh_table_ok(data@))),
            r matches Some(i) ==> {
                &&& elf_header_spec(data@) == Some(i.header)
                &&& if is_elf64_shared(data@) {
                    &&& i.program_headers@ == program_headers_spec(data@)
                    &&& dynsym_spec(data@) == match i.dynsym {
                        Some(v) => Some(v@.map_values(|s: DynSym| s@)),
                        None => None,
                    }
                    &&& dynamic_spec(data@) == match i.dynamic {
                        Some(v) => Some(v@),
                        None => None,
                    }
                    &&& i.sections@.map_values(|s: SectionInfo| s@) == sections_spec(data@)
                } else {
                    &&& i.program_headers@.len() == 0
                    &&& i.dynsym is None
                    &&& i.dynamic is None
                    &&& i.sections@.len() == 0
                }
            },
    {
        if !accepts_check(data) {
            return None;
        }
        let img = image_of(data);
        let header = match read_elf_header(&img) {
            Some(h) => h,
            None => {
                return None;
            },
        };
        let shared = !header.is_32 && match header.kind {
            ElfKind::SharedObject => true,
            _ => false,
        };
        if !shared {
            return Some(
                ElfModuleInfo {
                    header,
                    program_headers: Vec::new(),
                    dynsym: None,
                    dynamic: None,
                    sections: Vec::new(),
                },
            );
        }
        if !ph_table_check(data) || !sh_table_check(data) {
            return None;
        }
        let program_headers = read_program_headers(&img);
        let names = names_check(data);
        let dynsym = read_dynsym_table(data, &img, names);
        let dynamic = read_dynamic_table(data, &img, names);
        let sections = read_sections(data, &img);
        Some(ElfModuleInfo { header, program_headers, dynsym, dynamic, sections })
    }
}

} // verus!
