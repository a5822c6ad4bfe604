//! Reading the section table of a little-endian 64-bit ELF file.
//!
//! The file header is the first 64 bytes; the section headers are 64-byte
//! records at `e_shoff + i * e_shentsize`; the section names are
//! NUL-terminated strings in the section whose index is `e_shstrndx`.
use vstd::prelude::*;
use vstd::slice::{slice_subrange, slice_to_vec};
use vstd::utf8::{decode_utf8, valid_utf8};

verus! {

/// Size in bytes of the ELF file header.
pub const ELF64_EHDR_SIZE: usize = 64;

/// Size in bytes of a section header.
pub const ELF64_SHDR_SIZE: usize = 64;

/// The parser of ELF section tables.
pub struct ElfParser {}

/// The fields of the ELF file header.
#[derive(Debug)]
struct Elf64Ehdr {
    e_ident: [u8; 16],
    e_type: u16,
    e_machine: u16,
    e_version: u32,
    e_entry: u64,
    e_phoff: u64,
    e_shoff: u64,
    e_flags: u32,
    e_ehsize: u16,
    e_phentsize: u16,
    e_phnum: u16,
    e_shentsize: u16,
    e_shnum: u16,
    e_shstrndx: u16,
}

/// A section header.
#[derive(Clone, Copy, PartialEq, Eq, Structural, Debug)]
pub struct Elf64Shdr {
    pub sh_name: u32,
    pub sh_type: u32,
    pub sh_flags: u64,
    pub sh_addr: u64,
    pub sh_offset: u64,
    pub sh_size: u64,
    pub sh_link: u32,
    pub sh_info: u32,
    pub sh_addralign: u64,
    pub sh_entsize: u64,
}

/// A section: its name, the bytes it covers in the file, and its header.
#[derive(Clone, Debug)]
pub struct ElfSection {
    pub name: String,
    pub data: Vec<u8>,
    pub header: Elf64Shdr,
}

/// What a section is, as values.
pub struct ElfSectionView {
    pub name: Seq<char>,
    pub data: Seq<u8>,
    pub header: Elf64Shdr,
}

impl View for ElfSection {
    type V = ElfSectionView;

    open spec fn view(&self) -> ElfSectionView {
        ElfSectionView { name: self.name@, data: self.data@, header: self.header }
    }
}

/// The little-endian 16-bit integer at `i`.
#[verifier::opaque]
pub open spec fn le_u16(s: Seq<u8>, i: int) -> u16 {
    (s[i] + 256 * s[i + 1]) as u16
}

/// The little-endian 32-bit integer at `i`.
#[verifier::opaque]
pub open spec fn le_u32(s: Seq<u8>, i: int) -> u32 {
    (le_u16(s, i) + 0x1_0000 * le_u16(s, i + 2)) as u32
}

/// The little-endian 64-bit integer at `i`.
#[verifier::opaque]
pub open spec fn le_u64(s: Seq<u8>, i: int) -> u64 {
    (le_u32(s, i) + 0x1_0000_0000 * le_u32(s, i + 4)) as u64
}

/// The section header stored at `off`.
pub open spec fn shdr_at(s: Seq<u8>, off: int) -> Elf64Shdr {
    Elf64Shdr {
        sh_name: le_u32(s, off),
        sh_type: le_u32(s, off + 4),
        sh_flags: le_u64(s, off + 8),
        sh_addr: le_u64(s, off + 16),
        sh_offset: le_u64(s, off + 24),
        sh_size: le_u64(s, off + 32),
        sh_link: le_u32(s, off + 40),
        sh_info: le_u32(s, off + 44),
        sh_addralign: le_u64(s, off + 48),
        sh_entsize: le_u64(s, off + 56),
    }
}

/// `e_shoff` of the file header.
pub open spec fn elf_shoff(s: Seq<u8>) -> u64 {
    le_u64(s, 40)
}

/// `e_shentsize` of the file header.
pub open spec fn elf_shentsize(s: Seq<u8>) -> u16 {
    le_u16(s, 58)
}

/// `e_shnum` of the file header.
pub open spec fn elf_shnum(s: Seq<u8>) -> u16 {
    le_u16(s, 60)
}

/// `e_shstrndx` of the file header.
pub open spec fn elf_shstrndx(s: Seq<u8>) -> u16 {
    le_u16(s, 62)
}

/// The file holds a whole file header that starts with the ELF magic number.
pub open spec fn has_elf_magic(s: Seq<u8>) -> bool {
    &&& s.len() >= ELF64_EHDR_SIZE
    &&& s[0] == 0x7f
    &&& s[1] == 0x45
    &&& s[2] == 0x4c
    &&& s[3] == 0x46
}

/// Where the header of section `i` starts.
pub open spec fn shdr_offset(s: Seq<u8>, i: int) -> int {
    elf_shoff(s) + i * elf_shentsize(s)
}

/// The header of section `i` lies inside the file.
pub open spec fn shdr_fits(s: Seq<u8>, i: int) -> bool {
    shdr_offset(s, i) + ELF64_SHDR_SIZE <= s.len()
}

/// The header of the section that holds the section names.
pub open spec fn names_header(s: Seq<u8>) -> Elf64Shdr {
    shdr_at(s, shdr_offset(s, elf_shstrndx(s) as int))
}

/// The bytes of the section that holds the section names.
pub open spec fn names_table(s: Seq<u8>) -> Seq<u8> {
    let h = names_header(s);
    s.subrange(h.sh_offset as int, h.sh_offset + h.sh_size)
}

/// The header of section `i`.
pub open spec fn section_header(s: Seq<u8>, i: int) -> Elf64Shdr {
    shdr_at(s, shdr_offset(s, i))
}

/// Section `i` can be read: its header, its name offset and its bytes lie in range.
pub open spec fn section_readable(s: Seq<u8>, i: int) -> bool {
    &&& shdr_fits(s, i)
    &&& section_header(s, i).sh_name <= names_table(s).len()
    &&& section_header(s, i).sh_offset + section_header(s, i).sh_size <= s.len()
}

/// The file is an ELF file whose section table can be read in full.
pub open spec fn elf_parsable(s: Seq<u8>) -> bool {
    &&& has_elf_magic(s)
    &&& shdr_fits(s, elf_shstrndx(s) as int)
    &&& names_header(s).sh_offset + names_header(s).sh_size <= s.len()
    &&& forall|i: int| 0 <= i < elf_shnum(s) ==> #[trigger] section_readable(s, i)
}

/// The bytes of `b` before its first NUL byte (all of `b` if it has none).
pub open spec fn c_string(b: Seq<u8>) -> Seq<u8>
    decreases b.len(),
{
    if b.len() == 0 || b[0] == 0 {
        seq![]
    } else {
        seq![b[0]] + c_string(b.drop_first())
    }
}

/// What `String::from_utf8_lossy` makes of `bytes`.
pub uninterp spec fn utf8_lossy(bytes: Seq<u8>) -> Seq<char>;

/// The name bytes of section `i`.
pub open spec fn section_name_bytes(s: Seq<u8>, i: int) -> Seq<u8> {
    let t = names_table(s);
    c_string(t.subrange(section_header(s, i).sh_name as int, t.len() as int))
}

/// Section `i` of the file.
pub open spec fn spec_section(s: Seq<u8>, i: int) -> ElfSectionView {
    let h = section_header(s, i);
    ElfSectionView {
        name: utf8_lossy(section_name_bytes(s, i)),
        data: s.subrange(h.sh_offset as int, h.sh_offset + h.sh_size),
        header: h,
    }
}

/// Decodes `bytes` with `String::from_utf8_lossy`. Its result is named
/// `utf8_lossy`; on well-formed UTF-8 it is the decoded text, as the standard
/// library documents. What it makes of ill-formed input (replacement
/// characters) is left to the name.
#[verifier::external_body]
fn string_from_utf8_lossy(bytes: &[u8]) -> (s: String)
    ensures
        s@ == utf8_lossy(bytes@),
        valid_utf8(bytes@) ==> s@ == decode_utf8(bytes@),
{
    String::from_utf8_lossy(bytes).into_owned()
}

/// Reads the little-endian 16-bit integer at `off`.
pub fn read_u16_le(buf: &[u8], off: usize) -> (r: u16)
    requires
        off + 2 <= buf.len(),
    ensures
        r == le_u16(buf@, off as int),
{
    reveal(le_u16);
    buf[off] as u16 + (buf[off + 1] as u16) * 256
}

/// Reads the little-endian 32-bit integer at `off`.
pub fn read_u32_le(buf: &[u8], off: usize) -> (r: u32)
    requires
        off + 4 <= buf.len(),
    ensures
        r == le_u32(buf@, off as int),
{
    reveal(le_u32);
    let lo = read_u16_le(buf, off);
    let hi = read_u16_le(buf, off + 2);
    lo as u32 + (hi as u32) * 0x1_0000
}

/// Reads the little-endian 64-bit integer at `off`.
pub fn read_u64_le(buf: &[u8], off: usize) -> (r: u64)
    requires
        off + 8 <= buf.len(),
    ensures
        r == le_u64(buf@, off as int),
{
    reveal(le_u64);
    let lo = read_u32_le(buf, off);
    let hi = read_u32_le(buf, off + 4);
    lo as u64 + (hi as u64) * 0x1_0000_0000
}

/// Reads the section header at `off`.
fn read_shdr(buf: &[u8], off: usize) -> (h: Elf64Shdr)
    requires
        off + ELF64_SHDR_SIZE <= buf.len(),
    ensures
        h == shdr_at(buf@, off as int),
{
    Elf64Shdr {
        sh_name: read_u32_le(buf, off),
        sh_type: read_u32_le(buf, off + 4),
        sh_flags: read_u64_le(buf, off + 8),
        sh_addr: read_u64_le(buf, off + 16),
        sh_offset: read_u64_le(buf, off + 24),
        sh_size: read_u64_le(buf, off + 32),
        sh_link: read_u32_le(buf, off + 40),
        sh_info: read_u32_le(buf, off + 44),
        sh_addralign: read_u64_le(buf, off + 48),
        sh_entsize: read_u64_le(buf, off + 56),
    }
}

/// Reads the file header.
fn read_ehdr(buf: &[u8]) -> (h: Elf64Ehdr)
    requires
        buf@.len() >= ELF64_EHDR_SIZE,
    ensures
        h.e_ident@ == buf@.subrange(0, 16),
        h.e_shoff == elf_shoff(buf@),
        h.e_shentsize == elf_shentsize(buf@),
        h.e_shnum == elf_shnum(buf@),
        h.e_shstrndx == elf_shstrndx(buf@),
{
    let e_ident = [
        buf[0],
        buf[1],
        buf[2],
        buf[3],
        buf[4],
        buf[5],
        buf[6],
        buf[7],
        buf[8],
        buf[9],
        buf[10],
        buf[11],
        buf[12],
        buf[13],
        buf[14],
        buf[15],
    ];
    assert(e_ident@ =~= buf@.subrange(0, 16));
    Elf64Ehdr {
        e_ident,
        e_type: read_u16_le(buf, 16),
        e_machine: read_u16_le(buf, 18),
        e_version: read_u32_le(buf, 20),
        e_entry: read_u64_le(buf, 24),
        e_phoff: read_u64_le(buf, 32),
        e_shoff: read_u64_le(buf, 40),
        e_flags: read_u32_le(buf, 48),
        e_ehsize: read_u16_le(buf, 52),
        e_phentsize: read_u16_le(buf, 54),
        e_phnum: read_u16_le(buf, 56),
        e_shentsize: read_u16_le(buf, 58),
        e_shnum: read_u16_le(buf, 60),
        e_shstrndx: read_u16_le(buf, 62),
    }
}

proof fn lemma_index_product_bound(i: int, e: int)
    requires
        0 <= i <= 0xffff,
        0 <= e <= 0xffff,
    ensures
        0 <= i * e <= 0xffff * 0xffff,
{
    assert(0 <= i * e <= 0xffff * 0xffff) by (nonlinear_arith)
        requires
            0 <= i <= 0xffff,
            0 <= e <= 0xffff,
    ;
}

proof fn lemma_c_string_prefix(b: Seq<u8>, j: int)
    requires
        0 <= j <= b.len(),
        forall|k: int| 0 <= k < j ==> b[k] != 0,
        j == b.len() || b[j] == 0,
    ensures
        c_string(b) == b.take(j),
    decreases j,
{
    if j == 0 {
        assert(b.take(0) =~= Seq::<u8>::empty());
    } else {
        lemma_c_string_prefix(b.drop_first(), j - 1);
        assert(b.take(j) =~= seq![b[0]] + b.drop_first().take(j - 1));
    }
}

/// The bytes of the NUL-terminated string that starts at `from` in `table`.
fn c_string_at(table: &[u8], from: usize) -> (r: Vec<u8>)
    requires
        from <= table@.len(),
    ensures
        r@ == c_string(table@.subrange(from as int, table@.len() as int)),
{
    let n = table.len();
    let mut j: usize = from;
    while j < n && table[j] != 0
        invariant
            from <= j <= n == table@.len(),
            forall|k: int| from <= k < j ==> table@[k] != 0,
        decreases n - j,
    {
        j = j + 1;
    }
    let rest = slice_subrange(table, from, n);
    proof {
        lemma_c_string_prefix(rest@, (j - from) as int);
    }
    let name = slice_subrange(table, from, j);
    assert(name@ =~= rest@.take((j - from) as int));
    slice_to_vec(name)
}

/// `off + len` as an integer, where it fits in 64 bits.
fn checked_end(off: u64, len: u64) -> (r: Option<u64>)
    ensures
        match r {
            Some(e) => e == off + len,
            None => off + len > u64::MAX,
        },
{
    off.checked_add(len)
}

/// Offset of the header of section `i`, if it fits in 64 bits.
fn shdr_offset_of(shoff: u64, i: u16, entsize: u16) -> (r: Option<u64>)
    ensures
        match r {
            Some(o) => o == shoff + i * entsize,
            None => shoff + i * entsize > u64::MAX,
        },
{
    proof {
        lemma_index_product_bound(i as int, entsize as int);
    }
    let prod: u64 = (i as u64) * (entsize as u64);
    shoff.checked_add(prod)
}

/// The file header and the header at `off` lie in `buf`, reading as little as possible.
fn header_in_file(buf: &[u8], off: Option<u64>) -> (r: bool)
    ensures
        r == match off {
            Some(o) => o + ELF64_SHDR_SIZE <= buf.len(),
            None => false,
        },
{
    match off {
        Some(o) => match o.checked_add(ELF64_SHDR_SIZE as u64) {
            Some(e) => e <= buf.len() as u64,
            None => false,
        },
        None => false,
    }
}

impl ElfParser {
    /// Whether `buffer` is an ELF file whose section table can be read in full.
    fn is_parsable(buffer: &[u8]) -> (r: bool)
        ensures
            r == elf_parsable(buffer@),
    {
        let len = buffer.len();
        if len < ELF64_EHDR_SIZE {
            return false;
        }
        if buffer[0] != 0x7f || buffer[1] != 0x45 || buffer[2] != 0x4c || buffer[3] != 0x46 {
            return false;
        }
        let ghost s = buffer@;
        let header = read_ehdr(buffer);
        let names_off = shdr_offset_of(header.e_shoff, header.e_shstrndx, header.e_shentsize);
        if !header_in_file(buffer, names_off) {
            return false;
        }
        let names_off = names_off.unwrap() as usize;
        let names = read_shdr(buffer, names_off);
        assert(names == names_header(s));
        assert(len as int == s.len());
        assert(len <= u64::MAX);
        let names_end = checked_end(names.sh_offset, names.sh_size);
        match names_end {
            None => {
                return false;
            },
            Some(e) => {
                if e > len as u64 {
                    return false;
                }
            },
        }
        let names_size = names.sh_size;
        assert(names_table(s).len() == names_size);
        let mut i: u16 = 0;
        while i < header.e_shnum
            invariant
                s == buffer@,
                len == s.len(),
                header.e_shoff == elf_shoff(s),
                header.e_shentsize == elf_shentsize(s),
                header.e_shnum == elf_shnum(s),
                names_size == names_table(s).len(),
                i <= header.e_shnum,
                forall|k: int| 0 <= k < i ==> #[trigger] section_readable(s, k),
            decreases header.e_shnum - i,
        {
            let off = shdr_offset_of(header.e_shoff, i, header.e_shentsize);
            if !header_in_file(buffer, off) {
                assert(!section_readable(s, i as int));
                return false;
            }
            let h = read_shdr(buffer, off.unwrap() as usize);
            assert(h == section_header(s, i as int));
            if h.sh_name as u64 > names_size {
                assert(!section_readable(s, i as int));
                return false;
            }
            match checked_end(h.sh_offset, h.sh_size) {
                None => {
                    assert(!section_readable(s, i as int));
                    return false;
                },
                Some(e) => {
                    if e > len as u64 {
                        assert(!section_readable(s, i as int));
                        return false;
                    }
                },
            }
            i = i + 1;
        }
        true
    }

    /// Reads the section table of `buffer`: one section per section header, in
    /// order, each with its name from the section-name table, a copy of the bytes
    /// it covers, and its header. The file must be one that can be read in full.
    pub fn parse(buffer: &[u8]) -> (sections: Vec<ElfSection>)
        requires
            elf_parsable(buffer@),
        ensures
            sections@.len() == elf_shnum(buffer@),
            forall|i: int|
                0 <= i < sections@.len() ==> (#[trigger] sections@[i])@ == spec_section(
                    buffer@,
                    i,
                ),
    {
        let ghost s = buffer@;
        let len = buffer.len();
        assert(len <= u64::MAX);
        let header = read_ehdr(buffer);
        let names_off = shdr_offset_of(header.e_shoff, header.e_shstrndx, header.e_shentsize);
        let names = read_shdr(buffer, names_off.unwrap() as usize);
        let names_start = names.sh_offset as usize;
        let names_end = names_start + names.sh_size as usize;
        let table = slice_subrange(buffer, names_start, names_end);
        let mut sections: Vec<ElfSection> = Vec::new();
        let mut i: u16 = 0;
        while i < header.e_shnum
            invariant
                s == buffer@,
                len == s.len(),
                elf_parsable(s),
                header.e_shoff == elf_shoff(s),
                header.e_shentsize == elf_shentsize(s),
                header.e_shnum == elf_shnum(s),
                table@ == names_table(s),
                i <= header.e_shnum,
                sections@.len() == i,
                forall|k: int|
                    0 <= k < i ==> (#[trigger] sections@[k])@ == spec_section(s, k),
            decreases header.e_shnum - i,
        {
            assert(section_readable(s, i as int));
            let off = shdr_offset_of(header.e_shoff, i, header.e_shentsize).unwrap() as usize;
            let h = read_shdr(buffer, off);
            let name_bytes = c_string_at(table, h.sh_name as usize);
            let name = string_from_utf8_lossy(name_bytes.as_slice());
            let start = h.sh_offset as usize;
            let end = start + h.sh_size as usize;
            let data = slice_to_vec(slice_subrange(buffer, start, end));
            sections.push(ElfSection { name, data, header: h });
            i = i + 1;
        }
        sections
    }

    /// Reads the section table of `buffer` as `parse` does, or gives `None` for a
    /// file that is not an ELF file or whose section table cannot be read in full.
    pub fn try_parse(buffer: &[u8]) -> (r: Option<Vec<ElfSection>>)
        ensures
            r is Some <==> elf_parsable(buffer@),
            r matches Some(sections) ==> {
                &&& sections@.len() == elf_shnum(buffer@)
                &&& forall|i: int|
                    0 <= i < sections@.len() ==> (#[trigger] sections@[i])@ == spec_section(
                        buffer@,
                        i,
                    )
            },
    {
        if Self::is_parsable(buffer) {
            Some(Self::parse(buffer))
        } else {
            None
        }
    }
}

/// The little-endian readers weigh byte `k` of a word by `256^k`.
pub proof fn lemma_le_words(s: Seq<u8>, i: int)
    requires
        0 <= i,
        i + 8 <= s.len(),
    ensures
        le_u16(s, i) == s[i] + 0x100 * s[i + 1],
        le_u32(s, i) == s[i] + 0x100 * s[i + 1] + 0x1_0000 * s[i + 2] + 0x100_0000 * s[i + 3],
        le_u64(s, i) == s[i] + 0x100 * s[i + 1] + 0x1_0000 * s[i + 2] + 0x100_0000 * s[i + 3]
            + 0x1_0000_0000 * s[i + 4] + 0x100_0000_0000 * s[i + 5] + 0x1_0000_0000_0000 * s[i
            + 6] + 0x100_0000_0000_0000 * s[i + 7],
{
    reveal(le_u16);
    reveal(le_u32);
    reveal(le_u64);
}

/// Each field of a parsed section header is the little-endian word at its fixed
/// place in the 64-byte record of section `i`, which starts at
/// `e_shoff + i * e_shentsize` (`e_shoff` at byte 40, `e_shentsize` at byte 58).
pub proof fn lemma_section_header_fields(s: Seq<u8>, i: int)
    ensures
        ({
            let off = le_u64(s, 40) + i * le_u16(s, 58);
            let h = spec_section(s, i).header;
            &&& h.sh_name == le_u32(s, off)
            &&& h.sh_type == le_u32(s, off + 4)
            &&& h.sh_flags == le_u64(s, off + 8)
            &&& h.sh_addr == le_u64(s, off + 16)
            &&& h.sh_offset == le_u64(s, off + 24)
            &&& h.sh_size == le_u64(s, off + 32)
            &&& h.sh_link == le_u32(s, off + 40)
            &&& h.sh_info == le_u32(s, off + 44)
            &&& h.sh_addralign == le_u64(s, off + 48)
            &&& h.sh_entsize == le_u64(s, off + 56)
        }),
{
}

} // verus!
