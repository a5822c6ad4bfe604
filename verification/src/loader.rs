//! Turning the sections of an ELF file into one memory image, and relocating it.
//!
//! The image spans from the lowest to the highest address of the sections that
//! occupy memory; each such section's bytes are placed at its address minus the
//! lowest address. Relocations with addends then store `base + addend`, as a
//! little-endian 64-bit word, at their offsets in the image, where `base` is the
//! address at which the image is finally mapped.
use vstd::prelude::*;
use crate::elf_parser::{ElfSection, Elf64Shdr, le_u64, read_u64_le};

verus! {

/// Bit of `sh_flags` marking a section that occupies memory while the program runs.
pub const SHF_ALLOC: u64 = 0x02;

/// `sh_type` of a relocation section whose entries carry addends.
pub const SHT_RELA: u32 = 4;

/// `sh_type` of a relocation section whose entries carry no addends.
pub const SHT_REL: u32 = 9;

/// Size in bytes of one relocation entry with addend.
pub const RELA_ENTRY_SIZE: u64 = 24;

/// The memory image of a program, before it is mapped.
pub struct LoadedImage {
    /// The lowest address of the sections in the image.
    pub start: i64,
    /// The bytes of the image; index 0 stands for address `start`.
    pub memory: Vec<u8>,
    /// Offset in the image of the section named `.text_start` (the entry point).
    pub text_offset: usize,
    /// For each section, its offset in the image if it was placed there.
    pub offsets: Vec<Option<usize>>,
}

/// One relocation entry with addend.
#[derive(Clone, Copy, PartialEq, Eq, Structural, Debug)]
pub struct Relocation {
    pub offset: u64,
    pub info: u64,
    pub addend: u64,
}

/// The section occupies memory while the program runs.
pub open spec fn is_alloc(h: Elf64Shdr) -> bool {
    h.sh_flags & SHF_ALLOC != 0
}

/// The name of the section at which execution starts.
pub open spec fn text_start_name() -> Seq<char> {
    seq!['.', 't', 'e', 'x', 't', '_', 's', 't', 'a', 'r', 't']
}

/// Lowest start and highest end, as signed 64-bit addresses, of the memory
/// sections among the first `n`, starting from `(i64::MAX, 0)`; `None` where an
/// end does not fit in 64 signed bits.
pub open spec fn layout_bounds(secs: Seq<ElfSection>, n: int) -> Option<(int, int)>
    decreases n,
{
    if n <= 0 {
        Some((i64::MAX as int, 0))
    } else {
        match layout_bounds(secs, n - 1) {
            None => None,
            Some((lo, hi)) => {
                let h = secs[n - 1].header;
                if !is_alloc(h) {
                    Some((lo, hi))
                } else {
                    let a = (h.sh_addr as i64) as int;
                    let e = a + (h.sh_size as i64) as int;
                    if e < i64::MIN || e > i64::MAX {
                        None
                    } else {
                        Some((if a < lo {
                            a
                        } else {
                            lo
                        }, if e > hi {
                            e
                        } else {
                            hi
                        }))
                    }
                }
            },
        }
    }
}

/// `mem` with `data` stored from `off` on.
pub open spec fn place(mem: Seq<u8>, off: int, data: Seq<u8>) -> Seq<u8> {
    mem.subrange(0, off) + data + mem.subrange(off + data.len(), mem.len() as int)
}

/// Offset in the image of a memory section, as the loader computes it in
/// machine words; may be negative (the loader then stops).
pub open spec fn image_offset(h: Elf64Shdr, start: i64) -> int {
    (h.sh_addr as usize) as int - (start as usize) as int
}

/// The image after placing the memory sections among the first `n`, with the
/// offset of the last `.text_start` among them (0 if none); `None` where a
/// section does not fit.
pub open spec fn placed(secs: Seq<ElfSection>, n: int, start: i64, mem0: Seq<u8>) -> Option<
    (Seq<u8>, int),
>
    decreases n,
{
    if n <= 0 {
        Some((mem0, 0))
    } else {
        match placed(secs, n - 1, start, mem0) {
            None => None,
            Some((mem, text)) => {
                let sec = secs[n - 1];
                if !is_alloc(sec.header) {
                    Some((mem, text))
                } else {
                    let off = image_offset(sec.header, start);
                    let size = (sec.header.sh_size as usize) as int;
                    if off < 0 || off + size > mem.len() || sec.data@.len() != size {
                        None
                    } else {
                        Some(
                            (
                                place(mem, off, sec.data@),
                                if sec.name@ == text_start_name() {
                                    off
                                } else {
                                    text
                                },
                            ),
                        )
                    }
                }
            },
        }
    }
}

/// Length of the image for the given bounds, computed as the loader does; `None`
/// where the loader stops (the difference does not fit, or is negative).
pub open spec fn image_len(lo: int, hi: int) -> Option<int> {
    let d = hi - lo;
    if d < 0 || d > i64::MAX {
        None
    } else {
        Some(((d as i64) as usize) as int)
    }
}

/// The image of `secs`: its start, bytes and entry offset; `None` where the
/// loader stops.
pub open spec fn spec_image(secs: Seq<ElfSection>) -> Option<(i64, Seq<u8>, int)> {
    match layout_bounds(secs, secs.len() as int) {
        None => None,
        Some((lo, hi)) => match image_len(lo, hi) {
            None => None,
            Some(n) => match placed(secs, secs.len() as int, lo as i64, Seq::new(n as nat, |i: int| 0u8)) {
                None => None,
                Some((mem, text)) => Some((lo as i64, mem, text)),
            },
        },
    }
}

/// The bytes of `v`, least significant first.
pub open spec fn u64_le_bytes(v: u64) -> Seq<u8> {
    seq![
        (v % 0x100) as u8,
        (v / 0x100 % 0x100) as u8,
        (v / 0x1_0000 % 0x100) as u8,
        (v / 0x100_0000 % 0x100) as u8,
        (v / 0x1_0000_0000 % 0x100) as u8,
        (v / 0x100_0000_0000 % 0x100) as u8,
        (v / 0x1_0000_0000_0000 % 0x100) as u8,
        (v / 0x100_0000_0000_0000 % 0x100) as u8,
    ]
}

/// Number of relocation entries in a section with addends.
pub open spec fn rela_count(h: Elf64Shdr) -> int {
    (h.sh_size / 8 / 3) as int
}

/// The relocation entries of one section (none unless it has addends).
pub open spec fn section_relocations(sec: ElfSection) -> Seq<Relocation> {
    if sec.header.sh_type == SHT_RELA {
        Seq::new(
            rela_count(sec.header) as nat,
            |i: int|
                Relocation {
                    offset: le_u64(sec.data@, 24 * i),
                    info: le_u64(sec.data@, 24 * i + 8),
                    addend: le_u64(sec.data@, 24 * i + 16),
                },
        )
    } else {
        Seq::empty()
    }
}

/// The relocation entries of the first `n` sections, in order.
pub open spec fn all_relocations(secs: Seq<ElfSection>, n: int) -> Seq<Relocation>
    decreases n,
{
    if n <= 0 {
        Seq::empty()
    } else {
        all_relocations(secs, n - 1) + section_relocations(secs[n - 1])
    }
}

/// The entries of every relocation section lie within its bytes.
pub open spec fn relocation_sections_complete(secs: Seq<ElfSection>) -> bool {
    forall|i: int|
        0 <= i < secs.len() && (#[trigger] secs[i]).header.sh_type == SHT_RELA ==> 24
            * rela_count(secs[i].header) <= secs[i].data@.len()
}

/// Every relocation writes inside the image, and `base + addend` fits in 64 bits.
pub open spec fn relocations_fit(len: int, base: u64, relocs: Seq<Relocation>) -> bool {
    forall|i: int|
        0 <= i < relocs.len() ==> (#[trigger] relocs[i]).offset + 8 <= len && base
            + relocs[i].addend <= u64::MAX
}

/// `mem` after applying the first `n` relocations for an image mapped at `base`.
pub open spec fn relocated(mem: Seq<u8>, base: u64, relocs: Seq<Relocation>, n: int) -> Seq<u8>
    decreases n,
{
    if n <= 0 {
        mem
    } else {
        let r = relocs[n - 1];
        place(
            relocated(mem, base, relocs, n - 1),
            r.offset as int,
            u64_le_bytes((base + r.addend) as u64),
        )
    }
}

/// Whether `name` is `.text_start`.
fn is_text_start(name: &String) -> (r: bool)
    ensures
        r == (name@ == text_start_name()),
{
    let s = name.as_str();
    let expected = ['.', 't', 'e', 'x', 't', '_', 's', 't', 'a', 'r', 't'];
    assert(expected@ == text_start_name());
    if s.unicode_len() != 11 {
        return false;
    }
    let mut k: usize = 0;
    while k < 11
        invariant
            s@ == name@,
            s@.len() == 11,
            expected@ == text_start_name(),
            k <= 11,
            forall|j: int| 0 <= j < k ==> s@[j] == expected@[j],
        decreases 11 - k,
    {
        if s.get_char(k) != expected[k] {
            return false;
        }
        k = k + 1;
    }
    assert(s@ =~= text_start_name());
    true
}

/// Stores `data` into `mem` from `off` on.
fn copy_into(mem: &mut Vec<u8>, off: usize, data: &[u8])
    requires
        off + data@.len() <= old(mem)@.len(),
    ensures
        final(mem)@ == place(old(mem)@, off as int, data@),
{
    let n = data.len();
    let mut k: usize = 0;
    while k < n
        invariant
            n == data@.len(),
            off + n <= mem.len(),
            mem@.len() == old(mem)@.len(),
            k <= n,
            forall|j: int| 0 <= j < k ==> mem@[off + j] == data@[j],
            forall|j: int| 0 <= j < off ==> mem@[j] == old(mem)@[j],
            forall|j: int| off + n <= j < mem@.len() ==> mem@[j] == old(mem)@[j],
        decreases n - k,
    {
        mem[off + k] = data[k];
        k = k + 1;
    }
    assert(mem@ =~= place(old(mem)@, off as int, data@));
}

/// Lays out the memory sections of `sections` as one image: the image spans
/// from the lowest start to the highest end of those sections, and each one's
/// bytes stand at its address minus that start, later sections over earlier
/// ones. `None` where this cannot be done: no memory section, an end that does
/// not fit in 64 signed bits, or a section that falls outside the span or whose
/// bytes do not match its size.
pub fn load_image(sections: &Vec<ElfSection>) -> (r: Option<LoadedImage>)
    ensures
        match r {
            Some(img) => spec_image(sections@) == Some((img.start, img.memory@, img.text_offset as int))
                && img.offsets@.len() == sections@.len() && forall|i: int|
                0 <= i < sections@.len() ==> #[trigger] img.offsets@[i] == (if is_alloc(
                sections@[i].header,
            ) {
                Some(image_offset(sections@[i].header, img.start) as usize)
            } else {
                None
            }),
            None => spec_image(sections@) is None,
        },
{
    let n = sections.len();
    let mut lo: i64 = i64::MAX;
    let mut hi: i64 = 0;
    let mut i: usize = 0;
    while i < n
        invariant
            n == sections@.len(),
            i <= n,
            layout_bounds(sections@, i as int) == Some((lo as int, hi as int)),
        decreases n - i,
    {
        let h = sections[i].header;
        if (h.sh_flags & SHF_ALLOC) > 0 {
            let a = h.sh_addr as i64;
            let e = match a.checked_add(h.sh_size as i64) {
                Some(e) => e,
                None => {
                    assert(layout_bounds(sections@, i + 1) is None);
                    proof {
                        lemma_layout_stays_none(sections@, i + 1, n as int);
                    }
                    return None;
                },
            };
            if a < lo {
                lo = a;
            }
            if e > hi {
                hi = e;
            }
        }
        i = i + 1;
    }
    let d = match hi.checked_sub(lo) {
        Some(d) => d,
        None => {
            return None;
        },
    };
    if d < 0 {
        return None;
    }
    let len = d as usize;
    let mut memory: Vec<u8> = Vec::new();
    let mut z: usize = 0;
    while z < len
        invariant
            z <= len,
            memory@.len() == z,
            forall|j: int| 0 <= j < z ==> memory@[j] == 0u8,
        decreases len - z,
    {
        memory.push(0u8);
        z = z + 1;
    }
    let ghost mem0 = memory@;
    assert(mem0 =~= Seq::new(len as nat, |j: int| 0u8));
    let mut text_offset: usize = 0;
    let mut offsets: Vec<Option<usize>> = Vec::new();
    let mut i: usize = 0;
    while i < n
        invariant
            n == sections@.len(),
            i <= n,
            offsets@.len() == i,
            forall|j: int|
                0 <= j < i ==> #[trigger] offsets@[j] == (if is_alloc(sections@[j].header) {
                    Some(image_offset(sections@[j].header, lo) as usize)
                } else {
                    None
                }),
            layout_bounds(sections@, n as int) == Some((lo as int, hi as int)),
            image_len(lo as int, hi as int) == Some(len as int),
            mem0 == Seq::new(len as nat, |j: int| 0u8),
            placed(sections@, i as int, lo, mem0) == Some((memory@, text_offset as int)),
        decreases n - i,
    {
        let sec = &sections[i];
        let h = sec.header;
        if (h.sh_flags & SHF_ALLOC) > 0 {
            let base = lo as usize;
            let addr = h.sh_addr as usize;
            if addr < base {
                proof {
                    lemma_placed_stays_none(sections@, i + 1, n as int, lo, mem0);
                }
                return None;
            }
            let off = addr - base;
            let size = h.sh_size as usize;
            if size > memory.len() || off > memory.len() - size || sec.data.len() != size {
                proof {
                    lemma_placed_stays_none(sections@, i + 1, n as int, lo, mem0);
                }
                return None;
            }
            copy_into(&mut memory, off, sec.data.as_slice());
            if is_text_start(&sec.name) {
                text_offset = off;
            }
            offsets.push(Some(off));
        } else {
            offsets.push(None);
        }
        i = i + 1;
    }
    Some(LoadedImage { start: lo, memory, text_offset, offsets })
}

proof fn lemma_layout_stays_none(secs: Seq<ElfSection>, i: int, n: int)
    requires
        0 <= i <= n,
        layout_bounds(secs, i) is None,
    ensures
        layout_bounds(secs, n) is None,
    decreases n - i,
{
    if i < n {
        lemma_layout_stays_none(secs, i + 1, n);
    }
}

proof fn lemma_placed_stays_none(secs: Seq<ElfSection>, i: int, n: int, start: i64, mem0: Seq<u8>)
    requires
        0 <= i <= n,
        placed(secs, i, start, mem0) is None,
    ensures
        placed(secs, n, start, mem0) is None,
    decreases n - i,
{
    if i < n {
        lemma_placed_stays_none(secs, i + 1, n, start, mem0);
    }
}

/// The little-endian bytes of `v`.
fn u64_to_le_bytes(v: u64) -> (b: [u8; 8])
    ensures
        b@ == u64_le_bytes(v),
{
    let b = [
        (v % 0x100) as u8,
        (v / 0x100 % 0x100) as u8,
        (v / 0x1_0000 % 0x100) as u8,
        (v / 0x100_0000 % 0x100) as u8,
        (v / 0x1_0000_0000 % 0x100) as u8,
        (v / 0x100_0000_0000 % 0x100) as u8,
        (v / 0x1_0000_0000_0000 % 0x100) as u8,
        (v / 0x100_0000_0000_0000 % 0x100) as u8,
    ];
    assert(b@ =~= u64_le_bytes(v));
    b
}

/// Reads the relocation entries with addends of every relocation section, in
/// section order: each entry is three little-endian 64-bit words (offset, info,
/// addend), and a section of `sh_size` bytes holds `sh_size / 24` of them.
pub fn relocations(sections: &Vec<ElfSection>) -> (r: Vec<Relocation>)
    requires
        relocation_sections_complete(sections@),
    ensures
        r@ == all_relocations(sections@, sections@.len() as int),
{
    let n = sections.len();
    let mut out: Vec<Relocation> = Vec::new();
    let mut i: usize = 0;
    while i < n
        invariant
            n == sections@.len(),
            i <= n,
            relocation_sections_complete(sections@),
            out@ == all_relocations(sections@, i as int),
        decreases n - i,
    {
        let sec = &sections[i];
        let ghost before = out@;
        if sec.header.sh_type == SHT_RELA {
            assert(24 * rela_count(sections@[i as int].header) <= sections@[i as int].data@.len());
            let data = sec.data.as_slice();
            let c64 = sec.header.sh_size / 8 / 3;
            assert(c64 <= data.len());
            let count = c64 as usize;
            let mut k: usize = 0;
            while k < count
                invariant
                    count == rela_count(sec.header),
                    sec.header.sh_type == SHT_RELA,
                    24 * count <= data.len(),
                    data@ == sec.data@,
                    k <= count,
                    out@ == before + section_relocations(*sec).take(k as int),
                decreases count - k,
            {
                let base = 24 * k;
                let entry = Relocation {
                    offset: read_u64_le(data, base),
                    info: read_u64_le(data, base + 8),
                    addend: read_u64_le(data, base + 16),
                };
                out.push(entry);
                k = k + 1;
                assert(out@ =~= before + section_relocations(*sec).take(k as int));
            }
            assert(section_relocations(*sec).take(count as int) =~= section_relocations(*sec));
        } else {
            assert(section_relocations(*sec) =~= Seq::<Relocation>::empty());
            assert(out@ =~= before + section_relocations(*sec));
        }
        assert(sections@[i as int] == *sec);
        i = i + 1;
    }
    out
}

/// Applies `relocs` in order to an image that will be mapped at `base`: each one
/// stores `base + addend` as a little-endian 64-bit word at its offset. Returns
/// `false`, leaving the image as it was, where some relocation would write
/// outside the image or `base + addend` does not fit in 64 bits.
pub fn apply_relocations(memory: &mut Vec<u8>, base: u64, relocs: &Vec<Relocation>) -> (ok: bool)
    ensures
        ok == relocations_fit(old(memory)@.len() as int, base, relocs@),
        ok ==> final(memory)@ == relocated(old(memory)@, base, relocs@, relocs@.len() as int),
        !ok ==> final(memory)@ == old(memory)@,
{
    let n = relocs.len();
    let len = memory.len();
    let mut i: usize = 0;
    while i < n
        invariant
            n == relocs@.len(),
            len == memory@.len(),
            i <= n,
            forall|j: int|
                0 <= j < i ==> (#[trigger] relocs@[j]).offset + 8 <= len && base
                    + relocs@[j].addend <= u64::MAX,
        decreases n - i,
    {
        let r = relocs[i];
        if r.offset > len as u64 || len as u64 - r.offset < 8 || r.addend > u64::MAX - base {
            assert(!(relocs@[i as int].offset + 8 <= len && base + relocs@[i as int].addend
                <= u64::MAX));
            return false;
        }
        i = i + 1;
    }
    let ghost orig = memory@;
    let mut i: usize = 0;
    while i < n
        invariant
            n == relocs@.len(),
            len == memory@.len(),
            len == orig.len(),
            i <= n,
            relocations_fit(len as int, base, relocs@),
            memory@ == relocated(orig, base, relocs@, i as int),
        decreases n - i,
    {
        let r = relocs[i];
        assert(r.offset + 8 <= len && base + r.addend <= u64::MAX) by {
            assert(relocs@[i as int] == r);
        }
        let bytes = u64_to_le_bytes(base + r.addend);
        copy_into(memory, r.offset as usize, bytes.as_slice());
        i = i + 1;
    }
    true
}

proof fn lemma_u64_digits(v: u64)
    ensures
        v == (v % 0x100) + 0x100 * (v / 0x100 % 0x100) + 0x1_0000 * (v / 0x1_0000 % 0x100)
            + 0x100_0000 * (v / 0x100_0000 % 0x100) + 0x1_0000_0000 * (v / 0x1_0000_0000 % 0x100)
            + 0x100_0000_0000 * (v / 0x100_0000_0000 % 0x100) + 0x1_0000_0000_0000 * (v
            / 0x1_0000_0000_0000 % 0x100) + 0x100_0000_0000_0000 * (v / 0x100_0000_0000_0000
            % 0x100),
{
    assert(v == (v % 0x100) + 0x100 * (v / 0x100 % 0x100) + 0x1_0000 * (v / 0x1_0000 % 0x100)
        + 0x100_0000 * (v / 0x100_0000 % 0x100) + 0x1_0000_0000 * (v / 0x1_0000_0000 % 0x100)
        + 0x100_0000_0000 * (v / 0x100_0000_0000 % 0x100) + 0x1_0000_0000_0000 * (v
        / 0x1_0000_0000_0000 % 0x100) + 0x100_0000_0000_0000 * (v / 0x100_0000_0000_0000 % 0x100))
        by (bit_vector);
}

/// Reading the word that a relocation stored gives back what it stored, and the
/// bytes around it are untouched.
pub proof fn lemma_read_after_store(mem: Seq<u8>, off: int, v: u64)
    requires
        0 <= off,
        off + 8 <= mem.len(),
    ensures
        le_u64(place(mem, off, u64_le_bytes(v)), off) == v,
        place(mem, off, u64_le_bytes(v)).len() == mem.len(),
        forall|j: int|
            0 <= j < mem.len() && (j < off || j >= off + 8) ==> #[trigger] place(
                mem,
                off,
                u64_le_bytes(v),
            )[j] == mem[j],
{
    reveal(le_u64);
    reveal(crate::elf_parser::le_u32);
    reveal(crate::elf_parser::le_u16);
    let m = place(mem, off, u64_le_bytes(v));
    assert(m[off] == (v % 0x100) as u8);
    assert(m[off + 1] == (v / 0x100 % 0x100) as u8);
    assert(m[off + 2] == (v / 0x1_0000 % 0x100) as u8);
    assert(m[off + 3] == (v / 0x100_0000 % 0x100) as u8);
    assert(m[off + 4] == (v / 0x1_0000_0000 % 0x100) as u8);
    assert(m[off + 5] == (v / 0x100_0000_0000 % 0x100) as u8);
    assert(m[off + 6] == (v / 0x1_0000_0000_0000 % 0x100) as u8);
    assert(m[off + 7] == (v / 0x100_0000_0000_0000 % 0x100) as u8);
    lemma_u64_digits(v);
}

/// Storing bytes over a range leaves every byte outside it, and the length, as
/// they were.
pub proof fn lemma_place_frame(mem: Seq<u8>, off: int, data: Seq<u8>, a: int, b: int)
    requires
        0 <= off,
        off + data.len() <= mem.len(),
        0 <= a <= b <= mem.len(),
        b <= off || off + data.len() <= a,
    ensures
        place(mem, off, data).len() == mem.len(),
        place(mem, off, data).subrange(a, b) == mem.subrange(a, b),
{
    assert(place(mem, off, data).subrange(a, b) =~= mem.subrange(a, b));
}

/// The two memory sections `i` and `j` of `secs` occupy disjoint ranges of the
/// image that starts at `start`.
pub open spec fn sections_disjoint(secs: Seq<ElfSection>, start: i64, i: int, j: int) -> bool {
    let oi = image_offset(secs[i].header, start);
    let oj = image_offset(secs[j].header, start);
    oi + secs[i].data@.len() <= oj || oj + secs[j].data@.len() <= oi
}

/// In the image, a memory section's bytes stand at its offset, as long as no
/// later memory section overlaps it.
pub proof fn lemma_section_in_image(
    secs: Seq<ElfSection>,
    n: int,
    start: i64,
    mem0: Seq<u8>,
    i: int,
)
    requires
        0 <= i < n <= secs.len(),
        placed(secs, n, start, mem0) is Some,
        is_alloc(secs[i].header),
        forall|j: int| i < j < n && is_alloc(#[trigger] secs[j].header) ==> sections_disjoint(secs, start, i, j),
    ensures
        ({
            let mem = placed(secs, n, start, mem0).unwrap().0;
            let off = image_offset(secs[i].header, start);
            mem.subrange(off, off + secs[i].data@.len()) == secs[i].data@
        }),
    decreases n,
{
    lemma_placed_len(secs, n, start, mem0);
    lemma_placed_prefix_some(secs, n - 1, n, start, mem0);
    lemma_placed_prefix_some(secs, i + 1, n, start, mem0);
    lemma_placed_prefix_some(secs, i, n, start, mem0);
    lemma_placed_len(secs, i, start, mem0);
    let off = image_offset(secs[i].header, start);
    assert(0 <= off && off + secs[i].data@.len() <= mem0.len());
    let len = secs[i].data@.len();
    if n - 1 == i {
        let mem = placed(secs, n - 1, start, mem0).unwrap().0;
        assert(place(mem, off, secs[i].data@).subrange(off, off + len) =~= secs[i].data@);
    } else {
        lemma_section_in_image(secs, n - 1, start, mem0, i);
        lemma_placed_len(secs, n - 1, start, mem0);
        let mem = placed(secs, n - 1, start, mem0).unwrap().0;
        let sec = secs[n - 1];
        if is_alloc(sec.header) {
            assert(sections_disjoint(secs, start, i, n - 1));
            lemma_place_frame(mem, image_offset(sec.header, start), sec.data@, off, off + len);
        }
    }
}

/// Placing sections does not change the length of the image.
proof fn lemma_placed_len(secs: Seq<ElfSection>, n: int, start: i64, mem0: Seq<u8>)
    requires
        placed(secs, n, start, mem0) is Some,
    ensures
        placed(secs, n, start, mem0).unwrap().0.len() == mem0.len(),
    decreases n,
{
    if n > 0 {
        lemma_placed_prefix_some(secs, n - 1, n, start, mem0);
        lemma_placed_len(secs, n - 1, start, mem0);
    }
}

/// Where placing `n` sections succeeds, placing fewer succeeds too.
proof fn lemma_placed_prefix_some(secs: Seq<ElfSection>, k: int, n: int, start: i64, mem0: Seq<u8>)
    requires
        k <= n,
        placed(secs, n, start, mem0) is Some,
    ensures
        placed(secs, k, start, mem0) is Some,
    decreases n - k,
{
    if k < n {
        lemma_placed_prefix_some(secs, k + 1, n, start, mem0);
    }
}

/// After relocating, the word at a relocation's offset is `base` plus its addend,
/// as long as no later relocation writes over it.
pub proof fn lemma_relocation_in_image(
    mem: Seq<u8>,
    base: u64,
    relocs: Seq<Relocation>,
    n: int,
    i: int,
)
    requires
        0 <= i < n <= relocs.len(),
        relocations_fit(mem.len() as int, base, relocs),
        forall|j: int|
            i < j < n ==> #[trigger] relocs[j].offset + 8 <= relocs[i].offset
                || relocs[i].offset + 8 <= relocs[j].offset,
    ensures
        le_u64(relocated(mem, base, relocs, n), relocs[i].offset as int) == base + relocs[i].addend,
    decreases n,
{
    lemma_relocated_len(mem, base, relocs, n);
    let r = relocs[i];
    assert(r.offset + 8 <= mem.len() && base + r.addend <= u64::MAX);
    if n - 1 == i {
        lemma_relocated_len(mem, base, relocs, n - 1);
        lemma_read_after_store(relocated(mem, base, relocs, n - 1), r.offset as int, (base + r.addend) as u64);
    } else {
        lemma_relocation_in_image(mem, base, relocs, n - 1, i);
        lemma_relocated_len(mem, base, relocs, n - 1);
        let prev = relocated(mem, base, relocs, n - 1);
        let q = relocs[n - 1];
        assert(q.offset + 8 <= mem.len());
        lemma_place_frame(prev, q.offset as int, u64_le_bytes((base + q.addend) as u64), r.offset as int, r.offset + 8);
        lemma_le_u64_of_range(prev, relocated(mem, base, relocs, n), r.offset as int);
    }
}

/// Relocating does not change the length of the image.
proof fn lemma_relocated_len(mem: Seq<u8>, base: u64, relocs: Seq<Relocation>, n: int)
    requires
        n <= relocs.len(),
        relocations_fit(mem.len() as int, base, relocs),
    ensures
        relocated(mem, base, relocs, n).len() == mem.len(),
    decreases n,
{
    if n > 0 {
        lemma_relocated_len(mem, base, relocs, n - 1);
        assert(relocs[n - 1].offset + 8 <= mem.len());
    }
}

/// A word reads the same from two images that agree on its eight bytes.
proof fn lemma_le_u64_of_range(a: Seq<u8>, b: Seq<u8>, off: int)
    requires
        0 <= off,
        off + 8 <= a.len(),
        off + 8 <= b.len(),
        a.subrange(off, off + 8) == b.subrange(off, off + 8),
    ensures
        le_u64(a, off) == le_u64(b, off),
{
    reveal(le_u64);
    reveal(crate::elf_parser::le_u32);
    reveal(crate::elf_parser::le_u16);
    let sa = a.subrange(off, off + 8);
    let sb = b.subrange(off, off + 8);
    assert(sa[0] == a[off] && sa[1] == a[off + 1] && sa[2] == a[off + 2] && sa[3] == a[off + 3]
        && sa[4] == a[off + 4] && sa[5] == a[off + 5] && sa[6] == a[off + 6] && sa[7] == a[off + 7]);
    assert(sb[0] == b[off] && sb[1] == b[off + 1] && sb[2] == b[off + 2] && sb[3] == b[off + 3]
        && sb[4] == b[off + 4] && sb[5] == b[off + 5] && sb[6] == b[off + 6] && sb[7] == b[off + 7]);
    assert(a[off] == b[off] && a[off + 1] == b[off + 1] && a[off + 2] == b[off + 2] && a[off + 3]
        == b[off + 3] && a[off + 4] == b[off + 4] && a[off + 5] == b[off + 5] && a[off + 6] == b[off
        + 6] && a[off + 7] == b[off + 7]);
}

/// Every entry of every relocation section with addends is read, whatever the
/// section's flags: entry `k` (for `k < sh_size / 24`) of section `i` is the
/// three little-endian words at `24 * k`, `24 * k + 8` and `24 * k + 16` of its
/// bytes, and it is among the relocations of any longer run of sections.
pub proof fn lemma_rela_entry_collected(secs: Seq<ElfSection>, n: int, i: int, k: int)
    requires
        0 <= i < n <= secs.len(),
        secs[i].header.sh_type == SHT_RELA,
        0 <= k < secs[i].header.sh_size / 24,
    ensures
        all_relocations(secs, n).contains(
            Relocation {
                offset: le_u64(secs[i].data@, 24 * k),
                info: le_u64(secs[i].data@, 24 * k + 8),
                addend: le_u64(secs[i].data@, 24 * k + 16),
            },
        ),
    decreases n,
{
    let rel = Relocation {
        offset: le_u64(secs[i].data@, 24 * k),
        info: le_u64(secs[i].data@, 24 * k + 8),
        addend: le_u64(secs[i].data@, 24 * k + 16),
    };
    let all = all_relocations(secs, n);
    if n - 1 == i {
        let x = secs[i].header.sh_size;
        assert(x / 8 / 3 == x / 24) by (nonlinear_arith);
        let pre = all_relocations(secs, i);
        let sr = section_relocations(secs[i]);
        assert(sr.len() == x / 24);
        assert(sr[k] == rel);
        assert(all == pre + sr);
        assert(all[pre.len() + k] == rel);
    } else {
        lemma_rela_entry_collected(secs, n - 1, i, k);
        let prev = all_relocations(secs, n - 1);
        let idx = choose|idx: int| 0 <= idx < prev.len() && prev[idx] == rel;
        assert(all == prev + section_relocations(secs[n - 1]));
        assert(all[idx] == rel);
    }
}

/// A memory section that can be laid out: its end address fits in 64 signed
/// bits and in a machine word, and its bytes match its size.
pub open spec fn section_fits(sec: ElfSection) -> bool {
    &&& sec.header.sh_addr + sec.header.sh_size <= i64::MAX
    &&& sec.header.sh_addr + sec.header.sh_size <= usize::MAX
    &&& sec.data@.len() == sec.header.sh_size
}

/// Every memory section of `secs` can be laid out.
pub open spec fn memory_sections_fit(secs: Seq<ElfSection>) -> bool {
    forall|i: int| 0 <= i < secs.len() && is_alloc(#[trigger] secs[i].header) ==> section_fits(secs[i])
}

proof fn lemma_bounds_cover(secs: Seq<ElfSection>, n: int)
    requires
        0 <= n <= secs.len(),
        memory_sections_fit(secs),
    ensures
        layout_bounds(secs, n) is Some,
        ({
            let (lo, hi) = layout_bounds(secs, n).unwrap();
            &&& 0 <= lo <= i64::MAX
            &&& 0 <= hi <= i64::MAX
            &&& hi <= usize::MAX
            &&& forall|i: int|
                0 <= i < n && is_alloc(#[trigger] secs[i].header) ==> lo <= secs[i].header.sh_addr
                    && secs[i].header.sh_addr + secs[i].header.sh_size <= hi
        }),
    decreases n,
{
    if n > 0 {
        lemma_bounds_cover(secs, n - 1);
        let h = secs[n - 1].header;
        if is_alloc(h) {
            assert(section_fits(secs[n - 1]));
            assert((h.sh_addr as i64) as int == h.sh_addr);
            assert((h.sh_size as i64) as int == h.sh_size);
        }
    }
}

proof fn lemma_placed_fits(secs: Seq<ElfSection>, n: int, lo: int, hi: int, mem0: Seq<u8>)
    requires
        0 <= n <= secs.len(),
        memory_sections_fit(secs),
        0 <= lo <= hi <= i64::MAX,
        hi <= usize::MAX,
        mem0.len() == hi - lo,
        forall|i: int|
            0 <= i < secs.len() && is_alloc(#[trigger] secs[i].header) ==> lo <= secs[i].header.sh_addr
                && secs[i].header.sh_addr + secs[i].header.sh_size <= hi,
    ensures
        placed(secs, n, lo as i64, mem0) is Some,
        placed(secs, n, lo as i64, mem0).unwrap().0.len() == mem0.len(),
    decreases n,
{
    if n > 0 {
        lemma_placed_fits(secs, n - 1, lo, hi, mem0);
        let sec = secs[n - 1];
        if is_alloc(sec.header) {
            assert(section_fits(sec));
            assert(((lo as i64) as usize) as int == lo);
            assert((sec.header.sh_addr as usize) as int == sec.header.sh_addr);
            assert((sec.header.sh_size as usize) as int == sec.header.sh_size);
        }
    }
}

/// Where every memory section can be laid out and there is at least one, the
/// image exists, whatever its lowest address (0 included): it starts at the
/// lowest address of the memory sections or below, and no memory section starts
/// below its start or ends past its end.
pub proof fn lemma_image_exists(secs: Seq<ElfSection>, j: int)
    requires
        0 <= j < secs.len(),
        is_alloc(secs[j].header),
        memory_sections_fit(secs),
    ensures
        spec_image(secs) is Some,
        ({
            let (start, mem, text) = spec_image(secs).unwrap();
            &&& 0 <= start
            &&& forall|i: int|
                0 <= i < secs.len() && is_alloc(#[trigger] secs[i].header) ==> start
                    <= secs[i].header.sh_addr && secs[i].header.sh_addr + secs[i].header.sh_size
                    <= start + mem.len()
        }),
{
    let n = secs.len() as int;
    lemma_bounds_cover(secs, n);
    let (lo, hi) = layout_bounds(secs, n).unwrap();
    assert(lo <= secs[j].header.sh_addr && secs[j].header.sh_addr + secs[j].header.sh_size <= hi);
    let d = hi - lo;
    assert(((d as i64) as usize) as int == d);
    let mem0 = Seq::new(d as nat, |i: int| 0u8);
    lemma_placed_fits(secs, n, lo, hi, mem0);
}

/// A program made of one memory section is laid out as that section's bytes,
/// starting at its address (0 included), and execution starts at offset 0.
pub proof fn lemma_single_section_image(sec: ElfSection)
    requires
        is_alloc(sec.header),
        section_fits(sec),
    ensures
        spec_image(seq![sec]) == Some((sec.header.sh_addr as i64, sec.data@, 0int)),
{
    let secs = seq![sec];
    let a = sec.header.sh_addr;
    let z = sec.header.sh_size;
    assert(secs[0] == sec);
    assert((a as i64) as int == a);
    assert((z as i64) as int == z);
    assert(layout_bounds(secs, 0) == Some((i64::MAX as int, 0int)));
    assert(layout_bounds(secs, 1) == Some((a as int, a + z)));
    assert(((z as i64) as usize) as int == z);
    let mem0 = Seq::new(z as nat, |i: int| 0u8);
    assert(((a as i64) as usize) as int == a);
    assert((a as usize) as int == a);
    assert((z as usize) as int == z);
    assert(image_offset(sec.header, a as i64) == 0);
    assert(place(mem0, 0, sec.data@) =~= sec.data@);
    assert(placed(secs, 0, a as i64, mem0) == Some((mem0, 0int)));
    assert(placed(secs, 1, a as i64, mem0) == Some((sec.data@, 0int)));
}

} // verus!
