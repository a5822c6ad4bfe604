use matios_host::elf_parser::{Elf64Shdr, ElfSection};
use matios_host::loader::{apply_relocations, load_image, relocations, Relocation};

fn header(ty: u32, flags: u64, addr: u64, size: u64) -> Elf64Shdr {
    Elf64Shdr {
        sh_name: 0,
        sh_type: ty,
        sh_flags: flags,
        sh_addr: addr,
        sh_offset: 0,
        sh_size: size,
        sh_link: 0,
        sh_info: 0,
        sh_addralign: 0,
        sh_entsize: 0,
    }
}

fn section(name: &str, ty: u32, flags: u64, addr: u64, data: Vec<u8>) -> ElfSection {
    let size = data.len() as u64;
    ElfSection { name: name.to_string(), data, header: header(ty, flags, addr, size) }
}

fn rela_bytes(entries: &[(u64, u64, u64)]) -> Vec<u8> {
    let mut v = Vec::new();
    for (o, i, a) in entries {
        v.extend_from_slice(&o.to_le_bytes());
        v.extend_from_slice(&i.to_le_bytes());
        v.extend_from_slice(&a.to_le_bytes());
    }
    v
}

#[test]
fn image_spans_the_memory_sections() {
    let sections = vec![
        section("", 0, 0, 0, vec![]),
        section(".data", 1, 3, 0x1010, vec![7, 8]),
        section(".text_start", 1, 6, 0x1000, vec![1, 2, 3, 4]),
        section(".comment", 1, 0, 0x5000, vec![9; 4]),
    ];
    let img = load_image(&sections).unwrap();
    assert_eq!(img.start, 0x1000);
    assert_eq!(img.memory.len(), 0x12);
    assert_eq!(&img.memory[0..4], &[1, 2, 3, 4]);
    assert_eq!(&img.memory[0x10..0x12], &[7, 8]);
    assert!(img.memory[4..0x10].iter().all(|b| *b == 0));
    assert_eq!(img.text_offset, 0);
    assert_eq!(img.offsets, vec![None, Some(0x10), Some(0), None]);
}

#[test]
fn entry_is_the_offset_of_text_start() {
    let sections = vec![
        section(".a", 1, 2, 0x400, vec![0; 8]),
        section(".text_start", 1, 6, 0x420, vec![0xc3]),
    ];
    let img = load_image(&sections).unwrap();
    assert_eq!(img.text_offset, 0x20);
    assert_eq!(img.memory.len(), 0x21);
}

#[test]
fn later_sections_overwrite_earlier_ones() {
    let sections = vec![
        section(".a", 1, 2, 0x100, vec![1, 1, 1, 1]),
        section(".b", 1, 2, 0x102, vec![2, 2]),
    ];
    let img = load_image(&sections).unwrap();
    assert_eq!(img.memory, vec![1, 1, 2, 2]);
}

#[test]
fn no_memory_section_gives_no_image() {
    let sections = vec![section(".comment", 1, 0, 0, vec![1])];
    assert!(load_image(&sections).is_none());
    assert!(load_image(&vec![]).is_none());
}

#[test]
fn section_bytes_must_match_the_size() {
    let mut s = section(".a", 1, 2, 0x100, vec![1, 2, 3, 4]);
    s.header.sh_size = 8;
    assert!(load_image(&vec![s]).is_none());
}

#[test]
fn end_address_overflow_gives_no_image() {
    let mut s = section(".a", 1, 2, i64::MAX as u64, vec![1]);
    s.header.sh_size = 2;
    assert!(load_image(&vec![s]).is_none());
}

#[test]
fn reads_relocation_entries_in_order() {
    let sections = vec![
        section(".text", 1, 6, 0, vec![0; 16]),
        section(".rela.text", 4, 0, 0, rela_bytes(&[(8, 1, 4), (0, 2, 0x20)])),
        section(".rel", 9, 0, 0, vec![0; 16]),
        section(".rela.data", 4, 0, 0, rela_bytes(&[(16, 3, 5)])),
    ];
    let r = relocations(&sections);
    assert_eq!(
        r,
        vec![
            Relocation { offset: 8, info: 1, addend: 4 },
            Relocation { offset: 0, info: 2, addend: 0x20 },
            Relocation { offset: 16, info: 3, addend: 5 },
        ]
    );
}

#[test]
fn a_partial_entry_is_ignored() {
    let mut data = rela_bytes(&[(8, 1, 4)]);
    data.extend_from_slice(&[0xff; 20]);
    let sections = vec![section(".rela", 4, 0, 0, data)];
    assert_eq!(relocations(&sections), vec![Relocation { offset: 8, info: 1, addend: 4 }]);
}

#[test]
fn relocation_stores_base_plus_addend() {
    let mut memory = vec![0xaa; 24];
    let relocs = vec![
        Relocation { offset: 8, info: 0, addend: 4 },
        Relocation { offset: 16, info: 0, addend: 0x100 },
    ];
    assert!(apply_relocations(&mut memory, 0x7000_0000_0000, &relocs));
    assert_eq!(&memory[0..8], &[0xaa; 8]);
    assert_eq!(u64::from_le_bytes(memory[8..16].try_into().unwrap()), 0x7000_0000_0004);
    assert_eq!(u64::from_le_bytes(memory[16..24].try_into().unwrap()), 0x7000_0000_0100);
}

#[test]
fn relocation_outside_the_image_changes_nothing() {
    let mut memory = vec![0u8; 16];
    let relocs = vec![
        Relocation { offset: 0, info: 0, addend: 1 },
        Relocation { offset: 9, info: 0, addend: 1 },
    ];
    assert!(!apply_relocations(&mut memory, 0x1000, &relocs));
    assert_eq!(memory, vec![0u8; 16]);
}

#[test]
fn relocation_overflow_changes_nothing() {
    let mut memory = vec![0u8; 16];
    let relocs = vec![Relocation { offset: 0, info: 0, addend: u64::MAX }];
    assert!(!apply_relocations(&mut memory, 1, &relocs));
    assert_eq!(memory, vec![0u8; 16]);
}
