use native_mod::objfile::parse_inject_meta;
use native_mod::record::{encode_inject_record, InjectMetaError};

fn section_header(out: &mut Vec<u8>, name: u32, ty: u32, offset: u64, size: u64) {
    out.extend_from_slice(&name.to_le_bytes());
    out.extend_from_slice(&ty.to_le_bytes());
    out.extend_from_slice(&0u64.to_le_bytes()); // flags
    out.extend_from_slice(&0u64.to_le_bytes()); // addr
    out.extend_from_slice(&offset.to_le_bytes());
    out.extend_from_slice(&size.to_le_bytes());
    out.extend_from_slice(&0u32.to_le_bytes()); // link
    out.extend_from_slice(&0u32.to_le_bytes()); // info
    out.extend_from_slice(&1u64.to_le_bytes()); // addralign
    out.extend_from_slice(&0u64.to_le_bytes()); // entsize
}

/// A relocatable x86-64 ELF file with one section `section` holding `data`.
fn elf_with_section(section: &str, data: &[u8]) -> Vec<u8> {
    let mut shstrtab = vec![0u8];
    let name_off = shstrtab.len() as u32;
    shstrtab.extend_from_slice(section.as_bytes());
    shstrtab.push(0);
    let shstr_off = shstrtab.len() as u32;
    shstrtab.extend_from_slice(b".shstrtab\0");

    let data_off = 64u64;
    let shstr_file_off = data_off + data.len() as u64;
    let mut shoff = shstr_file_off + shstrtab.len() as u64;
    let pad = (8 - shoff % 8) % 8;
    shoff += pad;

    let mut f = vec![0x7f, b'E', b'L', b'F', 2, 1, 1, 0];
    f.extend_from_slice(&[0u8; 8]);
    f.extend_from_slice(&1u16.to_le_bytes()); // ET_REL
    f.extend_from_slice(&62u16.to_le_bytes()); // EM_X86_64
    f.extend_from_slice(&1u32.to_le_bytes());
    f.extend_from_slice(&0u64.to_le_bytes()); // entry
    f.extend_from_slice(&0u64.to_le_bytes()); // phoff
    f.extend_from_slice(&shoff.to_le_bytes());
    f.extend_from_slice(&0u32.to_le_bytes()); // flags
    f.extend_from_slice(&64u16.to_le_bytes()); // ehsize
    f.extend_from_slice(&0u16.to_le_bytes()); // phentsize
    f.extend_from_slice(&0u16.to_le_bytes()); // phnum
    f.extend_from_slice(&64u16.to_le_bytes()); // shentsize
    f.extend_from_slice(&3u16.to_le_bytes()); // shnum
    f.extend_from_slice(&2u16.to_le_bytes()); // shstrndx
    assert_eq!(f.len(), 64);
    f.extend_from_slice(data);
    f.extend_from_slice(&shstrtab);
    f.extend(std::iter::repeat(0u8).take(pad as usize));
    f.extend_from_slice(&[0u8; 64]);
    section_header(&mut f, name_off, 1, data_off, data.len() as u64);
    section_header(&mut f, shstr_off, 3, shstr_file_off, shstrtab.len() as u64);
    f
}

#[test]
fn records_are_read_from_the_linux_section() {
    let mut data = encode_inject_record(
        "hello",
        "Lnet/minecraft/server/MinecraftServer;",
        "runServer",
        "HEAD",
        "hello_Mixin",
    );
    data.extend(encode_inject_record("goodbye", "Lx;", "stop", "RETURN", "bye_Mixin"));
    let lib = elf_with_section(".inject_meta", &data);
    let metas = parse_inject_meta(&lib, "libnative_payloads.so").unwrap();
    assert_eq!(metas.len(), 2);
    assert_eq!(metas[0].fn_name, "hello");
    assert_eq!(metas[0].target, "Lnet/minecraft/server/MinecraftServer;");
    assert_eq!(metas[0].class, "hello_Mixin");
    assert_eq!(metas[1].fn_name, "goodbye");
    assert_eq!(metas[1].at, "RETURN");
}

#[test]
fn the_windows_section_name_is_read_too() {
    let data = encode_inject_record("f", "t", "m", "HEAD", "c");
    let lib = elf_with_section(".injmta", &data);
    let metas = parse_inject_meta(&lib, "x.dll").unwrap();
    assert_eq!(metas.len(), 1);
    assert_eq!(metas[0].method, "m");
}

#[test]
fn library_without_metadata_section() {
    let lib = elf_with_section(".data", b"\x01\x02");
    match parse_inject_meta(&lib, "libz.so") {
        Err(InjectMetaError::NoMetaSection(f)) => assert_eq!(f, "libz.so"),
        other => panic!("unexpected {other:?}"),
    }
}

#[test]
fn not_an_object_file() {
    match parse_inject_meta(b"definitely not ELF", "junk.so") {
        Err(InjectMetaError::ObjectParse(f)) => assert_eq!(f, "junk.so"),
        other => panic!("unexpected {other:?}"),
    }
}

#[test]
fn malformed_record_in_section() {
    let lib = elf_with_section(".inject_meta", b"a\x1fb\x1e");
    assert!(matches!(
        parse_inject_meta(&lib, "l.so"),
        Err(InjectMetaError::FieldCount(2))
    ));
}
