use elf32_dynamic::{
    ByteOrder, DynEntry, DynRel, DynRela, DynSym, DYN_ENTRY_SIZE, DYN_RELA_SIZE, DYN_REL_SIZE,
    DYN_SYM_SIZE,
};

#[test]
fn record_sizes() {
    assert_eq!(DYN_ENTRY_SIZE, 8);
    assert_eq!(DYN_SYM_SIZE, 16);
    assert_eq!(DYN_REL_SIZE, 8);
    assert_eq!(DYN_RELA_SIZE, 12);
}

#[test]
fn entry_little_endian_offsets() {
    let bytes = [0xFE, 0xFF, 0xFF, 0xFF, 0x78, 0x56, 0x34, 0x12];
    let e = DynEntry::from_bytes(&bytes, ByteOrder::Little).unwrap();
    assert_eq!(e.d_tag, -2);
    assert_eq!(e.d_val_ptr, 0x1234_5678);
    assert_eq!(e.to_bytes(ByteOrder::Little), bytes.to_vec());
}

#[test]
fn entry_big_endian_offsets() {
    let bytes = [0x00, 0x00, 0x00, 0x05, 0x08, 0x04, 0x80, 0x00];
    let e = DynEntry::from_bytes(&bytes, ByteOrder::Big).unwrap();
    assert_eq!(e, DynEntry { d_tag: 5, d_val_ptr: 0x0804_8000 });
    assert_eq!(e.to_bytes(ByteOrder::Big), bytes.to_vec());
}

#[test]
fn sym_little_endian_offsets() {
    let bytes = [
        0x01, 0x00, 0x00, 0x00, // name
        0x00, 0x10, 0x00, 0x00, // value
        0x20, 0x00, 0x00, 0x00, // size
        0x12, // info
        0x03, // other
        0x0B, 0x00, // shndx
    ];
    let s = DynSym::from_bytes(&bytes, ByteOrder::Little).unwrap();
    assert_eq!(
        s,
        DynSym { st_name: 1, st_value: 0x1000, st_size: 0x20, st_info: 0x12, st_other: 3, st_shndx: 11 }
    );
    assert_eq!(s.to_bytes(ByteOrder::Little), bytes.to_vec());
}

#[test]
fn sym_big_endian_offsets() {
    let s = DynSym {
        st_name: 0x0102_0304,
        st_value: 0x0506_0708,
        st_size: 0x090A_0B0C,
        st_info: 0x0D,
        st_other: 0x0E,
        st_shndx: 0xFFF1,
    };
    let bytes = s.to_bytes(ByteOrder::Big);
    assert_eq!(
        bytes,
        vec![1, 2, 3, 4, 5, 6, 7, 8, 9, 10, 11, 12, 13, 14, 0xFF, 0xF1]
    );
    assert_eq!(DynSym::from_bytes(&bytes, ByteOrder::Big), Some(s));
}

#[test]
fn rel_offsets() {
    let bytes = [0x00, 0x20, 0x00, 0x00, 0x07, 0x01, 0x00, 0x00];
    let r = DynRel::from_bytes(&bytes, ByteOrder::Little).unwrap();
    assert_eq!(r, DynRel { r_offset: 0x2000, r_info: 0x0107 });
    assert_eq!(r.symbol_index(), 1);
    assert_eq!(r.symbol_type(), 7);
    assert_eq!(r.to_bytes(ByteOrder::Little), bytes.to_vec());
}

#[test]
fn rela_offsets_and_signed_addend() {
    let bytes = [0x00, 0x00, 0x30, 0x00, 0x00, 0x00, 0x02, 0x01, 0xFF, 0xFF, 0xFF, 0xFC];
    let r = DynRela::from_bytes(&bytes, ByteOrder::Big).unwrap();
    assert_eq!(r, DynRela { r_offset: 0x3000, r_info: 0x0201, r_addend: -4 });
    assert_eq!(r.to_bytes(ByteOrder::Big), bytes.to_vec());
    let le = r.to_bytes(ByteOrder::Little);
    assert_eq!(le, vec![0x00, 0x30, 0x00, 0x00, 0x01, 0x02, 0x00, 0x00, 0xFC, 0xFF, 0xFF, 0xFF]);
    assert_eq!(DynRela::from_bytes(&le, ByteOrder::Little), Some(r));
}

#[test]
fn wrong_lengths_are_refused() {
    let bytes = [0u8; 20];
    assert_eq!(DynEntry::from_bytes(&bytes[..7], ByteOrder::Little), None);
    assert_eq!(DynEntry::from_bytes(&bytes[..9], ByteOrder::Little), None);
    assert_eq!(DynSym::from_bytes(&bytes[..15], ByteOrder::Big), None);
    assert_eq!(DynSym::from_bytes(&bytes, ByteOrder::Big), None);
    assert_eq!(DynRel::from_bytes(&[], ByteOrder::Little), None);
    assert_eq!(DynRela::from_bytes(&bytes[..8], ByteOrder::Little), None);
    assert!(DynRela::from_bytes(&bytes[..12], ByteOrder::Little).is_some());
}
