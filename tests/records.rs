use elf32_dynamic::{DynRel, DynRela};

#[test]
fn info_low_index_and_type() {
    let rel = DynRel { r_offset: 0, r_info: 0x0000_0101 };
    assert_eq!(rel.symbol_index(), 1);
    assert_eq!(rel.symbol_type(), 1);
}

#[test]
fn info_all_index_bits() {
    let rel = DynRel { r_offset: 0x10, r_info: 0xFFFF_FF00 };
    assert_eq!(rel.symbol_index(), 0x00FF_FFFF);
    assert_eq!(rel.symbol_type(), 0);
}

#[test]
fn info_type_only() {
    let rela = DynRela { r_offset: 0, r_info: 0x0000_0017, r_addend: -4 };
    assert_eq!(rela.symbol_index(), 0);
    assert_eq!(rela.symbol_type(), 23);
}

#[test]
fn info_split_round_trips() {
    for v in [0u32, 1, 0xFF, 0x100, 0x0000_0101, 0x1234_5678, 0xFFFF_FF00, 0xFFFF_FFFF] {
        let rel = DynRel { r_offset: 0, r_info: v };
        let rela = DynRela { r_offset: 0, r_info: v, r_addend: 0 };
        assert_eq!(rel.symbol_index(), v >> 8);
        assert_eq!(rel.symbol_type(), v & 0xFF);
        assert_eq!(rela.symbol_index(), v >> 8);
        assert_eq!(rela.symbol_type(), v & 0xFF);
        assert_eq!((rel.symbol_index() << 8) | rel.symbol_type(), v);
        assert_eq!((rela.symbol_index() << 8) | rela.symbol_type(), v);
    }
}
