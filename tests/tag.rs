use elf32_dynamic::{classify, DynEntry, DynTypeError, DynamicSectionType, Word};

const KNOWN: [(Word, DynamicSectionType); 15] = [
    (0, DynamicSectionType::DT_NULL),
    (2, DynamicSectionType::DT_PLTRELSZ),
    (3, DynamicSectionType::DT_PLTGOT),
    (5, DynamicSectionType::DT_STRTAB),
    (6, DynamicSectionType::DT_SYMTAB),
    (7, DynamicSectionType::DT_RELA),
    (8, DynamicSectionType::DT_RELASZ),
    (9, DynamicSectionType::DT_RELAENT),
    (10, DynamicSectionType::DT_STRSZ),
    (11, DynamicSectionType::DT_SYMENT),
    (17, DynamicSectionType::DT_REL),
    (18, DynamicSectionType::DT_RELSZ),
    (19, DynamicSectionType::DT_RELENT),
    (20, DynamicSectionType::DT_PLTREL),
    (23, DynamicSectionType::DT_JMPREL),
];

#[test]
fn known_codes_classify_to_their_tags() {
    for (code, tag) in KNOWN {
        assert_eq!(classify(code), Ok(tag));
        assert_eq!(tag.code(), code);
    }
}

#[test]
fn known_codes_map_to_distinct_tags() {
    for (i, (a, _)) in KNOWN.iter().enumerate() {
        for (b, _) in KNOWN.iter().skip(i + 1) {
            assert_ne!(classify(*a), classify(*b));
        }
    }
}

#[test]
fn unknown_codes_carry_the_raw_value() {
    let minus_one = -1i32 as u32;
    for raw in [1u32, 4, 12, 13, 14, 15, 16, 21, 22, 24, 99, minus_one, 0x7FFF_FFFF, 0x6fff_fef5] {
        let r = classify(raw);
        assert_eq!(r, Err(DynTypeError(raw)));
        assert_eq!(r.unwrap_err().tag(), raw);
    }
}

#[test]
fn classify_null_jmprel_and_one() {
    assert_eq!(classify(0), Ok(DynamicSectionType::DT_NULL));
    assert_eq!(classify(23), Ok(DynamicSectionType::DT_JMPREL));
    assert_eq!(classify(1), Err(DynTypeError(1)));
}

#[test]
fn try_from_agrees_with_classify() {
    assert_eq!(DynamicSectionType::try_from(7u32), Ok(DynamicSectionType::DT_RELA));
    assert_eq!(DynamicSectionType::try_from(20u32), Ok(DynamicSectionType::DT_PLTREL));
    assert_eq!(DynamicSectionType::try_from(4u32), Err(DynTypeError(4)));
}

#[test]
fn entry_kind_reads_tag_as_unsigned() {
    let strtab = DynEntry { d_tag: 5, d_val_ptr: 0x0804_8000 };
    assert_eq!(strtab.kind(), Ok(DynamicSectionType::DT_STRTAB));
    let negative = DynEntry { d_tag: -1, d_val_ptr: 0 };
    assert_eq!(negative.kind(), Err(DynTypeError(0xFFFF_FFFF)));
}
