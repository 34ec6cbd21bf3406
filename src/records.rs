//! The fixed-width field types of the ELF32 ABI and the rows of the
//! `.dynamic`, symbol and relocation tables.
use vstd::prelude::*;

verus! {

/// 32-bit unsigned word.
pub type Word = libc::Elf32_Word;

/// 32-bit signed word, used where the ABI calls for a signed quantity.
pub type SignedWord = i32;

/// 16-bit unsigned half word.
pub type Half = libc::Elf32_Half;

/// 32-bit unsigned address.
pub type Addr = libc::Elf32_Addr;

/// Symbol index held in the top 24 bits of a relocation `info` word.
pub open spec fn info_symbol_index(info: Word) -> Word {
    info >> 8u32
}

/// Relocation type held in the low 8 bits of a relocation `info` word.
pub open spec fn info_symbol_type(info: Word) -> Word {
    info & 0xffu32
}

/// One slot of the `.dynamic` table. The value is a scalar or an address,
/// depending on the tag; the record only stores it.
#[derive(Debug, Clone, Copy, PartialEq, Eq)]
pub struct DynEntry {
    pub d_tag: SignedWord,
    /// Either a value or an address, depending on `d_tag`.
    pub d_val_ptr: Word,
}

/// One row of the dynamic symbol table.
#[derive(Debug, Clone, Copy, PartialEq, Eq)]
pub struct DynSym {
    pub st_name: Word,
    pub st_value: Addr,
    pub st_size: Word,
    pub st_info: u8,
    pub st_other: u8,
    pub st_shndx: Half,
}

/// One row of a relocation table without explicit addend.
#[derive(Debug, Clone, Copy, PartialEq, Eq)]
pub struct DynRel {
    pub r_offset: Addr,
    pub r_info: Word,
}

impl DynRel {
    /// The symbol index packed in the top 24 bits of `r_info`.
    pub fn symbol_index(&self) -> (r: Word)
        ensures
            r == info_symbol_index(self.r_info),
            r < 0x0100_0000,
    {
        let r = self.r_info >> 8u32;
        proof {
            lemma_info_fields_bounded(self.r_info);
        }
        r
    }

    /// The relocation type packed in the low 8 bits of `r_info`.
    pub fn symbol_type(&self) -> (r: Word)
        ensures
            r == info_symbol_type(self.r_info),
            r < 0x100,
    {
        let r = self.r_info & 0xffu32;
        proof {
            lemma_info_fields_bounded(self.r_info);
        }
        r
    }
}

/// One row of a relocation table with an explicit signed addend.
#[derive(Debug, Clone, Copy, PartialEq, Eq)]
pub struct DynRela {
    pub r_offset: Addr,
    pub r_info: Word,
    pub r_addend: SignedWord,
}

impl DynRela {
    /// The symbol index packed in the top 24 bits of `r_info`.
    pub fn symbol_index(&self) -> (r: Word)
        ensures
            r == info_symbol_index(self.r_info),
            r < 0x0100_0000,
    {
        let r = self.r_info >> 8u32;
        proof {
            lemma_info_fields_bounded(self.r_info);
        }
        r
    }

    /// The relocation type packed in the low 8 bits of `r_info`.
    pub fn symbol_type(&self) -> (r: Word)
        ensures
            r == info_symbol_type(self.r_info),
            r < 0x100,
    {
        let r = self.r_info & 0xffu32;
        proof {
            lemma_info_fields_bounded(self.r_info);
        }
        r
    }
}

/// The symbol index fits in 24 bits and the relocation type in 8.
pub proof fn lemma_info_fields_bounded(info: Word)
    ensures
        info_symbol_index(info) < 0x0100_0000,
        info_symbol_type(info) < 0x100,
{
    assert(info >> 8u32 < 0x0100_0000u32) by (bit_vector);
    assert(info & 0xffu32 < 0x100u32) by (bit_vector);
}

/// Splitting an `info` word into symbol index and relocation type loses
/// nothing: shifting the index back up and or-ing in the type gives the
/// word again.
pub proof fn lemma_info_round_trip(info: Word)
    ensures
        (info_symbol_index(info) << 8u32) | info_symbol_type(info) == info,
{
    assert(((info >> 8u32) << 8u32) | (info & 0xffu32) == info) by (bit_vector);
}

} // verus!
