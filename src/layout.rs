//! The on-disk byte image of each record, in either byte order: field
//! offsets and widths follow the ELF32 ABI, with no padding.
use vstd::prelude::*;

use crate::records::{DynEntry, DynRel, DynRela, DynSym, Half, SignedWord, Word};

verus! {

/// Byte order of the object file the records come from.
#[derive(Debug, Clone, Copy, PartialEq, Eq, Structural)]
pub enum ByteOrder {
    Little,
    Big,
}

/// Size in bytes of a `.dynamic` table slot.
pub const DYN_ENTRY_SIZE: usize = 8;

/// Size in bytes of a symbol table row.
pub const DYN_SYM_SIZE: usize = 16;

/// Size in bytes of a relocation row without addend.
pub const DYN_REL_SIZE: usize = 8;

/// Size in bytes of a relocation row with addend.
pub const DYN_RELA_SIZE: usize = 12;

/// The word whose bytes, least significant first, are `b0` to `b3`.
pub open spec fn word_le(b0: u8, b1: u8, b2: u8, b3: u8) -> Word {
    (b0 as u32) | ((b1 as u32) << 8u32) | ((b2 as u32) << 16u32) | ((b3 as u32) << 24u32)
}

/// The half word whose bytes, least significant first, are `b0` and `b1`.
pub open spec fn half_le(b0: u8, b1: u8) -> Half {
    (b0 as u16) | ((b1 as u16) << 8u16)
}

/// The word stored in the four bytes of `b` from offset `at`.
pub open spec fn word_at(b: Seq<u8>, at: int, order: ByteOrder) -> Word {
    match order {
        ByteOrder::Little => word_le(b[at], b[at + 1], b[at + 2], b[at + 3]),
        ByteOrder::Big => word_le(b[at + 3], b[at + 2], b[at + 1], b[at]),
    }
}

/// The half word stored in the two bytes of `b` from offset `at`.
pub open spec fn half_at(b: Seq<u8>, at: int, order: ByteOrder) -> Half {
    match order {
        ByteOrder::Little => half_le(b[at], b[at + 1]),
        ByteOrder::Big => half_le(b[at + 1], b[at]),
    }
}

/// The four bytes that store `w`.
pub open spec fn word_bytes(w: Word, order: ByteOrder) -> Seq<u8> {
    match order {
        ByteOrder::Little => seq![w as u8, (w >> 8u32) as u8, (w >> 16u32) as u8, (w >> 24u32) as u8],
        ByteOrder::Big => seq![(w >> 24u32) as u8, (w >> 16u32) as u8, (w >> 8u32) as u8, w as u8],
    }
}

/// The two bytes that store `h`.
pub open spec fn half_bytes(h: Half, order: ByteOrder) -> Seq<u8> {
    match order {
        ByteOrder::Little => seq![h as u8, (h >> 8u16) as u8],
        ByteOrder::Big => seq![(h >> 8u16) as u8, h as u8],
    }
}

/// Reading back the bytes that store a word gives the word.
pub proof fn lemma_word_bytes_read(w: Word, order: ByteOrder)
    ensures
        word_bytes(w, order).len() == 4,
        word_at(word_bytes(w, order), 0, order) == w,
{
    assert(word_le(w as u8, (w >> 8u32) as u8, (w >> 16u32) as u8, (w >> 24u32) as u8) == w)
        by (bit_vector);
}

/// Storing the word read from four bytes gives those bytes.
pub proof fn lemma_word_at_bytes(b: Seq<u8>, at: int, order: ByteOrder)
    requires
        0 <= at,
        at + 4 <= b.len(),
    ensures
        word_bytes(word_at(b, at, order), order) == b.subrange(at, at + 4),
{
    let (b0, b1, b2, b3) = (b[at], b[at + 1], b[at + 2], b[at + 3]);
    let w = word_le(b0, b1, b2, b3);
    assert(w as u8 == b0 && (w >> 8u32) as u8 == b1 && (w >> 16u32) as u8 == b2 && (w >> 24u32)
        as u8 == b3) by (bit_vector)
        requires
            w == word_le(b0, b1, b2, b3),
    ;
    let v = word_le(b3, b2, b1, b0);
    assert(v as u8 == b3 && (v >> 8u32) as u8 == b2 && (v >> 16u32) as u8 == b1 && (v >> 24u32)
        as u8 == b0) by (bit_vector)
        requires
            v == word_le(b3, b2, b1, b0),
    ;
    assert(word_bytes(word_at(b, at, order), order) =~= b.subrange(at, at + 4));
}

/// Reading back the bytes that store a half word gives the half word.
pub proof fn lemma_half_bytes_read(h: Half, order: ByteOrder)
    ensures
        half_bytes(h, order).len() == 2,
        half_at(half_bytes(h, order), 0, order) == h,
{
    assert(half_le(h as u8, (h >> 8u16) as u8) == h) by (bit_vector);
}

/// Storing the half word read from two bytes gives those bytes.
pub proof fn lemma_half_at_bytes(b: Seq<u8>, at: int, order: ByteOrder)
    requires
        0 <= at,
        at + 2 <= b.len(),
    ensures
        half_bytes(half_at(b, at, order), order) == b.subrange(at, at + 2),
{
    let (b0, b1) = (b[at], b[at + 1]);
    let h = half_le(b0, b1);
    assert(h as u8 == b0 && (h >> 8u16) as u8 == b1) by (bit_vector)
        requires
            h == half_le(b0, b1),
    ;
    let g = half_le(b1, b0);
    assert(g as u8 == b1 && (g >> 8u16) as u8 == b0) by (bit_vector)
        requires
            g == half_le(b1, b0),
    ;
    assert(half_bytes(half_at(b, at, order), order) =~= b.subrange(at, at + 2));
}

/// Reads the word stored at offset `at` of `b`.
fn read_word(b: &[u8], at: usize, order: ByteOrder) -> (r: Word)
    requires
        at + 4 <= b.len(),
    ensures
        r == word_at(b@, at as int, order),
{
    match order {
        ByteOrder::Little => (b[at] as u32) | ((b[at + 1] as u32) << 8u32) | ((b[at + 2] as u32)
            << 16u32) | ((b[at + 3] as u32) << 24u32),
        ByteOrder::Big => (b[at + 3] as u32) | ((b[at + 2] as u32) << 8u32) | ((b[at + 1] as u32)
            << 16u32) | ((b[at] as u32) << 24u32),
    }
}

/// Reads the half word stored at offset `at` of `b`.
fn read_half(b: &[u8], at: usize, order: ByteOrder) -> (r: Half)
    requires
        at + 2 <= b.len(),
    ensures
        r == half_at(b@, at as int, order),
{
    match order {
        ByteOrder::Little => (b[at] as u16) | ((b[at + 1] as u16) << 8u16),
        ByteOrder::Big => (b[at + 1] as u16) | ((b[at] as u16) << 8u16),
    }
}

/// Appends the four bytes that store `w`.
fn push_word(out: &mut Vec<u8>, w: Word, order: ByteOrder)
    ensures
        final(out)@ == old(out)@ + word_bytes(w, order),
{
    match order {
        ByteOrder::Little => {
            out.push(w as u8);
            out.push((w >> 8u32) as u8);
            out.push((w >> 16u32) as u8);
            out.push((w >> 24u32) as u8);
        },
        ByteOrder::Big => {
            out.push((w >> 24u32) as u8);
            out.push((w >> 16u32) as u8);
            out.push((w >> 8u32) as u8);
            out.push(w as u8);
        },
    }
    assert(out@ =~= old(out)@ + word_bytes(w, order));
}

/// Appends the two bytes that store `h`.
fn push_half(out: &mut Vec<u8>, h: Half, order: ByteOrder)
    ensures
        final(out)@ == old(out)@ + half_bytes(h, order),
{
    match order {
        ByteOrder::Little => {
            out.push(h as u8);
            out.push((h >> 8u16) as u8);
        },
        ByteOrder::Big => {
            out.push((h >> 8u16) as u8);
            out.push(h as u8);
        },
    }
    assert(out@ =~= old(out)@ + half_bytes(h, order));
}

/// A word stored after `pre` reads back from offset `pre.len()`, whatever
/// follows it.
proof fn lemma_word_in_image(pre: Seq<u8>, w: Word, post: Seq<u8>, order: ByteOrder)
    ensures
        word_at(pre + word_bytes(w, order) + post, pre.len() as int, order) == w,
{
    lemma_word_bytes_read(w, order);
    let s = pre + word_bytes(w, order) + post;
    let n = pre.len() as int;
    assert(s[n] == word_bytes(w, order)[0]);
    assert(s[n + 1] == word_bytes(w, order)[1]);
    assert(s[n + 2] == word_bytes(w, order)[2]);
    assert(s[n + 3] == word_bytes(w, order)[3]);
}

/// A half word stored after `pre` reads back from offset `pre.len()`,
/// whatever follows it.
proof fn lemma_half_in_image(pre: Seq<u8>, h: Half, post: Seq<u8>, order: ByteOrder)
    ensures
        half_at(pre + half_bytes(h, order) + post, pre.len() as int, order) == h,
{
    lemma_half_bytes_read(h, order);
    let s = pre + half_bytes(h, order) + post;
    let n = pre.len() as int;
    assert(s[n] == half_bytes(h, order)[0]);
    assert(s[n + 1] == half_bytes(h, order)[1]);
}

impl DynRel {
    /// The bytes of this row: offset at 0, info at 4.
    pub open spec fn spec_to_bytes(&self, order: ByteOrder) -> Seq<u8> {
        word_bytes(self.r_offset, order) + word_bytes(self.r_info, order)
    }

    /// The row stored in `b`: offset at 0, info at 4.
    pub open spec fn spec_from_bytes(b: Seq<u8>, order: ByteOrder) -> DynRel {
        DynRel { r_offset: word_at(b, 0, order), r_info: word_at(b, 4, order) }
    }

    /// Encodes this row as it is stored on disk.
    pub fn to_bytes(&self, order: ByteOrder) -> (r: Vec<u8>)
        ensures
            r@ == self.spec_to_bytes(order),
    {
        let mut out: Vec<u8> = Vec::new();
        push_word(&mut out, self.r_offset, order);
        push_word(&mut out, self.r_info, order);
        assert(out@ =~= self.spec_to_bytes(order));
        out
    }

    /// Decodes a row from exactly its on-disk bytes; `None` when `bytes`
    /// does not have the row's size.
    pub fn from_bytes(bytes: &[u8], order: ByteOrder) -> (r: Option<DynRel>)
        ensures
            r == (if bytes@.len() == DYN_REL_SIZE {
                Some(DynRel::spec_from_bytes(bytes@, order))
            } else {
                None
            }),
    {
        if bytes.len() != DYN_REL_SIZE {
            return None;
        }
        Some(DynRel { r_offset: read_word(bytes, 0, order), r_info: read_word(bytes, 4, order) })
    }
}

/// Decoding the bytes of a relocation row gives the row back.
pub proof fn lemma_dyn_rel_decode_encode(x: DynRel, order: ByteOrder)
    ensures
        x.spec_to_bytes(order).len() == DYN_REL_SIZE,
        DynRel::spec_from_bytes(x.spec_to_bytes(order), order) == x,
{
    let e = Seq::<u8>::empty();
    lemma_word_in_image(e, x.r_offset, word_bytes(x.r_info, order), order);
    lemma_word_in_image(word_bytes(x.r_offset, order), x.r_info, e, order);
    assert(e + word_bytes(x.r_offset, order) + word_bytes(x.r_info, order) =~= x.spec_to_bytes(order));
    assert(word_bytes(x.r_offset, order) + word_bytes(x.r_info, order) + e =~= x.spec_to_bytes(order));
}

/// Encoding the row decoded from eight bytes gives those bytes back.
pub proof fn lemma_dyn_rel_encode_decode(b: Seq<u8>, order: ByteOrder)
    requires
        b.len() == DYN_REL_SIZE,
    ensures
        DynRel::spec_from_bytes(b, order).spec_to_bytes(order) == b,
{
    lemma_word_at_bytes(b, 0, order);
    lemma_word_at_bytes(b, 4, order);
    assert(b =~= b.subrange(0, 4) + b.subrange(4, 8));
}

/// A signed word survives being stored as its unsigned bit pattern.
proof fn lemma_signed_word_bits(x: SignedWord)
    ensures
        (x as Word) as SignedWord == x,
{
    assert((x as u32) as i32 == x) by (bit_vector);
}

impl DynRela {
    /// The bytes of this row: offset at 0, info at 4, addend at 8.
    pub open spec fn spec_to_bytes(&self, order: ByteOrder) -> Seq<u8> {
        word_bytes(self.r_offset, order) + word_bytes(self.r_info, order) + word_bytes(
            self.r_addend as Word,
            order,
        )
    }

    /// The row stored in `b`: offset at 0, info at 4, addend at 8.
    pub open spec fn spec_from_bytes(b: Seq<u8>, order: ByteOrder) -> DynRela {
        DynRela {
            r_offset: word_at(b, 0, order),
            r_info: word_at(b, 4, order),
            r_addend: word_at(b, 8, order) as SignedWord,
        }
    }

    /// Encodes this row as it is stored on disk.
    pub fn to_bytes(&self, order: ByteOrder) -> (r: Vec<u8>)
        ensures
            r@ == self.spec_to_bytes(order),
    {
        let mut out: Vec<u8> = Vec::new();
        push_word(&mut out, self.r_offset, order);
        push_word(&mut out, self.r_info, order);
        push_word(&mut out, self.r_addend as Word, order);
        assert(out@ =~= self.spec_to_bytes(order));
        out
    }

    /// Decodes a row from exactly its on-disk bytes; `None` when `bytes`
    /// does not have the row's size.
    pub fn from_bytes(bytes: &[u8], order: ByteOrder) -> (r: Option<DynRela>)
        ensures
            r == (if bytes@.len() == DYN_RELA_SIZE {
                Some(DynRela::spec_from_bytes(bytes@, order))
            } else {
                None
            }),
    {
        if bytes.len() != DYN_RELA_SIZE {
            return None;
        }
        Some(
            DynRela {
                r_offset: read_word(bytes, 0, order),
                r_info: read_word(bytes, 4, order),
                r_addend: read_word(bytes, 8, order) as SignedWord,
            },
        )
    }
}

/// Decoding the bytes of a relocation row with addend gives the row back.
pub proof fn lemma_dyn_rela_decode_encode(x: DynRela, order: ByteOrder)
    ensures
        x.spec_to_bytes(order).len() == DYN_RELA_SIZE,
        DynRela::spec_from_bytes(x.spec_to_bytes(order), order) == x,
{
    let e = Seq::<u8>::empty();
    let (a, b, c) = (
        word_bytes(x.r_offset, order),
        word_bytes(x.r_info, order),
        word_bytes(x.r_addend as Word, order),
    );
    lemma_word_in_image(e, x.r_offset, b + c, order);
    lemma_word_in_image(a, x.r_info, c, order);
    lemma_word_in_image(a + b, x.r_addend as Word, e, order);
    lemma_signed_word_bits(x.r_addend);
    assert(e + a + (b + c) =~= x.spec_to_bytes(order));
    assert(a + b + c =~= x.spec_to_bytes(order));
    assert(a + b + c + e =~= x.spec_to_bytes(order));
}

/// Encoding the row decoded from twelve bytes gives those bytes back.
pub proof fn lemma_dyn_rela_encode_decode(b: Seq<u8>, order: ByteOrder)
    requires
        b.len() == DYN_RELA_SIZE,
    ensures
        DynRela::spec_from_bytes(b, order).spec_to_bytes(order) == b,
{
    lemma_word_at_bytes(b, 0, order);
    lemma_word_at_bytes(b, 4, order);
    lemma_word_at_bytes(b, 8, order);
    let w = word_at(b, 8, order);
    assert((w as i32) as u32 == w) by (bit_vector);
    assert(b =~= b.subrange(0, 4) + b.subrange(4, 8) + b.subrange(8, 12));
}

impl DynEntry {
    /// The bytes of this slot: tag at 0, value at 4.
    pub open spec fn spec_to_bytes(&self, order: ByteOrder) -> Seq<u8> {
        word_bytes(self.d_tag as Word, order) + word_bytes(self.d_val_ptr, order)
    }

    /// The slot stored in `b`: tag at 0, value at 4.
    pub open spec fn spec_from_bytes(b: Seq<u8>, order: ByteOrder) -> DynEntry {
        DynEntry { d_tag: word_at(b, 0, order) as SignedWord, d_val_ptr: word_at(b, 4, order) }
    }

    /// Encodes this slot as it is stored on disk.
    pub fn to_bytes(&self, order: ByteOrder) -> (r: Vec<u8>)
        ensures
            r@ == self.spec_to_bytes(order),
    {
        let mut out: Vec<u8> = Vec::new();
        push_word(&mut out, self.d_tag as Word, order);
        push_word(&mut out, self.d_val_ptr, order);
        assert(out@ =~= self.spec_to_bytes(order));
        out
    }

    /// Decodes a slot from exactly its on-disk bytes; `None` when `bytes`
    /// does not have the slot's size.
    pub fn from_bytes(bytes: &[u8], order: ByteOrder) -> (r: Option<DynEntry>)
        ensures
            r == (if bytes@.len() == DYN_ENTRY_SIZE {
                Some(DynEntry::spec_from_bytes(bytes@, order))
            } else {
                None
            }),
    {
        if bytes.len() != DYN_ENTRY_SIZE {
            return None;
        }
        Some(
            DynEntry {
                d_tag: read_word(bytes, 0, order) as SignedWord,
                d_val_ptr: read_word(bytes, 4, order),
            },
        )
    }
}

/// Decoding the bytes of a `.dynamic` slot gives the slot back.
pub proof fn lemma_dyn_entry_decode_encode(x: DynEntry, order: ByteOrder)
    ensures
        x.spec_to_bytes(order).len() == DYN_ENTRY_SIZE,
        DynEntry::spec_from_bytes(x.spec_to_bytes(order), order) == x,
{
    let e = Seq::<u8>::empty();
    let (a, b) = (word_bytes(x.d_tag as Word, order), word_bytes(x.d_val_ptr, order));
    lemma_word_in_image(e, x.d_tag as Word, b, order);
    lemma_word_in_image(a, x.d_val_ptr, e, order);
    lemma_signed_word_bits(x.d_tag);
    assert(e + a + b =~= x.spec_to_bytes(order));
    assert(a + b + e =~= x.spec_to_bytes(order));
}

/// Encoding the slot decoded from eight bytes gives those bytes back.
pub proof fn lemma_dyn_entry_encode_decode(b: Seq<u8>, order: ByteOrder)
    requires
        b.len() == DYN_ENTRY_SIZE,
    ensures
        DynEntry::spec_from_bytes(b, order).spec_to_bytes(order) == b,
{
    lemma_word_at_bytes(b, 0, order);
    lemma_word_at_bytes(b, 4, order);
    let w = word_at(b, 0, order);
    assert((w as i32) as u32 == w) by (bit_vector);
    assert(b =~= b.subrange(0, 4) + b.subrange(4, 8));
}

impl DynSym {
    /// The bytes of this row: name at 0, value at 4, size at 8, info at 12,
    /// other at 13, section index at 14.
    pub open spec fn spec_to_bytes(&self, order: ByteOrder) -> Seq<u8> {
        word_bytes(self.st_name, order) + word_bytes(self.st_value, order) + word_bytes(
            self.st_size,
            order,
        ) + seq![self.st_info, self.st_other] + half_bytes(self.st_shndx, order)
    }

    /// The row stored in `b`: name at 0, value at 4, size at 8, info at 12,
    /// other at 13, section index at 14.
    pub open spec fn spec_from_bytes(b: Seq<u8>, order: ByteOrder) -> DynSym {
        DynSym {
            st_name: word_at(b, 0, order),
            st_value: word_at(b, 4, order),
            st_size: word_at(b, 8, order),
            st_info: b[12],
            st_other: b[13],
            st_shndx: half_at(b, 14, order),
        }
    }

    /// Encodes this row as it is stored on disk.
    pub fn to_bytes(&self, order: ByteOrder) -> (r: Vec<u8>)
        ensures
            r@ == self.spec_to_bytes(order),
    {
        let mut out: Vec<u8> = Vec::new();
        push_word(&mut out, self.st_name, order);
        push_word(&mut out, self.st_value, order);
        push_word(&mut out, self.st_size, order);
        out.push(self.st_info);
        out.push(self.st_other);
        push_half(&mut out, self.st_shndx, order);
        assert(out@ =~= self.spec_to_bytes(order));
        out
    }

    /// Decodes a row from exactly its on-disk bytes; `None` when `bytes`
    /// does not have the row's size.
    pub fn from_bytes(bytes: &[u8], order: ByteOrder) -> (r: Option<DynSym>)
        ensures
            r == (if bytes@.len() == DYN_SYM_SIZE {
                Some(DynSym::spec_from_bytes(bytes@, order))
            } else {
                None
            }),
    {
        if bytes.len() != DYN_SYM_SIZE {
            return None;
        }
        Some(
            DynSym {
                st_name: read_word(bytes, 0, order),
                st_value: read_word(bytes, 4, order),
                st_size: read_word(bytes, 8, order),
                st_info: bytes[12],
                st_other: bytes[13],
                st_shndx: read_half(bytes, 14, order),
            },
        )
    }
}

/// Decoding the bytes of a symbol row gives the row back.
pub proof fn lemma_dyn_sym_decode_encode(x: DynSym, order: ByteOrder)
    ensures
        x.spec_to_bytes(order).len() == DYN_SYM_SIZE,
        DynSym::spec_from_bytes(x.spec_to_bytes(order), order) == x,
{
    let e = Seq::<u8>::empty();
    let a = word_bytes(x.st_name, order);
    let b = word_bytes(x.st_value, order);
    let c = word_bytes(x.st_size, order);
    let d: Seq<u8> = seq![x.st_info, x.st_other];
    let h = half_bytes(x.st_shndx, order);
    let s = x.spec_to_bytes(order);
    lemma_word_in_image(e, x.st_name, b + c + d + h, order);
    lemma_word_in_image(a, x.st_value, c + d + h, order);
    lemma_word_in_image(a + b, x.st_size, d + h, order);
    lemma_half_in_image(a + b + c + d, x.st_shndx, e, order);
    assert(e + a + (b + c + d + h) =~= s);
    assert(a + b + (c + d + h) =~= s);
    assert(a + b + c + (d + h) =~= s);
    assert(a + b + c + d + h + e =~= s);
    assert(s[12] == x.st_info);
    assert(s[13] == x.st_other);
}

/// Encoding the row decoded from sixteen bytes gives those bytes back.
pub proof fn lemma_dyn_sym_encode_decode(b: Seq<u8>, order: ByteOrder)
    requires
        b.len() == DYN_SYM_SIZE,
    ensures
        DynSym::spec_from_bytes(b, order).spec_to_bytes(order) == b,
{
    lemma_word_at_bytes(b, 0, order);
    lemma_word_at_bytes(b, 4, order);
    lemma_word_at_bytes(b, 8, order);
    lemma_half_at_bytes(b, 14, order);
    assert(b =~= b.subrange(0, 4) + b.subrange(4, 8) + b.subrange(8, 12) + seq![b[12], b[13]]
        + b.subrange(14, 16));
}

} // verus!
