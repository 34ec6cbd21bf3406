//! Classification of raw `.dynamic` tag codes into the closed set of tags
//! this library understands.
use vstd::prelude::*;

use crate::records::{DynEntry, Word};

verus! {

/// The `.dynamic` tags this library recognises. Every other code is refused
/// by [`classify`] with a [`DynTypeError`].
#[allow(non_camel_case_types)]
#[derive(Debug, Clone, Copy, PartialEq, Eq, Structural)]
pub enum DynamicSectionType {
    DT_NULL,
    DT_PLTRELSZ,
    DT_PLTGOT,
    DT_PLTREL,
    DT_STRTAB,
    DT_SYMTAB,
    DT_SYMENT,
    DT_REL,
    DT_RELSZ,
    DT_RELENT,
    DT_RELA,
    DT_RELASZ,
    DT_RELAENT,
    DT_STRSZ,
    DT_JMPREL,
}

/// An unknown `.dynamic` tag was seen; it carries the raw code.
#[derive(Debug, Clone, Copy, PartialEq, Eq, Structural)]
pub struct DynTypeError(pub Word);

impl DynTypeError {
    /// The raw tag code that was not recognised.
    pub fn tag(&self) -> (r: Word)
        ensures
            r == self.0,
    {
        self.0
    }
}

/// The numeric code of a recognised tag, as the ABI assigns it.
pub open spec fn tag_code(t: DynamicSectionType) -> Word {
    match t {
        DynamicSectionType::DT_NULL => 0,
        DynamicSectionType::DT_PLTRELSZ => 2,
        DynamicSectionType::DT_PLTGOT => 3,
        DynamicSectionType::DT_PLTREL => 20,
        DynamicSectionType::DT_STRTAB => 5,
        DynamicSectionType::DT_SYMTAB => 6,
        DynamicSectionType::DT_SYMENT => 11,
        DynamicSectionType::DT_REL => 17,
        DynamicSectionType::DT_RELSZ => 18,
        DynamicSectionType::DT_RELENT => 19,
        DynamicSectionType::DT_RELA => 7,
        DynamicSectionType::DT_RELASZ => 8,
        DynamicSectionType::DT_RELAENT => 9,
        DynamicSectionType::DT_STRSZ => 10,
        DynamicSectionType::DT_JMPREL => 23,
    }
}

/// The tag whose code is `raw`, if there is one.
pub open spec fn tag_of(raw: Word) -> Option<DynamicSectionType> {
    match raw {
        0 => Some(DynamicSectionType::DT_NULL),
        2 => Some(DynamicSectionType::DT_PLTRELSZ),
        3 => Some(DynamicSectionType::DT_PLTGOT),
        20 => Some(DynamicSectionType::DT_PLTREL),
        5 => Some(DynamicSectionType::DT_STRTAB),
        6 => Some(DynamicSectionType::DT_SYMTAB),
        11 => Some(DynamicSectionType::DT_SYMENT),
        17 => Some(DynamicSectionType::DT_REL),
        18 => Some(DynamicSectionType::DT_RELSZ),
        19 => Some(DynamicSectionType::DT_RELENT),
        7 => Some(DynamicSectionType::DT_RELA),
        8 => Some(DynamicSectionType::DT_RELASZ),
        9 => Some(DynamicSectionType::DT_RELAENT),
        10 => Some(DynamicSectionType::DT_STRSZ),
        23 => Some(DynamicSectionType::DT_JMPREL),
        _ => None,
    }
}

/// Whether `raw` is the code of one of the recognised tags.
pub open spec fn is_known_tag(raw: Word) -> bool {
    tag_of(raw) is Some
}

/// The outcome of classifying `raw`: the recognised tag, or an error that
/// carries `raw` itself.
pub open spec fn classify_spec(raw: Word) -> Result<DynamicSectionType, DynTypeError> {
    match tag_of(raw) {
        Some(t) => Ok(t),
        None => Err(DynTypeError(raw)),
    }
}

impl DynamicSectionType {
    /// The numeric code of this tag.
    pub fn code(self) -> (r: Word)
        ensures
            r == tag_code(self),
    {
        match self {
            DynamicSectionType::DT_NULL => 0,
            DynamicSectionType::DT_PLTRELSZ => 2,
            DynamicSectionType::DT_PLTGOT => 3,
            DynamicSectionType::DT_PLTREL => 20,
            DynamicSectionType::DT_STRTAB => 5,
            DynamicSectionType::DT_SYMTAB => 6,
            DynamicSectionType::DT_SYMENT => 11,
            DynamicSectionType::DT_REL => 17,
            DynamicSectionType::DT_RELSZ => 18,
            DynamicSectionType::DT_RELENT => 19,
            DynamicSectionType::DT_RELA => 7,
            DynamicSectionType::DT_RELASZ => 8,
            DynamicSectionType::DT_RELAENT => 9,
            DynamicSectionType::DT_STRSZ => 10,
            DynamicSectionType::DT_JMPREL => 23,
        }
    }
}

/// Two tags with the same code are the same tag.
pub proof fn lemma_tag_code_injective(a: DynamicSectionType, b: DynamicSectionType)
    ensures
        tag_code(a) == tag_code(b) ==> a == b,
{
}

/// The recognised codes are exactly 0, 2, 3, 5 to 11, 17 to 20, and 23.
pub proof fn lemma_known_tags(raw: Word)
    ensures
        is_known_tag(raw) <==> (raw == 0 || raw == 2 || raw == 3 || raw == 5 || raw == 6
            || raw == 7 || raw == 8 || raw == 9 || raw == 10 || raw == 11 || raw == 17
            || raw == 18 || raw == 19 || raw == 20 || raw == 23),
{
}

/// Classifying the code of a tag gives that tag back.
pub proof fn lemma_classify_code(t: DynamicSectionType)
    ensures
        is_known_tag(tag_code(t)),
        tag_of(tag_code(t)) == Some(t),
        classify_spec(tag_code(t)) == Ok::<DynamicSectionType, DynTypeError>(t),
{
}

/// Classification is a bijection between the recognised codes and the tags:
/// each recognised code gives a tag whose code it is, and two codes that give
/// the same tag are equal.
pub proof fn lemma_classify_bijective(a: Word, b: Word)
    ensures
        is_known_tag(a) ==> classify_spec(a) is Ok && tag_code(classify_spec(a)->Ok_0) == a,
        is_known_tag(a) && classify_spec(a) == classify_spec(b) ==> a == b,
{
}

/// Classifies a raw tag code: the recognised tag whose code it is, or an
/// error carrying the code unchanged.
pub fn classify(raw: Word) -> (r: Result<DynamicSectionType, DynTypeError>)
    ensures
        r == classify_spec(raw),
        r is Ok <==> is_known_tag(raw),
        r matches Ok(t) ==> tag_code(t) == raw,
        r matches Err(e) ==> e.0 == raw,
{
    let r = match raw {
        0 => Ok(DynamicSectionType::DT_NULL),
        2 => Ok(DynamicSectionType::DT_PLTRELSZ),
        3 => Ok(DynamicSectionType::DT_PLTGOT),
        20 => Ok(DynamicSectionType::DT_PLTREL),
        5 => Ok(DynamicSectionType::DT_STRTAB),
        6 => Ok(DynamicSectionType::DT_SYMTAB),
        11 => Ok(DynamicSectionType::DT_SYMENT),
        17 => Ok(DynamicSectionType::DT_REL),
        18 => Ok(DynamicSectionType::DT_RELSZ),
        19 => Ok(DynamicSectionType::DT_RELENT),
        7 => Ok(DynamicSectionType::DT_RELA),
        8 => Ok(DynamicSectionType::DT_RELASZ),
        9 => Ok(DynamicSectionType::DT_RELAENT),
        10 => Ok(DynamicSectionType::DT_STRSZ),
        23 => Ok(DynamicSectionType::DT_JMPREL),
        tag => Err(DynTypeError(tag)),
    };
    r
}

impl DynEntry {
    /// Classifies this slot's tag, read as its unsigned 32-bit pattern.
    pub fn kind(&self) -> (r: Result<DynamicSectionType, DynTypeError>)
        ensures
            r == classify_spec(self.d_tag as Word),
    {
        classify(self.d_tag as Word)
    }
}

impl TryFrom<Word> for DynamicSectionType {
    type Error = DynTypeError;

    fn try_from(value: Word) -> (r: Result<Self, Self::Error>) {
        classify(value)
    }
}

impl vstd::std_specs::convert::TryFromSpecImpl<Word> for DynamicSectionType {
    open spec fn obeys_try_from_spec() -> bool {
        true
    }

    open spec fn try_from_spec(v: Word) -> Result<Self, Self::Error> {
        classify_spec(v)
    }
}

} // verus!
