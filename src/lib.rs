//! Typed views of the ELF32 `.dynamic` section: the tag/value table, symbol
//! and relocation rows, their byte images, and the classification of tag
//! codes.
pub mod layout;
pub mod records;
pub mod tag;

pub use layout::{ByteOrder, DYN_ENTRY_SIZE, DYN_RELA_SIZE, DYN_REL_SIZE, DYN_SYM_SIZE};
pub use records::{Addr, DynEntry, DynRel, DynRela, DynSym, Half, SignedWord, Word};
pub use tag::{classify, DynTypeError, DynamicSectionType};
