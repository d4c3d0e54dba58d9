//! A parser and builder for the initial stack layout that Linux hands to a
//! freshly executed program: `argc`, the argument vector (`argv`), the
//! environment vector (`envv`), and the auxiliary vector (`auxv`), together
//! with the variable-length payload data (C-strings, random bytes) that
//! entries of those vectors point to.
//!
//! The layout is a single contiguous byte region whose entries contain
//! pointers into later parts of the same region. The builder computes every
//! offset up front and serializes in one pass, translating each internal
//! offset into an address in a caller-chosen *target* address space, so a
//! layout can be built for a different process. The parser walks the raw
//! bytes back into structured entries; pointer-only iteration never resolves
//! a pointer, while the resolving iteration takes the base address the
//! pointers are relative to and reads the referenced payload out of the
//! buffer itself.
//!
//! This crate fixes the machine word at 8 bytes: it produces and consumes the
//! 64-bit variant of the layout.

pub mod words;
pub mod typ;
pub mod flags;
pub mod util;
pub mod cstr_util;
pub mod aux_var;
pub mod serialized;
pub mod layout;
pub mod builder;
pub mod parser;
pub mod laws;

pub use typ::AuxVarType;
pub use typ::ParseAuxVarTypeError;
pub use flags::AuxVarFlags;
pub use aux_var::AuxVar;
pub use serialized::AuxVarRaw;
pub use builder::StackLayoutBuilder;
pub use parser::StackLayoutRef;
pub use parser::StackParseError;
