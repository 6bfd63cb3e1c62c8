//! Reconstruction of C struct layouts from the debug information of a
//! compiled binary.
//!
//! The library indexes the entry trees of all compilation units, builds a
//! registry of named structure definitions, and resolves member types one
//! layer at a time (pointer, const, typedef, array, enum) on demand.

pub mod extract;
pub mod laws;
pub mod members;
pub mod model;
pub mod parser;
pub mod registry;
pub mod types;

pub use extract::{DwarfData, SectionBytes};
pub use members::{StructIter, StructMember, StructMemberIter, StructUnionIter};
pub use model::{Attr, DwTypeMeta, DwarfError, Entry, UnitData};
pub use parser::Parser;
pub use registry::StructDict;
pub use types::{AnonStruct, Array, Base, Const, Enum, Pointer, Struct, Subroutine, Type,
    Typedef, Union, Unknown};
