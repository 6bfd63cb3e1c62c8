//! The closed set of type kinds the resolver classifies entries into.
//!
//! Every variant carries the address of the entry it was resolved from, so a
//! consumer can ask the resolver to peel one more layer.

use vstd::prelude::*;
use crate::model::DwTypeMeta;

verus! {

/// A named structure definition, as recorded by the registry.
#[derive(Clone, Debug, PartialEq)]
pub struct Struct {
    /// The structure's name.
    pub name: String,
    /// Its byte size.
    pub size: u64,
    /// Where its defining entry lives.
    pub meta: DwTypeMeta,
    /// How many later full definitions of the same name the scan saw; also
    /// used as a marker (`1`) on synthetic anonymous structures.
    pub refcnt: u64,
}

/// A synthetic anonymous structure, carrying only a size and an address.
#[derive(Clone, Debug, PartialEq)]
pub struct AnonStruct {
    pub size: u64,
    pub meta: DwTypeMeta,
}

/// An alias for another type.
#[derive(Clone, Debug, PartialEq)]
pub struct Typedef {
    pub name: String,
    pub size: u64,
    pub meta: DwTypeMeta,
}

/// A pointer; the size is fixed at the width of a 64-bit machine pointer.
#[derive(Clone, Debug, PartialEq)]
pub struct Pointer {
    pub size: u64,
    pub meta: DwTypeMeta,
}

/// A subroutine type; formal-parameter entries are mapped onto this variant
/// as well, an approximation kept from the scan's handled set.
#[derive(Clone, Debug, PartialEq)]
pub struct Subroutine {
    pub size: u64,
    pub meta: DwTypeMeta,
}

/// An array; `size` is the element count read from the subrange sibling,
/// not a byte size.
#[derive(Clone, Debug, PartialEq)]
pub struct Array {
    /// Element count, not a byte size.
    pub size: u64,
    pub meta: DwTypeMeta,
}

/// A union; member enumeration for unions is not performed.
#[derive(Clone, Debug, PartialEq)]
pub struct Union {
    pub size: u64,
    pub meta: DwTypeMeta,
}

/// A const wrapper around another type.
#[derive(Clone, Debug, PartialEq)]
pub struct Const {
    pub size: u64,
    pub meta: DwTypeMeta,
}

/// A base (primitive) type.  Its byte size is not captured and stays `0`.
#[derive(Clone, Debug, PartialEq)]
pub struct Base {
    pub name: String,
    pub size: u64,
    pub meta: DwTypeMeta,
}

/// An enumeration type; enumerator values are not captured.
#[derive(Clone, Debug, PartialEq)]
pub struct Enum {
    pub name: Option<String>,
    pub size: u64,
    pub meta: DwTypeMeta,
}

/// An entry the resolver has no classification for.
#[derive(Clone, Debug, PartialEq)]
pub struct Unknown {
    pub meta: DwTypeMeta,
}

/// The closed classification of resolved types.
#[derive(Clone, Debug, PartialEq)]
pub enum Type {
    Struct(Struct),
    Typedef(Typedef),
    Pointer(Pointer),
    Subroutine(Subroutine),
    Array(Array),
    Union(Union),
    Const(Const),
    Base(Base),
    Enum(Enum),
    Unknown(Unknown),
}

/// Mathematical image of a [`Type`].
#[verifier::ext_equal]
pub ghost enum TypeV {
    Struct { name: Seq<char>, size: u64, meta: DwTypeMeta, refcnt: u64 },
    Typedef { name: Seq<char>, size: u64, meta: DwTypeMeta },
    Pointer { size: u64, meta: DwTypeMeta },
    Subroutine { size: u64, meta: DwTypeMeta },
    Array { size: u64, meta: DwTypeMeta },
    Union { size: u64, meta: DwTypeMeta },
    Const { size: u64, meta: DwTypeMeta },
    Base { name: Seq<char>, size: u64, meta: DwTypeMeta },
    Enum { name: Option<Seq<char>>, size: u64, meta: DwTypeMeta },
    Unknown { meta: DwTypeMeta },
}

impl View for Type {
    type V = TypeV;

    open spec fn view(&self) -> TypeV {
        match self {
            Type::Struct(t) => TypeV::Struct {
                name: t.name@,
                size: t.size,
                meta: t.meta,
                refcnt: t.refcnt,
            },
            Type::Typedef(t) => TypeV::Typedef { name: t.name@, size: t.size, meta: t.meta },
            Type::Pointer(t) => TypeV::Pointer { size: t.size, meta: t.meta },
            Type::Subroutine(t) => TypeV::Subroutine { size: t.size, meta: t.meta },
            Type::Array(t) => TypeV::Array { size: t.size, meta: t.meta },
            Type::Union(t) => TypeV::Union { size: t.size, meta: t.meta },
            Type::Const(t) => TypeV::Const { size: t.size, meta: t.meta },
            Type::Base(t) => TypeV::Base { name: t.name@, size: t.size, meta: t.meta },
            Type::Enum(t) => TypeV::Enum {
                name: match t.name {
                    Some(n) => Some(n@),
                    None => None,
                },
                size: t.size,
                meta: t.meta,
            },
            Type::Unknown(t) => TypeV::Unknown { meta: t.meta },
        }
    }
}

/// The entry address a resolved type carries, whatever its kind.
pub open spec fn meta_of(t: TypeV) -> DwTypeMeta {
    match t {
        TypeV::Struct { meta, .. } => meta,
        TypeV::Typedef { meta, .. } => meta,
        TypeV::Pointer { meta, .. } => meta,
        TypeV::Subroutine { meta, .. } => meta,
        TypeV::Array { meta, .. } => meta,
        TypeV::Union { meta, .. } => meta,
        TypeV::Const { meta, .. } => meta,
        TypeV::Base { meta, .. } => meta,
        TypeV::Enum { meta, .. } => meta,
        TypeV::Unknown { meta } => meta,
    }
}

impl Type {
    /// The entry address this type was resolved from.
    pub(crate) fn get_meta(self) -> (m: DwTypeMeta)
        ensures
            m == meta_of(self@),
    {
        let meta = match self {
            Type::Base(t) => t.meta,
            Type::Array(t) => t.meta,
            Type::Enum(t) => t.meta,
            Type::Const(t) => t.meta,
            Type::Typedef(t) => t.meta,
            Type::Struct(t) => t.meta,
            Type::Pointer(t) => t.meta,
            Type::Union(t) => t.meta,
            Type::Subroutine(t) => t.meta,
            Type::Unknown(t) => t.meta,
        };
        meta
    }
}

} // verus!
