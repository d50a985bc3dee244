//! The structured arguments of a declaration attribute.
//!
//! An attribute such as `#[dyn_cast(base_traits(A, B), auto_traits(Send))]`
//! is a path followed by a tree of meta items. These types hold that tree as
//! plain values.

use vstd::prelude::*;
use crate::path::Path;

verus! {

/// A meta item: a bare path, a path with a parenthesised list, or a path
/// with a literal value.
#[derive(Debug, PartialEq, Eq)]
pub enum Meta {
    Path(Path),
    List(MetaList),
    NameValue(MetaNameValue),
}

/// A path with a parenthesised list of nested items, `path(item, item, ..)`.
#[derive(Debug, PartialEq, Eq)]
pub struct MetaList {
    pub path: Path,
    pub nested: Vec<NestedMeta>,
}

/// A path with a literal value, `path = "literal"`.
#[derive(Debug, PartialEq, Eq)]
pub struct MetaNameValue {
    pub path: Path,
    pub lit: String,
}

/// An element of a meta list: a meta item or a literal.
#[derive(Debug, PartialEq, Eq)]
pub enum NestedMeta {
    Meta(Meta),
    Lit(String),
}

/// An attribute on the declared type.
///
/// `meta` is what the attribute's arguments read as; it is `None` when they
/// do not form a meta item at all.
#[derive(Debug, PartialEq, Eq)]
pub struct Attribute {
    pub path: Path,
    pub meta: Option<Meta>,
}

impl Meta {
    /// The path that begins this meta item.
    pub open spec fn spec_path(self) -> Path {
        match self {
            Meta::Path(p) => p,
            Meta::List(l) => l.path,
            Meta::NameValue(nv) => nv.path,
        }
    }

    /// The path that begins this meta item.
    pub fn path(&self) -> (p: &Path)
        ensures
            *p == self.spec_path(),
    {
        match self {
            Meta::Path(p) => p,
            Meta::List(l) => &l.path,
            Meta::NameValue(nv) => &nv.path,
        }
    }
}

} // verus!
