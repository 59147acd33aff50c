//! Plain value types shared by the bundler's stages.

use vstd::prelude::*;

verus! {

/// The integer behind an [`Index`].
pub type IndexInt = u32;

/// The index of a source file in the bundle graph.
#[derive(Clone, Copy, Debug, PartialEq, Eq, Structural)]
pub struct Index {
    pub value: IndexInt,
}

impl Default for Index {
    fn default() -> (r: Self)
        ensures
            r.value == 0,
    {
        Index { value: 0 }
    }
}

/// What a [`Ref`] refers to.
#[derive(Clone, Copy, Debug, PartialEq, Eq, Structural)]
pub enum RefTag {
    Invalid,
    AllocatedName,
    SourceContentsSlice,
    Symbol,
}

/// A reference to a symbol: the source file and the symbol's index in it.
#[derive(Clone, Copy, Debug, PartialEq, Eq, Structural)]
pub struct Ref {
    pub inner_index: u32,
    pub source_index: u32,
    pub tag: RefTag,
}

impl Ref {
    /// The index of the symbol inside its source file.
    pub fn inner_index(&self) -> (r: u32)
        ensures
            r == self.inner_index,
    {
        self.inner_index
    }
}

impl Default for Ref {
    fn default() -> (r: Self)
        ensures
            r == (Ref { inner_index: 0, source_index: 0, tag: RefTag::Invalid }),
    {
        Ref { inner_index: 0, source_index: 0, tag: RefTag::Invalid }
    }
}

/// A byte offset in a source file.
#[derive(Clone, Copy, Debug, PartialEq, Eq, Structural)]
pub struct Loc {
    pub start: i32,
}

impl Default for Loc {
    fn default() -> (r: Self)
        ensures
            r.start == 0,
    {
        Loc { start: 0 }
    }
}

/// A range of parts of one source file.
#[derive(Clone, Copy, Debug, PartialEq, Eq, Structural)]
pub struct PartRange {
    pub source_index: Index,
    pub part_index_begin: u32,
    pub part_index_end: u32,
}

impl Default for PartRange {
    fn default() -> (r: Self)
        ensures
            r.source_index.value == 0,
            r.part_index_begin == 0,
            r.part_index_end == 0,
    {
        PartRange { source_index: Index::default(), part_index_begin: 0, part_index_end: 0 }
    }
}

/// Where an import leads.
#[derive(Clone, Copy, Debug, PartialEq, Eq, Structural)]
pub struct ImportTracker {
    pub source_index: Index,
    pub name_loc: Loc,
    pub import_ref: Ref,
}

impl Default for ImportTracker {
    fn default() -> (r: Self)
        ensures
            r.source_index.value == 0,
            r.name_loc.start == 0,
            r.import_ref == (Ref { inner_index: 0, source_index: 0, tag: RefTag::Invalid }),
    {
        ImportTracker { source_index: Index::default(), name_loc: Loc::default(), import_ref: Ref::default() }
    }
}

/// One symbol that a chunk imports from another chunk.
pub struct CrossChunkImportItem {
    pub export_alias: Vec<u8>,
    pub ref_: Ref,
}

/// The symbols that a chunk imports from another chunk, sorted.
pub struct CrossChunkImport {
    pub chunk_index: IndexInt,
    pub sorted_import_items: Vec<CrossChunkImportItem>,
}

/// How a top-level name was declared.
#[derive(Clone, Copy, Debug, PartialEq, Eq, Structural)]
pub enum DeclInfoKind {
    Declared,
    Lexical,
}

/// A top-level declaration collected while printing.
pub struct DeclInfo {
    pub name: Vec<u8>,
    pub kind: DeclInfoKind,
}

/// How a module is wrapped in the output.
#[derive(Clone, Copy, Debug, PartialEq, Eq, Structural)]
pub enum WrapKind {
    /// Not wrapped.
    NoWrap,
    Cjs,
    Esm,
}

impl Default for WrapKind {
    fn default() -> (r: Self)
        ensures
            r == WrapKind::NoWrap,
    {
        WrapKind::NoWrap
    }
}

} // verus!
