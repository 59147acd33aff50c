//! What the linker knows of each JavaScript file.

use vstd::prelude::*;
use crate::bundler::types::{ImportTracker, Index, Ref, RefTag, WrapKind};

verus! {

/// An import record of a source file.
#[derive(Clone, Copy, Debug, PartialEq, Eq, Structural)]
pub struct Dependency {
    pub source_index: Index,
    pub import_record_index: u32,
}

/// Whether an import tracker is the default one.
pub open spec fn is_default_tracker(t: ImportTracker) -> bool {
    &&& t.source_index.value == 0
    &&& t.name_loc.start == 0
    &&& t.import_ref == (Ref { inner_index: 0, source_index: 0, tag: RefTag::Invalid })
}

/// An import and the re-exports it passes through.
pub struct ImportData {
    pub re_exports: Vec<Dependency>,
    pub data: ImportTracker,
}

/// The import that binds a symbol.
pub type ImportToBind = ImportData;

impl Default for ImportData {
    fn default() -> (r: Self)
        ensures
            r.re_exports@ == Seq::<Dependency>::empty(),
            is_default_tracker(r.data),
    {
        ImportData { re_exports: Vec::new(), data: ImportTracker::default() }
    }
}

/// An export and the `export *` statements that may make it ambiguous.
pub struct ExportData {
    pub potentially_ambiguous_export_star_refs: Vec<ImportData>,
    pub data: ImportTracker,
}

/// How an export resolved.
pub type ResolvedExport = ExportData;

impl Default for ExportData {
    fn default() -> (r: Self)
        ensures
            r.potentially_ambiguous_export_star_refs@ == Seq::<ImportData>::empty(),
            is_default_tracker(r.data),
    {
        ExportData { potentially_ambiguous_export_star_refs: Vec::new(), data: ImportTracker::default() }
    }
}

/// Facts the linker records about a file.
#[derive(Clone, Copy, Debug, PartialEq, Eq, Structural)]
pub struct Flags {
    pub is_async_or_has_async_dependency: bool,
    pub needs_exports_variable: bool,
    pub force_include_exports_for_entry_point: bool,
    pub needs_export_symbol_from_runtime: bool,
    pub did_wrap_dependencies: bool,
    pub needs_synthetic_default_export: bool,
    pub wrap: WrapKind,
}

impl Default for Flags {
    fn default() -> (r: Self)
        ensures
            r == (Flags {
                is_async_or_has_async_dependency: false,
                needs_exports_variable: false,
                force_include_exports_for_entry_point: false,
                needs_export_symbol_from_runtime: false,
                did_wrap_dependencies: false,
                needs_synthetic_default_export: false,
                wrap: WrapKind::NoWrap,
            }),
    {
        Flags {
            is_async_or_has_async_dependency: false,
            needs_exports_variable: false,
            force_include_exports_for_entry_point: false,
            needs_export_symbol_from_runtime: false,
            did_wrap_dependencies: false,
            needs_synthetic_default_export: false,
            wrap: WrapKind::default(),
        }
    }
}

/// What the linker knows of a JavaScript file. Its maps keep insertion order
/// and are held as lists of entries whose keys occur once each (see
/// `JSMeta::well_formed`).
pub struct JSMeta {
    /// Symbols that are probably TypeScript types.
    pub probably_typescript_type: Vec<Ref>,
    pub imports_to_bind: Vec<(Ref, ImportData)>,
    pub resolved_exports: Vec<(Vec<u8>, ExportData)>,
    pub resolved_export_star: ExportData,
    pub sorted_and_filtered_export_aliases: Vec<Vec<u8>>,
    pub top_level_symbol_to_parts_overlay: Vec<(Ref, Vec<u32>)>,
    pub cjs_export_copies: Vec<Ref>,
    pub wrapper_part_index: Index,
    pub entry_point_part_index: Index,
    pub flags: Flags,
}

/// Whether no two entries of a map share a key.
pub open spec fn keys_unique<K, V>(entries: Seq<(K, V)>) -> bool {
    forall|i: int, j: int| 0 <= i < j < entries.len() ==> (#[trigger] entries[i]).0 != (#[trigger] entries[j]).0
}

/// Whether no two entries of a map keyed by byte strings share a key.
pub open spec fn byte_keys_unique<V>(entries: Seq<(Vec<u8>, V)>) -> bool {
    forall|i: int, j: int| 0 <= i < j < entries.len() ==> (#[trigger] entries[i]).0@ != (#[trigger] entries[j]).0@
}

/// Whether no item of a set occurs twice.
pub open spec fn items_unique<K>(items: Seq<K>) -> bool {
    forall|i: int, j: int| 0 <= i < j < items.len() ==> items[i] != items[j]
}

impl JSMeta {
    /// The invariant of the maps and sets held as lists: each key, and each
    /// item of a set, occurs once.
    pub open spec fn well_formed(&self) -> bool {
        &&& items_unique(self.probably_typescript_type@)
        &&& keys_unique(self.imports_to_bind@)
        &&& byte_keys_unique(self.resolved_exports@)
        &&& keys_unique(self.top_level_symbol_to_parts_overlay@)
    }
}

impl Default for JSMeta {
    fn default() -> (r: Self)
        ensures
            r.well_formed(),
            r.probably_typescript_type@.len() == 0,
            r.imports_to_bind@.len() == 0,
            r.resolved_exports@.len() == 0,
            r.resolved_export_star.potentially_ambiguous_export_star_refs@.len() == 0,
            is_default_tracker(r.resolved_export_star.data),
            r.sorted_and_filtered_export_aliases@.len() == 0,
            r.top_level_symbol_to_parts_overlay@.len() == 0,
            r.cjs_export_copies@.len() == 0,
            r.wrapper_part_index.value == 0,
            r.entry_point_part_index.value == 0,
            r.flags == Flags::default_value(),
    {
        JSMeta {
            probably_typescript_type: Vec::new(),
            imports_to_bind: Vec::new(),
            resolved_exports: Vec::new(),
            resolved_export_star: ExportData::default(),
            sorted_and_filtered_export_aliases: Vec::new(),
            top_level_symbol_to_parts_overlay: Vec::new(),
            cjs_export_copies: Vec::new(),
            wrapper_part_index: Index::default(),
            entry_point_part_index: Index::default(),
            flags: Flags::default(),
        }
    }
}

impl Flags {
    /// The flags of a file the linker has not looked at.
    pub open spec fn default_value() -> Flags {
        Flags {
            is_async_or_has_async_dependency: false,
            needs_exports_variable: false,
            force_include_exports_for_entry_point: false,
            needs_export_symbol_from_runtime: false,
            did_wrap_dependencies: false,
            needs_synthetic_default_export: false,
            wrap: WrapKind::NoWrap,
        }
    }
}

} // verus!
