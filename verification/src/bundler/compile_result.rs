//! What compiling one file produced.

use vstd::prelude::*;
use crate::bytes::copy_bytes;
use crate::bundler::types::{DeclInfo, DeclInfoKind, IndexInt};

verus! {

/// An error code.
#[derive(Clone, Copy, Debug, PartialEq, Eq, Structural)]
pub struct CoreError {
    pub code: u16,
}

/// A source map for one chunk of output.
pub struct SourceMapChunk {
    /// The encoded mappings.
    pub buffer: Vec<u8>,
    pub mappings_count: usize,
    pub final_generated_column: i32,
    pub should_ignore: bool,
}

/// A source-map chunk as plain values.
pub struct SourceMapView {
    pub buffer: Seq<u8>,
    pub mappings_count: usize,
    pub final_generated_column: i32,
    pub should_ignore: bool,
}

impl View for SourceMapChunk {
    type V = SourceMapView;

    open spec fn view(&self) -> SourceMapView {
        SourceMapView {
            buffer: self.buffer@,
            mappings_count: self.mappings_count,
            final_generated_column: self.final_generated_column,
            should_ignore: self.should_ignore,
        }
    }
}

/// The view of an optional source map.
pub open spec fn source_map_view(m: Option<SourceMapChunk>) -> Option<SourceMapView> {
    match m {
        Some(c) => Some(c@),
        None => None,
    }
}

impl SourceMapChunk {
    /// A copy of the chunk.
    pub fn deep_clone(&self) -> (r: SourceMapChunk)
        ensures
            r@ == self@,
    {
        SourceMapChunk {
            buffer: copy_bytes(self.buffer.as_slice()),
            mappings_count: self.mappings_count,
            final_generated_column: self.final_generated_column,
            should_ignore: self.should_ignore,
        }
    }
}

/// A copy of an optional source map.
fn clone_source_map(m: &Option<SourceMapChunk>) -> (r: Option<SourceMapChunk>)
    ensures
        source_map_view(r) == source_map_view(*m),
{
    match m {
        Some(c) => Some(c.deep_clone()),
        None => None,
    }
}

/// Printed JavaScript.
pub struct PrintResultSuccess {
    pub code: Vec<u8>,
    pub source_map: Option<SourceMapChunk>,
}

/// The outcome of printing JavaScript.
pub enum PrintResult {
    Success(PrintResultSuccess),
    Failure(CoreError),
}

/// What compiling one file produced.
#[allow(inconsistent_fields)]
pub enum CompileResult {
    Javascript {
        source_index: IndexInt,
        result: PrintResult,
        /// Top-level declarations collected from converted statements during
        /// parallel printing.
        decls: Vec<DeclInfo>,
    },
    Css {
        result: Result<Vec<u8>, CoreError>,
        source_index: IndexInt,
        source_map: Option<SourceMapChunk>,
    },
    Html {
        source_index: IndexInt,
        code: Vec<u8>,
        /// Offsets are used for DevServer to inject resources without re-bundling.
        script_injection_offset: u32,
    },
}

/// The outcome of printing JavaScript as plain values.
pub enum PrintResultView {
    Success(Seq<u8>, Option<SourceMapView>),
    Failure(CoreError),
}

/// A compile result as plain values.
#[allow(inconsistent_fields)]
pub enum CompileResultView {
    Javascript { source_index: IndexInt, result: PrintResultView, decls: Seq<(Seq<u8>, DeclInfoKind)> },
    Css { result: Result<Seq<u8>, CoreError>, source_index: IndexInt, source_map: Option<SourceMapView> },
    Html { source_index: IndexInt, code: Seq<u8>, script_injection_offset: u32 },
}

/// The declarations as plain values.
pub open spec fn decl_views(decls: Seq<DeclInfo>) -> Seq<(Seq<u8>, DeclInfoKind)> {
    decls.map_values(|d: DeclInfo| (d.name@, d.kind))
}

impl View for CompileResult {
    type V = CompileResultView;

    open spec fn view(&self) -> CompileResultView {
        match self {
            CompileResult::Javascript { source_index, result, decls } => CompileResultView::Javascript {
                source_index: *source_index,
                result: match result {
                    PrintResult::Success(s) => PrintResultView::Success(s.code@, source_map_view(s.source_map)),
                    PrintResult::Failure(e) => PrintResultView::Failure(*e),
                },
                decls: decl_views(decls@),
            },
            CompileResult::Css { result, source_index, source_map } => CompileResultView::Css {
                result: match result {
                    Ok(v) => Ok(v@),
                    Err(e) => Err(*e),
                },
                source_index: *source_index,
                source_map: source_map_view(*source_map),
            },
            CompileResult::Html { source_index, code, script_injection_offset } => CompileResultView::Html {
                source_index: *source_index,
                code: code@,
                script_injection_offset: *script_injection_offset,
            },
        }
    }
}

impl CompileResult {
    /// The source file that was compiled.
    pub open spec fn spec_source_index(&self) -> IndexInt {
        match self {
            CompileResult::Javascript { source_index, .. } => *source_index,
            CompileResult::Css { source_index, .. } => *source_index,
            CompileResult::Html { source_index, .. } => *source_index,
        }
    }

    /// The produced code; empty when compiling failed.
    pub open spec fn spec_code(&self) -> Seq<u8> {
        match self {
            CompileResult::Javascript { result, .. } => match result {
                PrintResult::Success(s) => s.code@,
                PrintResult::Failure(_) => Seq::empty(),
            },
            CompileResult::Css { result, .. } => match result {
                Ok(v) => v@,
                Err(_) => Seq::empty(),
            },
            CompileResult::Html { code, .. } => code@,
        }
    }

    /// The source map of the code, when there is one.
    pub open spec fn spec_source_map(&self) -> Option<SourceMapView> {
        match self {
            CompileResult::Javascript { result, .. } => match result {
                PrintResult::Success(s) => source_map_view(s.source_map),
                PrintResult::Failure(_) => None,
            },
            CompileResult::Css { source_map, .. } => source_map_view(*source_map),
            CompileResult::Html { .. } => None,
        }
    }

    /// The source file that was compiled.
    pub fn source_index(&self) -> (r: IndexInt)
        ensures
            r == self.spec_source_index(),
    {
        match self {
            CompileResult::Javascript { source_index, .. } => *source_index,
            CompileResult::Css { source_index, .. } => *source_index,
            CompileResult::Html { source_index, .. } => *source_index,
        }
    }

    /// The produced code; empty when compiling failed.
    pub fn code(&self) -> (r: &[u8])
        ensures
            r@ == self.spec_code(),
    {
        match self {
            CompileResult::Javascript { result, .. } => match result {
                PrintResult::Success(r) => r.code.as_slice(),
                PrintResult::Failure(_) => empty_bytes(),
            },
            CompileResult::Css { result, .. } => match result {
                Ok(v) => v.as_slice(),
                Err(_) => empty_bytes(),
            },
            CompileResult::Html { code, .. } => code.as_slice(),
        }
    }

    /// Consumes the result and yields the owned code buffer.
    pub fn into_code(self) -> (r: Vec<u8>)
        ensures
            r@ == self.spec_code(),
    {
        match self {
            CompileResult::Javascript { result, .. } => match result {
                PrintResult::Success(r) => r.code,
                PrintResult::Failure(_) => Vec::new(),
            },
            CompileResult::Css { result, .. } => match result {
                Ok(v) => v,
                Err(_) => Vec::new(),
            },
            CompileResult::Html { code, .. } => code,
        }
    }

    /// The source map of the code, when there is one.
    pub fn source_map_chunk(&self) -> (r: Option<&SourceMapChunk>)
        ensures
            match r {
                Some(c) => self.spec_source_map() == Some(c@),
                None => self.spec_source_map() is None,
            },
    {
        match self {
            CompileResult::Javascript { result, .. } => match result {
                PrintResult::Success(r) => r.source_map.as_ref(),
                PrintResult::Failure(_) => None,
            },
            CompileResult::Css { source_map, .. } => source_map.as_ref(),
            CompileResult::Html { .. } => None,
        }
    }
}

/// An empty byte string.
fn empty_bytes() -> (r: &'static [u8])
    ensures
        r@ == Seq::<u8>::empty(),
{
    &[]
}

/// A copy of a list of declarations.
fn clone_decls(decls: &Vec<DeclInfo>) -> (r: Vec<DeclInfo>)
    ensures
        decl_views(r@) == decl_views(decls@),
{
    let mut r: Vec<DeclInfo> = Vec::new();
    let mut i: usize = 0;
    while i < decls.len()
        invariant
            i <= decls@.len(),
            r@.len() == i,
            forall|j: int| 0 <= j < i ==> r@[j].name@ == decls@[j].name@ && r@[j].kind == decls@[j].kind,
        decreases decls@.len() - i,
    {
        r.push(DeclInfo { name: copy_bytes(decls[i].name.as_slice()), kind: decls[i].kind });
        i = i + 1;
    }
    assert(decl_views(r@) =~= decl_views(decls@));
    r
}

impl Clone for CompileResult {
    fn clone(&self) -> (r: Self)
        ensures
            r@ == self@,
    {
        match self {
            CompileResult::Javascript { source_index, result, decls } => CompileResult::Javascript {
                source_index: *source_index,
                result: match result {
                    PrintResult::Success(r) => PrintResult::Success(
                        PrintResultSuccess {
                            code: copy_bytes(r.code.as_slice()),
                            source_map: clone_source_map(&r.source_map),
                        },
                    ),
                    PrintResult::Failure(e) => PrintResult::Failure(*e),
                },
                decls: clone_decls(decls),
            },
            CompileResult::Css { result, source_index, source_map } => CompileResult::Css {
                result: match result {
                    Ok(v) => Ok(copy_bytes(v.as_slice())),
                    Err(e) => Err(*e),
                },
                source_index: *source_index,
                source_map: clone_source_map(source_map),
            },
            CompileResult::Html { source_index, code, script_injection_offset } => CompileResult::Html {
                source_index: *source_index,
                code: copy_bytes(code.as_slice()),
                script_injection_offset: *script_injection_offset,
            },
        }
    }
}

impl Default for CompileResult {
    fn default() -> (r: Self)
        ensures
            r@ == (CompileResultView::Javascript {
                source_index: 0,
                result: PrintResultView::Success(Seq::empty(), None),
                decls: Seq::empty(),
            }),
    {
        let r = CompileResult::Javascript {
            source_index: 0,
            result: PrintResult::Success(PrintResultSuccess { code: Vec::new(), source_map: None }),
            decls: Vec::new(),
        };
        assert(decl_views(Seq::<DeclInfo>::empty()) =~= Seq::empty());
        assert(r@ == (CompileResultView::Javascript {
            source_index: 0,
            result: PrintResultView::Success(Seq::empty(), None),
            decls: Seq::empty(),
        }));
        r
    }
}

/// A position in generated code: how many lines and columns it lies past the start.
#[derive(Clone, Copy, Debug, PartialEq, Eq, Structural)]
pub struct LineColumnOffset {
    pub lines: i32,
    pub columns: i32,
}

/// The source map of one compiled file and where its code starts in the output.
pub struct CompileResultForSourceMap {
    pub source_map_chunk: SourceMapChunk,
    pub generated_offset: LineColumnOffset,
    pub source_index: u32,
}

} // verus!
