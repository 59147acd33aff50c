//! Entry points of a bundle.

use vstd::prelude::*;
use crate::bundler::types::IndexInt;

verus! {

/// What kind of file an output file is.
#[derive(Clone, Copy, Debug, PartialEq, Eq, Structural)]
pub enum OutputKind {
    Chunk,
    Asset,
    EntryPoint,
    SourceMap,
    Bytecode,
}

/// How a file became an entry point.
#[derive(Clone, Copy, Debug, PartialEq, Eq, Structural)]
pub enum Kind {
    /// Not an entry point.
    NoEntry,
    UserSpecified,
    DynamicImport,
    Html,
}

impl Default for Kind {
    fn default() -> (r: Self)
        ensures
            r == Kind::NoEntry,
    {
        Kind::NoEntry
    }
}

impl Kind {
    /// Whether the file is an entry point at all.
    pub fn is_entry_point(self) -> (r: bool)
        ensures
            r == (self != Kind::NoEntry),
    {
        self != Kind::NoEntry
    }

    /// Whether the user named the file as an entry point.
    pub fn is_user_specified_entry_point(self) -> (r: bool)
        ensures
            r == (self == Kind::UserSpecified),
    {
        self == Kind::UserSpecified
    }

    /// Whether the file is an entry point of the server.
    pub fn is_server_entry_point(self) -> (r: bool)
        ensures
            r == (self == Kind::UserSpecified),
    {
        self == Kind::UserSpecified
    }

    /// What kind of output file the entry point becomes.
    pub fn output_kind(self) -> (r: OutputKind)
        ensures
            r == (if self == Kind::UserSpecified {
                OutputKind::EntryPoint
            } else {
                OutputKind::Chunk
            }),
    {
        match self {
            Kind::UserSpecified => OutputKind::EntryPoint,
            _ => OutputKind::Chunk,
        }
    }
}

/// An entry point of the bundle.
pub struct EntryPoint {
    pub output_path: Vec<u8>,
    /// This is the source index of the entry point. This file must have a
    /// valid entry point kind (i.e. not "none").
    pub source_index: IndexInt,
    /// Manually specified output paths are ignored when computing the
    /// default "outbase" directory.
    pub output_path_was_auto_generated: bool,
}

impl Default for EntryPoint {
    fn default() -> (r: Self)
        ensures
            r.output_path@ == Seq::<u8>::empty(),
            r.source_index == 0,
            !r.output_path_was_auto_generated,
    {
        EntryPoint { output_path: Vec::new(), source_index: 0, output_path_was_auto_generated: false }
    }
}

} // verus!
