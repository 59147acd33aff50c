use bun_support::bundler::compile_result::{
    CompileResult, CoreError, PrintResult, PrintResultSuccess, SourceMapChunk,
};
use bun_support::bundler::content_hasher::ContentHasher;
use bun_support::bundler::entry_point::{EntryPoint, Kind, OutputKind};
use bun_support::bundler::hashbang::{target_from_hashbang, Target};
use bun_support::bundler::js_meta::{ExportData, Flags, ImportData, JSMeta};
use bun_support::bundler::paths::{generic_path_with_pretty_initialized, relative, write_escaped_namespace, Path};
use bun_support::bundler::stable_ref::StableRef;
use bun_support::bundler::types::{DeclInfo, DeclInfoKind, PartRange, Ref, RefTag, WrapKind};
use bun_support::memory::Arena;
use core::cmp::Ordering;

#[test]
fn hashbang_selects_bun() {
    assert_eq!(target_from_hashbang(b"#!/usr/bin/env bun\nconsole.log(1)"), Some(Target::Bun));
    assert_eq!(target_from_hashbang(b"#!/usr/bin/env bun --hot"), Some(Target::Bun));
}

#[test]
fn hashbang_needs_a_separator_after_bun() {
    assert_eq!(target_from_hashbang(b"#!/usr/bin/env bun"), None);
    assert_eq!(target_from_hashbang(b"#!/usr/bin/env bunx\n"), None);
    assert_eq!(target_from_hashbang(b"#!/usr/bin/env node\n"), None);
    assert_eq!(target_from_hashbang(b""), None);
}

#[test]
fn namespaces_escape_colons() {
    let mut w = b"x".to_vec();
    write_escaped_namespace(&mut w, b"a:b::c");
    assert_eq!(w, b"xa::b::::c");
}

#[test]
fn relative_paths() {
    assert_eq!(relative(b"/a", b"/a/b/c.js"), b"b/c.js");
    assert_eq!(relative(b"/a/b", b"/a/c.js"), b"../c.js");
    assert_eq!(relative(b"/a/b/", b"/x"), b"../../x");
    assert_eq!(relative(b"/a", b"/a"), b"");
    assert_eq!(relative(b"/", b"/a//b"), b"a/b");
}

#[test]
fn relative_paths_resolve_dots() {
    assert_eq!(relative(b"/a/./b", b"/a/b/c.js"), b"c.js");
    assert_eq!(relative(b"/a/b/..", b"/a/x/../c.js"), b"c.js");
    assert_eq!(relative(b"/a", b"/../../a/b"), b"b");
    assert_eq!(relative(b"x/y", b"x/../../z"), b"../../../z");
}

fn path(ns: &str, text: &str) -> Path {
    Path {
        pretty: b"old".to_vec(),
        text: text.as_bytes().to_vec(),
        namespace: ns.as_bytes().to_vec(),
        is_disabled: false,
        is_symlink: true,
    }
}

#[test]
fn files_are_shown_relative_to_the_top_level_dir() {
    let p = generic_path_with_pretty_initialized(&path("file", "/root/src/a.js"), Target::Browser, b"/root", &Arena)
        .unwrap();
    assert_eq!(p.pretty, b"src/a.js");
    assert_eq!(p.text, b"/root/src/a.js");
    assert!(p.is_symlink);
    let q = generic_path_with_pretty_initialized(&path("", "/root/a.js"), Target::Bun, b"/root/src", &Arena).unwrap();
    assert_eq!(q.pretty, b"../a.js");
}

#[test]
fn server_rendering_names_get_a_prefix() {
    let p = generic_path_with_pretty_initialized(
        &path("file", "/root/a.js"),
        Target::BakeServerComponentsSsr,
        b"/root",
        &Arena,
    )
    .unwrap();
    assert_eq!(p.pretty, b"ssr:a.js");
    let q = generic_path_with_pretty_initialized(
        &path("my:ns", "thing"),
        Target::BakeServerComponentsSsr,
        b"/root",
        &Arena,
    )
    .unwrap();
    assert_eq!(q.pretty, b"ssr:my::ns:thing");
}

#[test]
fn the_two_graphs_name_a_module_differently() {
    for (ns, text) in [("file", "/root/a.js"), ("bun", "sqlite"), ("node", "/root/lib/fs.js")] {
        let plain = generic_path_with_pretty_initialized(&path(ns, text), Target::Browser, b"/root", &Arena).unwrap();
        let ssr =
            generic_path_with_pretty_initialized(&path(ns, text), Target::BakeServerComponentsSsr, b"/root", &Arena)
                .unwrap();
        assert_ne!(plain.pretty, ssr.pretty);
    }
}

#[test]
fn other_namespaces_are_shown_with_their_namespace() {
    let p = generic_path_with_pretty_initialized(&path("bun", "sqlite"), Target::Bun, b"/root", &Arena).unwrap();
    assert_eq!(p.pretty, b"bun:sqlite");
}

#[test]
fn node_paths() {
    let fallback = path("node", "/bun-vfs$$/node_modules/fs/index.js");
    let p = generic_path_with_pretty_initialized(&fallback, Target::Browser, b"/root", &Arena).unwrap();
    assert_eq!(p.pretty, b"old");
    let rel = generic_path_with_pretty_initialized(&path("node", "fs"), Target::Browser, b"/root", &Arena).unwrap();
    assert_eq!(rel.pretty, b"old");
    let abs =
        generic_path_with_pretty_initialized(&path("node", "/root/lib/fs.js"), Target::Browser, b"/root", &Arena)
            .unwrap();
    assert_eq!(abs.pretty, b"lib/fs.js");
}

#[test]
fn long_names_are_cut_at_the_path_buffer_size() {
    let long = "x".repeat(5000);
    let p = generic_path_with_pretty_initialized(&path("ns", &long), Target::Bun, b"/root", &Arena).unwrap();
    assert_eq!(p.pretty.len(), 4096);
    assert!(p.pretty.starts_with(b"ns:xxx"));
}

fn js(code: &[u8], map: Option<SourceMapChunk>) -> CompileResult {
    CompileResult::Javascript {
        source_index: 4,
        result: PrintResult::Success(PrintResultSuccess { code: code.to_vec(), source_map: map }),
        decls: vec![DeclInfo { name: b"x".to_vec(), kind: DeclInfoKind::Lexical }],
    }
}

fn chunk() -> SourceMapChunk {
    SourceMapChunk { buffer: b"AAAA".to_vec(), mappings_count: 1, final_generated_column: 3, should_ignore: false }
}

#[test]
fn compile_results_give_their_code() {
    let j = js(b"let x;", Some(chunk()));
    assert_eq!(j.source_index(), 4);
    assert_eq!(j.code(), b"let x;");
    assert_eq!(j.source_map_chunk().unwrap().buffer, b"AAAA");
    assert_eq!(j.into_code(), b"let x;");

    let failed = CompileResult::Javascript { source_index: 1, result: PrintResult::Failure(CoreError { code: 9 }), decls: vec![] };
    assert_eq!(failed.code(), b"");
    assert!(failed.source_map_chunk().is_none());
    assert_eq!(failed.into_code(), b"");

    let css = CompileResult::Css { result: Ok(b"a{}".to_vec()), source_index: 2, source_map: Some(chunk()) };
    assert_eq!(css.code(), b"a{}");
    assert_eq!(css.source_map_chunk().unwrap().final_generated_column, 3);
    let bad_css = CompileResult::Css { result: Err(CoreError { code: 1 }), source_index: 2, source_map: None };
    assert_eq!(bad_css.source_index(), 2);
    assert_eq!(bad_css.code(), b"");
    assert_eq!(bad_css.into_code(), b"");

    let html = CompileResult::Html { source_index: 7, code: b"<p>".to_vec(), script_injection_offset: 2 };
    assert_eq!(html.source_index(), 7);
    assert_eq!(html.code(), b"<p>");
    assert!(html.source_map_chunk().is_none());
}

#[test]
fn compile_results_clone_and_default() {
    let j = js(b"abc", Some(chunk()));
    let c = j.clone();
    assert_eq!(c.code(), b"abc");
    assert_eq!(c.source_index(), 4);
    assert_eq!(c.source_map_chunk().unwrap().mappings_count, 1);
    match c {
        CompileResult::Javascript { decls, .. } => {
            assert_eq!(decls.len(), 1);
            assert_eq!(decls[0].name, b"x");
            assert_eq!(decls[0].kind, DeclInfoKind::Lexical);
        },
        _ => panic!("wrong variant"),
    }
    let d = CompileResult::default();
    assert_eq!(d.source_index(), 0);
    assert_eq!(d.code(), b"");
    assert!(d.source_map_chunk().is_none());
}

#[test]
fn content_hasher_prefixes_each_write_with_its_length() {
    let mut expected = (3u64).to_ne_bytes().to_vec();
    expected.extend_from_slice(b"abc");
    assert_eq!(ContentHasher::run(b"abc"), xxhash_rust::xxh64::xxh64(&expected, 0));
    assert_ne!(ContentHasher::run(b"abc"), xxhash_rust::xxh64::xxh64(b"abc", 0));
}

#[test]
fn content_hasher_distinguishes_splits() {
    let mut a = ContentHasher::default();
    a.write(b"ab");
    a.write(b"c");
    let mut b = ContentHasher::default();
    b.write(b"a");
    b.write(b"bc");
    assert_ne!(a.digest(), b.digest());
}

#[test]
fn content_hasher_writes_ints_as_bytes() {
    let mut h = ContentHasher::default();
    h.write_ints(&[1, 0x01020304]);
    let mut expected = 1u32.to_ne_bytes().to_vec();
    expected.extend_from_slice(&0x01020304u32.to_ne_bytes());
    assert_eq!(h.digest(), xxhash_rust::xxh64::xxh64(&expected, 0));
    let empty = ContentHasher::default();
    assert_eq!(empty.digest(), xxhash_rust::xxh64::xxh64(b"", 0));
}

#[test]
fn content_hasher_run_is_write_then_digest() {
    let mut h = ContentHasher::default();
    h.write(b"hello");
    assert_eq!(ContentHasher::run(b"hello"), h.digest());
    assert_eq!(ContentHasher::run(b"hello"), ContentHasher::run(b"hello"));
    let mut a = ContentHasher::default();
    a.write(b"x");
    let before = a.digest();
    a.write_ints(&[]);
    assert_eq!(a.digest(), before);
    a.write(b"");
    assert_ne!(a.digest(), before);
}

#[test]
fn entry_point_kinds() {
    assert!(!Kind::NoEntry.is_entry_point());
    assert!(Kind::Html.is_entry_point());
    assert!(Kind::UserSpecified.is_user_specified_entry_point());
    assert!(!Kind::DynamicImport.is_user_specified_entry_point());
    assert!(Kind::UserSpecified.is_server_entry_point());
    assert!(!Kind::Html.is_server_entry_point());
    assert_eq!(Kind::UserSpecified.output_kind(), OutputKind::EntryPoint);
    assert_eq!(Kind::DynamicImport.output_kind(), OutputKind::Chunk);
    assert_eq!(Kind::default(), Kind::NoEntry);
    let e = EntryPoint::default();
    assert!(e.output_path.is_empty() && e.source_index == 0 && !e.output_path_was_auto_generated);
}

fn sref(idx: u32, inner: u32, src: u32) -> StableRef {
    StableRef { stable_source_index: idx, ref_: Ref { inner_index: inner, source_index: src, tag: RefTag::Symbol } }
}

#[test]
fn stable_refs_sort_by_source_then_symbol() {
    assert!(StableRef::is_less_than((), sref(1, 9, 0), sref(2, 0, 0)));
    assert!(StableRef::is_less_than((), sref(1, 1, 0), sref(1, 2, 0)));
    assert!(!StableRef::is_less_than((), sref(1, 2, 0), sref(1, 2, 0)));
    assert!(!StableRef::is_less_than((), sref(2, 0, 0), sref(1, 9, 0)));
    assert_eq!(sref(1, 2, 0).partial_cmp(&sref(1, 3, 0)), Some(Ordering::Less));
    assert_eq!(sref(3, 2, 0).compare(&sref(1, 3, 0)), Ordering::Greater);
    assert_eq!(sref(1, 2, 0).compare(&sref(1, 2, 5)), Ordering::Equal);
    assert!(sref(1, 2, 0) == sref(1, 2, 0));
    assert!(sref(1, 2, 0) != sref(1, 2, 5));
}

#[test]
fn default_values() {
    let r = PartRange::default();
    assert_eq!((r.source_index.value, r.part_index_begin, r.part_index_end), (0, 0, 0));
    assert_eq!(WrapKind::default(), WrapKind::NoWrap);
    let f = Flags::default();
    assert!(!f.needs_exports_variable && f.wrap == WrapKind::NoWrap);
    let i = ImportData::default();
    assert!(i.re_exports.is_empty());
    assert_eq!(i.data.import_ref.tag, RefTag::Invalid);
    let e = ExportData::default();
    assert!(e.potentially_ambiguous_export_star_refs.is_empty());
    let m = JSMeta::default();
    assert!(m.imports_to_bind.is_empty() && m.resolved_exports.is_empty() && m.cjs_export_copies.is_empty());
    assert_eq!(m.wrapper_part_index.value, 0);
    assert_eq!(m.flags, Flags::default());
}
