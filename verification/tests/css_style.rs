use bun_support::css::declaration::{Composes, Declaration, DeclarationBlock, Property, PropertyId};
use bun_support::css::outline::OutlineStyle;
use bun_support::css::prefix::{Location, VendorPrefix};
use bun_support::css::printer::{ComposesEntry, CssModule, PrintErr, Printer, PrinterErrorKind, Targets, ToCss};
use bun_support::css::rules::{
    CssRuleList, DeclarationContext, MinifyContext, MinifyErr, MinifyRule, PropertyHandlerContext,
};
use bun_support::css::selector::{Selector, SelectorList};
use bun_support::css::style::StyleRule;
use bun_support::memory::Arena;

fn prefix(bits: u8) -> VendorPrefix {
    VendorPrefix { bits }
}

fn sel(text: &str) -> Selector {
    let class = if text.starts_with('.') && !text[1..].contains(|c: char| !c.is_ascii_alphanumeric()) {
        Some(text.as_bytes()[1..].to_vec())
    } else {
        None
    };
    Selector {
        text: text.as_bytes().to_vec(),
        names: class.clone().into_iter().collect(),
        has_nesting: text.contains('&'),
        component_prefixes: vec![],
        single_class: class,
        lowering_prefixes: prefix(0),
    }
}

fn decl(tag: u16, name: &str, value: &str) -> Property {
    Property::Declared(Declaration {
        id: PropertyId { tag, prefix: prefix(0) },
        name: name.as_bytes().to_vec(),
        value: value.as_bytes().to_vec(),
    })
}

fn loc() -> Location {
    Location { source_index: 3, line: 1, column: 5 }
}

fn rule<R>(sels: Vec<Selector>, decls: Vec<Property>, important: Vec<Property>, rules: Vec<R>) -> StyleRule<R> {
    StyleRule {
        selectors: SelectorList { v: sels },
        vendor_prefix: prefix(0),
        declarations: DeclarationBlock { declarations: decls, important_declarations: important },
        rules: CssRuleList { v: rules },
        loc: loc(),
    }
}

fn printer(minify: bool) -> Printer {
    Printer::new(minify, Targets { compile_nesting: false, compile_selectors: false })
}

fn out(p: &Printer) -> String {
    String::from_utf8(p.dest.clone()).unwrap()
}

#[test]
fn prints_a_simple_rule() {
    let r: StyleRule<OutlineStyle> = rule(vec![sel(".a")], vec![decl(1, "color", "red")], vec![], vec![]);
    let mut p = printer(false);
    r.to_css(&mut p).unwrap();
    assert_eq!(out(&p), ".a {\n  color: red;\n}");
    assert_eq!(p.indent, 0);
}

#[test]
fn prints_a_minified_rule_without_last_semicolon() {
    let r: StyleRule<OutlineStyle> =
        rule(vec![sel(".a"), sel(".b")], vec![decl(1, "color", "red"), decl(2, "width", "1px")], vec![], vec![]);
    let mut p = printer(true);
    r.to_css(&mut p).unwrap();
    assert_eq!(out(&p), ".a,.b{color:red;width:1px}");
}

#[test]
fn prints_important_declarations_last() {
    let r: StyleRule<OutlineStyle> =
        rule(vec![sel(".a")], vec![decl(1, "color", "red")], vec![decl(2, "width", "1px")], vec![]);
    let mut p = printer(false);
    r.to_css(&mut p).unwrap();
    assert_eq!(out(&p), ".a {\n  color: red;\n  width: 1px !important;\n}");
    let mut m = printer(true);
    r.to_css(&mut m).unwrap();
    assert_eq!(out(&m), ".a{color:red;width:1px!important}");
}

#[test]
fn prints_once_per_vendor_prefix() {
    let mut r: StyleRule<OutlineStyle> = rule(vec![sel(".a")], vec![decl(1, "color", "red")], vec![], vec![]);
    r.vendor_prefix = prefix(2 | 4);
    let mut p = printer(false);
    r.to_css(&mut p).unwrap();
    assert_eq!(out(&p), ".a {\n  color: red;\n}\n\n.a {\n  color: red;\n}");
    assert_eq!(p.vendor_prefix, prefix(0));
    let mut m = printer(true);
    r.to_css(&mut m).unwrap();
    assert_eq!(out(&m), ".a{color:red}.a{color:red}");
}

#[test]
fn prints_nested_rules_inside_the_block() {
    let r = rule(vec![sel(".a")], vec![decl(1, "color", "red")], vec![], vec![OutlineStyle::Auto]);
    let mut p = printer(false);
    r.to_css(&mut p).unwrap();
    assert_eq!(out(&p), ".a {\n  color: red;\n\n  auto\n}");
    let mut m = printer(true);
    r.to_css(&mut m).unwrap();
    assert_eq!(out(&m), ".a{color:red;auto}");
}

#[test]
fn prints_nested_rules_after_the_block_when_nesting_is_compiled() {
    let r = rule(vec![sel(".a")], vec![decl(1, "color", "red")], vec![], vec![OutlineStyle::Auto, OutlineStyle::default()]);
    let mut p = Printer::new(false, Targets { compile_nesting: true, compile_selectors: false });
    r.to_css(&mut p).unwrap();
    assert_eq!(out(&p), ".a {\n  color: red;\n}\n\nauto\n\nnone");
    assert_eq!(p.context, None);
}

#[test]
fn a_rule_with_only_nested_rules_and_compiled_nesting_writes_no_block() {
    let r = rule(vec![sel(".a")], vec![], vec![], vec![OutlineStyle::Auto]);
    let mut p = Printer::new(false, Targets { compile_nesting: true, compile_selectors: false });
    r.to_css(&mut p).unwrap();
    assert_eq!(out(&p), "auto");
}

fn composes(names: &[&str]) -> Property {
    Property::Composes(Composes { names: names.iter().map(|n| n.as_bytes().to_vec()).collect(), loc: loc() })
}

#[test]
fn composes_is_recorded_in_a_css_module() {
    let r: StyleRule<OutlineStyle> =
        rule(vec![sel(".a")], vec![composes(&["b", "c"]), decl(1, "color", "red")], vec![], vec![]);
    let mut p = printer(false);
    p.css_module = Some(CssModule { composes: vec![] });
    r.to_css(&mut p).unwrap();
    assert_eq!(out(&p), ".a {\n  color: red;\n}");
    let m = p.css_module.unwrap();
    let entries: Vec<(Vec<u8>, Vec<u8>, u32)> =
        m.composes.into_iter().map(|e: ComposesEntry| (e.class, e.name, e.source_index)).collect();
    assert_eq!(entries, vec![(b"a".to_vec(), b"b".to_vec(), 3), (b"a".to_vec(), b"c".to_vec(), 3)]);
}

#[test]
fn composes_is_printed_without_a_css_module() {
    let r: StyleRule<OutlineStyle> = rule(vec![sel(".a")], vec![composes(&["b", "c"])], vec![], vec![]);
    let mut p = printer(false);
    r.to_css(&mut p).unwrap();
    assert_eq!(out(&p), ".a {\n  composes: b c;\n}");
}

#[test]
fn composes_needs_a_single_class_selector() {
    let r: StyleRule<OutlineStyle> = rule(vec![sel(".a"), sel("div")], vec![composes(&["b"])], vec![], vec![]);
    let mut p = printer(false);
    p.css_module = Some(CssModule { composes: vec![] });
    let e = r.to_css(&mut p).unwrap_err();
    assert_eq!(e, PrintErr { kind: PrinterErrorKind::InvalidComposesSelector, loc: Some(loc()) });
    let m = p.css_module.take().unwrap();
    assert_eq!(m.composes.len(), 1);
    assert_eq!(m.composes[0].class, b"a".to_vec());
    assert_eq!(out(&p), ".a, div {");
}

#[test]
fn a_failed_prefixed_copy_leaves_its_prefix() {
    let mut r: StyleRule<OutlineStyle> = rule(vec![sel(".a"), sel("div")], vec![composes(&["b"])], vec![], vec![]);
    r.vendor_prefix = prefix(2 | 4);
    let mut p = printer(false);
    p.css_module = Some(CssModule { composes: vec![] });
    assert!(r.to_css(&mut p).is_err());
    assert_eq!(p.vendor_prefix, prefix(2));
}

#[test]
fn composes_is_refused_in_nested_rules() {
    let r: StyleRule<OutlineStyle> = rule(vec![sel(".a")], vec![composes(&["b"])], vec![], vec![]);
    let mut p = printer(false);
    p.css_module = Some(CssModule { composes: vec![] });
    p.context = Some(b".x".to_vec());
    let e = r.to_css(&mut p).unwrap_err();
    assert_eq!(e, PrintErr { kind: PrinterErrorKind::InvalidComposesNesting, loc: Some(loc()) });
    assert_eq!(p.context, Some(b".x".to_vec()));
}

#[test]
fn is_empty_cases() {
    let no_sel: StyleRule<OutlineStyle> = rule(vec![], vec![decl(1, "color", "red")], vec![], vec![]);
    assert!(no_sel.is_empty());
    let no_body: StyleRule<OutlineStyle> = rule(vec![sel(".a")], vec![], vec![], vec![]);
    assert!(no_body.is_empty());
    let nested = rule(vec![sel(".a")], vec![], vec![], vec![OutlineStyle::Auto]);
    assert!(!nested.is_empty());
    let important: StyleRule<OutlineStyle> = rule(vec![sel(".a")], vec![], vec![decl(1, "color", "red")], vec![]);
    assert!(!important.is_empty());
}

#[test]
fn is_duplicate_compares_selectors_and_properties() {
    let a: StyleRule<OutlineStyle> = rule(vec![sel(".a")], vec![decl(1, "color", "red")], vec![], vec![]);
    let b: StyleRule<OutlineStyle> = rule(vec![sel(".a")], vec![decl(1, "color", "blue")], vec![], vec![]);
    let c: StyleRule<OutlineStyle> = rule(vec![sel(".b")], vec![decl(1, "color", "red")], vec![], vec![]);
    let d: StyleRule<OutlineStyle> = rule(vec![sel(".a")], vec![decl(2, "width", "1px")], vec![], vec![]);
    let e: StyleRule<OutlineStyle> =
        rule(vec![sel(".a")], vec![decl(1, "color", "red")], vec![decl(1, "color", "red")], vec![]);
    assert!(a.is_duplicate(&a));
    assert!(a.is_duplicate(&b));
    assert!(b.is_duplicate(&a));
    assert!(!a.is_duplicate(&c));
    assert!(!a.is_duplicate(&d));
    assert!(!a.is_duplicate(&e));
}

#[test]
fn is_duplicate_compares_each_list_on_its_own() {
    let a: StyleRule<OutlineStyle> =
        rule(vec![sel(".a")], vec![decl(1, "color", "red"), decl(2, "width", "1px")], vec![], vec![]);
    let b: StyleRule<OutlineStyle> =
        rule(vec![sel(".a")], vec![decl(1, "color", "red")], vec![decl(5, "height", "1px")], vec![]);
    assert!(!a.is_duplicate(&b));
    let c: StyleRule<OutlineStyle> =
        rule(vec![sel(".a")], vec![decl(1, "color", "blue")], vec![decl(5, "height", "2px")], vec![]);
    assert!(b.is_duplicate(&c));
}

fn context(unused: &[&str]) -> MinifyContext {
    MinifyContext {
        targets: Targets { compile_nesting: false, compile_selectors: false },
        unused_symbols: unused.iter().map(|s| s.as_bytes().to_vec()).collect(),
        handler_context: PropertyHandlerContext { context: DeclarationContext::Keyframes },
    }
}

struct Removable(bool);

impl MinifyRule for Removable {
    fn minify(&mut self, _context: &mut MinifyContext, _parent_is_unused: bool) -> Result<bool, MinifyErr> {
        Ok(self.0)
    }
}

fn names(list: &[Property]) -> Vec<String> {
    list.iter()
        .map(|p| match p {
            Property::Declared(d) => String::from_utf8(d.value.clone()).unwrap(),
            Property::Composes(_) => "composes".to_string(),
        })
        .collect()
}

#[test]
fn minify_keeps_the_last_declaration_of_each_property() {
    let mut r: StyleRule<Removable> = rule(
        vec![sel(".a")],
        vec![decl(1, "color", "red"), decl(2, "width", "1px"), decl(1, "color", "blue")],
        vec![decl(2, "width", "2px"), decl(2, "width", "3px")],
        vec![],
    );
    let mut cx = context(&[]);
    assert_eq!(r.minify(&mut cx, false), Ok(false));
    assert_eq!(names(&r.declarations.declarations), vec!["1px", "blue"]);
    assert_eq!(names(&r.declarations.important_declarations), vec!["3px"]);
    assert_eq!(cx.handler_context.context, DeclarationContext::Plain);
    let before = names(&r.declarations.declarations);
    assert_eq!(r.minify(&mut cx, false), Ok(false));
    assert_eq!(names(&r.declarations.declarations), before);
}

#[test]
fn minify_removes_an_unused_rule() {
    let mut r: StyleRule<Removable> = rule(vec![sel(".a")], vec![decl(1, "color", "red")], vec![], vec![]);
    let mut cx = context(&["a"]);
    assert_eq!(r.minify(&mut cx, false), Ok(true));
    assert_eq!(r.declarations.declarations.len(), 1);
    assert_eq!(cx.handler_context.context, DeclarationContext::Keyframes);
}

#[test]
fn minify_keeps_a_rule_with_a_used_selector() {
    let mut r: StyleRule<Removable> = rule(vec![sel(".a"), sel(".b")], vec![decl(1, "color", "red")], vec![], vec![]);
    let mut cx = context(&["a"]);
    assert_eq!(r.minify(&mut cx, false), Ok(false));
    assert_eq!(r.declarations.declarations.len(), 1);
}

#[test]
fn minify_of_an_unused_rule_with_nested_rules() {
    let mut r: StyleRule<Removable> =
        rule(vec![sel(".a")], vec![decl(1, "color", "red")], vec![], vec![Removable(true), Removable(true)]);
    let mut cx = context(&["a"]);
    assert_eq!(r.minify(&mut cx, false), Ok(true));
    assert!(r.declarations.declarations.is_empty());
    assert!(r.rules.v.is_empty());

    let mut s: StyleRule<Removable> =
        rule(vec![sel(".a")], vec![decl(1, "color", "red")], vec![], vec![Removable(false), Removable(true)]);
    let mut cx = context(&["a"]);
    assert_eq!(s.minify(&mut cx, false), Ok(false));
    assert!(s.declarations.declarations.is_empty());
    assert_eq!(s.rules.v.len(), 1);
    assert_eq!(cx.handler_context.context, DeclarationContext::Plain);
}

#[test]
fn nested_selectors_follow_an_unused_parent() {
    let mut r: StyleRule<Removable> = rule(vec![sel("&:hover")], vec![decl(1, "color", "red")], vec![], vec![]);
    let mut cx = context(&["zzz"]);
    assert_eq!(r.minify(&mut cx, true), Ok(true));
    let mut s: StyleRule<Removable> = rule(vec![sel("&:hover")], vec![decl(1, "color", "red")], vec![], vec![]);
    assert_eq!(s.minify(&mut cx, false), Ok(false));
}

fn prefixed_sel(text: &str, comps: Vec<u8>, lowering: u8) -> Selector {
    let mut s = sel(text);
    s.component_prefixes = comps.into_iter().map(prefix).collect();
    s.lowering_prefixes = prefix(lowering);
    s
}

#[test]
fn update_prefix_takes_the_selectors_prefix() {
    let mut r: StyleRule<Removable> =
        rule(vec![prefixed_sel("::-webkit-x", vec![2], 0)], vec![decl(1, "color", "red")], vec![], vec![]);
    let mut cx = context(&[]);
    r.update_prefix(&mut cx);
    assert_eq!(r.vendor_prefix, prefix(2));
}

#[test]
fn update_prefix_is_empty_for_conflicting_prefixes() {
    let mut r: StyleRule<Removable> = rule(
        vec![prefixed_sel("::-webkit-x", vec![2], 0), prefixed_sel("::-moz-x", vec![4], 0)],
        vec![],
        vec![],
        vec![],
    );
    let mut cx = context(&[]);
    r.update_prefix(&mut cx);
    assert_eq!(r.vendor_prefix, prefix(0));
}

#[test]
fn update_prefix_lowers_unprefixed_selectors_for_old_targets() {
    let mut r: StyleRule<Removable> =
        rule(vec![prefixed_sel(":is(.a)", vec![1], 2 | 4)], vec![decl(1, "color", "red")], vec![], vec![]);
    let mut cx = context(&[]);
    r.update_prefix(&mut cx);
    assert_eq!(r.vendor_prefix, prefix(1));
    cx.targets.compile_selectors = true;
    r.update_prefix(&mut cx);
    assert_eq!(r.vendor_prefix, prefix(6));
    assert!(!r.is_compatible(&cx.targets));
    assert!(r.is_compatible(&Targets { compile_nesting: false, compile_selectors: false }));
}

#[test]
fn update_prefix_allows_none_then_a_prefix() {
    let mut r: StyleRule<Removable> =
        rule(vec![prefixed_sel(":is(.a)::-webkit-x", vec![1, 2], 0)], vec![], vec![], vec![]);
    let mut cx = context(&[]);
    r.update_prefix(&mut cx);
    assert_eq!(r.vendor_prefix, prefix(3));
}

#[test]
fn hash_key_hashes_selectors_and_property_tags() {
    let r: StyleRule<OutlineStyle> =
        rule(vec![sel(".a"), sel(".b")], vec![decl(7, "color", "red")], vec![decl(300, "width", "1px")], vec![]);
    let mut bytes = b".a.b".to_vec();
    bytes.extend_from_slice(&7u16.to_ne_bytes());
    bytes.extend_from_slice(&300u16.to_ne_bytes());
    assert_eq!(r.hash_key(), wyhash::wyhash(&bytes, 0));
    let same: StyleRule<OutlineStyle> =
        rule(vec![sel(".a"), sel(".b")], vec![decl(7, "color", "blue")], vec![decl(300, "width", "2px")], vec![]);
    assert_eq!(r.hash_key(), same.hash_key());
}

#[test]
fn deep_clone_copies_the_rule() {
    let mut r = rule(vec![sel(".a")], vec![decl(1, "color", "red")], vec![composes(&["x"])], vec![OutlineStyle::Auto]);
    r.vendor_prefix = prefix(2);
    let c = r.deep_clone(&Arena);
    assert!(c.is_duplicate(&r));
    assert_eq!(c.vendor_prefix, prefix(2));
    assert_eq!(c.rules.v, vec![OutlineStyle::Auto]);
    assert_eq!(c.loc, loc());
    assert_eq!(c.selectors.v[0].names, vec![b"a".to_vec()]);
    assert_eq!(c.selectors.v[0].single_class, Some(b"a".to_vec()));
    assert!(!c.selectors.v[0].has_nesting);
    let n = rule(vec![sel("&:hover")], vec![], vec![], Vec::<OutlineStyle>::new());
    let nc = n.deep_clone(&Arena);
    assert!(nc.selectors.v[0].has_nesting);
    assert_eq!(nc.selectors.v[0].text, b"&:hover");
    let mut p1 = printer(false);
    let mut p2 = printer(false);
    r.to_css(&mut p1).unwrap();
    c.to_css(&mut p2).unwrap();
    assert_eq!(p1.dest, p2.dest);
}

#[test]
fn prints_nested_style_rules() {
    let inner: StyleRule<OutlineStyle> = rule(vec![sel(".b")], vec![decl(2, "width", "1px")], vec![], vec![]);
    let outer = rule(vec![sel(".a")], vec![decl(1, "color", "red")], vec![], vec![inner]);
    let mut p = printer(false);
    outer.to_css(&mut p).unwrap();
    assert_eq!(out(&p), ".a {\n  color: red;\n\n  .b {\n    width: 1px;\n  }\n}");
    let mut m = printer(true);
    outer.to_css(&mut m).unwrap();
    assert_eq!(out(&m), ".a{color:red;.b{width:1px}}");
    let mut flat = Printer::new(false, Targets { compile_nesting: true, compile_selectors: false });
    outer.to_css(&mut flat).unwrap();
    assert_eq!(out(&flat), ".a {\n  color: red;\n}\n\n.a .b {\n  width: 1px;\n}");
}

#[test]
fn flattened_rules_are_written_in_their_parents_context() {
    let hover: StyleRule<OutlineStyle> = rule(vec![sel("&:hover"), sel("p")], vec![decl(2, "width", "1px")], vec![], vec![]);
    let outer = rule(vec![sel(".a"), sel(".b")], vec![], vec![], vec![hover]);
    let mut flat = Printer::new(true, Targets { compile_nesting: true, compile_selectors: false });
    outer.to_css(&mut flat).unwrap();
    assert_eq!(out(&flat), ":is(.a,.b):hover,:is(.a,.b) p{width:1px}");
    let deep: StyleRule<OutlineStyle> = rule(vec![sel("& > i")], vec![decl(3, "top", "0")], vec![], vec![]);
    let mid = rule(vec![sel("&.c")], vec![], vec![], vec![deep]);
    let top = rule(vec![sel(".a")], vec![], vec![], vec![mid]);
    let mut p = Printer::new(false, Targets { compile_nesting: true, compile_selectors: false });
    top.to_css(&mut p).unwrap();
    assert_eq!(out(&p), ".a.c > i {\n  top: 0;\n}");
    assert_eq!(p.context, None);
}

#[test]
fn composes_in_a_nested_style_rule_is_refused() {
    let inner: StyleRule<OutlineStyle> = rule(vec![sel(".b")], vec![composes(&["c"])], vec![], vec![]);
    let outer = rule(vec![sel(".a")], vec![decl(1, "color", "red")], vec![], vec![inner]);
    let mut p = Printer::new(false, Targets { compile_nesting: true, compile_selectors: false });
    p.css_module = Some(CssModule { composes: vec![] });
    let e = outer.to_css(&mut p).unwrap_err();
    assert_eq!(e.kind, PrinterErrorKind::InvalidComposesNesting);
    assert_eq!(p.context, None);
}

#[test]
fn minify_removes_unused_nested_style_rules() {
    let used: StyleRule<Removable> = rule(vec![sel(".b")], vec![decl(1, "color", "red")], vec![], vec![]);
    let unused: StyleRule<Removable> = rule(vec![sel(".c")], vec![decl(1, "color", "red")], vec![], vec![]);
    let mut outer = rule(vec![sel(".a")], vec![decl(2, "width", "1px")], vec![], vec![used, unused]);
    let mut cx = context(&["c"]);
    assert_eq!(outer.minify(&mut cx, false), Ok(false));
    assert_eq!(outer.rules.v.len(), 1);
    assert_eq!(outer.rules.v[0].selectors.v[0].text, b".b");
}

#[test]
fn duplicates_hash_alike() {
    let a: StyleRule<OutlineStyle> =
        rule(vec![sel(".a")], vec![decl(7, "color", "red"), decl(8, "width", "1px")], vec![decl(9, "top", "0")], vec![]);
    let b: StyleRule<OutlineStyle> =
        rule(vec![sel(".a")], vec![decl(7, "color", "blue"), decl(8, "width", "2px")], vec![decl(9, "top", "1px")], vec![]);
    assert!(a.is_duplicate(&b));
    assert_eq!(a.hash_key(), b.hash_key());
}

#[test]
fn rules_split_otherwise_are_not_duplicates() {
    let a: StyleRule<OutlineStyle> =
        rule(vec![sel(".a")], vec![decl(7, "color", "red"), decl(8, "width", "1px")], vec![decl(9, "top", "0")], vec![]);
    let b: StyleRule<OutlineStyle> =
        rule(vec![sel(".a")], vec![decl(7, "color", "red")], vec![decl(9, "top", "0"), decl(10, "left", "0")], vec![]);
    assert!(!a.is_duplicate(&b));
    let c: StyleRule<OutlineStyle> = rule(vec![sel(".a")], vec![decl(7, "color", "red")], vec![decl(8, "width", "1px")], vec![]);
    let d: StyleRule<OutlineStyle> =
        rule(vec![sel(".a")], vec![decl(7, "color", "red"), decl(11, "height", "1px")], vec![], vec![]);
    assert!(!c.is_duplicate(&d));
}
