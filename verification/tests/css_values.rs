use bun_support::css::number::write_number_text;
use bun_support::css::outline::{LineStyle, OutlineStyle};
use bun_support::css::prefix::VendorPrefix;
use bun_support::css::printer::{Printer, Targets, ToCss};
use bun_support::css::selector::{Selector, SelectorList};
use bun_support::memory::Arena;

fn printer(minify: bool) -> Printer {
    Printer::new(minify, Targets { compile_nesting: false, compile_selectors: false })
}

#[test]
fn outline_style_defaults_to_none() {
    assert_eq!(OutlineStyle::default(), OutlineStyle::LineStyle(LineStyle::NoLine));
}

#[test]
fn outline_style_eql_and_deep_clone() {
    let a = OutlineStyle::LineStyle(LineStyle::Dashed);
    assert!(OutlineStyle::eql(&a, &a.deep_clone(&Arena)));
    assert!(!OutlineStyle::eql(&a, &OutlineStyle::Auto));
}

#[test]
fn outline_style_keywords_round_trip() {
    let all = [
        OutlineStyle::Auto,
        OutlineStyle::LineStyle(LineStyle::NoLine),
        OutlineStyle::LineStyle(LineStyle::Hidden),
        OutlineStyle::LineStyle(LineStyle::Inset),
        OutlineStyle::LineStyle(LineStyle::Groove),
        OutlineStyle::LineStyle(LineStyle::Outset),
        OutlineStyle::LineStyle(LineStyle::Ridge),
        OutlineStyle::LineStyle(LineStyle::Dotted),
        OutlineStyle::LineStyle(LineStyle::Dashed),
        OutlineStyle::LineStyle(LineStyle::Solid),
        OutlineStyle::LineStyle(LineStyle::Double),
    ];
    for s in all {
        let mut p = printer(true);
        s.to_css(&mut p).unwrap();
        assert_eq!(OutlineStyle::from_keyword(&p.dest), Some(s));
    }
}

#[test]
fn outline_style_writes_keywords() {
    let mut p = printer(false);
    OutlineStyle::LineStyle(LineStyle::Double).to_css(&mut p).unwrap();
    assert_eq!(p.dest, b"double");
}

#[test]
fn outline_style_keywords_ignore_ascii_case() {
    assert_eq!(OutlineStyle::from_keyword(b"AUTO"), Some(OutlineStyle::Auto));
    assert_eq!(OutlineStyle::from_keyword(b"Solid"), Some(OutlineStyle::LineStyle(LineStyle::Solid)));
    assert_eq!(OutlineStyle::from_keyword(b"solidd"), None);
    assert_eq!(OutlineStyle::from_keyword(b""), None);
}

#[test]
fn vendor_prefix_set_operations() {
    let wm = VendorPrefix { bits: 2 | 4 };
    assert!(wm.contains(VendorPrefix { bits: 2 }));
    assert!(!wm.contains(VendorPrefix { bits: 1 }));
    assert!(wm.contains(VendorPrefix::empty()));
    assert!(VendorPrefix::empty().is_empty());
    assert_eq!(wm.union(VendorPrefix { bits: 1 }), VendorPrefix { bits: 7 });
}

#[test]
fn printer_whitespace_and_newlines() {
    let mut p = printer(false);
    p.write_char(b'a');
    p.whitespace();
    p.indent();
    p.newline();
    p.delim(b',');
    p.dedent();
    p.newline();
    p.write_bytes(b"z");
    assert_eq!(p.dest, b"a \n  , \nz");
    let mut m = printer(true);
    m.write_char(b'a');
    m.whitespace();
    m.indent();
    m.newline();
    m.delim(b',');
    assert_eq!(m.dest, b"a,");
    assert!(!m.is_nested());
}

fn sel(text: &str) -> Selector {
    Selector {
        text: text.as_bytes().to_vec(),
        names: vec![],
        has_nesting: false,
        component_prefixes: vec![],
        single_class: None,
        lowering_prefixes: VendorPrefix { bits: 0 },
    }
}

#[test]
fn selector_lists_compare_by_text() {
    let a = SelectorList { v: vec![sel(".a"), sel(".b")] };
    let b = SelectorList { v: vec![sel(".a"), sel(".b")] };
    let c = SelectorList { v: vec![sel(".a")] };
    let d = SelectorList { v: vec![sel(".a"), sel(".c")] };
    assert!(a.eql(&b));
    assert!(!a.eql(&c));
    assert!(!a.eql(&d));
    assert!(a.eql(&a.deep_clone()));
}

#[test]
fn numbers_lose_their_leading_zero_when_minified() {
    let mut p = printer(true);
    write_number_text(&mut p, b"0.5");
    write_number_text(&mut p, b" ");
    write_number_text(&mut p, b"-0.25");
    write_number_text(&mut p, b" ");
    write_number_text(&mut p, b"10.5");
    write_number_text(&mut p, b"0");
    assert_eq!(p.dest, b".5 -.25 10.50");
    let mut q = printer(false);
    write_number_text(&mut q, b"0.5");
    write_number_text(&mut q, b"-0.25");
    assert_eq!(q.dest, b"0.5-0.25");
}
