//! The `outline-style` property.

use vstd::prelude::*;
use crate::bytes::copy_bytes;
use crate::css::printer::{PrintErr, Printer, PrinterView, ToCss};
use crate::memory::Arena;

verus! {

/// A value of the `border-style` property.
#[derive(Clone, Copy, Debug, PartialEq, Eq, Structural)]
pub enum LineStyle {
    /// The `none` keyword.
    NoLine,
    Hidden,
    Inset,
    Groove,
    Outset,
    Ridge,
    Dotted,
    Dashed,
    Solid,
    Double,
}

/// A value for the `outline-style` property.
#[derive(Clone, Copy, Debug, PartialEq, Eq, Structural)]
pub enum OutlineStyle {
    /// The `auto` keyword.
    Auto,
    /// A value equivalent to the `border-style` property.
    LineStyle(LineStyle),
}

/// The CSS keyword of a line style.
pub open spec fn line_style_keyword(s: LineStyle) -> Seq<u8> {
    match s {
        LineStyle::NoLine => seq![110u8, 111u8, 110u8, 101u8],
        LineStyle::Hidden => seq![104u8, 105u8, 100u8, 100u8, 101u8, 110u8],
        LineStyle::Inset => seq![105u8, 110u8, 115u8, 101u8, 116u8],
        LineStyle::Groove => seq![103u8, 114u8, 111u8, 111u8, 118u8, 101u8],
        LineStyle::Outset => seq![111u8, 117u8, 116u8, 115u8, 101u8, 116u8],
        LineStyle::Ridge => seq![114u8, 105u8, 100u8, 103u8, 101u8],
        LineStyle::Dotted => seq![100u8, 111u8, 116u8, 116u8, 101u8, 100u8],
        LineStyle::Dashed => seq![100u8, 97u8, 115u8, 104u8, 101u8, 100u8],
        LineStyle::Solid => seq![115u8, 111u8, 108u8, 105u8, 100u8],
        LineStyle::Double => seq![100u8, 111u8, 117u8, 98u8, 108u8, 101u8],
    }
}

/// The CSS keyword of an outline style.
pub open spec fn outline_keyword(s: OutlineStyle) -> Seq<u8> {
    match s {
        OutlineStyle::Auto => seq![97u8, 117u8, 116u8, 111u8],
        OutlineStyle::LineStyle(l) => line_style_keyword(l),
    }
}

/// A byte in ASCII lower case.
pub open spec fn ascii_lower(b: u8) -> u8 {
    if 65 <= b <= 90 {
        (b + 32) as u8
    } else {
        b
    }
}

/// A byte string in ASCII lower case.
pub open spec fn ascii_lowercase(s: Seq<u8>) -> Seq<u8> {
    s.map_values(|b: u8| ascii_lower(b))
}

/// The outline style that a keyword names, ignoring ASCII case.
pub open spec fn spec_from_keyword(ident: Seq<u8>) -> Option<OutlineStyle> {
    if exists|s: OutlineStyle| outline_keyword(s) == ascii_lowercase(ident) {
        Some(choose|s: OutlineStyle| outline_keyword(s) == ascii_lowercase(ident))
    } else {
        None
    }
}

/// All outline styles, in keyword order.
pub open spec fn all_outline_styles() -> Seq<OutlineStyle> {
    seq![
        OutlineStyle::Auto,
        OutlineStyle::LineStyle(LineStyle::NoLine),
        OutlineStyle::LineStyle(LineStyle::Hidden),
        OutlineStyle::LineStyle(LineStyle::Inset),
        OutlineStyle::LineStyle(LineStyle::Groove),
        OutlineStyle::LineStyle(LineStyle::Outset),
        OutlineStyle::LineStyle(LineStyle::Ridge),
        OutlineStyle::LineStyle(LineStyle::Dotted),
        OutlineStyle::LineStyle(LineStyle::Dashed),
        OutlineStyle::LineStyle(LineStyle::Solid),
        OutlineStyle::LineStyle(LineStyle::Double),
    ]
}

/// Every outline style is in the list.
proof fn lemma_all_outline_styles(s: OutlineStyle)
    ensures
        all_outline_styles().contains(s),
{
    let all = all_outline_styles();
    match s {
        OutlineStyle::Auto => assert(all[0] == s),
        OutlineStyle::LineStyle(l) => match l {
            LineStyle::NoLine => assert(all[1] == s),
            LineStyle::Hidden => assert(all[2] == s),
            LineStyle::Inset => assert(all[3] == s),
            LineStyle::Groove => assert(all[4] == s),
            LineStyle::Outset => assert(all[5] == s),
            LineStyle::Ridge => assert(all[6] == s),
            LineStyle::Dotted => assert(all[7] == s),
            LineStyle::Dashed => assert(all[8] == s),
            LineStyle::Solid => assert(all[9] == s),
            LineStyle::Double => assert(all[10] == s),
        },
    }
}

/// Different outline styles have different keywords, and keywords are in
/// lower case.
proof fn lemma_keywords_distinct(a: OutlineStyle, b: OutlineStyle)
    ensures
        outline_keyword(a) == outline_keyword(b) ==> a == b,
        ascii_lowercase(outline_keyword(a)) == outline_keyword(a),
{
    let ka = outline_keyword(a);
    let kb = outline_keyword(b);
    assert(ascii_lowercase(ka) =~= ka);
    if ka == kb && a != b {
        assert(ka.len() == kb.len());
        assert(ka[0] == kb[0]);
        assert(ka[1] == kb[1]);
        assert(ka[2] == kb[2]);
        assert(ka[3] == kb[3]);
    }
}

/// Reading the keyword that an outline style is written as gives it back.
pub proof fn lemma_keyword_roundtrip(s: OutlineStyle)
    ensures
        spec_from_keyword(outline_keyword(s)) == Some(s),
{
    lemma_keywords_distinct(s, s);
    let t = choose|t: OutlineStyle| outline_keyword(t) == ascii_lowercase(outline_keyword(s));
    lemma_keywords_distinct(t, s);
}

/// The keyword of an outline style as bytes.
fn keyword_bytes(s: OutlineStyle) -> (r: Vec<u8>)
    ensures
        r@ == outline_keyword(s),
{
    let r = match s {
        OutlineStyle::Auto => copy_bytes([97u8, 117u8, 116u8, 111u8].as_slice()),
        OutlineStyle::LineStyle(l) => match l {
            LineStyle::NoLine => copy_bytes([110u8, 111u8, 110u8, 101u8].as_slice()),
            LineStyle::Hidden => copy_bytes([104u8, 105u8, 100u8, 100u8, 101u8, 110u8].as_slice()),
            LineStyle::Inset => copy_bytes([105u8, 110u8, 115u8, 101u8, 116u8].as_slice()),
            LineStyle::Groove => copy_bytes([103u8, 114u8, 111u8, 111u8, 118u8, 101u8].as_slice()),
            LineStyle::Outset => copy_bytes([111u8, 117u8, 116u8, 115u8, 101u8, 116u8].as_slice()),
            LineStyle::Ridge => copy_bytes([114u8, 105u8, 100u8, 103u8, 101u8].as_slice()),
            LineStyle::Dotted => copy_bytes([100u8, 111u8, 116u8, 116u8, 101u8, 100u8].as_slice()),
            LineStyle::Dashed => copy_bytes([100u8, 97u8, 115u8, 104u8, 101u8, 100u8].as_slice()),
            LineStyle::Solid => copy_bytes([115u8, 111u8, 108u8, 105u8, 100u8].as_slice()),
            LineStyle::Double => copy_bytes([100u8, 111u8, 117u8, 98u8, 108u8, 101u8].as_slice()),
        },
    };
    assert(r@ =~= outline_keyword(s));
    r
}

/// Whether `ident` equals the lower-case `keyword`, ignoring ASCII case.
fn eq_ignore_ascii_case(ident: &[u8], keyword: &[u8]) -> (r: bool)
    ensures
        r == (ascii_lowercase(ident@) == keyword@),
{
    if ident.len() != keyword.len() {
        return false;
    }
    let mut i: usize = 0;
    while i < ident.len()
        invariant
            ident@.len() == keyword@.len(),
            i <= ident@.len(),
            forall|j: int| 0 <= j < i ==> ascii_lower(ident@[j]) == keyword@[j],
        decreases ident@.len() - i,
    {
        let b = ident[i];
        let lower = if 65u8 <= b && b <= 90u8 {
            b + 32
        } else {
            b
        };
        if lower != keyword[i] {
            assert(ascii_lowercase(ident@)[i as int] != keyword@[i as int]);
            return false;
        }
        i = i + 1;
    }
    assert(ascii_lowercase(ident@) =~= keyword@);
    true
}

impl OutlineStyle {
    /// Whether both values are the same.
    pub fn eql(lhs: &Self, rhs: &Self) -> (r: bool)
        ensures
            r == (*lhs == *rhs),
    {
        *lhs == *rhs
    }

    /// A copy of the value.
    pub fn deep_clone(&self, _bump: &Arena) -> (r: Self)
        ensures
            r == *self,
    {
        *self
    }

    /// The outline style named by a keyword, ignoring ASCII case.
    pub fn from_keyword(ident: &[u8]) -> (r: Option<OutlineStyle>)
        ensures
            r == spec_from_keyword(ident@),
    {
        let candidates: [OutlineStyle; 11] = [
            OutlineStyle::Auto,
            OutlineStyle::LineStyle(LineStyle::NoLine),
            OutlineStyle::LineStyle(LineStyle::Hidden),
            OutlineStyle::LineStyle(LineStyle::Inset),
            OutlineStyle::LineStyle(LineStyle::Groove),
            OutlineStyle::LineStyle(LineStyle::Outset),
            OutlineStyle::LineStyle(LineStyle::Ridge),
            OutlineStyle::LineStyle(LineStyle::Dotted),
            OutlineStyle::LineStyle(LineStyle::Dashed),
            OutlineStyle::LineStyle(LineStyle::Solid),
            OutlineStyle::LineStyle(LineStyle::Double),
        ];
        assert(candidates@ =~= all_outline_styles());
        let mut i: usize = 0;
        while i < 11
            invariant
                i <= 11,
                candidates@ == all_outline_styles(),
                forall|j: int| 0 <= j < i ==> outline_keyword(#[trigger] candidates@[j]) != ascii_lowercase(ident@),
            decreases 11 - i,
        {
            let c = candidates[i];
            let k = keyword_bytes(c);
            if eq_ignore_ascii_case(ident, k.as_slice()) {
                proof {
                    assert forall|t: OutlineStyle| outline_keyword(t) == ascii_lowercase(ident@) implies t == c by {
                        lemma_keywords_distinct(t, c);
                    }
                }
                return Some(c);
            }
            i = i + 1;
        }
        proof {
            assert forall|t: OutlineStyle| outline_keyword(t) != ascii_lowercase(ident@) by {
                lemma_all_outline_styles(t);
                let j = choose|j: int| 0 <= j < all_outline_styles().len() && all_outline_styles()[j] == t;
                assert(outline_keyword(candidates@[j]) != ascii_lowercase(ident@));
            }
        }
        None
    }
}

impl Default for OutlineStyle {
    fn default() -> (r: Self)
        ensures
            r == OutlineStyle::LineStyle(LineStyle::NoLine),
    {
        OutlineStyle::LineStyle(LineStyle::NoLine)
    }
}

impl ToCss for OutlineStyle {
    open spec fn css(&self, p: PrinterView) -> Result<PrinterView, (PrintErr, PrinterView)> {
        Ok(p.write(outline_keyword(*self)))
    }

    open spec fn depth(&self) -> nat {
        0
    }

    fn to_css(&self, dest: &mut Printer) -> (r: Result<(), PrintErr>) {
        let k = keyword_bytes(*self);
        dest.write_bytes(k.as_slice());
        Ok(())
    }
}

/// The bytes of an ASCII text.
pub open spec fn ascii_bytes(text: Seq<char>) -> Seq<u8> {
    text.map_values(|c: char| c as u8)
}

/// Each outline style is written as, and read back from, the CSS keyword
/// that names it: `auto`, `none` for no line, and the line style's own name
/// for the others.
pub proof fn lemma_keywords_are_css_names()
    ensures
        outline_keyword(OutlineStyle::Auto) == ascii_bytes("auto"@),
        outline_keyword(OutlineStyle::LineStyle(LineStyle::NoLine)) == ascii_bytes("none"@),
        outline_keyword(OutlineStyle::LineStyle(LineStyle::Hidden)) == ascii_bytes("hidden"@),
        outline_keyword(OutlineStyle::LineStyle(LineStyle::Inset)) == ascii_bytes("inset"@),
        outline_keyword(OutlineStyle::LineStyle(LineStyle::Groove)) == ascii_bytes("groove"@),
        outline_keyword(OutlineStyle::LineStyle(LineStyle::Outset)) == ascii_bytes("outset"@),
        outline_keyword(OutlineStyle::LineStyle(LineStyle::Ridge)) == ascii_bytes("ridge"@),
        outline_keyword(OutlineStyle::LineStyle(LineStyle::Dotted)) == ascii_bytes("dotted"@),
        outline_keyword(OutlineStyle::LineStyle(LineStyle::Dashed)) == ascii_bytes("dashed"@),
        outline_keyword(OutlineStyle::LineStyle(LineStyle::Solid)) == ascii_bytes("solid"@),
        outline_keyword(OutlineStyle::LineStyle(LineStyle::Double)) == ascii_bytes("double"@),
        spec_from_keyword(ascii_bytes("dotted"@)) == Some(OutlineStyle::LineStyle(LineStyle::Dotted)),
        spec_from_keyword(ascii_bytes("dashed"@)) == Some(OutlineStyle::LineStyle(LineStyle::Dashed)),
{
    reveal_strlit("auto");
    reveal_strlit("none");
    reveal_strlit("hidden");
    reveal_strlit("inset");
    reveal_strlit("groove");
    reveal_strlit("outset");
    reveal_strlit("ridge");
    reveal_strlit("dotted");
    reveal_strlit("dashed");
    reveal_strlit("solid");
    reveal_strlit("double");
    assert(ascii_bytes("auto"@) =~= outline_keyword(OutlineStyle::Auto));
    assert(ascii_bytes("none"@) =~= line_style_keyword(LineStyle::NoLine));
    assert(ascii_bytes("hidden"@) =~= line_style_keyword(LineStyle::Hidden));
    assert(ascii_bytes("inset"@) =~= line_style_keyword(LineStyle::Inset));
    assert(ascii_bytes("groove"@) =~= line_style_keyword(LineStyle::Groove));
    assert(ascii_bytes("outset"@) =~= line_style_keyword(LineStyle::Outset));
    assert(ascii_bytes("ridge"@) =~= line_style_keyword(LineStyle::Ridge));
    assert(ascii_bytes("dotted"@) =~= line_style_keyword(LineStyle::Dotted));
    assert(ascii_bytes("dashed"@) =~= line_style_keyword(LineStyle::Dashed));
    assert(ascii_bytes("solid"@) =~= line_style_keyword(LineStyle::Solid));
    assert(ascii_bytes("double"@) =~= line_style_keyword(LineStyle::Double));
    lemma_keyword_roundtrip(OutlineStyle::LineStyle(LineStyle::Dotted));
    lemma_keyword_roundtrip(OutlineStyle::LineStyle(LineStyle::Dashed));
}

} // verus!
