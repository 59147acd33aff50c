//! The CSS printer: an output buffer with formatting state.

use vstd::prelude::*;
use crate::bytes::{byte_strings, copy_bytes};
use crate::css::declaration::Composes;
use crate::css::prefix::{Location, VendorPrefix};
use crate::css::selector::{Selector, SelectorList};

verus! {

/// The browser features that the output must be lowered for.
#[derive(Clone, Copy, Debug, PartialEq, Eq, Structural)]
pub struct Targets {
    /// Nested rules must be written out flat, after their parent.
    pub compile_nesting: bool,
    /// Selectors must be lowered for older browsers.
    pub compile_selectors: bool,
}

impl Targets {
    /// Whether nesting has to be compiled away for these targets.
    pub fn should_compile_nesting(&self) -> (r: bool)
        ensures
            r == self.compile_nesting,
    {
        self.compile_nesting
    }

    /// Whether selectors have to be lowered for these targets.
    pub fn should_compile_selectors(&self) -> (r: bool)
        ensures
            r == self.compile_selectors,
    {
        self.compile_selectors
    }
}

/// One class that a `composes` declaration adds to a CSS-module class.
pub struct ComposesEntry {
    /// The class whose rule holds the declaration.
    pub class: Vec<u8>,
    /// The composed class.
    pub name: Vec<u8>,
    /// The source file of the rule.
    pub source_index: u32,
}

/// A plain-value view of a [`ComposesEntry`].
pub type ComposesView = (Seq<u8>, Seq<u8>, u32);

impl ComposesEntry {
    /// The entry as plain values.
    pub open spec fn spec_view(&self) -> ComposesView {
        (self.class@, self.name@, self.source_index)
    }
}

/// The CSS-module state of a print: what `composes` declarations added.
pub struct CssModule {
    pub composes: Vec<ComposesEntry>,
}

impl CssModule {
    /// The entries as plain values.
    pub open spec fn entries(&self) -> Seq<ComposesView> {
        self.composes@.map_values(|e: ComposesEntry| e.spec_view())
    }
}

/// The entries that composing `names` into `class` adds.
pub open spec fn composes_entries(class: Seq<u8>, names: Seq<Seq<u8>>, source_index: u32) -> Seq<ComposesView> {
    names.map_values(|n: Seq<u8>| (class, n, source_index))
}

/// The CSS-module entries after a `composes` declaration with `names` in a
/// rule with the selectors `sels`: each selector must be one class, which
/// then composes every name; otherwise the declaration is refused.
pub open spec fn composes_outcome(
    sels: Seq<Selector>,
    names: Seq<Seq<u8>>,
    source_index: u32,
    m: Seq<ComposesView>,
) -> Result<Seq<ComposesView>, (PrinterErrorKind, Seq<ComposesView>)>
    decreases sels.len(),
{
    if sels.len() == 0 {
        Ok(m)
    } else {
        match composes_outcome(sels.drop_last(), names, source_index, m) {
            Ok(m1) => match sels.last().single_class {
                Some(c) => Ok(m1 + composes_entries(c@, names, source_index)),
                None => Err((PrinterErrorKind::InvalidComposesSelector, m1)),
            },
            Err(k) => Err(k),
        }
    }
}

impl CssModule {
    /// Records the classes that a `composes` declaration adds to the classes
    /// of the rule's selectors.
    pub fn handle_composes(&mut self, selectors: &SelectorList, composes: &Composes, source_index: u32) -> (r: Result<
        (),
        PrinterErrorKind,
    >)
        ensures
            match composes_outcome(selectors.v@, byte_strings(composes.names@), source_index, old(self).entries()) {
                Ok(m) => r is Ok && final(self).entries() == m,
                Err((k, m)) => r == Err::<(), PrinterErrorKind>(k) && final(self).entries() == m,
            },
    {
        let ghost names = byte_strings(composes.names@);
        let mut i: usize = 0;
        while i < selectors.v.len()
            invariant
                i <= selectors.v@.len(),
                names == byte_strings(composes.names@),
                composes_outcome(selectors.v@.subrange(0, i as int), names, source_index, old(self).entries())
                    == Ok::<Seq<ComposesView>, (PrinterErrorKind, Seq<ComposesView>)>(self.entries()),
            decreases selectors.v@.len() - i,
        {
            proof {
                assert(selectors.v@.subrange(0, i + 1).drop_last() =~= selectors.v@.subrange(0, i as int));
            }
            match &selectors.v[i].single_class {
                Some(class) => {
                    let ghost before = self.entries();
                    let mut j: usize = 0;
                    while j < composes.names.len()
                        invariant
                            j <= composes.names@.len(),
                            names == byte_strings(composes.names@),
                            self.entries() == before + composes_entries(class@, names.subrange(0, j as int), source_index),
                        decreases composes.names@.len() - j,
                    {
                        let e = ComposesEntry {
                            class: copy_bytes(class.as_slice()),
                            name: copy_bytes(composes.names[j].as_slice()),
                            source_index,
                        };
                        let ghost ev = e.spec_view();
                        let ghost eg = e;
                        let ghost before_j = self.entries();
                        let ghost old_c = self.composes@;
                        self.composes.push(e);
                        proof {
                            assert(self.composes@ == old_c.push(eg));
                            assert(self.entries() =~= before_j.push(ev));
                            assert(ev == (class@, names[j as int], source_index));
                            assert(composes_entries(class@, names.subrange(0, j + 1), source_index) =~= composes_entries(class@, names.subrange(0, j as int), source_index).push(ev));
                            assert(self.entries() =~= before + composes_entries(class@, names.subrange(0, j + 1), source_index));
                        }
                        j = j + 1;
                    }
                    proof {
                        assert(names.subrange(0, names.len() as int) =~= names);
                    }
                },
                None => {
                    proof {
                        lemma_composes_outcome_err(selectors.v@, names, source_index, old(self).entries(), i + 1);
                    }
                    return Err(PrinterErrorKind::InvalidComposesSelector);
                },
            }
            i = i + 1;
        }
        proof {
            assert(selectors.v@.subrange(0, selectors.v@.len() as int) =~= selectors.v@);
        }
        Ok(())
    }
}

/// Once a selector refuses `composes`, the whole list does.
proof fn lemma_composes_outcome_err(
    sels: Seq<Selector>,
    names: Seq<Seq<u8>>,
    source_index: u32,
    m: Seq<ComposesView>,
    i: int,
)
    requires
        1 <= i <= sels.len(),
        composes_outcome(sels.subrange(0, i - 1), names, source_index, m) is Ok,
        sels[i - 1].single_class is None,
    ensures
        composes_outcome(sels, names, source_index, m) == Err::<Seq<ComposesView>, (PrinterErrorKind, Seq<ComposesView>)>(
            (
                PrinterErrorKind::InvalidComposesSelector,
                composes_outcome(sels.subrange(0, i - 1), names, source_index, m)->Ok_0,
            ),
        ),
    decreases sels.len() - i,
{
    if i == sels.len() {
        assert(sels.drop_last() =~= sels.subrange(0, i - 1));
    } else {
        assert(sels.drop_last().subrange(0, i - 1) =~= sels.subrange(0, i - 1));
        lemma_composes_outcome_err(sels.drop_last(), names, source_index, m, i);
    }
}

/// The kinds of printing error.
#[derive(Clone, Copy, Debug, PartialEq, Eq, Structural)]
pub enum PrinterErrorKind {
    /// `composes` inside a nested rule.
    InvalidComposesNesting,
    /// `composes` in a rule whose selector is not a single class.
    InvalidComposesSelector,
}

/// A printing error and where it arose.
#[derive(Clone, Copy, Debug, PartialEq, Eq, Structural)]
pub struct PrintErr {
    pub kind: PrinterErrorKind,
    pub loc: Option<Location>,
}

/// The printer: the bytes written so far and the formatting state.
pub struct Printer {
    pub dest: Vec<u8>,
    /// Whether to leave out optional whitespace.
    pub minify: bool,
    /// The number of spaces at the start of each new line.
    pub indent: usize,
    /// The vendor prefix that the rule being printed is written for.
    pub vendor_prefix: VendorPrefix,
    pub targets: Targets,
    pub css_module: Option<CssModule>,
    /// When nested rules are written after their parent, how the parent's
    /// selectors are written: the nesting selector `&` stands for this.
    pub context: Option<Vec<u8>>,
}

/// The printer as plain values.
#[verifier::ext_equal]
pub struct PrinterView {
    pub out: Seq<u8>,
    pub minify: bool,
    pub indent: nat,
    pub vendor_prefix: VendorPrefix,
    pub targets: Targets,
    pub css_module: Option<Seq<ComposesView>>,
    pub context: Option<Seq<u8>>,
}

impl View for Printer {
    type V = PrinterView;

    open spec fn view(&self) -> PrinterView {
        PrinterView {
            out: self.dest@,
            minify: self.minify,
            indent: self.indent as nat,
            vendor_prefix: self.vendor_prefix,
            targets: self.targets,
            css_module: match self.css_module {
                Some(m) => Some(m.entries()),
                None => None,
            },
            context: match self.context {
                Some(c) => Some(c@),
                None => None,
            },
        }
    }
}

/// `n` spaces.
pub open spec fn spaces(n: nat) -> Seq<u8> {
    Seq::new(n, |i: int| 32u8)
}

impl PrinterView {
    /// Appends `bytes` to the output.
    pub open spec fn write(self, bytes: Seq<u8>) -> PrinterView {
        PrinterView { out: self.out + bytes, ..self }
    }

    /// Optional whitespace: a space unless minifying.
    pub open spec fn whitespace(self) -> PrinterView {
        if self.minify {
            self
        } else {
            self.write(seq![32u8])
        }
    }

    /// A line break followed by the indentation, unless minifying.
    pub open spec fn newline(self) -> PrinterView {
        if self.minify {
            self
        } else {
            self.write(seq![10u8] + spaces(self.indent))
        }
    }

    /// A delimiter followed by optional whitespace.
    pub open spec fn delim(self, c: u8) -> PrinterView {
        self.write(seq![c]).whitespace()
    }

    /// Whether a parent style rule surrounds what is printed.
    pub open spec fn is_nested(self) -> bool {
        self.context is Some
    }

    /// The state with another vendor prefix.
    pub open spec fn with_prefix(self, prefix: VendorPrefix) -> PrinterView {
        PrinterView { vendor_prefix: prefix, ..self }
    }

    /// The state with another indentation.
    pub open spec fn with_indent(self, indent: nat) -> PrinterView {
        PrinterView { indent, ..self }
    }

    /// The state with another parent context.
    pub open spec fn with_context(self, context: Option<Seq<u8>>) -> PrinterView {
        PrinterView { context, ..self }
    }

    /// The state with another CSS-module state.
    pub open spec fn with_css_module(self, m: Option<Seq<ComposesView>>) -> PrinterView {
        PrinterView { css_module: m, ..self }
    }
}

/// Something that can be written as CSS.
pub trait ToCss {
    /// The printer state after writing `self` from state `p`, or the error
    /// with the printer state at the point where it arose.
    spec fn css(&self, p: PrinterView) -> Result<PrinterView, (PrintErr, PrinterView)>;

    /// How much indentation printing `self` may add, as a bound.
    spec fn depth(&self) -> nat;

    /// Writes `self` to `dest`.
    fn to_css(&self, dest: &mut Printer) -> (r: Result<(), PrintErr>)
        requires
            old(dest).indent + self.depth() <= usize::MAX,
        ensures
            final(dest).minify == old(dest).minify,
            final(dest).targets == old(dest).targets,
            final(dest)@.context == old(dest)@.context,
            r is Ok ==> final(dest).indent == old(dest).indent,
            match self.css(old(dest)@) {
                Ok(p) => r is Ok && final(dest)@ == p,
                Err((e, q)) => r == Err::<(), PrintErr>(e) && final(dest)@ == q,
            },
    ;
}

impl Printer {
    /// A printer with an empty output and no CSS-module state.
    pub fn new(minify: bool, targets: Targets) -> (r: Printer)
        ensures
            r@ == (PrinterView {
                out: Seq::empty(),
                minify,
                indent: 0,
                vendor_prefix: VendorPrefix { bits: 0 },
                targets,
                css_module: None,
                context: None,
            }),
    {
        Printer {
            dest: Vec::new(),
            minify,
            indent: 0,
            vendor_prefix: VendorPrefix::empty(),
            targets,
            css_module: None,
            context: None,
        }
    }

    /// Writes one byte.
    pub fn write_char(&mut self, c: u8)
        ensures
            final(self)@ == old(self)@.write(seq![c]),
    {
        self.dest.push(c);
    }

    /// Writes a run of bytes.
    pub fn write_bytes(&mut self, bytes: &[u8])
        ensures
            final(self)@ == old(self)@.write(bytes@),
    {
        let ghost start = self@;
        let mut i: usize = 0;
        while i < bytes.len()
            invariant
                i <= bytes@.len(),
                self@ == start.write(bytes@.subrange(0, i as int)),
            decreases bytes@.len() - i,
        {
            self.dest.push(bytes[i]);
            proof {
                assert(bytes@.subrange(0, i + 1) =~= bytes@.subrange(0, i as int).push(bytes@[i as int]));
            }
            i = i + 1;
        }
        proof {
            assert(bytes@.subrange(0, bytes@.len() as int) =~= bytes@);
        }
    }

    /// Writes a space unless minifying.
    pub fn whitespace(&mut self)
        ensures
            final(self)@ == old(self)@.whitespace(),
    {
        if !self.minify {
            self.write_char(32u8);
        }
    }

    /// Starts a new line at the current indentation unless minifying.
    pub fn newline(&mut self)
        ensures
            final(self)@ == old(self)@.newline(),
    {
        if self.minify {
            return ;
        }
        let ghost start = self@;
        self.write_char(10u8);
        let mut i: usize = 0;
        while i < self.indent
            invariant
                i <= self.indent,
                self.indent == start.indent,
                !self.minify,
                self@ == start.write(seq![10u8] + spaces(i as nat)),
            decreases self.indent - i,
        {
            self.write_char(32u8);
            proof {
                assert(seq![10u8] + spaces((i + 1) as nat) =~= (seq![10u8] + spaces(i as nat)).push(32u8));
            }
            i = i + 1;
        }
    }

    /// Writes a delimiter and then a space unless minifying.
    pub fn delim(&mut self, c: u8)
        ensures
            final(self)@ == old(self)@.delim(c),
    {
        self.write_char(c);
        self.whitespace();
    }

    /// Indents the lines that follow by two more spaces.
    pub fn indent(&mut self)
        requires
            old(self).indent + 2 <= usize::MAX,
        ensures
            final(self)@ == old(self)@.with_indent((old(self).indent + 2) as nat),
    {
        self.indent = self.indent + 2;
    }

    /// Undoes one [`Printer::indent`].
    pub fn dedent(&mut self)
        requires
            old(self).indent >= 2,
        ensures
            final(self)@ == old(self)@.with_indent((old(self).indent - 2) as nat),
    {
        self.indent = self.indent - 2;
    }

    /// Whether a parent style rule surrounds what is printed.
    pub fn is_nested(&self) -> (r: bool)
        ensures
            r == self@.is_nested(),
    {
        self.context.is_some()
    }

    /// The error of the given kind at `loc`.
    pub fn new_error<T>(&self, kind: PrinterErrorKind, loc: Option<Location>) -> (r: Result<T, PrintErr>)
        ensures
            r == Err::<T, PrintErr>(PrintErr { kind, loc }),
    {
        Err(PrintErr { kind, loc })
    }
}

} // verus!
