//! Selectors as the style-rule logic reads them.

use vstd::prelude::*;
use crate::bytes::{append_bytes, byte_strings, bytes_eq, contains_bytes, copy_bytes};
use crate::css::prefix::{VendorPrefix, PREFIX_NONE};
use crate::css::printer::{Printer, PrinterView, Targets};

verus! {

/// One complex selector.
pub struct Selector {
    /// The selector as it is written, with `&` for the nesting selector.
    pub text: Vec<u8>,
    /// The class and id names it refers to.
    pub names: Vec<Vec<u8>>,
    /// Whether it holds the nesting selector `&`.
    pub has_nesting: bool,
    /// The vendor prefixes of its pseudo-class and pseudo-element components,
    /// in order (`NONE` for an unprefixed one that may need lowering).
    pub component_prefixes: Vec<VendorPrefix>,
    /// The class name, when the selector is one class selector and nothing else.
    pub single_class: Option<Vec<u8>>,
    /// The vendor prefixes its components need when lowered for older browsers.
    pub lowering_prefixes: VendorPrefix,
}

/// A comma-separated list of selectors.
pub struct SelectorList {
    pub v: Vec<Selector>,
}

/// A selector as plain values.
#[verifier::ext_equal]
pub struct SelectorView {
    pub text: Seq<u8>,
    pub names: Seq<Seq<u8>>,
    pub has_nesting: bool,
    pub component_prefixes: Seq<VendorPrefix>,
    pub single_class: Option<Seq<u8>>,
    pub lowering_prefixes: VendorPrefix,
}

impl View for Selector {
    type V = SelectorView;

    open spec fn view(&self) -> SelectorView {
        SelectorView {
            text: self.text@,
            names: byte_strings(self.names@),
            has_nesting: self.has_nesting,
            component_prefixes: self.component_prefixes@,
            single_class: match self.single_class {
                Some(c) => Some(c@),
                None => None,
            },
            lowering_prefixes: self.lowering_prefixes,
        }
    }
}

/// The views of a sequence of selectors.
pub open spec fn selector_views(sels: Seq<Selector>) -> Seq<SelectorView> {
    sels.map_values(|s: Selector| s@)
}

impl View for SelectorList {
    type V = Seq<SelectorView>;

    open spec fn view(&self) -> Seq<SelectorView> {
        selector_views(self.v@)
    }
}

/// The texts of a sequence of selectors.
pub open spec fn selector_texts(sels: Seq<Selector>) -> Seq<Seq<u8>> {
    sels.map_values(|s: Selector| s.text@)
}

/// One step of collecting the vendor prefix of a selector list: a prefixed
/// component agrees with what was collected when that is empty or only
/// `NONE`, or the same prefix; otherwise the list has no single prefix.
pub open spec fn prefix_step(acc: Option<u8>, p: u8) -> Option<u8> {
    match acc {
        None => None,
        Some(a) => if p == 0 {
            Some(a)
        } else {
            let without_none = a & 0xfeu8;
            if without_none == 0 || without_none == p {
                Some(a | p)
            } else {
                None
            }
        },
    }
}

/// Collects the prefixes of a sequence of components.
pub open spec fn fold_prefixes(acc: Option<u8>, ps: Seq<VendorPrefix>) -> Option<u8>
    decreases ps.len(),
{
    if ps.len() == 0 {
        acc
    } else {
        prefix_step(fold_prefixes(acc, ps.drop_last()), ps.last().bits)
    }
}

/// Collects the prefixes of all components of all selectors.
pub open spec fn fold_selector_prefixes(sels: Seq<Selector>) -> Option<u8>
    decreases sels.len(),
{
    if sels.len() == 0 {
        Some(0u8)
    } else {
        fold_prefixes(fold_selector_prefixes(sels.drop_last()), sels.last().component_prefixes@)
    }
}

/// The vendor prefix that a selector list is written for; empty when its
/// components ask for different prefixes.
pub open spec fn spec_get_prefix(sels: Seq<Selector>) -> u8 {
    match fold_selector_prefixes(sels) {
        Some(b) => b,
        None => 0,
    }
}

/// The union of the prefixes that lowering the selectors needs.
pub open spec fn spec_lowering_prefixes(sels: Seq<Selector>) -> u8
    decreases sels.len(),
{
    if sels.len() == 0 {
        0
    } else {
        spec_lowering_prefixes(sels.drop_last()) | sels.last().lowering_prefixes.bits
    }
}

/// Whether one selector refers to an unused name, or nests in an unused parent.
pub open spec fn selector_is_unused(s: Selector, unused: Seq<Seq<u8>>, parent_is_unused: bool) -> bool {
    ||| exists|j: int| 0 <= j < s.names@.len() && unused.contains(#[trigger] s.names@[j]@)
    ||| s.has_nesting && parent_is_unused
}

/// Whether a rule with these selectors can be dropped: some names are known
/// to be unused and every selector is unused.
pub open spec fn spec_is_unused(sels: Seq<Selector>, unused: Seq<Seq<u8>>, parent_is_unused: bool) -> bool {
    &&& unused.len() > 0
    &&& forall|i: int| 0 <= i < sels.len() ==> selector_is_unused(#[trigger] sels[i], unused, parent_is_unused)
}

/// Whether the selectors can be written as they are for the targets.
pub open spec fn spec_is_compatible(sels: Seq<Selector>, targets: Targets) -> bool {
    !targets.compile_selectors || forall|i: int| 0 <= i < sels.len() ==> (#[trigger] sels[i]).lowering_prefixes.bits == 0
}

/// The printer state after writing the selectors, separated by commas.
pub open spec fn selectors_css(sels: Seq<Selector>, p: PrinterView) -> PrinterView {
    p.write(selector_list_text(sels, p.context, p.minify))
}

/// `text` with each nesting selector `&` replaced by `ctx`.
pub open spec fn replace_nesting(text: Seq<u8>, ctx: Seq<u8>) -> Seq<u8>
    decreases text.len(),
{
    if text.len() == 0 {
        Seq::empty()
    } else {
        replace_nesting(text.drop_last(), ctx) + if text.last() == 38u8 {
            ctx
        } else {
            seq![text.last()]
        }
    }
}

/// How a selector is written where its parent's selectors are written as
/// `ctx`: as it is without a parent; with `&` standing for the parent when
/// it holds one; otherwise as a descendant of the parent.
pub open spec fn resolved_text(s: Selector, ctx: Option<Seq<u8>>) -> Seq<u8> {
    match ctx {
        None => s.text@,
        Some(c) => if s.has_nesting {
            replace_nesting(s.text@, c)
        } else {
            c + seq![32u8] + s.text@
        },
    }
}

/// The separator of a selector list: a comma, and a space unless minifying.
pub open spec fn list_separator(minify: bool) -> Seq<u8> {
    if minify {
        seq![44u8]
    } else {
        seq![44u8, 32u8]
    }
}

/// The selectors written one after the other, separated by commas, each
/// resolved against the parent context `ctx`.
pub open spec fn selector_list_text(sels: Seq<Selector>, ctx: Option<Seq<u8>>, minify: bool) -> Seq<u8>
    decreases sels.len(),
{
    if sels.len() == 0 {
        Seq::empty()
    } else {
        selector_list_text(sels.drop_last(), ctx, minify) + (if sels.len() > 1 {
            list_separator(minify)
        } else {
            Seq::empty()
        }) + resolved_text(sels.last(), ctx)
    }
}

/// How a rule's selectors are written as the parent of rules written after
/// it: the one selector, or the list inside `:is(..)`.
pub open spec fn context_text(sels: Seq<Selector>, ctx: Option<Seq<u8>>, minify: bool) -> Seq<u8> {
    if sels.len() == 1 {
        resolved_text(sels[0], ctx)
    } else {
        seq![58u8, 105u8, 115u8, 40u8] + selector_list_text(sels, ctx, minify) + seq![41u8]
    }
}

/// The bytes that stand for a selector list in a rule's hash: the texts, one
/// after the other.
pub open spec fn selectors_hash_bytes(sels: Seq<Selector>) -> Seq<u8>
    decreases sels.len(),
{
    if sels.len() == 0 {
        Seq::empty()
    } else {
        selectors_hash_bytes(sels.drop_last()) + sels.last().text@
    }
}

impl Selector {
    /// A copy of the selector.
    pub fn deep_clone(&self) -> (r: Selector)
        ensures
            r@ == self@,
    {
        let mut names: Vec<Vec<u8>> = Vec::new();
        let mut i: usize = 0;
        while i < self.names.len()
            invariant
                i <= self.names@.len(),
                names@.len() == i,
                forall|j: int| 0 <= j < i ==> names@[j]@ == self.names@[j]@,
            decreases self.names@.len() - i,
        {
            names.push(copy_bytes(self.names[i].as_slice()));
            i = i + 1;
        }
        assert(byte_strings(names@) =~= byte_strings(self.names@));
        let mut prefixes: Vec<VendorPrefix> = Vec::new();
        let mut k: usize = 0;
        while k < self.component_prefixes.len()
            invariant
                k <= self.component_prefixes@.len(),
                prefixes@ == self.component_prefixes@.subrange(0, k as int),
            decreases self.component_prefixes@.len() - k,
        {
            prefixes.push(self.component_prefixes[k]);
            assert(self.component_prefixes@.subrange(0, k + 1) =~= self.component_prefixes@.subrange(0, k as int).push(self.component_prefixes@[k as int]));
            k = k + 1;
        }
        assert(self.component_prefixes@.subrange(0, self.component_prefixes@.len() as int) =~= self.component_prefixes@);
        let single_class = match &self.single_class {
            Some(c) => Some(copy_bytes(c.as_slice())),
            None => None,
        };
        let r = Selector {
            text: copy_bytes(self.text.as_slice()),
            names,
            has_nesting: self.has_nesting,
            component_prefixes: prefixes,
            single_class,
            lowering_prefixes: self.lowering_prefixes,
        };
        assert(r@ =~= self@);
        r
    }
}

impl SelectorList {
    /// Whether both lists hold the same selectors in the same order.
    pub fn eql(&self, other: &SelectorList) -> (r: bool)
        ensures
            r == (selector_texts(self.v@) == selector_texts(other.v@)),
    {
        if self.v.len() != other.v.len() {
            assert(selector_texts(self.v@).len() != selector_texts(other.v@).len());
            return false;
        }
        let mut i: usize = 0;
        while i < self.v.len()
            invariant
                self.v@.len() == other.v@.len(),
                i <= self.v@.len(),
                forall|j: int| 0 <= j < i ==> self.v@[j].text@ == other.v@[j].text@,
            decreases self.v@.len() - i,
        {
            if !bytes_eq(self.v[i].text.as_slice(), other.v[i].text.as_slice()) {
                assert(selector_texts(self.v@)[i as int] != selector_texts(other.v@)[i as int]);
                return false;
            }
            i = i + 1;
        }
        assert(selector_texts(self.v@) =~= selector_texts(other.v@));
        true
    }

    /// A copy of the list.
    pub fn deep_clone(&self) -> (r: SelectorList)
        ensures
            r@ == self@,
            selector_texts(r.v@) == selector_texts(self.v@),
    {
        let mut v: Vec<Selector> = Vec::new();
        let mut i: usize = 0;
        while i < self.v.len()
            invariant
                i <= self.v@.len(),
                v@.len() == i,
                forall|j: int| 0 <= j < i ==> (#[trigger] v@[j])@ == self.v@[j]@,
            decreases self.v@.len() - i,
        {
            v.push(self.v[i].deep_clone());
            i = i + 1;
        }
        assert(selector_views(v@) =~= selector_views(self.v@));
        assert forall|j: int| 0 <= j < v@.len() implies v@[j].text@ == self.v@[j].text@ by {
            assert(v@[j]@ == self.v@[j]@);
        }
        assert(selector_texts(v@) =~= selector_texts(self.v@));
        SelectorList { v }
    }
}

/// The vendor prefix that the selectors are written for.
pub fn get_prefix(selectors: &SelectorList) -> (r: VendorPrefix)
    ensures
        r.bits == spec_get_prefix(selectors.v@),
{
    let mut acc: u8 = 0;
    let mut i: usize = 0;
    while i < selectors.v.len()
        invariant
            i <= selectors.v@.len(),
            fold_selector_prefixes(selectors.v@.subrange(0, i as int)) == Some(acc),
        decreases selectors.v@.len() - i,
    {
        let comps = &selectors.v[i].component_prefixes;
        let ghost before = Some(acc);
        let mut k: usize = 0;
        while k < comps.len()
            invariant
                k <= comps@.len(),
                i < selectors.v@.len(),
                comps == selectors.v@[i as int].component_prefixes,
                before == fold_selector_prefixes(selectors.v@.subrange(0, i as int)),
                fold_prefixes(before, comps@.subrange(0, k as int)) == Some(acc),
            decreases comps@.len() - k,
        {
            let p = comps[k].bits;
            proof {
                assert(comps@.subrange(0, k + 1).drop_last() =~= comps@.subrange(0, k as int));
            }
            if p != 0 {
                let without_none = acc & 0xfeu8;
                if without_none == 0 || without_none == p {
                    acc = acc | p;
                } else {
                    proof {
                        lemma_fold_none_stays(selectors.v@, i as int, k as int + 1);
                    }
                    return VendorPrefix::empty();
                }
            }
            k = k + 1;
        }
        proof {
            assert(comps@.subrange(0, comps@.len() as int) =~= comps@);
            assert(selectors.v@.subrange(0, i + 1).drop_last() =~= selectors.v@.subrange(0, i as int));
        }
        i = i + 1;
    }
    proof {
        assert(selectors.v@.subrange(0, selectors.v@.len() as int) =~= selectors.v@);
    }
    VendorPrefix::from_bits(acc)
}

/// Once the prefixes disagree, the whole list has no single prefix.
proof fn lemma_fold_prefixes_none(ps: Seq<VendorPrefix>)
    ensures
        fold_prefixes(None, ps) == None::<u8>,
    decreases ps.len(),
{
    if ps.len() > 0 {
        lemma_fold_prefixes_none(ps.drop_last());
    }
}

/// Folding a prefix of the components is the first part of folding them all.
proof fn lemma_fold_prefixes_split(acc: Option<u8>, ps: Seq<VendorPrefix>, k: int)
    requires
        0 <= k <= ps.len(),
    ensures
        fold_prefixes(acc, ps) == fold_prefixes(fold_prefixes(acc, ps.subrange(0, k)), ps.subrange(k, ps.len() as int)),
    decreases ps.len(),
{
    if k == ps.len() {
        assert(ps.subrange(0, k) =~= ps);
        assert(ps.subrange(k, ps.len() as int).len() == 0);
    } else {
        lemma_fold_prefixes_split(acc, ps.drop_last(), k);
        assert(ps.drop_last().subrange(0, k) =~= ps.subrange(0, k));
        assert(ps.subrange(k, ps.len() as int).drop_last() =~= ps.drop_last().subrange(k, ps.drop_last().len() as int));
        assert(ps.subrange(k, ps.len() as int).last() == ps.last());
    }
}

/// Once the selectors' prefixes disagree, so do those of every longer prefix list.
proof fn lemma_fold_selectors_none(sels: Seq<Selector>, i: int)
    requires
        0 <= i <= sels.len(),
        fold_selector_prefixes(sels.subrange(0, i)) == None::<u8>,
    ensures
        fold_selector_prefixes(sels) == None::<u8>,
    decreases sels.len() - i,
{
    if i == sels.len() {
        assert(sels.subrange(0, i) =~= sels);
    } else {
        assert(sels.subrange(0, i + 1).drop_last() =~= sels.subrange(0, i));
        lemma_fold_prefixes_none(sels[i].component_prefixes@);
        lemma_fold_selectors_none(sels, i + 1);
    }
}

/// A disagreement in component `k - 1` of selector `i` gives the empty prefix.
proof fn lemma_fold_none_stays(sels: Seq<Selector>, i: int, k: int)
    requires
        0 <= i < sels.len(),
        1 <= k <= sels[i].component_prefixes@.len(),
        fold_prefixes(fold_selector_prefixes(sels.subrange(0, i)), sels[i].component_prefixes@.subrange(0, k)) == None::<u8>,
    ensures
        spec_get_prefix(sels) == 0,
{
    let ps = sels[i].component_prefixes@;
    lemma_fold_prefixes_split(fold_selector_prefixes(sels.subrange(0, i)), ps, k);
    lemma_fold_prefixes_none(ps.subrange(k, ps.len() as int));
    assert(sels.subrange(0, i + 1).drop_last() =~= sels.subrange(0, i));
    lemma_fold_selectors_none(sels, i + 1);
}

/// The prefixes that lowering the selectors for older browsers needs.
pub fn downlevel_selectors(selectors: &SelectorList, targets: &Targets) -> (r: VendorPrefix)
    ensures
        r.bits == spec_lowering_prefixes(selectors.v@),
{
    let mut acc: u8 = 0;
    let mut i: usize = 0;
    while i < selectors.v.len()
        invariant
            i <= selectors.v@.len(),
            spec_lowering_prefixes(selectors.v@.subrange(0, i as int)) == acc,
        decreases selectors.v@.len() - i,
    {
        acc = acc | selectors.v[i].lowering_prefixes.bits;
        assert(selectors.v@.subrange(0, i + 1).drop_last() =~= selectors.v@.subrange(0, i as int));
        i = i + 1;
    }
    assert(selectors.v@.subrange(0, selectors.v@.len() as int) =~= selectors.v@);
    VendorPrefix::from_bits(acc)
}

/// Whether the selectors can be written as they are for the targets.
pub fn is_compatible(selectors: &SelectorList, targets: &Targets) -> (r: bool)
    ensures
        r == spec_is_compatible(selectors.v@, *targets),
{
    if !targets.compile_selectors {
        return true;
    }
    let mut i: usize = 0;
    while i < selectors.v.len()
        invariant
            targets.compile_selectors,
            i <= selectors.v@.len(),
            forall|j: int| 0 <= j < i ==> (#[trigger] selectors.v@[j]).lowering_prefixes.bits == 0,
        decreases selectors.v@.len() - i,
    {
        if selectors.v[i].lowering_prefixes.bits != 0 {
            return false;
        }
        i = i + 1;
    }
    true
}

/// Whether one selector refers to an unused name or nests in an unused parent.
fn selector_unused(s: &Selector, unused: &Vec<Vec<u8>>, parent_is_unused: bool) -> (r: bool)
    ensures
        r == selector_is_unused(*s, byte_strings(unused@), parent_is_unused),
{
    let mut j: usize = 0;
    while j < s.names.len()
        invariant
            j <= s.names@.len(),
            forall|k: int| 0 <= k < j ==> !byte_strings(unused@).contains(#[trigger] s.names@[k]@),
        decreases s.names@.len() - j,
    {
        if contains_bytes(unused, s.names[j].as_slice()) {
            return true;
        }
        j = j + 1;
    }
    s.has_nesting && parent_is_unused
}

/// Whether a rule with these selectors can be dropped.
pub fn is_unused(selectors: &SelectorList, unused_symbols: &Vec<Vec<u8>>, parent_is_unused: bool) -> (r: bool)
    ensures
        r == spec_is_unused(selectors.v@, byte_strings(unused_symbols@), parent_is_unused),
{
    if unused_symbols.len() == 0 {
        return false;
    }
    let mut i: usize = 0;
    while i < selectors.v.len()
        invariant
            unused_symbols@.len() > 0,
            i <= selectors.v@.len(),
            forall|j: int| 0 <= j < i ==> selector_is_unused(#[trigger] selectors.v@[j], byte_strings(unused_symbols@), parent_is_unused),
        decreases selectors.v@.len() - i,
    {
        if !selector_unused(&selectors.v[i], unused_symbols, parent_is_unused) {
            return false;
        }
        i = i + 1;
    }
    true
}

/// Appends `text` with each `&` replaced by `ctx`.
fn append_replacing_nesting(out: &mut Vec<u8>, text: &[u8], ctx: &[u8])
    ensures
        final(out)@ == old(out)@ + replace_nesting(text@, ctx@),
{
    let mut i: usize = 0;
    while i < text.len()
        invariant
            i <= text@.len(),
            out@ == old(out)@ + replace_nesting(text@.subrange(0, i as int), ctx@),
        decreases text@.len() - i,
    {
        proof {
            assert(text@.subrange(0, i + 1).drop_last() =~= text@.subrange(0, i as int));
        }
        if text[i] == 38u8 {
            append_bytes(out, ctx);
        } else {
            out.push(text[i]);
        }
        proof {
            assert(out@ =~= old(out)@ + replace_nesting(text@.subrange(0, i + 1), ctx@));
        }
        i = i + 1;
    }
    proof {
        assert(text@.subrange(0, text@.len() as int) =~= text@);
    }
}

/// The view of an optional byte string.
pub open spec fn opt_bytes(o: Option<Vec<u8>>) -> Option<Seq<u8>> {
    match o {
        Some(v) => Some(v@),
        None => None,
    }
}

/// Appends a selector as it is written under the parent context `ctx`.
fn append_resolved(out: &mut Vec<u8>, sel: &Selector, ctx: &Option<Vec<u8>>)
    ensures
        final(out)@ == old(out)@ + resolved_text(*sel, opt_bytes(*ctx)),
{
    match ctx {
        None => {
            append_bytes(out, sel.text.as_slice());
        },
        Some(c) => {
            if sel.has_nesting {
                append_replacing_nesting(out, sel.text.as_slice(), c.as_slice());
            } else {
                let ghost start = out@;
                append_bytes(out, c.as_slice());
                out.push(32u8);
                append_bytes(out, sel.text.as_slice());
                assert(out@ =~= start + (c@ + seq![32u8] + sel.text@));
            }
        },
    }
}

/// Appends the selectors separated by commas, resolved against `ctx`.
fn append_selector_list(out: &mut Vec<u8>, selectors: &SelectorList, ctx: &Option<Vec<u8>>, minify: bool)
    ensures
        final(out)@ == old(out)@ + selector_list_text(selectors.v@, opt_bytes(*ctx), minify),
{
    let mut i: usize = 0;
    while i < selectors.v.len()
        invariant
            i <= selectors.v@.len(),
            out@ == old(out)@ + selector_list_text(selectors.v@.subrange(0, i as int), opt_bytes(*ctx), minify),
        decreases selectors.v@.len() - i,
    {
        proof {
            assert(selectors.v@.subrange(0, i + 1).drop_last() =~= selectors.v@.subrange(0, i as int));
        }
        let ghost before = out@;
        if i > 0 {
            out.push(44u8);
            if !minify {
                out.push(32u8);
            }
        }
        let ghost mid = out@;
        append_resolved(out, &selectors.v[i], ctx);
        proof {
            assert(mid =~= before + (if i + 1 > 1 {
                list_separator(minify)
            } else {
                Seq::empty()
            }));
            assert(out@ =~= old(out)@ + selector_list_text(selectors.v@.subrange(0, i + 1), opt_bytes(*ctx), minify));
        }
        i = i + 1;
    }
    proof {
        assert(selectors.v@.subrange(0, selectors.v@.len() as int) =~= selectors.v@);
    }
}

/// How the selectors are written as the parent of rules written after them.
pub fn context_bytes(selectors: &SelectorList, ctx: &Option<Vec<u8>>, minify: bool) -> (r: Vec<u8>)
    ensures
        r@ == context_text(selectors.v@, opt_bytes(*ctx), minify),
{
    let mut out: Vec<u8> = Vec::new();
    if selectors.v.len() == 1 {
        append_resolved(&mut out, &selectors.v[0], ctx);
        assert(out@ =~= context_text(selectors.v@, opt_bytes(*ctx), minify));
    } else {
        out.push(58u8);
        out.push(105u8);
        out.push(115u8);
        out.push(40u8);
        append_selector_list(&mut out, selectors, ctx, minify);
        out.push(41u8);
        assert(out@ =~= context_text(selectors.v@, opt_bytes(*ctx), minify));
    }
    out
}

/// Writes the selectors, separated by commas, each resolved against the
/// printer's parent context.
pub fn serialize_selector_list(selectors: &SelectorList, dest: &mut Printer)
    ensures
        final(dest)@ == selectors_css(selectors.v@, old(dest)@),
        final(dest).indent == old(dest).indent,
        final(dest).minify == old(dest).minify,
        final(dest).targets == old(dest).targets,
{
    let mut buf: Vec<u8> = Vec::new();
    append_selector_list(&mut buf, selectors, &dest.context, dest.minify);
    assert(opt_bytes(dest.context) == dest@.context);
    dest.write_bytes(buf.as_slice());
}

/// Appends the bytes that stand for the selectors in a rule's hash.
pub fn append_selectors_hash_bytes(selectors: &SelectorList, buf: &mut Vec<u8>)
    ensures
        final(buf)@ == old(buf)@ + selectors_hash_bytes(selectors.v@),
{
    let mut i: usize = 0;
    while i < selectors.v.len()
        invariant
            i <= selectors.v@.len(),
            buf@ == old(buf)@ + selectors_hash_bytes(selectors.v@.subrange(0, i as int)),
        decreases selectors.v@.len() - i,
    {
        proof {
            assert(selectors.v@.subrange(0, i + 1).drop_last() =~= selectors.v@.subrange(0, i as int));
        }
        append_bytes(buf, selectors.v[i].text.as_slice());
        proof {
            assert(buf@ =~= old(buf)@ + selectors_hash_bytes(selectors.v@.subrange(0, i + 1)));
        }
        i = i + 1;
    }
    proof {
        assert(selectors.v@.subrange(0, selectors.v@.len() as int) =~= selectors.v@);
    }
}

/// Selector lists with the same texts are hashed from the same bytes.
pub proof fn lemma_selectors_hash_bytes_texts(a: Seq<Selector>, b: Seq<Selector>)
    requires
        selector_texts(a) == selector_texts(b),
    ensures
        selectors_hash_bytes(a) == selectors_hash_bytes(b),
    decreases a.len(),
{
    assert(selector_texts(a).len() == a.len());
    assert(selector_texts(b).len() == b.len());
    if a.len() > 0 {
        assert(selector_texts(a.drop_last()) =~= selector_texts(a).drop_last());
        assert(selector_texts(b.drop_last()) =~= selector_texts(b).drop_last());
        assert(selector_texts(a)[a.len() - 1] == a.last().text@);
        assert(selector_texts(b)[b.len() - 1] == b.last().text@);
        lemma_selectors_hash_bytes_texts(a.drop_last(), b.drop_last());
    }
}

/// A selector list is compatible with the targets exactly when each of its
/// selectors is on its own: joining two lists is compatible exactly when
/// both are, and a selector that needs lowering makes any list holding it
/// incompatible with targets that compile selectors.
pub proof fn lemma_compatible_selector_by_selector(a: Seq<Selector>, b: Seq<Selector>, targets: Targets)
    ensures
        spec_is_compatible(a + b, targets) == (spec_is_compatible(a, targets) && spec_is_compatible(b, targets)),
        spec_is_compatible(a, targets) == forall|i: int|
            0 <= i < a.len() ==> #[trigger] spec_is_compatible(seq![a[i]], targets),
        forall|i: int|
            0 <= i < a.len() && targets.compile_selectors && a[i].lowering_prefixes.bits != 0
                ==> !spec_is_compatible(#[trigger] (a + b), targets) && !spec_is_compatible(b + a, targets),
{
    if targets.compile_selectors {
        if spec_is_compatible(a, targets) && spec_is_compatible(b, targets) {
            assert forall|i: int| 0 <= i < (a + b).len() implies (#[trigger] (a + b)[i]).lowering_prefixes.bits
                == 0 by {
                if i < a.len() {
                    assert((a + b)[i] == a[i]);
                } else {
                    assert((a + b)[i] == b[i - a.len()]);
                }
            }
        }
        if spec_is_compatible(a + b, targets) {
            assert forall|i: int| 0 <= i < a.len() implies (#[trigger] a[i]).lowering_prefixes.bits == 0 by {
                assert((a + b)[i] == a[i]);
            }
            assert forall|i: int| 0 <= i < b.len() implies (#[trigger] b[i]).lowering_prefixes.bits == 0 by {
                assert((a + b)[a.len() + i] == b[i]);
            }
        }
        assert forall|i: int|
            0 <= i < a.len() && targets.compile_selectors && a[i].lowering_prefixes.bits != 0 implies !spec_is_compatible(
            #[trigger] (a + b),
            targets,
        ) && !spec_is_compatible(b + a, targets) by {
            assert((a + b)[i] == a[i]);
            assert((b + a)[b.len() + i] == a[i]);
        }
        if forall|i: int| 0 <= i < a.len() ==> #[trigger] spec_is_compatible(seq![a[i]], targets) {
            assert forall|i: int| 0 <= i < a.len() implies (#[trigger] a[i]).lowering_prefixes.bits == 0 by {
                assert(spec_is_compatible(seq![a[i]], targets));
                assert(seq![a[i]][0] == a[i]);
            }
        }
        if spec_is_compatible(a, targets) {
            assert forall|i: int| 0 <= i < a.len() implies #[trigger] spec_is_compatible(seq![a[i]], targets) by {
                assert forall|j: int| 0 <= j < seq![a[i]].len() implies (#[trigger] seq![a[i]][j]).lowering_prefixes.bits
                    == 0 by {
                    assert(seq![a[i]][j] == a[i]);
                }
            }
        }
    }
}

/// Whether `q` is one vendor prefix other than `NONE`.
pub open spec fn is_single_prefix(q: u8) -> bool {
    q == 2u8 || q == 4u8 || q == 8u8 || q == 16u8
}

/// Whether every component of every selector is unprefixed or has the
/// prefix `q`.
pub open spec fn only_prefix(sels: Seq<Selector>, q: u8) -> bool {
    forall|i: int, j: int|
        0 <= i < sels.len() && 0 <= j < sels[i].component_prefixes@.len() ==> #[trigger] sels[i].component_prefixes@[j].bits
            == 0 || sels[i].component_prefixes@[j].bits == q
}

/// Whether some component of some selector has the prefix `q`.
pub open spec fn some_prefix(sels: Seq<Selector>, q: u8) -> bool {
    exists|i: int, j: int|
        0 <= i < sels.len() && 0 <= j < sels[i].component_prefixes@.len() && #[trigger] sels[i].component_prefixes@[j].bits
            == q
}

proof fn lemma_prefix_bits(q: u8)
    requires
        is_single_prefix(q),
    ensures
        q & 0xfeu8 == q,
        q | q == q,
        0u8 | q == q,
        0u8 & 0xfeu8 == 0u8,
{
    assert(q == 2u8 || q == 4u8 || q == 8u8 || q == 16u8 ==> q & 0xfeu8 == q && q | q == q && 0u8 | q == q
        && 0u8 & 0xfeu8 == 0u8) by (bit_vector);
}

/// Folding components that are unprefixed or have the prefix `q`.
proof fn lemma_fold_one_prefix(a: u8, ps: Seq<VendorPrefix>, q: u8)
    requires
        is_single_prefix(q),
        a == 0u8 || a == q,
        forall|j: int| 0 <= j < ps.len() ==> #[trigger] ps[j].bits == 0 || ps[j].bits == q,
    ensures
        fold_prefixes(Some(a), ps) == Some::<u8>(
            if a == q || exists|j: int| 0 <= j < ps.len() && #[trigger] ps[j].bits == q {
                q
            } else {
                0u8
            },
        ),
    decreases ps.len(),
{
    lemma_prefix_bits(q);
    if ps.len() > 0 {
        let rest = ps.drop_last();
        lemma_fold_one_prefix(a, rest, q);
        assert forall|j: int| 0 <= j < rest.len() implies (#[trigger] rest[j]).bits == ps[j].bits by {}
        if exists|j: int| 0 <= j < rest.len() && #[trigger] rest[j].bits == q {
            let j = choose|j: int| 0 <= j < rest.len() && #[trigger] rest[j].bits == q;
            assert(ps[j].bits == q);
        }
        if exists|j: int| 0 <= j < ps.len() && #[trigger] ps[j].bits == q {
            let j = choose|j: int| 0 <= j < ps.len() && #[trigger] ps[j].bits == q;
            if j < ps.len() - 1 {
                assert(rest[j].bits == q);
            }
        }
        assert(ps.last().bits == ps[ps.len() - 1].bits);
    }
}

/// When every prefixed component of a selector list has the same prefix
/// `q`, however often it occurs, the list is written for `q`; with no
/// prefixed component it is written for no prefix.
pub proof fn lemma_get_prefix_one_prefix(sels: Seq<Selector>, q: u8)
    requires
        is_single_prefix(q),
        only_prefix(sels, q),
    ensures
        spec_get_prefix(sels) == (if some_prefix(sels, q) {
            q
        } else {
            0u8
        }),
    decreases sels.len(),
{
    lemma_prefix_bits(q);
    if sels.len() > 0 {
        let rest = sels.drop_last();
        assert forall|i: int, j: int|
            0 <= i < rest.len() && 0 <= j < rest[i].component_prefixes@.len() implies #[trigger] rest[i].component_prefixes@[j].bits
            == 0 || rest[i].component_prefixes@[j].bits == q by {
            assert(rest[i] == sels[i]);
        }
        lemma_get_prefix_one_prefix(rest, q);
        let acc = fold_selector_prefixes(rest);
        assert(acc == Some(spec_get_prefix(rest))) by {
            lemma_fold_selector_some(rest, q);
        }
        let last = sels.last();
        let ps = last.component_prefixes@;
        assert forall|j: int| 0 <= j < ps.len() implies #[trigger] ps[j].bits == 0 || ps[j].bits == q by {
            assert(sels[sels.len() - 1] == last);
        }
        lemma_fold_one_prefix(spec_get_prefix(rest), ps, q);
        if some_prefix(sels, q) {
            let (i, j) = choose|i: int, j: int|
                0 <= i < sels.len() && 0 <= j < sels[i].component_prefixes@.len() && #[trigger] sels[i].component_prefixes@[j].bits
                    == q;
            if i < sels.len() - 1 {
                assert(rest[i] == sels[i]);
                assert(rest[i].component_prefixes@[j].bits == q);
                assert(some_prefix(rest, q));
            } else {
                assert(ps[j].bits == q);
            }
        } else {
            if some_prefix(rest, q) {
                let (i, j) = choose|i: int, j: int|
                    0 <= i < rest.len() && 0 <= j < rest[i].component_prefixes@.len() && #[trigger] rest[i].component_prefixes@[j].bits
                        == q;
                assert(rest[i] == sels[i]);
                assert(sels[i].component_prefixes@[j].bits == q);
            }
            if exists|j: int| 0 <= j < ps.len() && #[trigger] ps[j].bits == q {
                let j = choose|j: int| 0 <= j < ps.len() && #[trigger] ps[j].bits == q;
                assert(sels[sels.len() - 1].component_prefixes@[j].bits == q);
            }
        }
    }
}

/// With only unprefixed components and components of one prefix, the
/// collected prefixes never disagree.
proof fn lemma_fold_selector_some(sels: Seq<Selector>, q: u8)
    requires
        is_single_prefix(q),
        only_prefix(sels, q),
    ensures
        fold_selector_prefixes(sels) == Some(spec_get_prefix(sels)),
        spec_get_prefix(sels) == 0u8 || spec_get_prefix(sels) == q,
    decreases sels.len(),
{
    if sels.len() > 0 {
        let rest = sels.drop_last();
        assert forall|i: int, j: int|
            0 <= i < rest.len() && 0 <= j < rest[i].component_prefixes@.len() implies #[trigger] rest[i].component_prefixes@[j].bits
            == 0 || rest[i].component_prefixes@[j].bits == q by {
            assert(rest[i] == sels[i]);
        }
        lemma_fold_selector_some(rest, q);
        let ps = sels.last().component_prefixes@;
        assert forall|j: int| 0 <= j < ps.len() implies #[trigger] ps[j].bits == 0 || ps[j].bits == q by {
            assert(sels[sels.len() - 1] == sels.last());
        }
        lemma_fold_one_prefix(spec_get_prefix(rest), ps, q);
    }
}

} // verus!
