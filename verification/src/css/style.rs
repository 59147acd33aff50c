//! Style rules: selectors with a block of declarations and nested rules.

use vstd::prelude::*;
use crate::bytes::byte_strings;
use crate::css::declaration::{
    keep_last, property_css, property_views, view_property_id, DeclarationBlock, Property, PropertyView,
};
use crate::css::prefix::{prefix_fields, Location, VendorPrefix, PREFIX_NONE};
use crate::css::printer::{
    composes_outcome, PrintErr, Printer, PrinterErrorKind, PrinterView, Targets, ToCss,
};
use crate::css::rules::{
    max_depth, rule_separator, rules_minified, CssRuleList, DeclarationContext, MinifyContext, MinifyErr,
    MinifyRule, PropertyHandlerContext,
};
use crate::css::selector::{
    context_bytes, context_text, downlevel_selectors, get_prefix, is_compatible, is_unused, opt_bytes,
    selector_texts, serialize_selector_list,
    selectors_css, spec_get_prefix, spec_is_compatible, spec_is_unused, spec_lowering_prefixes, SelectorList,
};
use crate::css::selector::{append_selectors_hash_bytes, lemma_selectors_hash_bytes_texts, selectors_hash_bytes};
use crate::hashing::{native_bytes, spec_wyhash, u16_le, u16_ne_bytes, wyhash_bytes};
use crate::memory::Arena;

verus! {

/// A style rule.
pub struct StyleRule<R> {
    /// The selectors for the style rule.
    pub selectors: SelectorList,
    /// A vendor prefix override, used during selector printing.
    pub vendor_prefix: VendorPrefix,
    /// The declarations within the style rule.
    pub declarations: DeclarationBlock,
    /// Nested rules within the style rule.
    pub rules: CssRuleList<R>,
    /// The location of the rule in the source file.
    pub loc: Location,
}

/// Whether `a` and `b` are as long and their declarations at the same
/// positions set the same properties.
pub open spec fn same_properties(a: Seq<PropertyView>, b: Seq<PropertyView>) -> bool {
    &&& a.len() == b.len()
    &&& forall|i: int| 0 <= i < a.len() ==> view_property_id(a[i]) == view_property_id(b[i])
}

/// The vendor prefix that `update_prefix` gives a rule with these selectors.
pub open spec fn updated_prefix(sels: Seq<crate::css::selector::Selector>, targets: Targets) -> u8 {
    let p = spec_get_prefix(sels);
    if p & PREFIX_NONE == PREFIX_NONE && targets.compile_selectors {
        spec_lowering_prefixes(sels)
    } else {
        p
    }
}

impl<R> StyleRule<R> {
    /// The number of declarations, ordinary and important.
    pub open spec fn decl_count(&self) -> int {
        (self.declarations.declarations@.len() + self.declarations.important_declarations@.len()) as int
    }

    /// Whether the rule prints nothing: it has no selector, or neither
    /// declarations nor nested rules.
    pub open spec fn spec_is_empty(&self) -> bool {
        self.selectors.v@.len() == 0 || (self.decl_count() == 0 && self.rules.v@.len() == 0)
    }

    /// Whether `other` has the same selectors and sets the same properties
    /// in the same order, ordinary and important ones alike.
    pub open spec fn spec_is_duplicate(&self, other: &Self) -> bool {
        &&& selector_texts(self.selectors.v@) == selector_texts(other.selectors.v@)
        &&& same_properties(
            property_views(self.declarations.declarations@),
            property_views(other.declarations.declarations@),
        )
        &&& same_properties(
            property_views(self.declarations.important_declarations@),
            property_views(other.declarations.important_declarations@),
        )
    }

    /// Returns whether the rule is empty.
    pub fn is_empty(&self) -> (r: bool)
        ensures
            r == self.spec_is_empty(),
    {
        self.selectors.v.len() == 0 || (self.declarations.is_empty() && self.rules.v.len() == 0)
    }

    /// Returns whether this rule is a duplicate of another rule.
    /// This means it has the same selectors and properties.
    pub fn is_duplicate(&self, other: &Self) -> (r: bool)
        ensures
            r == self.spec_is_duplicate(other),
    {
        if !self.selectors.eql(&other.selectors) {
            return false;
        }
        if !same_property_ids(&self.declarations.declarations, &other.declarations.declarations) {
            return false;
        }
        same_property_ids(
            &self.declarations.important_declarations,
            &other.declarations.important_declarations,
        )
    }

    /// Sets the vendor prefix from the selectors, lowering them for older
    /// browsers when the targets ask for it.
    pub fn update_prefix(&mut self, context: &mut MinifyContext)
        ensures
            final(self).vendor_prefix.bits == updated_prefix(old(self).selectors.v@, old(context).targets),
            final(self).selectors == old(self).selectors,
            final(self).declarations == old(self).declarations,
            final(self).rules == old(self).rules,
            final(self).loc == old(self).loc,
            *final(context) == *old(context),
    {
        self.vendor_prefix = get_prefix(&self.selectors);
        if self.vendor_prefix.contains(VendorPrefix::from_bits(PREFIX_NONE))
            && context.targets.should_compile_selectors() {
            self.vendor_prefix = downlevel_selectors(&self.selectors, &context.targets);
        }
    }

    /// Whether the selectors can be written as they are for the targets.
    pub fn is_compatible(&self, targets: &Targets) -> (r: bool)
        ensures
            r == spec_is_compatible(self.selectors.v@, *targets),
    {
        is_compatible(&self.selectors, targets)
    }

    /// Minifies the rule. `Ok(true)` means that the rule can be removed: its
    /// selectors are all unused and no nested rule remains.
    pub fn minify(&mut self, context: &mut MinifyContext, parent_is_unused: bool) -> (r: Result<bool, MinifyErr>) where
        R: MinifyRule,
        ensures
            old(self).spec_minified(*final(self), *old(context), *final(context), parent_is_unused, r),
    {
        let mut unused = false;
        if context.unused_symbols.len() > 0 {
            if is_unused(&self.selectors, &context.unused_symbols, parent_is_unused) {
                if self.rules.v.len() == 0 {
                    return Ok(true);
                }
                self.declarations.declarations.clear();
                self.declarations.important_declarations.clear();
                unused = true;
            }
        }
        context.handler_context.context = DeclarationContext::StyleRule;
        self.declarations.minify();
        context.handler_context.context = DeclarationContext::Plain;
        proof {
            assert(self.declarations.declarations@ == keep_last(
                if unused { Seq::empty() } else { old(self).declarations.declarations@ },
            ));
            assert(self.declarations.important_declarations@ == keep_last(
                if unused { Seq::empty() } else { old(self).declarations.important_declarations@ },
            ));
            assert(unused == spec_is_unused(
                old(self).selectors.v@,
                byte_strings(old(context).unused_symbols@),
                parent_is_unused,
            ));
            assert(*context == with_handler_context(*old(context), DeclarationContext::Plain));
        }
        if self.rules.v.len() > 0 {
            let mut handler_context = context.handler_context.child(DeclarationContext::StyleRule);
            std::mem::swap(&mut context.handler_context, &mut handler_context);
            let ghost cin = *context;
            let ghost rules_before = self.rules.v@;
            assert(cin == with_handler_context(*old(context), DeclarationContext::StyleRule));
            let lr = self.rules.minify(context, unused);
            let ghost cmid = *context;
            assert(rules_minified(rules_before, self.rules.v@, cin, cmid, unused, lr));
            match lr {
                Ok(()) => {},
                Err(e) => {
                    return Err(e);
                },
            }
            std::mem::swap(&mut context.handler_context, &mut handler_context);
            assert(*context == with_handler_context(cmid, DeclarationContext::Plain));
            if unused && self.rules.v.len() == 0 {
                return Ok(true);
            }
        }
        Ok(false)
    }

    /// A copy of the rule.
    pub fn deep_clone(&self, _bump: &Arena) -> (r: Self) where R: Clone
        ensures
            r.selectors@ == self.selectors@,
            selector_texts(r.selectors.v@) == selector_texts(self.selectors.v@),
            r.vendor_prefix == self.vendor_prefix,
            property_views(r.declarations.declarations@) == property_views(self.declarations.declarations@),
            property_views(r.declarations.important_declarations@) == property_views(
                self.declarations.important_declarations@,
            ),
            r.rules.v@.len() == self.rules.v@.len(),
            forall|i: int| 0 <= i < self.rules.v@.len() ==> cloned::<R>(self.rules.v@[i], r.rules.v@[i]),
            r.loc == self.loc,
            r.spec_is_duplicate(self),
    {
        let r = StyleRule {
            selectors: self.selectors.deep_clone(),
            vendor_prefix: self.vendor_prefix,
            declarations: self.declarations.deep_clone(),
            rules: CssRuleList { v: self.rules.v.clone() },
            loc: self.loc,
        };
        proof {
            assert(property_views(r.declarations.declarations@).len() == r.declarations.declarations@.len());
            assert(property_views(self.declarations.declarations@).len() == self.declarations.declarations@.len());
            assert(property_views(r.declarations.important_declarations@).len()
                == r.declarations.important_declarations@.len());
            assert(property_views(self.declarations.important_declarations@).len()
                == self.declarations.important_declarations@.len());
        }
        r
    }
}

/// The tags one after the other, two bytes each in the machine's byte order.
pub open spec fn native_tags(tags: Seq<u16>) -> Seq<u8>
    decreases tags.len(),
{
    if tags.len() == 0 {
        Seq::empty()
    } else {
        native_tags(tags.drop_last()) + native_bytes(u16_le(tags.last()))
    }
}

/// The property tags of a sequence of declarations.
pub open spec fn property_tags(list: Seq<PropertyView>) -> Seq<u16> {
    list.map_values(|d: PropertyView| view_property_id(d).tag)
}

/// The tags of two lists, written one list after the other.
proof fn lemma_native_tags_concat(a: Seq<u16>, b: Seq<u16>)
    ensures
        native_tags(a + b) == native_tags(a) + native_tags(b),
    decreases b.len(),
{
    if b.len() == 0 {
        assert(a + b =~= a);
        assert(native_tags(a) + native_tags(b) =~= native_tags(a));
    } else {
        lemma_native_tags_concat(a, b.drop_last());
        assert((a + b).drop_last() =~= a + b.drop_last());
        assert((a + b).last() == b.last());
        assert(native_tags(a + b) =~= native_tags(a) + native_tags(b));
    }
}

impl<R> StyleRule<R> {
    /// What a rule's hash is taken of: its selectors, then the property tag
    /// of each declaration, ordinary and important, in the machine's byte
    /// order.
    pub open spec fn hash_input(&self) -> Seq<u8> {
        selectors_hash_bytes(self.selectors.v@) + native_tags(
            property_tags(property_views(self.declarations.declarations@)) + property_tags(
                property_views(self.declarations.important_declarations@),
            ),
        )
    }

    /// The hash key of the rule.
    pub open spec fn spec_hash_key(&self) -> u64 {
        spec_wyhash(self.hash_input(), 0)
    }

    /// Returns a hash of this rule for use when deduplicating.
    /// Includes the selectors and properties.
    pub fn hash_key(&self) -> (r: u64)
        ensures
            r == self.spec_hash_key(),
    {
        let mut buf: Vec<u8> = Vec::new();
        append_selectors_hash_bytes(&self.selectors, &mut buf);
        append_tag_bytes(&self.declarations.declarations, &mut buf);
        append_tag_bytes(&self.declarations.important_declarations, &mut buf);
        proof {
            let t1 = property_tags(property_views(self.declarations.declarations@));
            let t2 = property_tags(property_views(self.declarations.important_declarations@));
            lemma_native_tags_concat(t1, t2);
            assert(buf@ =~= self.hash_input());
        }
        wyhash_bytes(buf.as_slice(), 0)
    }
}

/// Appends the property tag of each declaration in the machine's byte order.
fn append_tag_bytes(list: &Vec<Property>, buf: &mut Vec<u8>)
    ensures
        final(buf)@ == old(buf)@ + native_tags(property_tags(property_views(list@))),
{
    let ghost tags = property_tags(property_views(list@));
    let mut i: usize = 0;
    while i < list.len()
        invariant
            i <= list@.len(),
            tags == property_tags(property_views(list@)),
            buf@ == old(buf)@ + native_tags(tags.subrange(0, i as int)),
        decreases list@.len() - i,
    {
        let b = u16_ne_bytes(list[i].property_id().tag);
        buf.push(b[0]);
        buf.push(b[1]);
        proof {
            assert(tags[i as int] == list@[i as int].property_id_view().tag) by {
                assert(property_views(list@)[i as int] == list@[i as int]@);
            }
            assert(tags.subrange(0, i + 1).drop_last() =~= tags.subrange(0, i as int));
            assert(tags.subrange(0, i + 1).last() == tags[i as int]);
            assert(b@.len() == 2);
            assert(buf@ =~= old(buf)@ + native_tags(tags.subrange(0, i + 1)));
        }
        i = i + 1;
    }
    proof {
        assert(tags.subrange(0, list@.len() as int) =~= tags);
    }
}

/// Whether the declarations at the same positions set the same properties.
fn same_property_ids(a: &Vec<Property>, b: &Vec<Property>) -> (r: bool)
    ensures
        r == same_properties(property_views(a@), property_views(b@)),
{
    if a.len() != b.len() {
        return false;
    }
    let len = a.len();
    let mut i: usize = 0;
    while i < len
        invariant
            len == a@.len(),
            len == b@.len(),
            i <= len,
            forall|j: int| 0 <= j < i ==> view_property_id(property_views(a@)[j]) == view_property_id(
                property_views(b@)[j],
            ),
        decreases len - i,
    {
        if a[i].property_id() != b[i].property_id() {
            assert(property_views(a@)[i as int] == a@[i as int]@);
            assert(property_views(b@)[i as int] == b@[i as int]@);
            return false;
        }
        i = i + 1;
    }
    true
}


/// Writes the line break between a rule's block and its nested rules.
fn write_nested_newline(dest: &mut Printer, supports_nesting: bool, len: u128, has_rules: bool)
    ensures
        final(dest)@ == nested_newline(old(dest)@, supports_nesting, len as int, has_rules),
{
    if !dest.minify && (supports_nesting || len > 0) && has_rules {
        if len > 0 {
            dest.write_char(10u8);
        }
        dest.newline();
    }
}

/// Closes a rule's block, when one was opened.
fn write_block_end(dest: &mut Printer, has_declarations: bool)
    requires
        has_declarations ==> old(dest).indent >= 2,
    ensures
        final(dest)@ == block_end(old(dest)@, has_declarations),
{
    if has_declarations {
        dest.dedent();
        dest.newline();
        dest.write_char(125u8);
    }
}

/// The line break between a rule's block and its nested rules.
pub open spec fn nested_newline(p: PrinterView, supports_nesting: bool, len: int, has_rules: bool) -> PrinterView {
    if !p.minify && (supports_nesting || len > 0) && has_rules {
        (if len > 0 {
            p.write(seq![10u8])
        } else {
            p
        }).newline()
    } else {
        p
    }
}

/// The end of a rule's block: one indentation level less, a new line and `}`.
pub open spec fn block_end(p: PrinterView, has_declarations: bool) -> PrinterView {
    if has_declarations {
        p.with_indent((p.indent - 2) as nat).newline().write(seq![125u8])
    } else {
        p
    }
}

impl<R: ToCss> StyleRule<R> {
    /// Whether nested rules stay nested: there are none, or the targets
    /// support nesting.
    pub open spec fn keeps_nesting(&self, p: PrinterView) -> bool {
        self.rules.v@.len() == 0 || !p.targets.compile_nesting
    }

    /// Whether the rule writes its own block.
    pub open spec fn writes_block(&self, p: PrinterView) -> bool {
        self.keeps_nesting(p) || self.decl_count() > 0 || self.rules.v@.len() == 0
    }

    /// One declaration on a line of its own, with the semicolon unless it is
    /// the last one of a minified block that nothing follows.
    pub open spec fn decl_step(&self, d: PropertyView, important: bool, i: int, sn: bool, p: PrinterView) -> PrinterView {
        let q = property_css(d, important, p.newline());
        if i != self.decl_count() - 1 || !p.minify || (sn && self.rules.v@.len() > 0) {
            q.write(seq![59u8])
        } else {
            q
        }
    }

    /// The printer state and the count of written declarations after
    /// declarations `k..` of `list`, with `i` written before. In a CSS module a
    /// `composes` declaration is not written: it is recorded, and refused in a
    /// nested rule.
    pub open spec fn decls_css(
        &self,
        list: Seq<PropertyView>,
        important: bool,
        k: int,
        i: int,
        sn: bool,
        p: PrinterView,
    ) -> Result<(PrinterView, int), (PrintErr, PrinterView)>
        decreases list.len() - k,
    {
        if k < 0 || k >= list.len() {
            Ok((p, i))
        } else {
            match list[k] {
                PropertyView::Composes(names, loc) => if p.css_module is Some {
                    if p.is_nested() {
                        Err((PrintErr { kind: PrinterErrorKind::InvalidComposesNesting, loc: Some(loc) }, p))
                    } else {
                        match composes_outcome(self.selectors.v@, names, self.loc.source_index, p.css_module->0) {
                            Ok(m) => self.decls_css(list, important, k + 1, i, sn, p.with_css_module(Some(m))),
                            Err((kind, m)) => Err((PrintErr { kind, loc: Some(loc) }, p.with_css_module(Some(m)))),
                        }
                    }
                } else {
                    self.decls_css(list, important, k + 1, i + 1, sn, self.decl_step(list[k], important, i, sn, p))
                },
                _ => self.decls_css(list, important, k + 1, i + 1, sn, self.decl_step(list[k], important, i, sn, p)),
            }
        }
    }

    /// The start of the block: the selectors, `{`, one more indentation level.
    pub open spec fn block_head(&self, p: PrinterView) -> PrinterView {
        let q = selectors_css(self.selectors.v@, p).whitespace().write(seq![123u8]);
        q.with_indent(q.indent + 2)
    }

    /// The block up to its last declaration.
    pub open spec fn block_css(&self, p: PrinterView) -> Result<PrinterView, (PrintErr, PrinterView)> {
        let sn = self.keeps_nesting(p);
        match self.decls_css(property_views(self.declarations.declarations@), false, 0, 0, sn, self.block_head(p)) {
            Ok((q, i)) => match self.decls_css(
                property_views(self.declarations.important_declarations@),
                true,
                0,
                i,
                sn,
                q,
            ) {
                Ok((q2, _)) => Ok(q2),
                Err(e) => Err(e),
            },
            Err(e) => Err(e),
        }
    }

    /// The rule written once for the printer's current vendor prefix. Nested
    /// rules go inside the block when nesting is kept, and after it, in the
    /// context of this rule, when it is compiled away.
    pub open spec fn base_css(&self, p: PrinterView) -> Result<PrinterView, (PrintErr, PrinterView)> {
        let sn = self.keeps_nesting(p);
        let hd = self.writes_block(p);
        let has_rules = self.rules.v@.len() > 0;
        let head = if hd {
            self.block_css(p)
        } else {
            Ok(p)
        };
        match head {
            Err(e) => Err(e),
            Ok(q) => if sn {
                match self.rules.css(nested_newline(q, sn, self.decl_count(), has_rules)) {
                    Ok(q2) => Ok(block_end(q2, hd)),
                    Err(e) => Err(e),
                }
            } else {
                let q1 = nested_newline(block_end(q, hd), sn, self.decl_count(), has_rules);
                let ctx = context_text(self.selectors.v@, q1.context, q1.minify);
                match self.rules.css(q1.with_context(Some(ctx))) {
                    Ok(q2) => Ok(q2.with_context(q1.context)),
                    Err((e, q2)) => Err((e, q2.with_context(q1.context))),
                }
            },
        }
    }

    /// The rule written for each of its vendor prefixes from field `j` on.
    pub open spec fn prefixes_css(&self, j: int, first: bool, p: PrinterView) -> Result<
        PrinterView,
        (PrintErr, PrinterView),
    >
        decreases 5 - j,
    {
        if j < 0 || j >= 5 {
            Ok(p.with_prefix(VendorPrefix { bits: 0 }))
        } else {
            let f = prefix_fields()[j];
            if self.vendor_prefix.bits & f == f {
                let p1 = if first {
                    p
                } else {
                    rule_separator(p)
                };
                match self.base_css(p1.with_prefix(VendorPrefix { bits: f })) {
                    Ok(p2) => self.prefixes_css(j + 1, false, p2),
                    Err(e) => Err(e),
                }
            } else {
                self.prefixes_css(j + 1, first, p)
            }
        }
    }

    /// The printer state after writing the rule: once, or once per vendor
    /// prefix of the rule (separated by blank lines), after which the
    /// printer's prefix is cleared.
    pub open spec fn rule_css(&self, p: PrinterView) -> Result<PrinterView, (PrintErr, PrinterView)> {
        if self.vendor_prefix.bits == 0 {
            self.base_css(p)
        } else {
            self.prefixes_css(0, true, p)
        }
    }

    /// How much indentation printing the rule may add, as a bound.
    pub open spec fn rule_depth(&self) -> nat {
        2 + max_depth(self.rules.v@)
    }

    /// Writes the declarations of `list`, continuing the count `i`.
    fn print_declarations(
        &self,
        list: &Vec<Property>,
        important: bool,
        i_start: u128,
        len: u128,
        supports_nesting: bool,
        dest: &mut Printer,
    ) -> (r: Result<u128, PrintErr>)
        requires
            len == self.decl_count(),
            i_start + list@.len() <= len,
            supports_nesting == self.keeps_nesting(old(dest)@),
        ensures
            final(dest).minify == old(dest).minify,
            final(dest).targets == old(dest).targets,
            final(dest)@.context == old(dest)@.context,
            final(dest).indent == old(dest).indent,
            r matches Ok(x) ==> x <= i_start + list@.len(),
            match self.decls_css(property_views(list@), important, 0, i_start as int, supports_nesting, old(dest)@) {
                Ok((p, i2)) => r matches Ok(x) && x == i2 && final(dest)@ == p,
                Err((e, q)) => r == Err::<u128, PrintErr>(e) && final(dest)@ == q,
            },
    {
        let ghost views = property_views(list@);
        let ghost start = dest@;
        let mut i = i_start;
        let mut k: usize = 0;
        while k < list.len()
            invariant
                k <= list@.len(),
                views == property_views(list@),
                start == old(dest)@,
                len == self.decl_count(),
                i + (list@.len() - k) <= len,
                i <= i_start + k,
                supports_nesting == self.keeps_nesting(dest@),
                dest.minify == old(dest).minify,
                dest.targets == old(dest).targets,
                dest@.context == old(dest)@.context,
                dest.indent == old(dest).indent,
                self.decls_css(views, important, 0, i_start as int, supports_nesting, start)
                    == self.decls_css(views, important, k as int, i as int, supports_nesting, dest@),
            decreases list@.len() - k,
        {
            assert(views[k as int] == list@[k as int]@);
            match &list[k] {
                Property::Composes(c) => {
                    if dest.css_module.is_some() {
                        if dest.is_nested() {
                            return dest.new_error(PrinterErrorKind::InvalidComposesNesting, Some(c.loc));
                        }
                        let res = match dest.css_module.take() {
                            Some(mut m) => {
                                let res = m.handle_composes(&self.selectors, c, self.loc.source_index);
                                dest.css_module = Some(m);
                                res
                            },
                            None => Ok(()),
                        };
                        match res {
                            Err(kind) => {
                                return dest.new_error(kind, Some(c.loc));
                            },
                            Ok(()) => {},
                        }
                        k = k + 1;
                        continue ;
                    }
                },
                Property::Declared(_) => {},
            }
            dest.newline();
            list[k].to_css(dest, important);
            if i != len - 1 || !dest.minify || (supports_nesting && self.rules.v.len() > 0) {
                dest.write_char(59u8);
            }
            i = i + 1;
            k = k + 1;
        }
        Ok(i)
    }

    /// Writes the rule once, for the printer's current vendor prefix.
    fn to_css_base(&self, dest: &mut Printer) -> (r: Result<(), PrintErr>)
        requires
            old(dest).indent + self.rule_depth() <= usize::MAX,
        ensures
            final(dest).minify == old(dest).minify,
            final(dest).targets == old(dest).targets,
            final(dest)@.context == old(dest)@.context,
            r is Ok ==> final(dest).indent == old(dest).indent,
            match self.base_css(old(dest)@) {
                Ok(p) => r is Ok && final(dest)@ == p,
                Err((e, q)) => r == Err::<(), PrintErr>(e) && final(dest)@ == q,
            },
    {
        let supports_nesting = self.rules.v.len() == 0 || !dest.targets.should_compile_nesting();
        let len: u128 = self.declarations.declarations.len() as u128
            + self.declarations.important_declarations.len() as u128;
        let has_declarations = supports_nesting || len > 0 || self.rules.v.len() == 0;
        let has_rules = self.rules.v.len() > 0;
        if has_declarations {
            serialize_selector_list(&self.selectors, dest);
            dest.whitespace();
            dest.write_char(123u8);
            dest.indent();
            let i = match self.print_declarations(
                &self.declarations.declarations,
                false,
                0,
                len,
                supports_nesting,
                dest,
            ) {
                Ok(i) => i,
                Err(e) => {
                    return Err(e);
                },
            };
            match self.print_declarations(
                &self.declarations.important_declarations,
                true,
                i,
                len,
                supports_nesting,
                dest,
            ) {
                Ok(_) => {},
                Err(e) => {
                    return Err(e);
                },
            }
        }
        if supports_nesting {
            write_nested_newline(dest, supports_nesting, len, has_rules);
            match self.rules.to_css(dest) {
                Ok(()) => {},
                Err(e) => {
                    return Err(e);
                },
            }
            write_block_end(dest, has_declarations);
        } else {
            write_block_end(dest, has_declarations);
            write_nested_newline(dest, supports_nesting, len, has_rules);
            let ctx = context_bytes(&self.selectors, &dest.context, dest.minify);
            assert(opt_bytes(dest.context) == dest@.context);
            let mut parent = Some(ctx);
            std::mem::swap(&mut dest.context, &mut parent);
            let r = self.rules.to_css(dest);
            dest.context = parent;
            match r {
                Ok(()) => {},
                Err(e) => {
                    return Err(e);
                },
            }
        }
        Ok(())
    }

    /// Writes the rule: once, or once for each of its vendor prefixes.
    pub fn to_css(&self, dest: &mut Printer) -> (r: Result<(), PrintErr>)
        requires
            old(dest).indent + self.rule_depth() <= usize::MAX,
        ensures
            final(dest).minify == old(dest).minify,
            final(dest).targets == old(dest).targets,
            final(dest)@.context == old(dest)@.context,
            r is Ok ==> final(dest).indent == old(dest).indent,
            match self.rule_css(old(dest)@) {
                Ok(p) => r is Ok && final(dest)@ == p,
                Err((e, q)) => r == Err::<(), PrintErr>(e) && final(dest)@ == q,
            },
    {
        if self.vendor_prefix.is_empty() {
            return self.to_css_base(dest);
        }
        let fields: [u8; 5] = [1u8, 2u8, 4u8, 8u8, 16u8];
        assert(fields@ =~= prefix_fields());
        let ghost start = dest@;
        let mut first = true;
        let mut j: usize = 0;
        while j < 5
            invariant
                j <= 5,
                fields@ == prefix_fields(),
                start == old(dest)@,
                self.vendor_prefix.bits != 0,
                old(dest).indent + self.rule_depth() <= usize::MAX,
                    dest.minify == old(dest).minify,
                dest.targets == old(dest).targets,
                dest@.context == old(dest)@.context,
                dest.indent == old(dest).indent,
                self.prefixes_css(0, true, start) == self.prefixes_css(j as int, first, dest@),
            decreases 5 - j,
        {
            let prefix = VendorPrefix::from_bits(fields[j]);
            if self.vendor_prefix.contains(prefix) {
                if first {
                    first = false;
                } else {
                    if !dest.minify {
                        dest.write_char(10u8);
                    }
                    dest.newline();
                }
                dest.vendor_prefix = prefix;
                match self.to_css_base(dest) {
                    Ok(()) => {},
                    Err(e) => {
                        return Err(e);
                    },
                }
            }
            j = j + 1;
        }
        dest.vendor_prefix = VendorPrefix::empty();
        Ok(())
    }
}
/// The context with the property handlers in `context`.
pub open spec fn with_handler_context(c: MinifyContext, context: DeclarationContext) -> MinifyContext {
    MinifyContext { handler_context: PropertyHandlerContext { context }, ..c }
}

impl<R: MinifyRule> StyleRule<R> {
    /// What minifying does to a rule (`self` before, `f` after) and to the
    /// context (`c0` before, `c1` after). A rule whose selectors are all
    /// unused and that has no nested rules is left as it is, and its removal
    /// asked for. Otherwise the declarations are emptied if the selectors
    /// are unused, each list keeps only the last declaration of each
    /// property, and the nested rules are minified in a style-rule context,
    /// as unused ones if the selectors are; the rule asks for its removal
    /// when its selectors are unused and no nested rule is left. An error
    /// of a nested rule is the result.
    pub open spec fn spec_minified(
        self,
        f: Self,
        c0: MinifyContext,
        c1: MinifyContext,
        parent_is_unused: bool,
        r: Result<bool, MinifyErr>,
    ) -> bool {
        let unused = spec_is_unused(self.selectors.v@, byte_strings(c0.unused_symbols@), parent_is_unused);
        if unused && self.rules.v@.len() == 0 {
            &&& r == Ok::<bool, MinifyErr>(true)
            &&& f == self
            &&& c1 == c0
        } else {
            &&& f.selectors == self.selectors
            &&& f.vendor_prefix == self.vendor_prefix
            &&& f.loc == self.loc
            &&& f.declarations.declarations@ == keep_last(
                if unused { Seq::empty() } else { self.declarations.declarations@ },
            )
            &&& f.declarations.important_declarations@ == keep_last(
                if unused { Seq::empty() } else { self.declarations.important_declarations@ },
            )
            &&& if self.rules.v@.len() == 0 {
                &&& r == Ok::<bool, MinifyErr>(false)
                &&& f.rules == self.rules
                &&& c1 == with_handler_context(c0, DeclarationContext::Plain)
            } else {
                exists|cmid: MinifyContext, lr: Result<(), MinifyErr>|
                    #[trigger] rules_minified(
                        self.rules.v@,
                        f.rules.v@,
                        with_handler_context(c0, DeclarationContext::StyleRule),
                        cmid,
                        unused,
                        lr,
                    ) && match lr {
                        Ok(_) => r == Ok::<bool, MinifyErr>(unused && f.rules.v@.len() == 0) && c1
                            == with_handler_context(cmid, DeclarationContext::Plain),
                        Err(e) => r == Err::<bool, MinifyErr>(e) && c1 == cmid,
                    }
            }
        }
    }
}

/// Every rule is a duplicate of itself.
pub proof fn lemma_is_duplicate_reflexive<R>(a: StyleRule<R>)
    ensures
        a.spec_is_duplicate(&a),
{
}

/// Being a duplicate is symmetric.
pub proof fn lemma_is_duplicate_symmetric<R>(a: StyleRule<R>, b: StyleRule<R>)
    ensures
        a.spec_is_duplicate(&b) == b.spec_is_duplicate(&a),
{
}

/// Rules with the same property at each position have the same tags.
proof fn lemma_same_properties_tags(a: Seq<Property>, b: Seq<Property>)
    requires
        same_properties(property_views(a), property_views(b)),
    ensures
        property_tags(property_views(a)) == property_tags(property_views(b)),
{
    let ta = property_tags(property_views(a));
    let tb = property_tags(property_views(b));
    assert forall|i: int| 0 <= i < ta.len() implies ta[i] == tb[i] by {
        assert(view_property_id(property_views(a)[i]) == view_property_id(property_views(b)[i]));
    }
    assert(ta =~= tb);
}

/// Two rules that are duplicates of each other are hashed from the same
/// bytes, and so get the same hash key.
pub proof fn lemma_duplicates_hash_alike<R>(a: StyleRule<R>, b: StyleRule<R>)
    requires
        a.spec_is_duplicate(&b),
    ensures
        a.hash_input() == b.hash_input(),
        a.spec_hash_key() == b.spec_hash_key(),
{
    lemma_selectors_hash_bytes_texts(a.selectors.v@, b.selectors.v@);
    lemma_same_properties_tags(a.declarations.declarations@, b.declarations.declarations@);
    lemma_same_properties_tags(a.declarations.important_declarations@, b.declarations.important_declarations@);
}

/// A rule without selectors is empty.
pub proof fn lemma_no_selectors_is_empty<R>(a: StyleRule<R>)
    requires
        a.selectors.v@.len() == 0,
    ensures
        a.spec_is_empty(),
{
}

impl<R: ToCss> ToCss for StyleRule<R> {
    open spec fn css(&self, p: PrinterView) -> Result<PrinterView, (PrintErr, PrinterView)> {
        self.rule_css(p)
    }

    open spec fn depth(&self) -> nat {
        self.rule_depth()
    }

    fn to_css(&self, dest: &mut Printer) -> (r: Result<(), PrintErr>) {
        StyleRule::<R>::to_css(self, dest)
    }
}

impl<R: MinifyRule> MinifyRule for StyleRule<R> {
    open spec fn minify_ensures(
        before: Self,
        after: Self,
        c0: MinifyContext,
        c1: MinifyContext,
        parent_is_unused: bool,
        r: Result<bool, MinifyErr>,
    ) -> bool {
        before.spec_minified(after, c0, c1, parent_is_unused, r)
    }

    fn minify(&mut self, context: &mut MinifyContext, parent_is_unused: bool) -> (r: Result<bool, MinifyErr>) {
        StyleRule::<R>::minify(self, context, parent_is_unused)
    }
}

/// Duplicates have the same selectors and set, position by position, the
/// same properties, each with the same vendor prefix: a prefixed and an
/// unprefixed declaration of one property are never taken for each other.
pub proof fn lemma_duplicates_set_the_same_properties<R>(a: StyleRule<R>, b: StyleRule<R>)
    requires
        a.spec_is_duplicate(&b),
    ensures
        selector_texts(a.selectors.v@) == selector_texts(b.selectors.v@),
        a.declarations.declarations@.len() == b.declarations.declarations@.len(),
        a.declarations.important_declarations@.len() == b.declarations.important_declarations@.len(),
        forall|i: int|
            0 <= i < a.declarations.declarations@.len() ==> {
                &&& (#[trigger] a.declarations.declarations@[i]).property_id_view().tag
                    == b.declarations.declarations@[i].property_id_view().tag
                &&& a.declarations.declarations@[i].property_id_view().prefix
                    == b.declarations.declarations@[i].property_id_view().prefix
            },
        forall|i: int|
            0 <= i < a.declarations.important_declarations@.len() ==> {
                &&& (#[trigger] a.declarations.important_declarations@[i]).property_id_view().tag
                    == b.declarations.important_declarations@[i].property_id_view().tag
                &&& a.declarations.important_declarations@[i].property_id_view().prefix
                    == b.declarations.important_declarations@[i].property_id_view().prefix
            },
{
    let ad = a.declarations.declarations@;
    let bd = b.declarations.declarations@;
    let ai = a.declarations.important_declarations@;
    let bi = b.declarations.important_declarations@;
    assert(property_views(ad).len() == ad.len());
    assert(property_views(bd).len() == bd.len());
    assert(property_views(ai).len() == ai.len());
    assert(property_views(bi).len() == bi.len());
    assert forall|i: int| 0 <= i < ad.len() implies (#[trigger] ad[i]).property_id_view() == bd[i].property_id_view() by {
        assert(property_views(ad)[i] == ad[i]@);
        assert(property_views(bd)[i] == bd[i]@);
    }
    assert forall|i: int| 0 <= i < ai.len() implies (#[trigger] ai[i]).property_id_view() == bi[i].property_id_view() by {
        assert(property_views(ai)[i] == ai[i]@);
        assert(property_views(bi)[i] == bi[i]@);
    }
}

/// A rule whose selectors are all unused has its nested rules minified as
/// rules under an unused parent, so that nested rules that only refine it
/// (`&:hover`) go too; the rule asks for its removal exactly when no nested
/// rule is left, and its declarations are emptied.
pub proof fn lemma_unused_rule_minifies_nested_as_unused<R: MinifyRule>(
    a: StyleRule<R>,
    f: StyleRule<R>,
    c0: MinifyContext,
    c1: MinifyContext,
    parent_is_unused: bool,
    r: Result<bool, MinifyErr>,
)
    requires
        a.spec_minified(f, c0, c1, parent_is_unused, r),
        spec_is_unused(a.selectors.v@, byte_strings(c0.unused_symbols@), parent_is_unused),
        a.rules.v@.len() > 0,
    ensures
        f.declarations.declarations@.len() == 0,
        f.declarations.important_declarations@.len() == 0,
        exists|cmid: MinifyContext, lr: Result<(), MinifyErr>|
            #[trigger] rules_minified(
                a.rules.v@,
                f.rules.v@,
                with_handler_context(c0, DeclarationContext::StyleRule),
                cmid,
                true,
                lr,
            ) && (lr is Ok ==> r == Ok::<bool, MinifyErr>(f.rules.v@.len() == 0)),
{
    assert(keep_last(Seq::<Property>::empty()) == Seq::<Property>::empty());
}

/// A rule whose every selector refines its parent with `&`, minified under
/// an unused parent while some names are known to be unused, asks for its
/// removal when it has no nested rules of its own.
pub proof fn lemma_nesting_rule_under_unused_parent_goes<R: MinifyRule>(
    a: StyleRule<R>,
    f: StyleRule<R>,
    c0: MinifyContext,
    c1: MinifyContext,
    r: Result<bool, MinifyErr>,
)
    requires
        a.spec_minified(f, c0, c1, true, r),
        forall|i: int| 0 <= i < a.selectors.v@.len() ==> (#[trigger] a.selectors.v@[i]).has_nesting,
        c0.unused_symbols@.len() > 0,
        a.rules.v@.len() == 0,
    ensures
        r == Ok::<bool, MinifyErr>(true),
{
    assert(byte_strings(c0.unused_symbols@).len() > 0);
    assert(spec_is_unused(a.selectors.v@, byte_strings(c0.unused_symbols@), true));
}

} // verus!
