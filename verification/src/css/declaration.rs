//! Declarations and declaration blocks.

use vstd::prelude::*;
use crate::bytes::{byte_strings, copy_bytes};
use crate::css::prefix::{Location, VendorPrefix};
use crate::css::printer::{Printer, PrinterView};

verus! {

/// The property tag that `composes` declarations carry.
pub const PROPERTY_TAG_COMPOSES: u16 = 0;

/// Which property a declaration sets: its tag and vendor prefix.
#[derive(Clone, Copy, Debug, PartialEq, Eq, Structural)]
pub struct PropertyId {
    pub tag: u16,
    pub prefix: VendorPrefix,
}

/// A CSS-modules `composes` declaration.
pub struct Composes {
    /// The composed class names.
    pub names: Vec<Vec<u8>>,
    /// Where the declaration stands in the source.
    pub loc: Location,
}

/// Any other declaration.
pub struct Declaration {
    pub id: PropertyId,
    /// The property name as written.
    pub name: Vec<u8>,
    /// The value as written.
    pub value: Vec<u8>,
}

/// One declaration of a block.
pub enum Property {
    Composes(Composes),
    Declared(Declaration),
}

/// A declaration as plain values.
pub enum PropertyView {
    Composes(Seq<Seq<u8>>, Location),
    Declared(PropertyId, Seq<u8>, Seq<u8>),
}

impl View for Property {
    type V = PropertyView;

    open spec fn view(&self) -> PropertyView {
        match self {
            Property::Composes(c) => PropertyView::Composes(byte_strings(c.names@), c.loc),
            Property::Declared(d) => PropertyView::Declared(d.id, d.name@, d.value@),
        }
    }
}

/// The views of a sequence of declarations.
pub open spec fn property_views(s: Seq<Property>) -> Seq<PropertyView> {
    s.map_values(|p: Property| p@)
}

/// The property that a declaration view sets.
pub open spec fn view_property_id(p: PropertyView) -> PropertyId {
    match p {
        PropertyView::Composes(_, _) => PropertyId { tag: PROPERTY_TAG_COMPOSES, prefix: VendorPrefix { bits: 0 } },
        PropertyView::Declared(id, _, _) => id,
    }
}

/// The names of a `composes` declaration separated by spaces.
pub open spec fn names_css(names: Seq<Seq<u8>>) -> Seq<u8>
    decreases names.len(),
{
    if names.len() == 0 {
        Seq::empty()
    } else if names.len() == 1 {
        names[0]
    } else {
        names_css(names.drop_last()) + seq![32u8] + names.last()
    }
}

/// `composes` as bytes.
pub open spec fn composes_keyword() -> Seq<u8> {
    seq![99u8, 111u8, 109u8, 112u8, 111u8, 115u8, 101u8, 115u8]
}

/// `!important` as bytes.
pub open spec fn important_keyword() -> Seq<u8> {
    seq![33u8, 105u8, 109u8, 112u8, 111u8, 114u8, 116u8, 97u8, 110u8, 116u8]
}

/// The printer state after writing a declaration (without its semicolon).
pub open spec fn property_css(p: PropertyView, important: bool, pr: PrinterView) -> PrinterView {
    let body = match p {
        PropertyView::Composes(names, _) => pr.write(composes_keyword()).delim(58u8).write(names_css(names)),
        PropertyView::Declared(_, name, value) => pr.write(name).delim(58u8).write(value),
    };
    if important {
        body.whitespace().write(important_keyword())
    } else {
        body
    }
}

impl Property {
    /// The property that the declaration sets, as a specification.
    pub open spec fn property_id_view(&self) -> PropertyId {
        view_property_id(self@)
    }

    /// The property that the declaration sets.
    pub fn property_id(&self) -> (r: PropertyId)
        ensures
            r == view_property_id(self@),
    {
        match self {
            Property::Composes(_) => PropertyId { tag: PROPERTY_TAG_COMPOSES, prefix: VendorPrefix::empty() },
            Property::Declared(d) => d.id,
        }
    }

    /// Writes the declaration, marked `!important` when `important` holds.
    pub fn to_css(&self, dest: &mut Printer, important: bool)
        ensures
            final(dest)@ == property_css(self@, important, old(dest)@),
    {
        match self {
            Property::Composes(c) => {
                write_keyword_composes(dest);
                dest.delim(58u8);
                let mut i: usize = 0;
                while i < c.names.len()
                    invariant
                        i <= c.names@.len(),
                        dest@ == old(dest)@.write(composes_keyword()).delim(58u8).write(
                            names_css(byte_strings(c.names@).subrange(0, i as int)),
                        ),
                    decreases c.names@.len() - i,
                {
                    let ghost before = dest@;
                    let ghost names = byte_strings(c.names@);
                    if i > 0 {
                        dest.write_char(32u8);
                    }
                    dest.write_bytes(c.names[i].as_slice());
                    proof {
                        assert(names.subrange(0, i + 1).drop_last() =~= names.subrange(0, i as int));
                        assert(names.subrange(0, i + 1).last() == c.names@[i as int]@);
                        if i == 0 {
                            assert(names_css(names.subrange(0, 1)) == names.subrange(0, 1)[0]);
                        }
                        assert(dest@ =~= old(dest)@.write(composes_keyword()).delim(58u8).write(
                            names_css(names.subrange(0, i + 1)),
                        ));
                    }
                    i = i + 1;
                }
                proof {
                    assert(byte_strings(c.names@).subrange(0, c.names@.len() as int) =~= byte_strings(c.names@));
                }
            },
            Property::Declared(d) => {
                dest.write_bytes(d.name.as_slice());
                dest.delim(58u8);
                dest.write_bytes(d.value.as_slice());
            },
        }
        if important {
            dest.whitespace();
            write_keyword_important(dest);
        }
    }

    /// A copy of the declaration.
    pub fn deep_clone(&self) -> (r: Property)
        ensures
            r@ == self@,
    {
        match self {
            Property::Composes(c) => {
                let mut names: Vec<Vec<u8>> = Vec::new();
                let mut i: usize = 0;
                while i < c.names.len()
                    invariant
                        i <= c.names@.len(),
                        names@.len() == i,
                        forall|j: int| 0 <= j < i ==> names@[j]@ == c.names@[j]@,
                    decreases c.names@.len() - i,
                {
                    names.push(copy_bytes(c.names[i].as_slice()));
                    i = i + 1;
                }
                assert(byte_strings(names@) =~= byte_strings(c.names@));
                Property::Composes(Composes { names, loc: c.loc })
            },
            Property::Declared(d) => Property::Declared(
                Declaration { id: d.id, name: copy_bytes(d.name.as_slice()), value: copy_bytes(d.value.as_slice()) },
            ),
        }
    }
}

/// Writes `composes`.
fn write_keyword_composes(dest: &mut Printer)
    ensures
        final(dest)@ == old(dest)@.write(composes_keyword()),
{
    let mut v: Vec<u8> = Vec::new();
    v.push(99u8);
    v.push(111u8);
    v.push(109u8);
    v.push(112u8);
    v.push(111u8);
    v.push(115u8);
    v.push(101u8);
    v.push(115u8);
    assert(v@ =~= composes_keyword());
    dest.write_bytes(v.as_slice());
}

/// Writes `!important`.
fn write_keyword_important(dest: &mut Printer)
    ensures
        final(dest)@ == old(dest)@.write(important_keyword()),
{
    let mut v: Vec<u8> = Vec::new();
    v.push(33u8);
    v.push(105u8);
    v.push(109u8);
    v.push(112u8);
    v.push(111u8);
    v.push(114u8);
    v.push(116u8);
    v.push(97u8);
    v.push(110u8);
    v.push(116u8);
    assert(v@ =~= important_keyword());
    dest.write_bytes(v.as_slice());
}

/// Whether declaration `i` of `s` is followed by one for the same property.
pub open spec fn is_overridden(s: Seq<PropertyView>, i: int) -> bool {
    exists|j: int| i < j < s.len() && view_property_id(s[j]) == view_property_id(s[i])
}

/// The declarations that win the cascade: of each property only the last
/// declaration, in their original order.
pub open spec fn keep_last(s: Seq<Property>) -> Seq<Property>
    decreases s.len(),
{
    if s.len() == 0 {
        s
    } else if is_overridden(property_views(s), 0) {
        keep_last(s.drop_first())
    } else {
        seq![s[0]] + keep_last(s.drop_first())
    }
}

/// A block of declarations, the ordinary and the `!important` ones.
pub struct DeclarationBlock {
    pub declarations: Vec<Property>,
    pub important_declarations: Vec<Property>,
}

/// Whether some declaration in `s` sets the property `id`.
pub open spec fn sets_property(s: Seq<PropertyView>, id: PropertyId) -> bool {
    exists|j: int| 0 <= j < s.len() && view_property_id(s[j]) == id
}

/// Whether `ids` holds `id`.
fn has_id(ids: &Vec<PropertyId>, id: PropertyId) -> (r: bool)
    ensures
        r == ids@.contains(id),
{
    let mut i: usize = 0;
    while i < ids.len()
        invariant
            i <= ids@.len(),
            forall|j: int| 0 <= j < i ==> ids@[j] != id,
        decreases ids@.len() - i,
    {
        if ids[i] == id {
            return true;
        }
        i = i + 1;
    }
    false
}

/// Keeps, of each property, only the last declaration.
fn keep_last_declarations(list: &mut Vec<Property>)
    ensures
        final(list)@ == keep_last(old(list)@),
{
    let ghost s = list@;
    let ghost n = s.len() as int;
    let mut kept: Vec<Property> = Vec::new();
    let mut seen: Vec<PropertyId> = Vec::new();
    while list.len() > 0
        invariant
            list@ == s.subrange(0, list@.len() as int),
            list@.len() <= n,
            n == s.len(),
            kept@ == keep_last(s.subrange(list@.len() as int, n)),
            forall|id: PropertyId| seen@.contains(id) <==> sets_property(property_views(s.subrange(list@.len() as int, n)), id),
        decreases list@.len(),
    {
        let ghost i = list@.len() as int - 1;
        let x = list.pop().unwrap();
        let id = x.property_id();
        let ghost tail = s.subrange(i, n);
        proof {
            assert(tail.drop_first() =~= s.subrange(i + 1, n));
            assert(tail[0] == x);
            assert(is_overridden(property_views(tail), 0) == sets_property(property_views(s.subrange(i + 1, n)), id)) by {
                if is_overridden(property_views(tail), 0) {
                    let j = choose|j: int| 0 < j < property_views(tail).len() && view_property_id(#[trigger] property_views(tail)[j]) == view_property_id(property_views(tail)[0]);
                    assert(property_views(s.subrange(i + 1, n))[j - 1] == property_views(tail)[j]);
                }
                if sets_property(property_views(s.subrange(i + 1, n)), id) {
                    let j = choose|j: int| 0 <= j < property_views(s.subrange(i + 1, n)).len() && view_property_id(#[trigger] property_views(s.subrange(i + 1, n))[j]) == id;
                    assert(property_views(tail)[j + 1] == property_views(s.subrange(i + 1, n))[j]);
                }
            }
        }
        let ghost seen_before = seen@;
        if !has_id(&seen, id) {
            seen.push(id);
            assert(seen@ == seen_before.push(id));
            kept.insert(0, x);
        } else {
            drop_property(x);
        }
        proof {
            assert(property_views(tail)[0] == x@);
            assert forall|q: PropertyId| seen@.contains(q) <==> sets_property(property_views(tail), q) by {
                assert(seen@.contains(q) <==> (seen_before.contains(q) || q == id)) by {
                    if seen@.len() > seen_before.len() {
                        if seen@.contains(q) {
                            let j = choose|j: int| 0 <= j < seen@.len() && seen@[j] == q;
                            if j < seen_before.len() {
                                assert(seen_before[j] == q);
                            }
                        }
                        if seen_before.contains(q) {
                            let j = choose|j: int| 0 <= j < seen_before.len() && seen_before[j] == q;
                            assert(seen@[j] == q);
                        }
                        assert(seen@[seen_before.len() as int] == id);
                    }
                }
                if sets_property(property_views(tail), q) {
                    let j = choose|j: int| 0 <= j < property_views(tail).len() && view_property_id(#[trigger] property_views(tail)[j]) == q;
                    if j > 0 {
                        assert(property_views(s.subrange(i + 1, n))[j - 1] == property_views(tail)[j]);
                    }
                }
                if sets_property(property_views(s.subrange(i + 1, n)), q) {
                    let j = choose|j: int| 0 <= j < property_views(s.subrange(i + 1, n)).len() && view_property_id(#[trigger] property_views(s.subrange(i + 1, n))[j]) == q;
                    assert(property_views(tail)[j + 1] == property_views(s.subrange(i + 1, n))[j]);
                }
            }
            assert(kept@ =~= keep_last(tail));
        }
    }
    assert(s.subrange(0, n) =~= s);
    *list = kept;
}

/// Releases a declaration.
fn drop_property(_p: Property) {
}

impl DeclarationBlock {
    /// The number of declarations, ordinary and important.
    pub fn len(&self) -> (r: usize)
        requires
            self.declarations@.len() + self.important_declarations@.len() <= usize::MAX,
        ensures
            r == self.declarations@.len() + self.important_declarations@.len(),
    {
        self.declarations.len() + self.important_declarations.len()
    }

    /// Whether the block holds no declaration.
    pub fn is_empty(&self) -> (r: bool)
        ensures
            r == (self.declarations@.len() == 0 && self.important_declarations@.len() == 0),
    {
        self.declarations.len() == 0 && self.important_declarations.len() == 0
    }

    /// Removes the declarations that a later one for the same property
    /// overrides, in each of the two lists.
    pub fn minify(&mut self)
        ensures
            final(self).declarations@ == keep_last(old(self).declarations@),
            final(self).important_declarations@ == keep_last(old(self).important_declarations@),
    {
        keep_last_declarations(&mut self.declarations);
        keep_last_declarations(&mut self.important_declarations);
    }

    /// A copy of the block.
    pub fn deep_clone(&self) -> (r: DeclarationBlock)
        ensures
            property_views(r.declarations@) == property_views(self.declarations@),
            property_views(r.important_declarations@) == property_views(self.important_declarations@),
    {
        DeclarationBlock {
            declarations: clone_properties(&self.declarations),
            important_declarations: clone_properties(&self.important_declarations),
        }
    }
}

/// A copy of a list of declarations.
fn clone_properties(list: &Vec<Property>) -> (r: Vec<Property>)
    ensures
        property_views(r@) == property_views(list@),
{
    let mut r: Vec<Property> = Vec::new();
    let mut i: usize = 0;
    while i < list.len()
        invariant
            i <= list@.len(),
            r@.len() == i,
            forall|j: int| 0 <= j < i ==> r@[j]@ == list@[j]@,
        decreases list@.len() - i,
    {
        r.push(list[i].deep_clone());
        i = i + 1;
    }
    assert(property_views(r@) =~= property_views(list@));
    r
}

/// A property is set by a list when it is set by its first declaration or
/// by the rest.
proof fn lemma_sets_split(v: Seq<PropertyView>, id: PropertyId)
    requires
        v.len() > 0,
    ensures
        sets_property(v, id) == (view_property_id(v[0]) == id || sets_property(v.drop_first(), id)),
{
    if sets_property(v, id) {
        let j = choose|j: int| 0 <= j < v.len() && view_property_id(#[trigger] v[j]) == id;
        if j > 0 {
            assert(v.drop_first()[j - 1] == v[j]);
        }
    }
    if sets_property(v.drop_first(), id) {
        let m = choose|m: int| 0 <= m < v.drop_first().len() && view_property_id(#[trigger] v.drop_first()[m]) == id;
        assert(v[m + 1] == v.drop_first()[m]);
    }
}

/// The first declaration is overridden exactly when the rest sets its property.
proof fn lemma_overridden_first(v: Seq<PropertyView>)
    requires
        v.len() > 0,
    ensures
        is_overridden(v, 0) == sets_property(v.drop_first(), view_property_id(v[0])),
{
    if is_overridden(v, 0) {
        let j = choose|j: int| 0 < j < v.len() && view_property_id(#[trigger] v[j]) == view_property_id(v[0]);
        assert(v.drop_first()[j - 1] == v[j]);
    }
    if sets_property(v.drop_first(), view_property_id(v[0])) {
        let m = choose|m: int| 0 <= m < v.drop_first().len() && view_property_id(#[trigger] v.drop_first()[m]) == view_property_id(v[0]);
        assert(v[m + 1] == v.drop_first()[m]);
    }
}

/// The properties set after keeping the last declarations are those set before.
proof fn lemma_keep_last_sets(s: Seq<Property>, id: PropertyId)
    ensures
        sets_property(property_views(keep_last(s)), id) == sets_property(property_views(s), id),
    decreases s.len(),
{
    if s.len() > 0 {
        let rest = s.drop_first();
        let v = property_views(s);
        lemma_keep_last_sets(rest, id);
        assert(property_views(rest) =~= v.drop_first());
        lemma_sets_split(v, id);
        lemma_overridden_first(v);
        if is_overridden(v, 0) {
            if view_property_id(v[0]) == id {
                assert(sets_property(property_views(rest), id));
            }
        } else {
            let k = keep_last(s);
            assert(k == seq![s[0]] + keep_last(rest));
            assert(property_views(k) =~= seq![s[0]@] + property_views(keep_last(rest)));
            assert(property_views(k).drop_first() =~= property_views(keep_last(rest)));
            lemma_sets_split(property_views(k), id);
        }
    }
}

/// No declaration that is kept is overridden by a later kept one.
proof fn lemma_keep_last_no_override(s: Seq<Property>)
    ensures
        forall|i: int| 0 <= i < keep_last(s).len() ==> !is_overridden(property_views(keep_last(s)), i),
    decreases s.len(),
{
    if s.len() > 0 {
        let rest = s.drop_first();
        lemma_keep_last_no_override(rest);
        let k = keep_last(s);
        let kr = keep_last(rest);
        if !is_overridden(property_views(s), 0) {
            assert forall|i: int| 0 <= i < k.len() implies !is_overridden(property_views(k), i) by {
                if is_overridden(property_views(k), i) {
                    let j = choose|j: int| i < j < property_views(k).len() && view_property_id(#[trigger] property_views(k)[j]) == view_property_id(property_views(k)[i]);
                    assert(property_views(kr)[j - 1] == property_views(k)[j]);
                    if i == 0 {
                        lemma_keep_last_sets(rest, view_property_id(s[0]@));
                        assert(sets_property(property_views(kr), view_property_id(s[0]@)));
                        let m = choose|m: int| 0 <= m < property_views(rest).len() && view_property_id(#[trigger] property_views(rest)[m]) == view_property_id(s[0]@);
                        assert(property_views(s)[m + 1] == property_views(rest)[m]);
                    } else {
                        assert(property_views(kr)[i - 1] == property_views(k)[i]);
                        assert(is_overridden(property_views(kr), i - 1));
                    }
                }
            }
        }
    }
}

/// Keeping the last declarations of a list without overridden ones keeps all.
proof fn lemma_keep_last_identity(s: Seq<Property>)
    requires
        forall|i: int| 0 <= i < s.len() ==> !is_overridden(property_views(s), i),
    ensures
        keep_last(s) == s,
    decreases s.len(),
{
    if s.len() > 0 {
        let rest = s.drop_first();
        assert forall|i: int| 0 <= i < rest.len() implies !is_overridden(property_views(rest), i) by {
            if is_overridden(property_views(rest), i) {
                let j = choose|j: int| i < j < property_views(rest).len() && view_property_id(#[trigger] property_views(rest)[j]) == view_property_id(property_views(rest)[i]);
                assert(property_views(s)[j + 1] == property_views(rest)[j]);
                assert(property_views(s)[i + 1] == property_views(rest)[i]);
                assert(is_overridden(property_views(s), i + 1));
            }
        }
        lemma_keep_last_identity(rest);
        assert(seq![s[0]] + rest =~= s);
    }
}

/// Minifying a list of declarations a second time changes nothing.
pub proof fn lemma_keep_last_idempotent(s: Seq<Property>)
    ensures
        keep_last(keep_last(s)) == keep_last(s),
{
    lemma_keep_last_no_override(s);
    lemma_keep_last_identity(keep_last(s));
}

} // verus!
