//! Lists of rules and the minifier's context.

use vstd::prelude::*;
use crate::css::prefix::Location;
use crate::css::printer::{PrintErr, Printer, PrinterView, Targets, ToCss};

verus! {

/// What separates two rules: a blank line and the indentation, unless minifying.
pub open spec fn rule_separator(p: PrinterView) -> PrinterView {
    (if p.minify {
        p
    } else {
        p.write(seq![10u8])
    }).newline()
}

/// The printer state after writing rules `k..` of `rules` from state `p`.
pub open spec fn rules_css_from<R: ToCss>(rules: Seq<R>, k: int, p: PrinterView) -> Result<
    PrinterView,
    (PrintErr, PrinterView),
>
    decreases rules.len() - k,
{
    if k < 0 || k >= rules.len() {
        Ok(p)
    } else {
        let p1 = if k > 0 {
            rule_separator(p)
        } else {
            p
        };
        match rules[k].css(p1) {
            Ok(p2) => rules_css_from(rules, k + 1, p2),
            Err(e) => Err(e),
        }
    }
}

/// The largest indentation bound of the rules.
pub open spec fn max_depth<R: ToCss>(rules: Seq<R>) -> nat
    decreases rules.len(),
{
    if rules.len() == 0 {
        0
    } else {
        let d = max_depth(rules.drop_last());
        let e = rules.last().depth();
        if d < e {
            e
        } else {
            d
        }
    }
}

/// Each rule's depth is at most the largest one.
proof fn lemma_max_depth<R: ToCss>(rules: Seq<R>, k: int)
    requires
        0 <= k < rules.len(),
    ensures
        rules[k].depth() <= max_depth(rules),
    decreases rules.len(),
{
    if k < rules.len() - 1 {
        lemma_max_depth(rules.drop_last(), k);
    }
}

/// A list of rules.
pub struct CssRuleList<R> {
    pub v: Vec<R>,
}

impl<R: ToCss> CssRuleList<R> {
    /// The printer state after writing the rules from state `p`.
    pub open spec fn css(&self, p: PrinterView) -> Result<PrinterView, (PrintErr, PrinterView)> {
        rules_css_from(self.v@, 0, p)
    }

    /// Writes the rules, separated by blank lines.
    pub fn to_css(&self, dest: &mut Printer) -> (r: Result<(), PrintErr>)
        requires
            old(dest).indent + max_depth(self.v@) <= usize::MAX,
        ensures
            final(dest).minify == old(dest).minify,
            final(dest).targets == old(dest).targets,
            final(dest)@.context == old(dest)@.context,
            r is Ok ==> final(dest).indent == old(dest).indent,
            match self.css(old(dest)@) {
                Ok(p) => r is Ok && final(dest)@ == p,
                Err((e, q)) => r == Err::<(), PrintErr>(e) && final(dest)@ == q,
            },
    {
        let ghost start = dest@;
        let mut i: usize = 0;
        while i < self.v.len()
            invariant
                i <= self.v@.len(),
                dest.minify == old(dest).minify,
                dest.targets == old(dest).targets,
                dest@.context == old(dest)@.context,
                dest.indent == old(dest).indent,
                old(dest).indent + max_depth(self.v@) <= usize::MAX,
                    start == old(dest)@,
                rules_css_from(self.v@, 0, start) == rules_css_from(self.v@, i as int, dest@),
            decreases self.v@.len() - i,
        {
            if i > 0 {
                if !dest.minify {
                    dest.write_char(10u8);
                }
                dest.newline();
            }
            proof {
                lemma_max_depth(self.v@, i as int);
            }
            let r = self.v[i].to_css(dest);
            if r.is_err() {
                return r;
            }
            i = i + 1;
        }
        Ok(())
    }
}

/// A rule that can be minified in place.
pub trait MinifyRule: Sized {
    /// What minifying does: how the rule `before` becomes `after`, how the
    /// context `c0` becomes `c1`, and the result `r`. A kind of rule that
    /// does not say it promises nothing.
    open spec fn minify_ensures(
        before: Self,
        after: Self,
        c0: MinifyContext,
        c1: MinifyContext,
        parent_is_unused: bool,
        r: Result<bool, MinifyErr>,
    ) -> bool {
        true
    }

    /// Minifies the rule; `Ok(true)` asks the caller to remove it.
    fn minify(&mut self, context: &mut MinifyContext, parent_is_unused: bool) -> (r: Result<bool, MinifyErr>)
        ensures
            Self::minify_ensures(*old(self), *final(self), *old(context), *final(context), parent_is_unused, r),
    ;
}

/// The rules that stay: each minified rule whose minifying answered
/// `Ok(false)`, in order.
pub open spec fn kept_rules<R>(afters: Seq<R>, results: Seq<Result<bool, MinifyErr>>) -> Seq<R>
    decreases results.len(),
{
    if results.len() == 0 || afters.len() == 0 {
        Seq::empty()
    } else {
        let rest = kept_rules(afters.drop_last(), results.drop_last());
        if results.last() == Ok::<bool, MinifyErr>(false) {
            rest.push(afters.last())
        } else {
            rest
        }
    }
}

/// Minifying the first `results.len()` rules of `olds` one after the other:
/// rule `j` becomes `afters[j]` with result `results[j]`, while the context
/// goes from `ctxs[j]` to `ctxs[j + 1]`; every step but the last succeeded.
pub open spec fn minify_trace<R: MinifyRule>(
    olds: Seq<R>,
    afters: Seq<R>,
    ctxs: Seq<MinifyContext>,
    results: Seq<Result<bool, MinifyErr>>,
    parent_is_unused: bool,
) -> bool {
    &&& afters.len() == results.len()
    &&& results.len() <= olds.len()
    &&& ctxs.len() == results.len() + 1
    &&& forall|j: int|
        0 <= j < results.len() ==> R::minify_ensures(
            olds[j],
            afters[j],
            ctxs[j],
            ctxs[j + 1],
            parent_is_unused,
            #[trigger] results[j],
        )
    &&& forall|j: int| 0 <= j < results.len() - 1 ==> (#[trigger] results[j]) is Ok
}

/// What minifying a list of rules does: the rules are minified in order,
/// each with the context that the one before left; those that ask for it
/// are removed. The first error stops the work: it is the result, and the
/// rules from the failing one on are gone.
pub open spec fn rules_minified<R: MinifyRule>(
    olds: Seq<R>,
    finals: Seq<R>,
    c0: MinifyContext,
    c1: MinifyContext,
    parent_is_unused: bool,
    r: Result<(), MinifyErr>,
) -> bool {
    exists|afters: Seq<R>, ctxs: Seq<MinifyContext>, results: Seq<Result<bool, MinifyErr>>|
        #[trigger] minify_trace(olds, afters, ctxs, results, parent_is_unused) && ctxs[0] == c0 && ctxs.last() == c1
            && finals == kept_rules(afters, results) && match r {
            Ok(_) => results.len() == olds.len() && (results.len() > 0 ==> results.last() is Ok),
            Err(e) => results.len() > 0 && results.last() == Err::<bool, MinifyErr>(e),
        }
}

impl<R: MinifyRule> CssRuleList<R> {
    /// Minifies each rule in order and removes those that ask for it.
    pub fn minify(&mut self, context: &mut MinifyContext, parent_is_unused: bool) -> (r: Result<(), MinifyErr>)
        ensures
            rules_minified(old(self).v@, final(self).v@, *old(context), *final(context), parent_is_unused, r),
    {
        let mut items: Vec<R> = Vec::new();
        std::mem::swap(&mut items, &mut self.v);
        let ghost olds = items@;
        let ghost n = olds.len();
        let ghost mut afters: Seq<R> = Seq::empty();
        let ghost mut ctxs: Seq<MinifyContext> = seq![*context];
        let ghost mut results: Seq<Result<bool, MinifyErr>> = Seq::empty();
        assert(self.v@ =~= kept_rules(afters, results));
        while items.len() > 0
            invariant
                olds == old(self).v@,
                n == olds.len(),
                results.len() <= n,
                items@ == olds.subrange(results.len() as int, n as int),
                minify_trace(olds, afters, ctxs, results, parent_is_unused),
                results.len() > 0 ==> results.last() is Ok,
                ctxs[0] == *old(context),
                ctxs.last() == *context,
                self.v@ == kept_rules(afters, results),
            decreases items@.len(),
        {
            let ghost i = results.len() as int;
            let ghost c_before = *context;
            let mut rule = items.remove(0);
            let ghost rule_before = rule;
            assert(rule_before == olds[i]);
            let res = rule.minify(context, parent_is_unused);
            proof {
                let a2 = afters.push(rule);
                let c2 = ctxs.push(*context);
                let r2 = results.push(res);
                assert(a2.drop_last() =~= afters);
                assert(r2.drop_last() =~= results);
                assert(items@ =~= olds.subrange(i + 1, n as int));
                assert forall|j: int| 0 <= j < r2.len() implies R::minify_ensures(
                    olds[j],
                    a2[j],
                    c2[j],
                    c2[j + 1],
                    parent_is_unused,
                    #[trigger] r2[j],
                ) by {
                    if j < i {
                        assert(r2[j] == results[j]);
                        assert(a2[j] == afters[j]);
                        assert(c2[j] == ctxs[j]);
                        assert(c2[j + 1] == ctxs[j + 1]);
                    } else {
                        assert(c2[j] == ctxs.last());
                    }
                }
                assert forall|j: int| 0 <= j < r2.len() - 1 implies (#[trigger] r2[j]) is Ok by {
                    assert(r2[j] == results[j]);
                    if j < i - 1 {
                    } else {
                        assert(results[j] == results.last());
                    }
                }
                assert(minify_trace(olds, a2, c2, r2, parent_is_unused));
                afters = a2;
                ctxs = c2;
                results = r2;
            }
            match res {
                Ok(true) => {},
                Ok(false) => {
                    self.v.push(rule);
                },
                Err(e) => {
                    assert(ctxs[0] == *old(context));
                    return Err(e);
                },
            }
        }
        assert(results.len() == n);
        Ok(())
    }
}

/// Where a block of declarations stands, for the property handlers.
#[derive(Clone, Copy, Debug, PartialEq, Eq, Structural)]
pub enum DeclarationContext {
    Plain,
    StyleRule,
    Keyframes,
    StyleAttribute,
}

/// The state that the property handlers share.
#[derive(Clone, Copy, Debug, PartialEq, Eq, Structural)]
pub struct PropertyHandlerContext {
    pub context: DeclarationContext,
}

impl PropertyHandlerContext {
    /// The state for a block nested in a `context`.
    pub fn child(&self, context: DeclarationContext) -> (r: PropertyHandlerContext)
        ensures
            r.context == context,
    {
        PropertyHandlerContext { context }
    }
}

/// What minifying a rule reads and updates.
pub struct MinifyContext {
    pub targets: Targets,
    /// The class and id names known to be unused.
    pub unused_symbols: Vec<Vec<u8>>,
    pub handler_context: PropertyHandlerContext,
}

/// The kinds of minifying error.
#[derive(Clone, Copy, Debug, PartialEq, Eq, Structural)]
pub enum MinifyErrorKind {
    CircularCustomMedia,
    CustomMediaNotDefined,
    UnsupportedCustomMediaBooleanLogic,
}

/// A minifying error and where it arose.
#[derive(Clone, Copy, Debug, PartialEq, Eq, Structural)]
pub struct MinifyErr {
    pub kind: MinifyErrorKind,
    pub loc: Location,
}

} // verus!
