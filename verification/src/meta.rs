//! Helpers around type names and generic values.

use vstd::prelude::*;

verus! {

/// Whether `p` occurs in `s` starting at position `i`.
pub open spec fn occurs_at(s: Seq<char>, p: Seq<char>, i: int) -> bool {
    &&& 0 <= i
    &&& i + p.len() <= s.len()
    &&& s.subrange(i, i + p.len()) == p
}

/// Whether `p` occurs anywhere in `s`.
pub open spec fn occurs(s: Seq<char>, p: Seq<char>) -> bool {
    exists|i: int| occurs_at(s, p, i)
}

/// The part of `s` after the last occurrence of `p`, or all of `s` when `p`
/// does not occur in it.
pub open spec fn after_last(s: Seq<char>, p: Seq<char>) -> Seq<char> {
    if occurs(s, p) {
        let k = choose|k: int| occurs_at(s, p, k) && forall|j: int| k < j ==> !occurs_at(s, p, j);
        s.subrange(k + p.len(), s.len() as int)
    } else {
        s
    }
}

/// The short name of a type: a generic or function type name is kept whole;
/// otherwise what follows the last `.`, and of that what follows the last `::`.
pub open spec fn spec_type_base_name(full: Seq<char>) -> Seq<char> {
    if full.contains('(') || full.contains('<') {
        full
    } else {
        after_last(after_last(full, seq!['.']), seq![':', ':'])
    }
}

/// The position of the last occurrence of `p`, when there is one, is well defined.
proof fn lemma_last_occurrence(s: Seq<char>, p: Seq<char>, i: int)
    requires
        occurs_at(s, p, i),
    ensures
        exists|k: int| occurs_at(s, p, k) && forall|j: int| k < j ==> !occurs_at(s, p, j),
    decreases s.len() - i,
{
    if exists|j: int| i < j && occurs_at(s, p, j) {
        let j = choose|j: int| i < j && occurs_at(s, p, j);
        lemma_last_occurrence(s, p, j);
    } else {
        assert(occurs_at(s, p, i) && forall|j: int| i < j ==> !occurs_at(s, p, j));
    }
}

/// `after_last` is the suffix after position `k` when `k` is the last occurrence.
proof fn lemma_after_last_at(s: Seq<char>, p: Seq<char>, k: int)
    requires
        occurs_at(s, p, k),
        forall|j: int| k < j ==> !occurs_at(s, p, j),
    ensures
        after_last(s, p) == s.subrange(k + p.len(), s.len() as int),
{
    let c = choose|c: int| occurs_at(s, p, c) && forall|j: int| c < j ==> !occurs_at(s, p, j);
    assert(c == k) by {
        if c < k {
        } else if k < c {
        }
    }
}

/// What follows the last occurrence of `p` holds no occurrence of `p`.
proof fn lemma_after_last_has_none(s: Seq<char>, p: Seq<char>)
    requires
        p.len() > 0,
    ensures
        !occurs(after_last(s, p), p),
        after_last(s, p).len() <= s.len(),
        after_last(s, p) == s.subrange(s.len() - after_last(s, p).len(), s.len() as int),
{
    if occurs(s, p) {
        let i = choose|i: int| occurs_at(s, p, i);
        lemma_last_occurrence(s, p, i);
        let k = choose|k: int| occurs_at(s, p, k) && forall|j: int| k < j ==> !occurs_at(s, p, j);
        let r = s.subrange(k + p.len(), s.len() as int);
        assert forall|j: int| !occurs_at(r, p, j) by {
            if occurs_at(r, p, j) {
                assert(r.subrange(j, j + p.len()) =~= s.subrange(k + p.len() + j, k + p.len() + j + p.len()));
                assert(occurs_at(s, p, k + p.len() + j));
            }
        }
    } else {
        assert(s.subrange(0, s.len() as int) =~= s);
    }
}

/// A suffix of a sequence without occurrences of `p` has none either.
proof fn lemma_suffix_has_none(s: Seq<char>, p: Seq<char>, start: int)
    requires
        0 <= start <= s.len(),
        !occurs(s, p),
    ensures
        !occurs(s.subrange(start, s.len() as int), p),
{
    let r = s.subrange(start, s.len() as int);
    assert forall|j: int| !occurs_at(r, p, j) by {
        if occurs_at(r, p, j) {
            assert(r.subrange(j, j + p.len()) =~= s.subrange(start + j, start + j + p.len()));
            assert(occurs_at(s, p, start + j));
        }
    }
}

/// Taking the base name twice gives the base name.
pub proof fn lemma_type_base_name_idempotent(full: Seq<char>)
    ensures
        spec_type_base_name(spec_type_base_name(full)) == spec_type_base_name(full),
{
    if full.contains('(') || full.contains('<') {
    } else {
        let dot = seq!['.'];
        let dc = seq![':', ':'];
        let a = after_last(full, dot);
        let r = after_last(a, dc);
        lemma_after_last_has_none(full, dot);
        lemma_after_last_has_none(a, dc);
        lemma_suffix_has_none(a, dot, a.len() - r.len());
        assert(!r.contains('(')) by {
            if r.contains('(') {
                let i = choose|i: int| 0 <= i < r.len() && r[i] == '(';
                assert(full[full.len() - a.len() + a.len() - r.len() + i] == '(');
            }
        }
        assert(!r.contains('<')) by {
            if r.contains('<') {
                let i = choose|i: int| 0 <= i < r.len() && r[i] == '<';
                assert(full[full.len() - a.len() + a.len() - r.len() + i] == '<');
            }
        }
    }
}

/// The base name is always a suffix of the full name.
pub proof fn lemma_type_base_name_is_suffix(full: Seq<char>)
    ensures
        spec_type_base_name(full).len() <= full.len(),
        spec_type_base_name(full) == full.subrange(
            full.len() - spec_type_base_name(full).len(),
            full.len() as int,
        ),
{
    if full.contains('(') || full.contains('<') {
        assert(full.subrange(0, full.len() as int) =~= full);
    } else {
        let a = after_last(full, seq!['.']);
        let r = after_last(a, seq![':', ':']);
        lemma_after_last_has_none(full, seq!['.']);
        lemma_after_last_has_none(a, seq![':', ':']);
        assert(r =~= full.subrange(full.len() - r.len(), full.len() as int));
    }
}

/// Whether the character `c` occurs in `s`.
fn str_has_char(s: &str, c: char) -> (r: bool)
    ensures
        r == s@.contains(c),
{
    let n = s.unicode_len();
    let mut i: usize = 0;
    while i < n
        invariant
            n == s@.len(),
            i <= n,
            forall|j: int| 0 <= j < i ==> s@[j] != c,
        decreases n - i,
    {
        if s.get_char(i) == c {
            return true;
        }
        i = i + 1;
    }
    false
}

/// The part of `s` after the last `.`, or `s` itself without one.
fn after_last_dot(s: &str) -> (r: &str)
    ensures
        r@ == after_last(s@, seq!['.']),
{
    let n = s.unicode_len();
    let mut i: usize = n;
    while i > 0
        invariant
            n == s@.len(),
            i <= n,
            forall|j: int| i <= j < n ==> !occurs_at(s@, seq!['.'], j),
        decreases i,
    {
        if s.get_char(i - 1) == '.' {
            proof {
                assert(s@.subrange(i - 1, i as int) =~= seq!['.']);
                lemma_after_last_at(s@, seq!['.'], i - 1);
            }
            return s.substring_char(i, n);
        }
        proof {
            assert(!occurs_at(s@, seq!['.'], i - 1)) by {
                if occurs_at(s@, seq!['.'], i - 1) {
                    assert(s@.subrange(i - 1, i as int)[0] == s@[i - 1]);
                }
            }
        }
        i = i - 1;
    }
    proof {
        assert forall|j: int| !occurs_at(s@, seq!['.'], j) by {
            if occurs_at(s@, seq!['.'], j) {
                assert(0 <= j < n);
            }
        }
    }
    s
}

/// The part of `s` after the last `::`, or `s` itself without one.
fn after_last_double_colon(s: &str) -> (r: &str)
    ensures
        r@ == after_last(s@, seq![':', ':']),
{
    let ghost p = seq![':', ':'];
    let n = s.unicode_len();
    let mut i: usize = n;
    while i > 1
        invariant
            n == s@.len(),
            i <= n,
            p == seq![':', ':'],
            forall|j: int| i - 1 <= j < n ==> !occurs_at(s@, p, j),
        decreases i,
    {
        if s.get_char(i - 2) == ':' && s.get_char(i - 1) == ':' {
            proof {
                assert(s@.subrange(i - 2, i as int) =~= p);
                lemma_after_last_at(s@, p, i - 2);
            }
            return s.substring_char(i, n);
        }
        proof {
            assert(!occurs_at(s@, p, i - 2)) by {
                if occurs_at(s@, p, i - 2) {
                    assert(s@.subrange(i - 2, i as int)[0] == s@[i - 2]);
                    assert(s@.subrange(i - 2, i as int)[1] == s@[i - 1]);
                }
            }
        }
        i = i - 1;
    }
    proof {
        assert forall|j: int| !occurs_at(s@, p, j) by {
            if occurs_at(s@, p, j) {
                assert(0 <= j);
                assert(j + 2 <= n);
            }
        }
    }
    s
}

/// Partially emulates `@typeName` of earlier Zig versions, turning
/// `some.namespace.MyType` into `MyType`.
pub fn type_base_name(fullname: &'static str) -> (r: &'static str)
    ensures
        r@ == spec_type_base_name(fullname@),
{
    if str_has_char(fullname, '(') || str_has_char(fullname, '<') {
        return fullname;
    }
    let after_dot = after_last_dot(fullname);
    after_last_double_colon(after_dot)
}

/// The container kinds that list helpers recognise.
#[derive(Clone, Copy, Debug, PartialEq, Eq, Structural)]
pub enum ListContainerType {
    ArrayList,
    Vec,
    SmallList,
}

/// Consumes a value and does nothing with it.
pub fn void_field_type_discard_helper<T>(_data: T) {
}

} // verus!
