//! Paths of modules and the names under which the bundler shows them.

use vstd::prelude::*;
use crate::bytes::{append_bytes, bytes_eq, copy_bytes};
use crate::bundler::compile_result::CoreError;
use crate::bundler::hashbang::{starts_with, Target};
use crate::memory::Arena;

verus! {

/// The size of a path buffer, `PATH_MAX` on Linux.
pub const MAX_PATH_BYTES: usize = 4096;

/// The path of a module.
pub struct Path {
    /// The name under which the module is shown.
    pub pretty: Vec<u8>,
    /// The path itself.
    pub text: Vec<u8>,
    /// The namespace, such as `file` or `node`.
    pub namespace: Vec<u8>,
    pub is_disabled: bool,
    pub is_symlink: bool,
}

/// A path as plain values.
pub struct PathView {
    pub pretty: Seq<u8>,
    pub text: Seq<u8>,
    pub namespace: Seq<u8>,
    pub is_disabled: bool,
    pub is_symlink: bool,
}

impl View for Path {
    type V = PathView;

    open spec fn view(&self) -> PathView {
        PathView {
            pretty: self.pretty@,
            text: self.text@,
            namespace: self.namespace@,
            is_disabled: self.is_disabled,
            is_symlink: self.is_symlink,
        }
    }
}

/// `file` as bytes.
pub open spec fn file_namespace() -> Seq<u8> {
    seq![102u8, 105u8, 108u8, 101u8]
}

/// `node` as bytes.
pub open spec fn node_namespace() -> Seq<u8> {
    seq![110u8, 111u8, 100u8, 101u8]
}

/// `ssr:` as bytes.
pub open spec fn ssr_prefix() -> Seq<u8> {
    seq![115u8, 115u8, 114u8, 58u8]
}

/// `/bun-vfs$$/node_modules/` as bytes: where the fallbacks of Node's
/// built-in modules live.
pub open spec fn node_fallbacks_import_path() -> Seq<u8> {
    seq![
        47u8, 98u8, 117u8, 110u8, 45u8, 118u8, 102u8, 115u8, 36u8, 36u8, 47u8, 110u8, 111u8, 100u8, 101u8, 95u8,
        109u8, 111u8, 100u8, 117u8, 108u8, 101u8, 115u8, 47u8
    ]
}

/// Whether a namespace is that of files: empty or `file`.
pub open spec fn is_file_namespace(ns: Seq<u8>) -> bool {
    ns.len() == 0 || ns == file_namespace()
}

/// Whether a path is absolute: it starts with `/`.
pub open spec fn is_absolute(text: Seq<u8>) -> bool {
    text.len() > 0 && text[0] == 47u8
}

/// Whether `s` starts with `prefix`.
pub open spec fn has_prefix(s: Seq<u8>, prefix: Seq<u8>) -> bool {
    prefix.len() <= s.len() && s.subrange(0, prefix.len() as int) == prefix
}

/// A namespace with each `:` doubled, so that a namespace holding a colon
/// cannot collide with another name.
pub open spec fn escape_namespace(s: Seq<u8>) -> Seq<u8>
    decreases s.len(),
{
    if s.len() == 0 {
        s
    } else {
        escape_namespace(s.drop_last()) + if s.last() == 58u8 {
            seq![58u8, 58u8]
        } else {
            seq![s.last()]
        }
    }
}

/// The position of the first `/` in `s`, or -1.
pub open spec fn first_slash(s: Seq<u8>) -> int
    decreases s.len(),
{
    if s.len() == 0 {
        -1
    } else if s[0] == 47u8 {
        0
    } else {
        let r = first_slash(s.drop_first());
        if r < 0 {
            -1
        } else {
            r + 1
        }
    }
}

/// The non-empty `/`-separated components of a path.
pub open spec fn components(s: Seq<u8>) -> Seq<Seq<u8>>
    decreases s.len(),
{
    let i = first_slash(s);
    if i < 0 || i >= s.len() {
        if s.len() == 0 {
            Seq::empty()
        } else {
            seq![s]
        }
    } else {
        let head = s.subrange(0, i);
        let rest = components(s.subrange(i + 1, s.len() as int));
        if head.len() == 0 {
            rest
        } else {
            seq![head] + rest
        }
    }
}

/// How many leading components two lists share.
pub open spec fn common_len(a: Seq<Seq<u8>>, b: Seq<Seq<u8>>) -> nat
    decreases a.len(),
{
    if a.len() == 0 || b.len() == 0 || a[0] != b[0] {
        0
    } else {
        1 + common_len(a.drop_first(), b.drop_first())
    }
}

/// Components joined with `/`.
pub open spec fn join_components(parts: Seq<Seq<u8>>) -> Seq<u8>
    decreases parts.len(),
{
    if parts.len() == 0 {
        Seq::empty()
    } else if parts.len() == 1 {
        parts[0]
    } else {
        join_components(parts.drop_last()) + seq![47u8] + parts.last()
    }
}

/// `..` as bytes.
pub open spec fn dot_dot() -> Seq<u8> {
    seq![46u8, 46u8]
}

/// `.` as bytes.
pub open spec fn dot() -> Seq<u8> {
    seq![46u8]
}

/// Components with `.` dropped and each `..` taking away the component
/// before it. At the root of an absolute path a `..` stays at the root; in a
/// relative path a `..` that has nothing to take away is kept.
pub open spec fn normalize(cs: Seq<Seq<u8>>, absolute: bool) -> Seq<Seq<u8>>
    decreases cs.len(),
{
    if cs.len() == 0 {
        Seq::empty()
    } else {
        let acc = normalize(cs.drop_last(), absolute);
        let c = cs.last();
        if c == dot() {
            acc
        } else if c == dot_dot() {
            if acc.len() > 0 && acc.last() != dot_dot() {
                acc.drop_last()
            } else if absolute {
                acc
            } else {
                acc.push(c)
            }
        } else {
            acc.push(c)
        }
    }
}

/// The normalized components of a path.
pub open spec fn normal_components(s: Seq<u8>) -> Seq<Seq<u8>> {
    normalize(components(s), is_absolute(s))
}

/// The path of `to` relative to the directory `from`, both normalized: a
/// `..` for each component of `from` after the shared ones, then the rest
/// of `to`.
pub open spec fn spec_relative(from: Seq<u8>, to: Seq<u8>) -> Seq<u8> {
    let f = normal_components(from);
    let t = normal_components(to);
    let k = common_len(f, t);
    join_components(Seq::new((f.len() - k) as nat, |i: int| dot_dot()) + t.subrange(k as int, t.len() as int))
}

/// At most the first `cap` bytes of `s`.
pub open spec fn truncated(s: Seq<u8>, cap: int) -> Seq<u8> {
    if s.len() <= cap {
        s
    } else {
        s.subrange(0, cap)
    }
}

/// The name under which the bundler shows a module, or `None` when the path
/// keeps the name it has (a Node fallback module, or a relative `node` path).
/// Files, and `node` paths, are shown relative to the top-level directory;
/// other namespaces as `namespace:path` with colons in the namespace doubled.
/// The server-rendering graph prefixes names with `ssr:`. A name that is
/// built in a path buffer is cut at the buffer's size.
pub open spec fn spec_pretty_name(path: PathView, target: Target, top_level_dir: Seq<u8>) -> Option<Seq<u8>> {
    let is_node = path.namespace == node_namespace();
    let ssr = target == Target::BakeServerComponentsSsr;
    if is_node && (has_prefix(path.text, node_fallbacks_import_path()) || !is_absolute(path.text)) {
        None
    } else if is_file_namespace(path.namespace) || is_node {
        let rel = spec_relative(top_level_dir, path.text);
        if ssr {
            Some(truncated(ssr_prefix() + rel, MAX_PATH_BYTES as int))
        } else {
            Some(rel)
        }
    } else {
        Some(
            truncated(
                (if ssr {
                    ssr_prefix()
                } else {
                    Seq::empty()
                }) + escape_namespace(path.namespace) + seq![58u8] + path.text,
                MAX_PATH_BYTES as int,
            ),
        )
    }
}

/// Appends `slice` with each `:` doubled.
pub fn write_escaped_namespace(w: &mut Vec<u8>, slice: &[u8])
    ensures
        final(w)@ == old(w)@ + escape_namespace(slice@),
{
    let mut i: usize = 0;
    while i < slice.len()
        invariant
            i <= slice@.len(),
            w@ == old(w)@ + escape_namespace(slice@.subrange(0, i as int)),
        decreases slice@.len() - i,
    {
        proof {
            assert(slice@.subrange(0, i + 1).drop_last() =~= slice@.subrange(0, i as int));
        }
        if slice[i] == 58u8 {
            w.push(58u8);
            w.push(58u8);
        } else {
            w.push(slice[i]);
        }
        proof {
            assert(w@ =~= old(w)@ + escape_namespace(slice@.subrange(0, i + 1)));
        }
        i = i + 1;
    }
    proof {
        assert(slice@.subrange(0, slice@.len() as int) =~= slice@);
    }
}

/// `first_slash` finds the first `/`.
proof fn lemma_first_slash(s: Seq<u8>, i: int)
    requires
        0 <= i <= s.len(),
        forall|j: int| 0 <= j < i ==> s[j] != 47u8,
        i < s.len() ==> s[i] == 47u8,
    ensures
        first_slash(s) == (if i < s.len() {
            i
        } else {
            -1
        }),
    decreases s.len(),
{
    if s.len() > 0 && i > 0 {
        lemma_first_slash(s.drop_first(), i - 1);
    }
}

/// The components of a path.
fn split_components(s: &[u8]) -> (r: Vec<Vec<u8>>)
    ensures
        r@.len() == components(s@).len(),
        forall|j: int| 0 <= j < r@.len() ==> (#[trigger] r@[j])@ == components(s@)[j],
{
    let n = s.len();
    let mut r: Vec<Vec<u8>> = Vec::new();
    let mut start: usize = 0;
    let mut i: usize = 0;
    let ghost acc: Seq<Seq<u8>> = Seq::empty();
    assert(s@.subrange(0, n as int) =~= s@);
    assert(acc + components(s@) =~= components(s@));
    while i < n
        invariant
            n == s@.len(),
            start <= i <= n,
            r@.len() == acc.len(),
            forall|j: int| 0 <= j < r@.len() ==> (#[trigger] r@[j])@ == acc[j],
            components(s@) == acc + components(s@.subrange(start as int, n as int)),
            forall|j: int| start <= j < i ==> s@[j] != 47u8,
        decreases n - i,
    {
        if s[i] == 47u8 {
            let ghost t = s@.subrange(start as int, n as int);
            proof {
                lemma_first_slash(t, i - start);
                assert(t.subrange(0, i - start) =~= s@.subrange(start as int, i as int));
                assert(t.subrange(i - start + 1, t.len() as int) =~= s@.subrange(i + 1, n as int));
            }
            if i > start {
                let part = copy_bytes(&s[start..i]);
                proof {
                    acc = acc.push(s@.subrange(start as int, i as int));
                    assert(seq![s@.subrange(start as int, i as int)] + components(s@.subrange(i + 1, n as int))
                        == components(t));
                }
                r.push(part);
            }
            proof {
                assert(components(s@) =~= acc + components(s@.subrange(i + 1, n as int)));
            }
            start = i + 1;
        }
        i = i + 1;
    }
    let ghost t = s@.subrange(start as int, n as int);
    proof {
        lemma_first_slash(t, t.len() as int);
    }
    if n > start {
        let part = copy_bytes(&s[start..n]);
        proof {
            acc = acc.push(t);
        }
        r.push(part);
    }
    proof {
        assert(components(s@) =~= acc);
    }
    r
}

/// `..`
fn dot_dot_bytes() -> (r: Vec<u8>)
    ensures
        r@ == dot_dot(),
{
    let mut v: Vec<u8> = Vec::new();
    v.push(46u8);
    v.push(46u8);
    assert(v@ =~= dot_dot());
    v
}

/// Whether a component is `.`.
fn is_dot(c: &Vec<u8>) -> (r: bool)
    ensures
        r == (c@ == dot()),
{
    let r = c.len() == 1 && c[0] == 46u8;
    proof {
        if r {
            assert(c@ =~= dot());
        }
    }
    r
}

/// Whether a component is `..`.
fn is_dot_dot(c: &Vec<u8>) -> (r: bool)
    ensures
        r == (c@ == dot_dot()),
{
    let r = c.len() == 2 && c[0] == 46u8 && c[1] == 46u8;
    proof {
        if r {
            assert(c@ =~= dot_dot());
        }
    }
    r
}

/// Components with `.` and `..` resolved.
fn normalize_parts(parts: &Vec<Vec<u8>>, absolute: bool) -> (r: Vec<Vec<u8>>)
    ensures
        r@.map_values(|p: Vec<u8>| p@) == normalize(parts@.map_values(|p: Vec<u8>| p@), absolute),
{
    let ghost views = parts@.map_values(|p: Vec<u8>| p@);
    let mut acc: Vec<Vec<u8>> = Vec::new();
    let mut i: usize = 0;
    proof {
        assert(acc@.map_values(|p: Vec<u8>| p@) =~= normalize(views.subrange(0, 0), absolute));
    }
    while i < parts.len()
        invariant
            i <= parts@.len(),
            views == parts@.map_values(|p: Vec<u8>| p@),
            acc@.map_values(|p: Vec<u8>| p@) == normalize(views.subrange(0, i as int), absolute),
        decreases parts@.len() - i,
    {
        let ghost before = acc@.map_values(|p: Vec<u8>| p@);
        proof {
            assert(views.subrange(0, i + 1).drop_last() =~= views.subrange(0, i as int));
            assert(views.subrange(0, i + 1).last() == parts@[i as int]@);
        }
        let c = &parts[i];
        if is_dot(c) {
        } else if is_dot_dot(c) {
            let n = acc.len();
            let can_pop = n > 0 && !is_dot_dot(&acc[n - 1]);
            proof {
                if n > 0 {
                    assert(before.last() == acc@[n - 1]@);
                }
            }
            if can_pop {
                acc.pop();
                proof {
                    assert(acc@.map_values(|p: Vec<u8>| p@) =~= before.drop_last());
                }
            } else if !absolute {
                acc.push(copy_bytes(c.as_slice()));
                proof {
                    assert(acc@.map_values(|p: Vec<u8>| p@) =~= before.push(c@));
                }
            }
        } else {
            acc.push(copy_bytes(c.as_slice()));
            proof {
                assert(acc@.map_values(|p: Vec<u8>| p@) =~= before.push(c@));
            }
        }
        i = i + 1;
    }
    proof {
        assert(views.subrange(0, parts@.len() as int) =~= views);
    }
    acc
}

/// The normalized components of a path.
fn normal_parts(s: &[u8]) -> (r: Vec<Vec<u8>>)
    ensures
        r@.len() == normal_components(s@).len(),
        forall|j: int| 0 <= j < r@.len() ==> (#[trigger] r@[j])@ == normal_components(s@)[j],
{
    let raw = split_components(s);
    proof {
        assert(raw@.map_values(|p: Vec<u8>| p@) =~= components(s@));
    }
    let absolute = s.len() > 0 && s[0] == 47u8;
    let r = normalize_parts(&raw, absolute);
    proof {
        let rv = r@.map_values(|p: Vec<u8>| p@);
        assert(rv.len() == r@.len());
        assert forall|j: int| 0 <= j < r@.len() implies (#[trigger] r@[j])@ == normal_components(s@)[j] by {
            assert(rv[j] == r@[j]@);
        }
    }
    r
}

/// The shared leading components run to `k`.
proof fn lemma_common_len(a: Seq<Seq<u8>>, b: Seq<Seq<u8>>, k: int)
    requires
        0 <= k <= a.len(),
        k <= b.len(),
        forall|j: int| 0 <= j < k ==> a[j] == b[j],
        k == a.len() || k == b.len() || a[k] != b[k],
    ensures
        common_len(a, b) == k,
    decreases a.len(),
{
    if k > 0 {
        lemma_common_len(a.drop_first(), b.drop_first(), k - 1);
    }
}

/// Appends the components joined with `/`.
fn append_joined(out: &mut Vec<u8>, parts: &Vec<Vec<u8>>)
    ensures
        final(out)@ == old(out)@ + join_components(parts@.map_values(|p: Vec<u8>| p@)),
{
    let ghost views = parts@.map_values(|p: Vec<u8>| p@);
    let mut i: usize = 0;
    while i < parts.len()
        invariant
            i <= parts@.len(),
            views == parts@.map_values(|p: Vec<u8>| p@),
            out@ == old(out)@ + join_components(views.subrange(0, i as int)),
        decreases parts@.len() - i,
    {
        proof {
            assert(views.subrange(0, i + 1).drop_last() =~= views.subrange(0, i as int));
            assert(views.subrange(0, i + 1).last() == parts@[i as int]@);
        }
        if i > 0 {
            out.push(47u8);
        }
        append_bytes(out, parts[i].as_slice());
        proof {
            if i == 0 {
                assert(join_components(views.subrange(0, 1)) == views.subrange(0, 1)[0]);
            }
            assert(out@ =~= old(out)@ + join_components(views.subrange(0, i + 1)));
        }
        i = i + 1;
    }
    proof {
        assert(views.subrange(0, parts@.len() as int) =~= views);
    }
}

/// The path of `to` relative to the directory `from`.
pub fn relative(from: &[u8], to: &[u8]) -> (r: Vec<u8>)
    ensures
        r@ == spec_relative(from@, to@),
{
    let f = normal_parts(from);
    let t = normal_parts(to);
    let ghost fv = normal_components(from@);
    let ghost tv = normal_components(to@);
    let mut k: usize = 0;
    while k < f.len() && k < t.len() && bytes_eq(f[k].as_slice(), t[k].as_slice())
        invariant
            k <= f@.len(),
            k <= t@.len(),
            f@.len() == fv.len(),
            t@.len() == tv.len(),
            forall|j: int| 0 <= j < f@.len() ==> (#[trigger] f@[j])@ == fv[j],
            forall|j: int| 0 <= j < t@.len() ==> (#[trigger] t@[j])@ == tv[j],
            forall|j: int| 0 <= j < k ==> fv[j] == tv[j],
        decreases f@.len() - k,
    {
        k = k + 1;
    }
    proof {
        if k < f@.len() && k < t@.len() {
            assert(f@[k as int]@ == fv[k as int]);
            assert(t@[k as int]@ == tv[k as int]);
        }
        lemma_common_len(fv, tv, k as int);
    }
    let mut parts: Vec<Vec<u8>> = Vec::new();
    let mut j: usize = k;
    while j < f.len()
        invariant
            k <= j <= f@.len(),
            parts@.len() == j - k,
            forall|m: int| 0 <= m < parts@.len() ==> (#[trigger] parts@[m])@ == dot_dot(),
        decreases f@.len() - j,
    {
        parts.push(dot_dot_bytes());
        j = j + 1;
    }
    let mut m: usize = k;
    while m < t.len()
        invariant
            k <= m <= t@.len(),
            k <= f@.len(),
            parts@.len() == f@.len() - k + (m - k),
            forall|q: int| 0 <= q < f@.len() - k ==> (#[trigger] parts@[q])@ == dot_dot(),
            forall|q: int| f@.len() - k <= q < parts@.len() ==> (#[trigger] parts@[q])@ == t@[q - (f@.len() - k) + k]@,
        decreases t@.len() - m,
    {
        parts.push(copy_bytes(t[m].as_slice()));
        m = m + 1;
    }
    let mut out: Vec<u8> = Vec::new();
    append_joined(&mut out, &parts);
    proof {
        let want = Seq::new((fv.len() - k) as nat, |i: int| dot_dot()) + tv.subrange(k as int, tv.len() as int);
        assert(parts@.map_values(|p: Vec<u8>| p@) =~= want);
        assert(out@ =~= join_components(want));
    }
    out
}

/// Whether two byte strings are equal, for a fixed expected value.
fn is_namespace(ns: &[u8], expected: &[u8]) -> (r: bool)
    ensures
        r == (ns@ == expected@),
{
    bytes_eq(ns, expected)
}

/// A copy of a path whose shown name is `pretty`.
fn with_pretty(path: &Path, pretty: Vec<u8>) -> (r: Path)
    ensures
        r@ == (PathView { pretty: pretty@, ..path@ }),
{
    Path {
        pretty,
        text: copy_bytes(path.text.as_slice()),
        namespace: copy_bytes(path.namespace.as_slice()),
        is_disabled: path.is_disabled,
        is_symlink: path.is_symlink,
    }
}

/// Gives a path the name under which the bundler shows it.
pub fn generic_path_with_pretty_initialized(
    path: &Path,
    target: Target,
    top_level_dir: &[u8],
    _bump: &Arena,
) -> (r: Result<Path, CoreError>)
    ensures
        r matches Ok(p) && p@ == match spec_pretty_name(path@, target, top_level_dir@) {
            Some(name) => PathView { pretty: name, ..path@ },
            None => path@,
        },
{
    let node: [u8; 4] = [110u8, 111u8, 100u8, 101u8];
    let file: [u8; 4] = [102u8, 105u8, 108u8, 101u8];
    let import_path: [u8; 24] = [
        47u8, 98u8, 117u8, 110u8, 45u8, 118u8, 102u8, 115u8, 36u8, 36u8, 47u8, 110u8, 111u8, 100u8, 101u8, 95u8,
        109u8, 111u8, 100u8, 117u8, 108u8, 101u8, 115u8, 47u8,
    ];
    let ssr: [u8; 4] = [115u8, 115u8, 114u8, 58u8];
    assert(node@ =~= node_namespace());
    assert(file@ =~= file_namespace());
    assert(import_path@ =~= node_fallbacks_import_path());
    assert(ssr@ =~= ssr_prefix());
    let is_node = is_namespace(path.namespace.as_slice(), node.as_slice());
    let absolute = path.text.len() > 0 && path.text[0] == 47u8;
    if is_node && (starts_with(path.text.as_slice(), import_path.as_slice()) || !absolute) {
        let same = with_pretty(path, copy_bytes(path.pretty.as_slice()));
        assert(same@ =~= path@);
        return Ok(same);
    }
    let is_file = path.namespace.len() == 0 || is_namespace(path.namespace.as_slice(), file.as_slice());
    if is_file || is_node {
        let rel = relative(top_level_dir, path.text.as_slice());
        if target == Target::BakeServerComponentsSsr {
            let mut buf: Vec<u8> = Vec::new();
            append_bytes(&mut buf, ssr.as_slice());
            append_bytes(&mut buf, rel.as_slice());
            buf.truncate(MAX_PATH_BYTES);
            assert(buf@ =~= truncated(ssr_prefix() + rel@, MAX_PATH_BYTES as int));
            Ok(with_pretty(path, buf))
        } else {
            Ok(with_pretty(path, rel))
        }
    } else {
        let mut buf: Vec<u8> = Vec::new();
        if target == Target::BakeServerComponentsSsr {
            append_bytes(&mut buf, ssr.as_slice());
        }
        write_escaped_namespace(&mut buf, path.namespace.as_slice());
        buf.push(58u8);
        append_bytes(&mut buf, path.text.as_slice());
        buf.truncate(MAX_PATH_BYTES);
        proof {
            let ssr_part = if target == Target::BakeServerComponentsSsr {
                ssr_prefix()
            } else {
                Seq::<u8>::empty()
            };
            assert(buf@ =~= truncated(
                ssr_part + escape_namespace(path.namespace@) + seq![58u8] + path.text@,
                MAX_PATH_BYTES as int,
            ));
        }
        Ok(with_pretty(path, buf))
    }
}

/// Escaping never makes a namespace shorter, and keeps the empty one empty.
proof fn lemma_escape_len(s: Seq<u8>)
    ensures
        escape_namespace(s).len() >= s.len(),
        s.len() > 0 ==> escape_namespace(s).len() > 0,
    decreases s.len(),
{
    if s.len() > 0 {
        lemma_escape_len(s.drop_last());
    }
}

/// Different namespaces escape differently.
pub proof fn lemma_escape_namespace_injective(a: Seq<u8>, b: Seq<u8>)
    requires
        escape_namespace(a) == escape_namespace(b),
    ensures
        a == b,
    decreases a.len(),
{
    lemma_escape_len(a);
    lemma_escape_len(b);
    if a.len() == 0 || b.len() == 0 {
    } else {
        let ea = escape_namespace(a);
        let pa = escape_namespace(a.drop_last());
        let pb = escape_namespace(b.drop_last());
        if a.last() == 58u8 {
            assert(ea.last() == 58u8);
            assert(b.last() == 58u8);
            assert(pa =~= ea.subrange(0, ea.len() - 2));
            assert(pb =~= ea.subrange(0, ea.len() - 2));
        } else {
            assert(ea.last() == a.last());
            assert(b.last() != 58u8);
            assert(b.last() == a.last());
            assert(pa =~= ea.drop_last());
            assert(pb =~= ea.drop_last());
        }
        lemma_escape_namespace_injective(a.drop_last(), b.drop_last());
        assert(a =~= a.drop_last().push(a.last()));
        assert(b =~= b.drop_last().push(b.last()));
    }
}

/// The escaped form of one byte.
pub open spec fn escape_byte(b: u8) -> Seq<u8> {
    if b == 58u8 {
        seq![58u8, 58u8]
    } else {
        seq![b]
    }
}

/// Escaping distributes over concatenation.
proof fn lemma_escape_concat(a: Seq<u8>, b: Seq<u8>)
    ensures
        escape_namespace(a + b) == escape_namespace(a) + escape_namespace(b),
    decreases b.len(),
{
    if b.len() == 0 {
        assert(a + b =~= a);
        assert(escape_namespace(a) + escape_namespace(b) =~= escape_namespace(a));
    } else {
        lemma_escape_concat(a, b.drop_last());
        assert((a + b).drop_last() =~= a + b.drop_last());
        assert((a + b).last() == b.last());
        assert(escape_namespace(a + b) =~= escape_namespace(a) + escape_namespace(b));
    }
}

/// Splits a name built as escaped namespace, `:`, text back into the two:
/// a doubled colon belongs to the namespace, a single one separates.
pub open spec fn split_escaped(w: Seq<u8>) -> (Seq<u8>, Seq<u8>)
    decreases w.len(),
{
    if w.len() == 0 {
        (Seq::empty(), Seq::empty())
    } else if w[0] != 58u8 {
        let rest = split_escaped(w.drop_first());
        (seq![w[0]] + rest.0, rest.1)
    } else if w.len() >= 2 && w[1] == 58u8 {
        let rest = split_escaped(w.subrange(2, w.len() as int));
        (seq![58u8] + rest.0, rest.1)
    } else {
        (Seq::empty(), w.drop_first())
    }
}

/// Splitting recovers the namespace and a text that does not start with `:`.
proof fn lemma_split_escaped(ns: Seq<u8>, text: Seq<u8>)
    requires
        !(text.len() > 0 && text[0] == 58u8),
    ensures
        split_escaped(escape_namespace(ns) + seq![58u8] + text) == (ns, text),
    decreases ns.len(),
{
    let w = escape_namespace(ns) + seq![58u8] + text;
    if ns.len() == 0 {
        assert(w =~= seq![58u8] + text);
        assert(w.drop_first() =~= text);
    } else {
        let rest = ns.drop_first();
        lemma_escape_concat(seq![ns[0]], rest);
        assert(seq![ns[0]] + rest =~= ns);
        let one = seq![ns[0]];
        assert(one.drop_last() =~= Seq::<u8>::empty());
        assert(one.last() == ns[0]);
        assert(escape_namespace(one.drop_last()) == Seq::<u8>::empty());
        assert(escape_namespace(one) =~= escape_byte(ns[0]));
        lemma_split_escaped(rest, text);
        let tail = escape_namespace(rest) + seq![58u8] + text;
        if ns[0] == 58u8 {
            assert(w =~= seq![58u8, 58u8] + tail);
            assert(w.subrange(2, w.len() as int) =~= tail);
        } else {
            assert(w =~= seq![ns[0]] + tail);
            assert(w.drop_first() =~= tail);
        }
    }
}

/// Names built as escaped namespace, `:`, text do not collide: two such
/// names are equal only for the same namespace and text, as long as no text
/// starts with a colon.
pub proof fn lemma_namespaced_names_distinct(a_ns: Seq<u8>, a_text: Seq<u8>, b_ns: Seq<u8>, b_text: Seq<u8>)
    requires
        !(a_text.len() > 0 && a_text[0] == 58u8),
        !(b_text.len() > 0 && b_text[0] == 58u8),
        escape_namespace(a_ns) + seq![58u8] + a_text == escape_namespace(b_ns) + seq![58u8] + b_text,
    ensures
        a_ns == b_ns,
        a_text == b_text,
{
    lemma_split_escaped(a_ns, a_text);
    lemma_split_escaped(b_ns, b_text);
}

/// A name cut at the buffer's size after `ssr:` is `ssr:` and the start of
/// the name.
proof fn lemma_truncated_ssr(x: Seq<u8>)
    requires
        x.len() >= MAX_PATH_BYTES - 4,
    ensures
        truncated(ssr_prefix() + x, MAX_PATH_BYTES as int) == ssr_prefix() + x.subrange(0, MAX_PATH_BYTES - 4),
{
    assert((ssr_prefix() + x).subrange(0, MAX_PATH_BYTES as int) =~= ssr_prefix() + x.subrange(0, MAX_PATH_BYTES - 4));
}

/// The server-rendering graph shows a module under another name than the
/// other graphs do, so that the two copies of a module are never confused.
/// The one exception is a name that fills the path buffer and is itself
/// `ssr:` followed by its own start.
pub proof fn lemma_ssr_names_differ(path: PathView, target: Target, top_level_dir: Seq<u8>)
    requires
        target != Target::BakeServerComponentsSsr,
        spec_pretty_name(path, target, top_level_dir) matches Some(n) ==> !(n.len() == MAX_PATH_BYTES
            && n == ssr_prefix() + n.subrange(0, MAX_PATH_BYTES - 4)),
    ensures
        spec_pretty_name(path, target, top_level_dir) is None <==> spec_pretty_name(
            path,
            Target::BakeServerComponentsSsr,
            top_level_dir,
        ) is None,
        spec_pretty_name(path, target, top_level_dir) is Some ==> spec_pretty_name(
            path,
            Target::BakeServerComponentsSsr,
            top_level_dir,
        ) != spec_pretty_name(path, target, top_level_dir),
{
    let ssr = Target::BakeServerComponentsSsr;
    let is_node = path.namespace == node_namespace();
    if is_node && (has_prefix(path.text, node_fallbacks_import_path()) || !is_absolute(path.text)) {
    } else if is_file_namespace(path.namespace) || is_node {
        let rel = spec_relative(top_level_dir, path.text);
        if rel.len() >= MAX_PATH_BYTES - 4 {
            lemma_truncated_ssr(rel);
        } else {
            assert((ssr_prefix() + rel).len() == rel.len() + 4);
        }
    } else {
        let x = escape_namespace(path.namespace) + seq![58u8] + path.text;
        let plain_x = Seq::<u8>::empty() + x;
        let ssr_x = ssr_prefix() + x;
        assert(plain_x =~= x);
        assert(ssr_prefix() + escape_namespace(path.namespace) + seq![58u8] + path.text =~= ssr_x);
        assert(Seq::<u8>::empty() + escape_namespace(path.namespace) + seq![58u8] + path.text =~= x);
        let n = truncated(x, MAX_PATH_BYTES as int);
        if x.len() >= MAX_PATH_BYTES - 4 {
            lemma_truncated_ssr(x);
            if x.len() >= MAX_PATH_BYTES {
                assert(n.subrange(0, MAX_PATH_BYTES - 4) =~= x.subrange(0, MAX_PATH_BYTES - 4));
            }
        }
    }
}

} // verus!
