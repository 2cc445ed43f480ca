//! Path strings: file names, stems, extensions and joining.
//!
//! Paths are plain strings whose components are separated by `/`. A path
//! is used in its normal form (see `spec_normalize_path`): empty and `.`
//! components dropped, `..` resolved against the component before it.

use vstd::prelude::*;
use vstd::string::*;

verus! {

/// Index of the last occurrence of `c` in `s`, or -1 when `c` does not occur.
pub open spec fn last_index_of(s: Seq<char>, c: char) -> int
    decreases s.len(),
{
    if s.len() == 0 {
        -1
    } else if s.last() == c {
        s.len() - 1
    } else {
        last_index_of(s.drop_last(), c)
    }
}

/// The last component of a path: what follows its last `/`.
/// There is none when that part is empty or is `..`.
pub open spec fn spec_file_name(p: Seq<char>) -> Option<Seq<char>> {
    let name = p.subrange(last_index_of(p, '/') + 1, p.len() as int);
    if name.len() == 0 || name == seq!['.', '.'] {
        None
    } else {
        Some(name)
    }
}

/// The file name without its extension. A leading `.` does not start an
/// extension, so `.hidden` is its own stem.
pub open spec fn spec_file_stem(p: Seq<char>) -> Option<Seq<char>> {
    match spec_file_name(p) {
        Some(name) => {
            let dot = last_index_of(name, '.');
            if dot > 0 {
                Some(name.subrange(0, dot))
            } else {
                Some(name)
            }
        },
        None => None,
    }
}

/// What follows the last `.` of the file name, when that `.` is not its first
/// character.
pub open spec fn spec_extension(p: Seq<char>) -> Option<Seq<char>> {
    match spec_file_name(p) {
        Some(name) => {
            let dot = last_index_of(name, '.');
            if dot > 0 {
                Some(name.subrange(dot + 1, name.len() as int))
            } else {
                None
            }
        },
        None => None,
    }
}

/// Whether a path component names a file or directory by itself: it is not
/// empty, `.` or `..`.
pub open spec fn is_normal_component(c: Seq<char>) -> bool {
    c.len() > 0 && c != seq!['.'] && c != seq!['.', '.']
}

/// Whether `c` holds no `/`.
pub open spec fn no_slash(c: Seq<char>) -> bool {
    forall|j: int| 0 <= j < c.len() ==> c[j] != '/'
}

/// The parts of a path between its `/`s, in order; a path without `/` is
/// its own single part.
pub open spec fn components(p: Seq<char>) -> Seq<Seq<char>>
    decreases p.len(),
{
    let i = last_index_of(p, '/');
    if i < 0 {
        seq![p]
    } else {
        proof {
            lemma_last_index_of_bounds(p, '/');
        }
        components(p.take(i)).push(p.skip(i + 1))
    }
}

/// The components that remain when a path's components are read in order:
/// an empty one or `.` is dropped; `..` takes away the component before it
/// when that one is not `..` itself, is dropped at the root of an absolute
/// path, and stays otherwise.
pub open spec fn resolve(comps: Seq<Seq<char>>, abs: bool) -> Seq<Seq<char>>
    decreases comps.len(),
{
    if comps.len() == 0 {
        Seq::empty()
    } else {
        let r = resolve(comps.drop_last(), abs);
        let c = comps.last();
        if c.len() == 0 || c == seq!['.'] {
            r
        } else if c == seq!['.', '.'] {
            if r.len() > 0 && r.last() != seq!['.', '.'] {
                r.drop_last()
            } else if abs {
                r
            } else {
                r.push(c)
            }
        } else {
            r.push(c)
        }
    }
}

/// Components put together with `/` between them.
pub open spec fn join_components(cs: Seq<Seq<char>>) -> Seq<char>
    decreases cs.len(),
{
    if cs.len() == 0 {
        Seq::empty()
    } else if cs.len() == 1 {
        cs[0]
    } else {
        join_components(cs.drop_last()) + seq!['/'] + cs.last()
    }
}

/// A path in its normal form: its components resolved (see `resolve`) and
/// put together again, after a `/` when the path is absolute; `/` for an
/// absolute path with no component left, `.` for a relative one.
pub open spec fn spec_normalize_path(p: Seq<char>) -> Seq<char> {
    let abs = p.len() > 0 && p[0] == '/';
    let body = if abs { p.skip(1) } else { p };
    let r = resolve(components(body), abs);
    if r.len() == 0 {
        if abs { seq!['/'] } else { seq!['.'] }
    } else if abs {
        seq!['/'] + join_components(r)
    } else {
        join_components(r)
    }
}

/// `rel` placed under the directory `root`, in normal form: an absolute
/// `rel` stands alone, and an empty one leaves `root` as it is.
pub open spec fn spec_join(root: Seq<char>, rel: Seq<char>) -> Seq<char> {
    if rel.len() == 0 {
        spec_normalize_path(root)
    } else if rel[0] == '/' {
        spec_normalize_path(rel)
    } else {
        spec_normalize_path(spec_normalize_path(root) + seq!['/'] + rel)
    }
}

pub proof fn lemma_last_index_of_bounds(s: Seq<char>, c: char)
    ensures
        -1 <= last_index_of(s, c) < s.len(),
        last_index_of(s, c) >= 0 ==> s[last_index_of(s, c)] == c,
        forall|j: int| last_index_of(s, c) < j < s.len() ==> s[j] != c,
    decreases s.len(),
{
    if s.len() > 0 && s.last() != c {
        lemma_last_index_of_bounds(s.drop_last(), c);
        assert forall|j: int| last_index_of(s, c) < j < s.len() implies s[j] != c by {
            if j < s.len() - 1 {
                assert(s[j] == s.drop_last()[j]);
            }
        }
    }
}

/// Exec counterpart of `last_index_of`, on a string's characters.
fn rfind_char(s: &str, c: char) -> (res: Option<usize>)
    ensures
        match res {
            Some(i) => i == last_index_of(s@, c),
            None => last_index_of(s@, c) == -1,
        },
{
    proof {
        lemma_last_index_of_bounds(s@, c);
    }
    let len: usize = s.unicode_len();
    let mut i = len;
    while i > 0
        invariant
            i <= len == s@.len(),
            forall|j: int| i <= j < len ==> s@[j] != c,
            -1 <= last_index_of(s@, c) < len,
            last_index_of(s@, c) >= 0 ==> s@[last_index_of(s@, c)] == c,
            forall|j: int| last_index_of(s@, c) < j < len ==> s@[j] != c,
        decreases i,
    {
        if s.get_char(i - 1) == c {
            return Some(i - 1);
        }
        i = i - 1;
    }
    None
}

/// Whether two strings hold the same characters.
pub fn str_eq(a: &str, b: &str) -> (res: bool)
    ensures
        res == (a@ == b@),
{
    let n: usize = a.unicode_len();
    let m: usize = b.unicode_len();
    if n != m {
        return false;
    }
    let mut i: usize = 0;
    while i < n
        invariant
            i <= n == a@.len() == b@.len(),
            forall|j: int| 0 <= j < i ==> a@[j] == b@[j],
        decreases n - i,
    {
        if a.get_char(i) != b.get_char(i) {
            return false;
        }
        i = i + 1;
    }
    assert(a@ =~= b@);
    true
}

/// Whether `s` begins with `prefix`.
pub fn starts_with(s: &str, prefix: &str) -> (res: bool)
    ensures
        res == (prefix@.len() <= s@.len() && s@.subrange(0, prefix@.len() as int) == prefix@),
{
    let n: usize = s.unicode_len();
    let m: usize = prefix.unicode_len();
    if m > n {
        return false;
    }
    let head = substring(s, 0, m);
    str_eq(head.as_str(), prefix)
}

/// Copies the characters `from..to` of `s` into a new string.
pub fn substring(s: &str, from: usize, to: usize) -> (res: String)
    requires
        from <= to <= s@.len(),
    ensures
        res@ == s@.subrange(from as int, to as int),
{
    String::from_str(s.substring_char(from, to))
}

/// The last component of a path (see `spec_file_name`).
pub fn file_name(p: &str) -> (res: Option<String>)
    ensures
        res.deep_view() == spec_file_name(p@),
{
    let len: usize = p.unicode_len();
    proof {
        lemma_last_index_of_bounds(p@, '/');
    }
    let start: usize = match rfind_char(p, '/') {
        Some(i) => i + 1,
        None => 0,
    };
    proof {
        lemma_last_index_of_bounds(p@, '/');
    }
    let name = substring(p, start, len);
    let n: usize = name.as_str().unicode_len();
    if n == 0 {
        return None;
    }
    if n == 2 && name.as_str().get_char(0) == '.' && name.as_str().get_char(1) == '.' {
        assert(name@ =~= seq!['.', '.']);
        return None;
    }
    proof {
        if name@ == seq!['.', '.'] {
            assert(name@[0] == '.' && name@[1] == '.');
        }
    }
    Some(name)
}

/// The file name without its extension (see `spec_file_stem`).
pub fn file_stem(p: &str) -> (res: Option<String>)
    ensures
        res.deep_view() == spec_file_stem(p@),
{
    match file_name(p) {
        Some(name) => {
            proof {
                lemma_last_index_of_bounds(name@, '.');
            }
            match rfind_char(name.as_str(), '.') {
                Some(dot) if dot > 0 => Some(substring(name.as_str(), 0, dot)),
                _ => Some(name),
            }
        },
        None => None,
    }
}

/// The extension of the file name (see `spec_extension`).
pub fn extension(p: &str) -> (res: Option<String>)
    ensures
        res.deep_view() == spec_extension(p@),
{
    match file_name(p) {
        Some(name) => {
            proof {
                lemma_last_index_of_bounds(name@, '.');
            }
            let len: usize = name.as_str().unicode_len();
            match rfind_char(name.as_str(), '.') {
                Some(dot) if dot > 0 => Some(substring(name.as_str(), dot + 1, len)),
                _ => None,
            }
        },
        None => None,
    }
}

/// A text without `/` has no last `/`.
proof fn lemma_no_slash_index(c: Seq<char>)
    requires
        no_slash(c),
    ensures
        last_index_of(c, '/') == -1,
        components(c) == seq![c],
{
    lemma_last_index_of_bounds(c, '/');
}

/// In `a/c`, with no `/` in `c`, the last `/` is the one just after `a`.
proof fn lemma_last_index_of_joined(a: Seq<char>, c: Seq<char>)
    requires
        no_slash(c),
    ensures
        last_index_of(a + seq!['/'] + c, '/') == a.len(),
    decreases c.len(),
{
    let x = a + seq!['/'] + c;
    if c.len() == 0 {
        assert(x.last() == '/');
    } else {
        assert(x.last() == c.last());
        assert(x.drop_last() =~= a + seq!['/'] + c.drop_last());
        lemma_last_index_of_joined(a, c.drop_last());
    }
}

/// The components of `a/c`, with no `/` in `c`, are those of `a` and then `c`.
pub proof fn lemma_components_append(a: Seq<char>, c: Seq<char>)
    requires
        no_slash(c),
    ensures
        components(a + seq!['/'] + c) == components(a).push(c),
{
    let x = a + seq!['/'] + c;
    lemma_last_index_of_joined(a, c);
    assert(x.take(a.len() as int) =~= a);
    assert(x.skip(a.len() as int + 1) =~= c);
}

/// No component holds a `/`.
pub proof fn lemma_components_no_slash(p: Seq<char>)
    ensures
        forall|k: int| 0 <= k < components(p).len() ==> no_slash(#[trigger] components(p)[k]),
    decreases p.len(),
{
    lemma_last_index_of_bounds(p, '/');
    let i = last_index_of(p, '/');
    if i >= 0 {
        lemma_components_no_slash(p.take(i));
        let tail = p.skip(i + 1);
        assert forall|j: int| 0 <= j < tail.len() implies tail[j] != '/' by {
            assert(tail[j] == p[i + 1 + j]);
        }
        assert forall|k: int| 0 <= k < components(p).len() implies no_slash(#[trigger] components(p)[k]) by {
            if k < components(p.take(i)).len() {
                assert(components(p)[k] == components(p.take(i))[k]);
            }
        }
    }
}

/// Components as `resolve` leaves them: none empty, `.` or holding `/`; the
/// `..` ones all come first, and there are none in an absolute path.
pub open spec fn resolved(r: Seq<Seq<char>>, abs: bool) -> bool {
    &&& forall|k: int| 0 <= k < r.len() ==> no_slash(#[trigger] r[k]) && r[k].len() > 0 && r[k] != seq!['.']
    &&& forall|i: int, j: int| 0 <= i < j < r.len() && r[j] == seq!['.', '.'] ==> r[i] == seq!['.', '.']
    &&& abs ==> forall|k: int| 0 <= k < r.len() ==> #[trigger] r[k] != seq!['.', '.']
}

/// What `resolve` leaves is resolved.
pub proof fn lemma_resolve_resolved(comps: Seq<Seq<char>>, abs: bool)
    requires
        forall|k: int| 0 <= k < comps.len() ==> no_slash(#[trigger] comps[k]),
    ensures
        resolved(resolve(comps, abs), abs),
    decreases comps.len(),
{
    if comps.len() > 0 {
        assert forall|k: int| 0 <= k < comps.drop_last().len() implies no_slash(#[trigger] comps.drop_last()[k]) by {
            assert(comps.drop_last()[k] == comps[k]);
        }
        lemma_resolve_resolved(comps.drop_last(), abs);
        let r = resolve(comps.drop_last(), abs);
        let c = comps.last();
        assert(no_slash(comps[comps.len() - 1]));
        if c.len() == 0 || c == seq!['.'] {
        } else if c == seq!['.', '.'] {
            if r.len() > 0 && r.last() != seq!['.', '.'] {
                let r2 = r.drop_last();
                assert forall|k: int| 0 <= k < r2.len() implies #[trigger] r2[k] == r[k] by {}
            } else if abs {
            } else {
                let r2 = r.push(c);
                assert forall|i: int, j: int| 0 <= i < j < r2.len() && r2[j] == seq!['.', '.'] implies r2[i] == seq!['.', '.'] by {
                    assert(r2[i] == r[i]);
                    if r.len() > 0 && i < r.len() - 1 {
                        assert(r[r.len() - 1] == seq!['.', '.']);
                    }
                }
                assert forall|k: int| 0 <= k < r2.len() implies no_slash(#[trigger] r2[k]) && r2[k].len() > 0 && r2[k] != seq!['.'] by {
                    if k < r.len() {
                        assert(r2[k] == r[k]);
                    }
                }
            }
        } else {
            let r2 = r.push(c);
            assert forall|k: int| 0 <= k < r2.len() implies no_slash(#[trigger] r2[k]) && r2[k].len() > 0 && r2[k] != seq!['.'] by {
                if k < r.len() {
                    assert(r2[k] == r[k]);
                }
            }
            assert forall|i: int, j: int| 0 <= i < j < r2.len() && r2[j] == seq!['.', '.'] implies r2[i] == seq!['.', '.'] by {
                assert(r2[i] == r[i]);
                assert(r2[j] == r[j]);
            }
        }
    }
}

/// Resolving resolved components leaves them as they are.
pub proof fn lemma_resolve_fixed(r: Seq<Seq<char>>, abs: bool)
    requires
        resolved(r, abs),
    ensures
        resolve(r, abs) == r,
    decreases r.len(),
{
    if r.len() > 0 {
        let d = r.drop_last();
        assert forall|k: int| 0 <= k < d.len() implies #[trigger] d[k] == r[k] by {}
        lemma_resolve_fixed(d, abs);
        let c = r.last();
        assert(r[r.len() - 1] == c);
        if c == seq!['.', '.'] {
            if d.len() > 0 {
                assert(d[d.len() - 1] == seq!['.', '.']);
            }
        }
        assert(d.push(c) =~= r);
    }
}

/// Putting components together and taking the result apart again gives them
/// back.
pub proof fn lemma_join_components(r: Seq<Seq<char>>)
    requires
        r.len() > 0,
        forall|k: int| 0 <= k < r.len() ==> no_slash(#[trigger] r[k]) && r[k].len() > 0,
    ensures
        components(join_components(r)) == r,
        join_components(r).len() > 0,
        join_components(r)[0] == r[0][0],
    decreases r.len(),
{
    assert(no_slash(r[0]) && r[0].len() > 0);
    if r.len() == 1 {
        lemma_no_slash_index(r[0]);
        assert(seq![r[0]] =~= r);
    } else {
        let d = r.drop_last();
        assert forall|k: int| 0 <= k < d.len() implies no_slash(#[trigger] d[k]) && d[k].len() > 0 by {
            assert(d[k] == r[k]);
        }
        lemma_join_components(d);
        assert(no_slash(r[r.len() - 1]));
        lemma_components_append(join_components(d), r.last());
        assert(d.push(r.last()) =~= r);
    }
}

/// A path in normal form is its own normal form.
pub proof fn lemma_normalize_idempotent(p: Seq<char>)
    ensures
        spec_normalize_path(spec_normalize_path(p)) == spec_normalize_path(p),
{
    let abs = p.len() > 0 && p[0] == '/';
    let body = if abs { p.skip(1) } else { p };
    let comps = components(body);
    lemma_components_no_slash(body);
    lemma_resolve_resolved(comps, abs);
    let r = resolve(comps, abs);
    let q = spec_normalize_path(p);
    if r.len() == 0 {
        if abs {
            assert(q.skip(1) =~= Seq::<char>::empty());
            lemma_no_slash_index(Seq::<char>::empty());
            let e = seq![Seq::<char>::empty()];
            assert(e.drop_last() =~= Seq::<Seq<char>>::empty());
            assert(resolve(Seq::<Seq<char>>::empty(), true).len() == 0);
            assert(e.last().len() == 0);
            assert(resolve(e, true).len() == 0);
        } else {
            lemma_no_slash_index(seq!['.']);
            let e = seq![seq!['.']];
            assert(e.drop_last() =~= Seq::<Seq<char>>::empty());
            assert(resolve(Seq::<Seq<char>>::empty(), false).len() == 0);
            assert(e.last() == seq!['.']);
            assert(resolve(e, false).len() == 0);
        }
    } else {
        lemma_join_components(r);
        lemma_resolve_fixed(r, abs);
        let j = join_components(r);
        assert(no_slash(r[0]) && r[0].len() > 0);
        if abs {
            assert(q.skip(1) =~= j);
        } else {
            assert(q[0] != '/');
        }
    }
}

/// The last component of `x/c`, in normal form, is `c`, when `c` names a
/// file by itself.
pub proof fn lemma_normalize_file_name(x: Seq<char>, c: Seq<char>)
    requires
        is_normal_component(c),
        no_slash(c),
    ensures
        spec_file_name(spec_normalize_path(x + seq!['/'] + c)) == Some(c),
{
    let p = x + seq!['/'] + c;
    let abs = p.len() > 0 && p[0] == '/';
    let body = if abs { p.skip(1) } else { p };
    if x.len() == 0 {
        assert(abs);
        assert(body =~= c);
        lemma_no_slash_index(c);
        assert(components(body) =~= Seq::<Seq<char>>::empty().push(c));
    } else {
        let xb = if abs { x.skip(1) } else { x };
        assert(body =~= xb + seq!['/'] + c);
        lemma_components_append(xb, c);
    }
    let comps = components(body);
    assert(comps.len() > 0 && comps.last() == c);
    let r = resolve(comps, abs);
    assert(r == resolve(comps.drop_last(), abs).push(c));
    let d = resolve(comps.drop_last(), abs);
    let q = spec_normalize_path(p);
    if d.len() == 0 {
        assert(r =~= seq![c]);
        lemma_no_slash_index(c);
        if abs {
            assert(q =~= Seq::<char>::empty() + seq!['/'] + c);
            lemma_last_index_of_joined(Seq::<char>::empty(), c);
        } else {
            assert(q == c);
        }
    } else {
        assert(r.drop_last() =~= d);
        let a = if abs { seq!['/'] + join_components(d) } else { join_components(d) };
        assert(q =~= a + seq!['/'] + c);
        lemma_last_index_of_joined(a, c);
    }
    assert(q.subrange(last_index_of(q, '/') + 1, q.len() as int) =~= c);
}

/// Reading one character more of a path: a `/` starts a new, empty
/// component; any other character extends the last component.
proof fn lemma_components_step(s: Seq<char>, i: int)
    requires
        0 <= i < s.len(),
    ensures
        s[i] == '/' ==> components(s.take(i + 1)) == components(s.take(i)).push(Seq::empty()),
        s[i] != '/' ==> components(s.take(i + 1)) == components(s.take(i)).drop_last().push(
            components(s.take(i)).last().push(s[i]),
        ),
{
    let t = s.take(i);
    let t1 = s.take(i + 1);
    assert(t1.drop_last() =~= t);
    lemma_last_index_of_bounds(t, '/');
    if s[i] == '/' {
        assert(t1.last() == '/');
        assert(t1.take(i) =~= t);
        assert(t1.skip(i + 1) =~= Seq::<char>::empty());
    } else {
        assert(t1.last() != '/');
        let l = last_index_of(t, '/');
        if l >= 0 {
            assert(t1.take(l) =~= t.take(l));
            assert(t1.skip(l + 1) =~= t.skip(l + 1).push(s[i]));
        } else {
            assert(t.push(s[i]) =~= t1);
        }
    }
}

/// The components of a path (see `components`).
fn split_components(s: &str) -> (res: Vec<String>)
    ensures
        res.deep_view() == components(s@),
{
    let n: usize = s.unicode_len();
    let mut done: Vec<String> = Vec::new();
    let mut start: usize = 0;
    let mut i: usize = 0;
    proof {
        assert(s@.take(0) =~= Seq::<char>::empty());
        assert(last_index_of(s@.take(0), '/') == -1);
        assert(done.deep_view().push(s@.subrange(0, 0)) =~= components(s@.take(0)));
    }
    while i < n
        invariant
            start <= i <= n == s@.len(),
            done.deep_view().push(s@.subrange(start as int, i as int)) == components(s@.take(i as int)),
        decreases n - i,
    {
        proof {
            lemma_components_step(s@, i as int);
        }
        let c = s.get_char(i);
        let ghost before = done.deep_view();
        assert(before.push(s@.subrange(start as int, i as int)).drop_last() =~= before);
        if c == '/' {
            let part = substring(s, start, i);
            done.push(part);
            assert(done.deep_view() =~= before.push(s@.subrange(start as int, i as int)));
            start = i + 1;
            assert(s@.subrange(start as int, i + 1) =~= Seq::<char>::empty());
        } else {
            assert(s@.subrange(start as int, i + 1) =~= s@.subrange(start as int, i as int).push(c));
        }
        i = i + 1;
    }
    let ghost before = done.deep_view();
    done.push(substring(s, start, n));
    assert(s@.take(n as int) =~= s@);
    assert(done.deep_view() =~= before.push(s@.subrange(start as int, n as int)));
    done
}

/// The components that remain of `comps` (see `resolve`).
fn resolve_components(comps: &Vec<String>, abs: bool) -> (res: Vec<String>)
    ensures
        res.deep_view() == resolve(comps.deep_view(), abs),
{
    proof {
        reveal_strlit(".");
        reveal_strlit("..");
        assert("."@ =~= seq!['.']);
        assert(".."@ =~= seq!['.', '.']);
    }
    let mut out: Vec<String> = Vec::new();
    let mut j: usize = 0;
    assert(comps.deep_view().take(0) =~= Seq::<Seq<char>>::empty());
    assert(out.deep_view() =~= Seq::<Seq<char>>::empty());
    while j < comps.len()
        invariant
            j <= comps.len(),
            out.deep_view() == resolve(comps.deep_view().take(j as int), abs),
            "."@ == seq!['.'],
            ".."@ == seq!['.', '.'],
        decreases comps.len() - j,
    {
        let ghost cs = comps.deep_view();
        assert(cs.take(j + 1).drop_last() =~= cs.take(j as int));
        assert(cs.take(j + 1).last() == comps@[j as int]@);
        let c = comps[j].as_str();
        let ghost before = out.deep_view();
        if c.unicode_len() == 0 || str_eq(c, ".") {
        } else if str_eq(c, "..") {
            let k = out.len();
            let top_is_up = k > 0 && str_eq(out[k - 1].as_str(), "..");
            proof {
                if k > 0 {
                    assert(before.last() == out@[k - 1]@);
                }
            }
            if k > 0 && !top_is_up {
                out.pop();
                assert(out.deep_view() =~= before.drop_last());
            } else if !abs {
                out.push(comps[j].clone());
                assert(out.deep_view() =~= before.push(c@));
            }
        } else {
            out.push(comps[j].clone());
            assert(out.deep_view() =~= before.push(c@));
        }
        j = j + 1;
    }
    assert(comps.deep_view().take(j as int) =~= comps.deep_view());
    out
}

/// Components put together with `/` between them (see `join_components`).
fn join_components_exec(cs: &Vec<String>) -> (res: String)
    ensures
        res@ == join_components(cs.deep_view()),
{
    proof {
        reveal_strlit("");
        reveal_strlit("/");
    }
    let mut out = String::from_str("");
    let mut j: usize = 0;
    assert(cs.deep_view().take(0) =~= Seq::<Seq<char>>::empty());
    while j < cs.len()
        invariant
            j <= cs.len(),
            out@ == join_components(cs.deep_view().take(j as int)),
            "/"@ == seq!['/'],
        decreases cs.len() - j,
    {
        let ghost d = cs.deep_view();
        assert(d.take(j + 1).drop_last() =~= d.take(j as int));
        assert(d.take(j + 1).last() == cs@[j as int]@);
        if j > 0 {
            out.append("/");
        }
        out.append(cs[j].as_str());
        assert(out@ =~= join_components(d.take(j + 1)));
        j = j + 1;
    }
    assert(cs.deep_view().take(j as int) =~= cs.deep_view());
    out
}

/// A path in its normal form (see `spec_normalize_path`).
pub fn normalize_path(p: &str) -> (res: String)
    ensures
        res@ == spec_normalize_path(p@),
{
    proof {
        reveal_strlit("/");
        reveal_strlit(".");
    }
    let n: usize = p.unicode_len();
    let abs = n > 0 && p.get_char(0) == '/';
    let body = if abs { substring(p, 1, n) } else { String::from_str(p) };
    assert(body@ =~= (if abs { p@.skip(1) } else { p@ }));
    let comps = split_components(body.as_str());
    let r = resolve_components(&comps, abs);
    if r.len() == 0 {
        if abs {
            String::from_str("/")
        } else {
            String::from_str(".")
        }
    } else if abs {
        let mut res = String::from_str("/");
        let rest = join_components_exec(&r);
        res.append(rest.as_str());
        res
    } else {
        join_components_exec(&r)
    }
}

/// `rel` placed under the directory `root` (see `spec_join`).
pub fn join(root: &str, rel: &str) -> (res: String)
    ensures
        res@ == spec_join(root@, rel@),
{
    proof {
        reveal_strlit("/");
        assert("/"@ =~= seq!['/']);
    }
    if rel.unicode_len() == 0 {
        return normalize_path(root);
    }
    if rel.get_char(0) == '/' {
        return normalize_path(rel);
    }
    let mut whole = normalize_path(root);
    whole.append("/");
    whole.append(rel);
    assert(whole@ =~= spec_normalize_path(root@) + seq!['/'] + rel@);
    normalize_path(whole.as_str())
}

} // verus!
