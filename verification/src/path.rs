//! A model of `/`-separated paths.
//!
//! A path is a string. Its components are the segments between `/`
//! separators, leaving out empty segments and `.`; an absolute path (one
//! that starts with `/`) has the root `"/"` as its first component, and a
//! relative path whose first segment is `.` keeps that `.` as its first
//! component. Paths
//! that this module builds from components are rendered in normal form:
//! the root, then the other components joined by single separators.

use vstd::prelude::*;
use crate::text::{chars_of, string_of, chars_eq, push_chars};

verus! {

/// The segments of `s` between `/` separators, empty ones included.
pub open spec fn segments(s: Seq<char>) -> Seq<Seq<char>>
    decreases s.len(),
{
    if s.len() == 0 {
        seq![Seq::<char>::empty()]
    } else {
        let prev = segments(s.drop_last());
        if s.last() == '/' {
            prev.push(Seq::<char>::empty())
        } else {
            prev.update(prev.len() - 1, prev.last().push(s.last()))
        }
    }
}

/// A segment that names something: neither empty nor `.`.
pub open spec fn is_normal(seg: Seq<char>) -> bool {
    seg.len() > 0 && seg != seq!['.']
}

/// The normal segments, in order.
pub open spec fn normal_parts(segs: Seq<Seq<char>>) -> Seq<Seq<char>>
    decreases segs.len(),
{
    if segs.len() == 0 {
        seq![]
    } else {
        let rest = normal_parts(segs.drop_last());
        if is_normal(segs.last()) {
            rest.push(segs.last())
        } else {
            rest
        }
    }
}

/// The component that stands for the root of an absolute path.
pub open spec fn root_marker() -> Seq<char> {
    seq!['/']
}

pub open spec fn is_absolute(s: Seq<char>) -> bool {
    s.len() > 0 && s[0] == '/'
}

/// The component that stands for the current directory at the head of a
/// relative path.
pub open spec fn cur_dir_marker() -> Seq<char> {
    seq!['.']
}

/// Whether `s` begins with the segment `.`: it is `.` or starts with `./`.
pub open spec fn leads_with_cur_dir(s: Seq<char>) -> bool {
    s.len() > 0 && s[0] == '.' && (s.len() == 1 || s[1] == '/')
}

/// The components of a path.
pub open spec fn components(s: Seq<char>) -> Seq<Seq<char>> {
    if is_absolute(s) {
        seq![root_marker()] + normal_parts(segments(s))
    } else if leads_with_cur_dir(s) {
        seq![cur_dir_marker()] + normal_parts(segments(s))
    } else {
        normal_parts(segments(s))
    }
}

/// Components joined by single `/` separators.
pub open spec fn join_parts(cs: Seq<Seq<char>>) -> Seq<char>
    decreases cs.len(),
{
    if cs.len() == 0 {
        seq![]
    } else if cs.len() == 1 {
        cs[0]
    } else {
        join_parts(cs.drop_last()) + seq!['/'] + cs.last()
    }
}

/// The normal-form string of a sequence of components.
pub open spec fn render(cs: Seq<Seq<char>>) -> Seq<char> {
    if cs.len() > 0 && cs[0] == root_marker() {
        seq!['/'] + join_parts(cs.drop_first())
    } else {
        join_parts(cs)
    }
}

/// The views of a vector of character vectors.
pub open spec fn views(v: Seq<Vec<char>>) -> Seq<Seq<char>> {
    Seq::new(v.len(), |i: int| v[i]@)
}

/// Whether the components of `base` are a prefix of those of `path`.
pub open spec fn spec_starts_with(path: Seq<char>, base: Seq<char>) -> bool {
    let p = components(path);
    let b = components(base);
    b.len() <= p.len() && p.take(b.len() as int) == b
}

/// What is left of `path` after the components of `base`, in normal form.
pub open spec fn spec_strip_prefix(path: Seq<char>, base: Seq<char>) -> Option<Seq<char>> {
    if spec_starts_with(path, base) {
        Some(render(components(path).skip(components(base).len() as int)))
    } else {
        None
    }
}

/// `tail` appended to `base`: an absolute `tail` replaces `base`, and a
/// separator is put between the two unless `base` is empty or ends in one.
pub open spec fn spec_join(base: Seq<char>, tail: Seq<char>) -> Seq<char> {
    if is_absolute(tail) || base.len() == 0 {
        tail
    } else if base.last() == '/' {
        base + tail
    } else {
        base + seq!['/'] + tail
    }
}

/// The path without its last component; none for the root or an empty path.
pub open spec fn spec_parent(path: Seq<char>) -> Option<Seq<char>> {
    let cs = components(path);
    if cs.len() == 0 || (cs.len() == 1 && cs[0] == root_marker()) {
        None
    } else {
        Some(render(cs.drop_last()))
    }
}

/// The last component when it names a file (not the root, `.` or `..`).
pub open spec fn spec_file_name(path: Seq<char>) -> Option<Seq<char>> {
    let cs = components(path);
    if cs.len() == 0 || cs.last() == root_marker() || cs.last() == cur_dir_marker() || cs.last() == seq!['.', '.'] {
        None
    } else {
        Some(cs.last())
    }
}

proof fn lemma_segments_nonempty(s: Seq<char>)
    ensures
        segments(s).len() >= 1,
    decreases s.len(),
{
    if s.len() > 0 {
        lemma_segments_nonempty(s.drop_last());
    }
}

proof fn lemma_segments_step(s: Seq<char>, i: int)
    requires
        0 <= i < s.len(),
    ensures
        s[i] == '/' ==> segments(s.take(i + 1)) == segments(s.take(i)).push(Seq::<char>::empty()),
        s[i] != '/' ==> segments(s.take(i + 1)).drop_last() == segments(s.take(i)).drop_last(),
        s[i] != '/' ==> segments(s.take(i + 1)).last() == segments(s.take(i)).last().push(s[i]),
        segments(s.take(i + 1)).len() >= 1,
{
    let t = s.take(i + 1);
    assert(t.drop_last() == s.take(i));
    assert(t.last() == s[i]);
    lemma_segments_nonempty(s.take(i));
    lemma_segments_nonempty(t);
    let prev = segments(s.take(i));
    if s[i] != '/' {
        assert(segments(t) == prev.update(prev.len() - 1, prev.last().push(s[i])));
        assert(segments(t).drop_last() =~= prev.drop_last());
    }
}

fn is_normal_exec(seg: &Vec<char>) -> (r: bool)
    ensures
        r == is_normal(seg@),
{
    if seg.len() == 0 {
        false
    } else if seg.len() == 1 && seg[0] == '.' {
        assert(seg@ =~= seq!['.']);
        false
    } else {
        assert(seg@.len() == 1 ==> seg@ != seq!['.']);
        true
    }
}

/// The components of a path given as characters.
pub fn components_of(s: &Vec<char>) -> (out: Vec<Vec<char>>)
    ensures
        views(out@) == components(s@),
{
    let mut out: Vec<Vec<char>> = Vec::new();
    let ghost prefix: Seq<Seq<char>> = seq![];
    if s.len() > 0 && s[0] == '/' {
        let mut root: Vec<char> = Vec::new();
        root.push('/');
        out.push(root);
        proof {
            prefix = seq![root_marker()];
            assert(views(out@) =~= prefix);
        }
    } else if s.len() > 0 && s[0] == '.' && (s.len() == 1 || s[1] == '/') {
        let mut dot: Vec<char> = Vec::new();
        dot.push('.');
        out.push(dot);
        proof {
            prefix = seq![cur_dir_marker()];
            assert(views(out@) =~= prefix);
        }
    }
    assert(views(out@) =~= prefix);
    let mut cur: Vec<char> = Vec::new();
    let mut i: usize = 0;
    proof {
        assert(s@.take(0) =~= Seq::<char>::empty());
        assert(segments(s@.take(0)) == seq![Seq::<char>::empty()]);
        assert(segments(s@.take(0)).drop_last() =~= Seq::<Seq<char>>::empty());
        assert(normal_parts(Seq::<Seq<char>>::empty()) =~= Seq::<Seq<char>>::empty());
        assert(views(out@) =~= prefix + normal_parts(segments(s@.take(0)).drop_last()));
    }
    while i < s.len()
        invariant
            i <= s@.len(),
            prefix == (if is_absolute(s@) {
                seq![root_marker()]
            } else if leads_with_cur_dir(s@) {
                seq![cur_dir_marker()]
            } else {
                Seq::<Seq<char>>::empty()
            }),
            segments(s@.take(i as int)).len() >= 1,
            views(out@) == prefix + normal_parts(segments(s@.take(i as int)).drop_last()),
            cur@ == segments(s@.take(i as int)).last(),
        decreases s@.len() - i,
    {
        proof {
            lemma_segments_step(s@, i as int);
        }
        let c = s[i];
        let ghost segs_i = segments(s@.take(i as int));
        if c == '/' {
            let normal = is_normal_exec(&cur);
            let ghost old_out = out@;
            if normal {
                out.push(cur);
                proof {
                    assert(views(out@) =~= views(old_out).push(segs_i.last()));
                }
            }
            cur = Vec::new();
            proof {
                let segs_n = segments(s@.take(i + 1));
                assert(segs_n.drop_last() =~= segs_i);
                assert(segs_i =~= segs_i.drop_last().push(segs_i.last()));
                assert(normal_parts(segs_i) == (if is_normal(segs_i.last()) {
                    normal_parts(segs_i.drop_last()).push(segs_i.last())
                } else {
                    normal_parts(segs_i.drop_last())
                }));
                assert(views(out@) =~= prefix + normal_parts(segs_n.drop_last()));
                assert(cur@ =~= segs_n.last());
            }
        } else {
            cur.push(c);
        }
        i = i + 1;
    }
    assert(s@.take(i as int) =~= s@);
    let normal = is_normal_exec(&cur);
    let ghost old_out = out@;
    if normal {
        out.push(cur);
        proof {
            assert(views(out@) =~= views(old_out).push(segments(s@).last()));
        }
    }
    proof {
        let segs = segments(s@);
        assert(normal_parts(segs) == (if is_normal(segs.last()) {
            normal_parts(segs.drop_last()).push(segs.last())
        } else {
            normal_parts(segs.drop_last())
        }));
        assert(views(out@) =~= prefix + normal_parts(segs));
    }
    out
}

fn is_root_exec(c: &Vec<char>) -> (r: bool)
    ensures
        r == (c@ == root_marker()),
{
    if c.len() == 1 && c[0] == '/' {
        assert(c@ =~= root_marker());
        true
    } else {
        false
    }
}

proof fn lemma_join_parts_step(cs: Seq<Seq<char>>, start: int, i: int)
    requires
        0 <= start < i < cs.len(),
    ensures
        join_parts(cs.subrange(start, i + 1)) == join_parts(cs.subrange(start, i)) + seq!['/'] + cs[i],
{
    let t = cs.subrange(start, i + 1);
    assert(t.drop_last() =~= cs.subrange(start, i));
    assert(t.last() == cs[i]);
}

/// The normal-form string of the components `cs[start..]`, after the root
/// when `start` skips it.
fn render_from(out: &mut Vec<char>, cs: &Vec<Vec<char>>, start: usize)
    requires
        start <= cs@.len(),
    ensures
        final(out)@ == old(out)@ + join_parts(views(cs@).subrange(start as int, cs@.len() as int)),
{
    let ghost vs = views(cs@);
    let mut i: usize = start;
    assert(vs.subrange(start as int, start as int) =~= Seq::<Seq<char>>::empty());
    while i < cs.len()
        invariant
            start <= i <= cs@.len(),
            vs == views(cs@),
            out@ == old(out)@ + join_parts(vs.subrange(start as int, i as int)),
        decreases cs@.len() - i,
    {
        let ghost before = out@;
        if i > start {
            out.push('/');
            push_chars(out, &cs[i]);
            proof {
                lemma_join_parts_step(vs, start as int, i as int);
                assert(out@ =~= old(out)@ + join_parts(vs.subrange(start as int, i + 1)));
            }
        } else {
            push_chars(out, &cs[i]);
            proof {
                assert(vs.subrange(start as int, i + 1) =~= seq![vs[i as int]]);
                assert(join_parts(vs.subrange(start as int, i + 1)) == vs[i as int]);
            }
        }
        i = i + 1;
    }
}

/// The normal-form string of a sequence of components.
pub fn render_components(cs: &Vec<Vec<char>>) -> (out: Vec<char>)
    ensures
        out@ == render(views(cs@)),
{
    let mut out: Vec<char> = Vec::new();
    if cs.len() > 0 && is_root_exec(&cs[0]) {
        out.push('/');
        render_from(&mut out, cs, 1);
        assert(views(cs@).subrange(1, cs@.len() as int) =~= views(cs@).drop_first());
    } else {
        render_from(&mut out, cs, 0);
        assert(views(cs@).subrange(0, cs@.len() as int) =~= views(cs@));
    }
    out
}

fn components_prefix(p: &Vec<Vec<char>>, b: &Vec<Vec<char>>) -> (r: bool)
    ensures
        r == (views(b@).len() <= views(p@).len() && views(p@).take(views(b@).len() as int) == views(b@)),
{
    if b.len() > p.len() {
        return false;
    }
    let mut i: usize = 0;
    while i < b.len()
        invariant
            b@.len() <= p@.len(),
            i <= b@.len(),
            forall|j: int| 0 <= j < i ==> p@[j]@ == b@[j]@,
        decreases b@.len() - i,
    {
        if !chars_eq(&p[i], &b[i]) {
            assert(views(p@).take(b@.len() as int)[i as int] != views(b@)[i as int]);
            return false;
        }
        i = i + 1;
    }
    assert(views(p@).take(views(b@).len() as int) =~= views(b@));
    true
}

/// Whether `path` lies under `base`, component by component.
pub fn starts_with(path: &str, base: &str) -> (r: bool)
    ensures
        r == spec_starts_with(path@, base@),
{
    let p = components_of(&chars_of(path));
    let b = components_of(&chars_of(base));
    components_prefix(&p, &b)
}

/// The part of `path` below `base`, when `path` lies under `base`.
pub fn strip_prefix(path: &str, base: &str) -> (r: Option<String>)
    ensures
        r matches Some(s) ==> spec_strip_prefix(path@, base@) == Some(s@),
        r is None ==> spec_strip_prefix(path@, base@) is None,
{
    let p = components_of(&chars_of(path));
    let b = components_of(&chars_of(base));
    if !components_prefix(&p, &b) {
        return None;
    }
    let mut rest: Vec<Vec<char>> = Vec::new();
    let mut i: usize = b.len();
    while i < p.len()
        invariant
            b@.len() <= i <= p@.len(),
            views(rest@) == views(p@).subrange(b@.len() as int, i as int),
        decreases p@.len() - i,
    {
        let ghost before = rest@;
        let mut part: Vec<char> = Vec::new();
        push_chars(&mut part, &p[i]);
        assert(part@ =~= p@[i as int]@);
        rest.push(part);
        i = i + 1;
        proof {
            assert(views(rest@) =~= views(before).push(part@));
            assert(views(p@).subrange(b@.len() as int, i as int)
                =~= views(p@).subrange(b@.len() as int, i - 1).push(views(p@)[i - 1]));
        }
    }
    assert(views(p@).subrange(b@.len() as int, p@.len() as int) =~= views(p@).skip(views(b@).len() as int));
    let out = render_components(&rest);
    Some(string_of(&out))
}

/// `tail` appended to `base` (see [`spec_join`]).
pub fn join(base: &str, tail: &str) -> (r: String)
    ensures
        r@ == spec_join(base@, tail@),
{
    let b = chars_of(base);
    let t = chars_of(tail);
    if (t.len() > 0 && t[0] == '/') || b.len() == 0 {
        return string_of(&t);
    }
    let mut out: Vec<char> = Vec::new();
    push_chars(&mut out, &b);
    assert(out@ =~= b@);
    if b[b.len() - 1] != '/' {
        out.push('/');
    }
    push_chars(&mut out, &t);
    string_of(&out)
}

/// The parent of `path` (see [`spec_parent`]).
pub fn parent(path: &str) -> (r: Option<String>)
    ensures
        r matches Some(s) ==> spec_parent(path@) == Some(s@),
        r is None ==> spec_parent(path@) is None,
{
    let mut cs = components_of(&chars_of(path));
    if cs.len() == 0 || (cs.len() == 1 && is_root_exec(&cs[0])) {
        return None;
    }
    let ghost before = views(cs@);
    cs.pop();
    assert(views(cs@) =~= before.drop_last());
    Some(string_of(&render_components(&cs)))
}

/// The file name of `path` (see [`spec_file_name`]).
pub fn file_name(path: &str) -> (r: Option<String>)
    ensures
        r matches Some(s) ==> spec_file_name(path@) == Some(s@),
        r is None ==> spec_file_name(path@) is None,
{
    let cs = components_of(&chars_of(path));
    if cs.len() == 0 {
        return None;
    }
    let last = &cs[cs.len() - 1];
    assert(views(cs@).last() == last@);
    if is_root_exec(last) {
        return None;
    }
    if last.len() == 1 && last[0] == '.' {
        assert(last@ =~= cur_dir_marker());
        return None;
    }
    assert(last@ != cur_dir_marker());
    if last.len() == 2 && last[0] == '.' && last[1] == '.' {
        assert(last@ =~= seq!['.', '.']);
        return None;
    }
    assert(last@ != seq!['.', '.']);
    Some(string_of(last))
}

/// The position of the last `c` in `s`.
pub open spec fn last_index_of(s: Seq<char>, c: char) -> Option<int>
    decreases s.len(),
{
    if s.len() == 0 {
        None
    } else if s.last() == c {
        Some(s.len() - 1)
    } else {
        last_index_of(s.drop_last(), c)
    }
}

/// A file name split at its last dot, as (before, after): a name without a
/// dot is all "after"; a name whose only dot leads it, and `..`, are all
/// "before".
pub open spec fn spec_split_at_dot(name: Seq<char>) -> (Option<Seq<char>>, Option<Seq<char>>) {
    if name == seq!['.', '.'] {
        (Some(name), None)
    } else {
        match last_index_of(name, '.') {
            None => (None, Some(name)),
            Some(k) => if k == 0 {
                (Some(name), None)
            } else {
                (Some(name.take(k)), Some(name.skip(k + 1)))
            },
        }
    }
}

/// The file name without its extension.
pub open spec fn spec_file_stem(path: Seq<char>) -> Option<Seq<char>> {
    match spec_file_name(path) {
        None => None,
        Some(n) => {
            let (before, after) = spec_split_at_dot(n);
            if before is Some { before } else { after }
        },
    }
}

/// The extension of the file name (what follows its last dot).
pub open spec fn spec_extension(path: Seq<char>) -> Option<Seq<char>> {
    match spec_file_name(path) {
        None => None,
        Some(n) => {
            let (before, after) = spec_split_at_dot(n);
            if before is Some { after } else { None }
        },
    }
}

/// `path` with its file name replaced by `name` (or `name` appended when
/// `path` has no file name).
pub open spec fn spec_with_file_name(path: Seq<char>, name: Seq<char>) -> Seq<char> {
    if spec_file_name(path) is Some {
        spec_join(spec_parent(path).unwrap(), name)
    } else {
        spec_join(path, name)
    }
}

proof fn lemma_last_index_of(s: Seq<char>, c: char)
    ensures
        last_index_of(s, c) matches Some(k) ==> 0 <= k < s.len() && s[k] == c
            && forall|j: int| k < j < s.len() ==> s[j] != c,
        last_index_of(s, c) is None ==> forall|j: int| 0 <= j < s.len() ==> s[j] != c,
    decreases s.len(),
{
    if s.len() > 0 {
        let t = s.drop_last();
        lemma_last_index_of(t, c);
        assert forall|j: int| 0 <= j < t.len() implies t[j] == s[j] by {}
    }
}

fn find_last_dot(n: &Vec<char>) -> (r: Option<usize>)
    ensures
        r matches Some(k) ==> last_index_of(n@, '.') == Some(k as int),
        r is None ==> last_index_of(n@, '.') is None,
{
    let mut i: usize = n.len();
    assert(n@.take(i as int) =~= n@);
    while i > 0
        invariant
            i <= n@.len(),
            last_index_of(n@, '.') == last_index_of(n@.take(i as int), '.'),
        decreases i,
    {
        let ghost t = n@.take(i as int);
        assert(t.drop_last() =~= n@.take(i - 1));
        if n[i - 1] == '.' {
            return Some(i - 1);
        }
        i = i - 1;
    }
    assert(n@.take(0) =~= Seq::<char>::empty());
    None
}

fn subrange_of(n: &Vec<char>, from: usize, to: usize) -> (r: Vec<char>)
    requires
        from <= to <= n@.len(),
    ensures
        r@ == n@.subrange(from as int, to as int),
{
    let mut r: Vec<char> = Vec::new();
    let mut i: usize = from;
    while i < to
        invariant
            from <= i <= to <= n@.len(),
            r@ == n@.subrange(from as int, i as int),
        decreases to - i,
    {
        r.push(n[i]);
        i = i + 1;
        assert(r@ =~= n@.subrange(from as int, i as int));
    }
    r
}

/// A file name split at its last dot (see [`spec_split_at_dot`]).
pub fn split_at_dot(name: &Vec<char>) -> (r: (Option<Vec<char>>, Option<Vec<char>>))
    ensures
        (match r.0 { Some(v) => Some(v@), None => None::<Seq<char>> },
         match r.1 { Some(v) => Some(v@), None => None::<Seq<char>> }) == spec_split_at_dot(name@),
{
    if name.len() == 2 && name[0] == '.' && name[1] == '.' {
        assert(name@ =~= seq!['.', '.']);
        return (Some(subrange_of(name, 0, name.len())), None);
    }
    assert(name@ != seq!['.', '.']);
    match find_last_dot(name) {
        None => {
            let all = subrange_of(name, 0, name.len());
            assert(all@ =~= name@);
            (None, Some(all))
        },
        Some(k) => {
            proof {
                lemma_last_index_of(name@, '.');
            }
            if k == 0 {
                let all = subrange_of(name, 0, name.len());
                assert(all@ =~= name@);
                (Some(all), None)
            } else {
                let before = subrange_of(name, 0, k);
                let after = subrange_of(name, k + 1, name.len());
                proof {
                    lemma_last_index_of(name@, '.');
                }
                assert(before@ =~= name@.take(k as int));
                assert(after@ =~= name@.skip(k + 1));
                (Some(before), Some(after))
            }
        },
    }
}

/// The file name of `path` without its extension (see [`spec_file_stem`]).
pub fn file_stem(path: &str) -> (r: Option<String>)
    ensures
        r matches Some(s) ==> spec_file_stem(path@) == Some(s@),
        r is None ==> spec_file_stem(path@) is None,
{
    match file_name(path) {
        None => None,
        Some(n) => {
            let (before, after) = split_at_dot(&chars_of(n.as_str()));
            match before {
                Some(b) => Some(string_of(&b)),
                None => match after {
                    Some(a) => Some(string_of(&a)),
                    None => None,
                },
            }
        },
    }
}

/// The extension of `path` (see [`spec_extension`]).
pub fn extension(path: &str) -> (r: Option<String>)
    ensures
        r matches Some(s) ==> spec_extension(path@) == Some(s@),
        r is None ==> spec_extension(path@) is None,
{
    match file_name(path) {
        None => None,
        Some(n) => {
            let (before, after) = split_at_dot(&chars_of(n.as_str()));
            match before {
                Some(_) => match after {
                    Some(a) => Some(string_of(&a)),
                    None => None,
                },
                None => None,
            }
        },
    }
}

/// `path` with its file name replaced by `name` (see [`spec_with_file_name`]).
pub fn with_file_name(path: &str, name: &str) -> (r: String)
    ensures
        r@ == spec_with_file_name(path@, name@),
{
    match file_name(path) {
        Some(_) => {
            let cs = components_of(&chars_of(path));
            assert(cs@.len() > 0);
            assert(!(cs@.len() == 1 && views(cs@)[0] == root_marker()));
            match parent(path) {
                Some(p) => join(p.as_str(), name),
                None => {
                    assert(false);
                    join(path, name)
                },
            }
        },
        None => join(path, name),
    }
}

} // verus!
