//! Lexical path confinement: every path a script hands to the filesystem
//! capability is collapsed segment by segment and then attached below a root.

use vstd::prelude::*;

use crate::text::{lemma_split_on_nonempty, split_on, split_text, views_of};

verus! {

pub open spec fn is_cur_dir(seg: Seq<char>) -> bool {
    seg == seq!['.']
}

pub open spec fn is_parent_dir(seg: Seq<char>) -> bool {
    seg == seq!['.', '.']
}

/// Applies one segment to a stack of already resolved segments:
/// empty and `.` segments vanish, `..` drops the last segment (and does
/// nothing at the root), anything else is appended.
pub open spec fn apply_segment(stack: Seq<Seq<char>>, seg: Seq<char>) -> Seq<Seq<char>> {
    if seg.len() == 0 || is_cur_dir(seg) {
        stack
    } else if is_parent_dir(seg) {
        if stack.len() == 0 {
            stack
        } else {
            stack.drop_last()
        }
    } else {
        stack.push(seg)
    }
}

/// Resolves `segs` from left to right on top of `stack`.
pub open spec fn resolve_onto(stack: Seq<Seq<char>>, segs: Seq<Seq<char>>) -> Seq<Seq<char>>
    decreases segs.len(),
{
    if segs.len() == 0 {
        stack
    } else {
        apply_segment(resolve_onto(stack, segs.drop_last()), segs.last())
    }
}

/// The segments that remain of `p` once `.`, `..` and empty segments are
/// collapsed, starting from the root.
pub open spec fn resolved_segments(p: Seq<char>) -> Seq<Seq<char>> {
    resolve_onto(Seq::empty(), split_on(p, '/'))
}

/// Joins segments with `/`.
pub open spec fn join_segments(segs: Seq<Seq<char>>) -> Seq<char>
    decreases segs.len(),
{
    if segs.len() == 0 {
        Seq::empty()
    } else if segs.len() == 1 {
        segs[0]
    } else {
        join_segments(segs.drop_last()) + seq!['/'] + segs.last()
    }
}

/// Attaches a relative path below `root`, adding a separator only where
/// `root` does not already end in one.
pub open spec fn attach(root: Seq<char>, rel: Seq<char>) -> Seq<char> {
    if rel.len() == 0 {
        root
    } else if root.len() == 0 || root.last() == '/' {
        root + rel
    } else {
        root + seq!['/'] + rel
    }
}

/// The path that `path` denotes below `root`.
pub open spec fn normalized_path(root: Seq<char>, path: Seq<char>) -> Seq<char> {
    attach(root, join_segments(resolved_segments(path)))
}

/// A segment that names an entry of a directory: not empty, not `.` or `..`,
/// and free of separators.
pub open spec fn is_plain_segment(seg: Seq<char>) -> bool {
    &&& seg.len() > 0
    &&& !is_cur_dir(seg)
    &&& !is_parent_dir(seg)
    &&& forall|j: int| 0 <= j < seg.len() ==> seg[j] != '/'
}

pub open spec fn all_plain(segs: Seq<Seq<char>>) -> bool {
    forall|i: int| 0 <= i < segs.len() ==> is_plain_segment(#[trigger] segs[i])
}

/// No segment that splitting at `/` yields holds a separator.
pub proof fn lemma_split_no_separator(p: Seq<char>)
    ensures
        forall|i: int, j: int|
            0 <= i < split_on(p, '/').len() && 0 <= j < split_on(p, '/')[i].len()
                ==> split_on(p, '/')[i][j] != '/',
    decreases p.len(),
{
    if p.len() > 0 {
        lemma_split_on_nonempty(p.drop_last(), '/');
        lemma_split_no_separator(p.drop_last());
        let prev = split_on(p.drop_last(), '/');
        if p.last() != '/' {
            assert forall|i: int, j: int|
                0 <= i < split_on(p, '/').len() && 0 <= j < split_on(p, '/')[i].len()
                    implies split_on(p, '/')[i][j] != '/' by {
                if i == prev.len() - 1 {
                    let s = prev.last().push(p.last());
                    if j < prev.last().len() {
                        assert(s[j] == prev.last()[j]);
                    }
                }
            }
        }
    }
}

/// Resolution only ever keeps plain segments.
pub proof fn lemma_resolve_plain(stack: Seq<Seq<char>>, segs: Seq<Seq<char>>)
    requires
        all_plain(stack),
        forall|i: int, j: int|
            0 <= i < segs.len() && 0 <= j < segs[i].len() ==> segs[i][j] != '/',
    ensures
        all_plain(resolve_onto(stack, segs)),
    decreases segs.len(),
{
    if segs.len() > 0 {
        let init = segs.drop_last();
        assert forall|i: int, j: int|
            0 <= i < init.len() && 0 <= j < init[i].len() implies init[i][j] != '/' by {
            assert(init[i] == segs[i]);
        }
        lemma_resolve_plain(stack, init);
        let r = resolve_onto(stack, init);
        let seg = segs.last();
        assert forall|j: int| 0 <= j < seg.len() implies seg[j] != '/' by {
            assert(seg == segs[segs.len() - 1]);
        }
        if !(seg.len() == 0 || is_cur_dir(seg)) && is_parent_dir(seg) && r.len() > 0 {
            assert forall|i: int| 0 <= i < r.drop_last().len() implies is_plain_segment(
                #[trigger] r.drop_last()[i],
            ) by {
                assert(r.drop_last()[i] == r[i]);
            }
        }
    }
}

/// Resolving a concatenation is resolving its second part on top of the
/// first.
pub proof fn lemma_resolve_append(stack: Seq<Seq<char>>, a: Seq<Seq<char>>, b: Seq<Seq<char>>)
    ensures
        resolve_onto(stack, a + b) == resolve_onto(resolve_onto(stack, a), b),
    decreases b.len(),
{
    if b.len() == 0 {
        assert(a + b =~= a);
    } else {
        assert((a + b).drop_last() =~= a + b.drop_last());
        lemma_resolve_append(stack, a, b.drop_last());
    }
}

/// Splitting at a separator splits the segment lists too.
pub proof fn lemma_split_concat(a: Seq<char>, b: Seq<char>)
    ensures
        split_on(a + seq!['/'] + b, '/') == split_on(a, '/') + split_on(b, '/'),
    decreases b.len(),
{
    lemma_split_on_nonempty(b, '/');
    if b.len() == 0 {
        assert((a + seq!['/'] + b).drop_last() =~= a);
        assert(split_on(b, '/') =~= seq![Seq::<char>::empty()]);
        assert(split_on(a, '/').push(Seq::empty()) =~= split_on(a, '/') + split_on(b, '/'));
    } else {
        lemma_split_concat(a, b.drop_last());
        lemma_split_on_nonempty(b.drop_last(), '/');
        assert((a + seq!['/'] + b).drop_last() =~= a + seq!['/'] + b.drop_last());
        assert((a + seq!['/'] + b).last() == b.last());
        let sa = split_on(a, '/');
        let sb = split_on(b.drop_last(), '/');
        if b.last() == '/' {
            assert((sa + sb).push(Seq::empty()) =~= sa + sb.push(Seq::empty()));
        } else {
            let n = sb.len() - 1;
            assert((sa + sb).update(sa.len() + n, (sa + sb).last().push(b.last())) =~= sa
                + sb.update(n, sb.last().push(b.last())));
        }
    }
}

/// Whatever `path` holds, its normalized form lies below `root`: it is `root`
/// followed by plain segments only, none of which is `.` or `..`.
pub proof fn lemma_normalized_stays_below_root(root: Seq<char>, path: Seq<char>)
    ensures
        all_plain(resolved_segments(path)),
        normalized_path(root, path) == attach(root, join_segments(resolved_segments(path))),
        root.is_prefix_of(normalized_path(root, path)),
{
    lemma_split_no_separator(path);
    lemma_resolve_plain(Seq::empty(), split_on(path, '/'));
    let rel = join_segments(resolved_segments(path));
    if rel.len() > 0 {
        if root.len() == 0 || root.last() == '/' {
            assert((root + rel).subrange(0, root.len() as int) =~= root);
        } else {
            assert((root + seq!['/'] + rel).subrange(0, root.len() as int) =~= root);
        }
    }
}

/// A leading `..` cannot climb above the root: `../p` names the same path as
/// `p`. Applied repeatedly, any number of leading `..` segments vanish.
pub proof fn lemma_leading_parent_vanishes(root: Seq<char>, path: Seq<char>)
    ensures
        normalized_path(root, seq!['.', '.', '/'] + path) == normalized_path(root, path),
{
    let dots = seq!['.', '.'];
    assert(seq!['.', '.', '/'] + path =~= dots + seq!['/'] + path);
    lemma_split_concat(dots, path);
    assert(dots.drop_last() =~= seq!['.']);
    assert(seq!['.'].drop_last() =~= Seq::<char>::empty());
    assert(split_on(Seq::<char>::empty(), '/') == seq![Seq::<char>::empty()]);
    assert(Seq::<char>::empty().push('.') =~= seq!['.']);
    assert(seq!['.'].last() == '.');
    assert(split_on(seq!['.'], '/') =~= seq![seq!['.']]);
    assert(seq!['.'].push('.') =~= dots);
    assert(dots.last() == '.');
    assert(split_on(dots, '/') =~= seq![dots]);
    lemma_resolve_append(Seq::empty(), seq![dots], split_on(path, '/'));
    assert(seq![dots].drop_last() =~= Seq::<Seq<char>>::empty());
    assert(resolve_onto(Seq::empty(), Seq::<Seq<char>>::empty()) == Seq::<Seq<char>>::empty());
    assert(seq![dots].last() == dots);
    assert(is_parent_dir(dots));
    assert(!is_cur_dir(dots)) by {
        assert(dots.len() != seq!['.'].len());
    }
    assert(resolve_onto(Seq::empty(), seq![dots]) =~= Seq::<Seq<char>>::empty());
}

/// `k` leading `../` segments.
pub open spec fn climbs(k: nat) -> Seq<char>
    decreases k,
{
    if k == 0 {
        Seq::empty()
    } else {
        seq!['.', '.', '/'] + climbs((k - 1) as nat)
    }
}

/// However many `..` segments lead a path, it names the same place below
/// the root as the path without them.
pub proof fn lemma_any_climb_vanishes(root: Seq<char>, path: Seq<char>, k: nat)
    ensures
        normalized_path(root, climbs(k) + path) == normalized_path(root, path),
    decreases k,
{
    if k == 0 {
        assert(climbs(0) + path =~= path);
    } else {
        let rest = climbs((k - 1) as nat) + path;
        assert(climbs(k) + path =~= seq!['.', '.', '/'] + rest);
        lemma_leading_parent_vanishes(root, rest);
        lemma_any_climb_vanishes(root, path, (k - 1) as nat);
    }
}

/// The path that `path` names below `working_dir`, with `.` and `..` collapsed
/// before it is attached, so that the result never leaves `working_dir`.
pub fn normalize_path(working_dir: &str, path: &str) -> (r: String)
    ensures
        r@ == normalized_path(working_dir@, path@),
{
    let parts = split_text(path, '/');
    let ghost pv = views_of(parts@);
    let mut stack: Vec<String> = Vec::new();
    let mut i: usize = 0;
    proof {
        assert(views_of(stack@) =~= resolve_onto(Seq::empty(), pv.take(0)));
    }
    while i < parts.len()
        invariant
            pv == views_of(parts@),
            i <= parts@.len(),
            views_of(stack@) == resolve_onto(Seq::empty(), pv.take(i as int)),
        decreases parts@.len() - i,
    {
        proof {
            assert(pv.take(i as int + 1).drop_last() =~= pv.take(i as int));
            assert(pv.take(i as int + 1).last() == parts@[i as int]@);
        }
        push_segment(&mut stack, parts[i].as_str());
        i = i + 1;
    }
    proof {
        assert(pv.take(parts@.len() as int) =~= pv);
    }
    let mut rel = String::new();
    let mut k: usize = 0;
    while k < stack.len()
        invariant
            0 <= k <= stack.len(),
            rel@ == join_segments(views_of(stack@).take(k as int)),
        decreases stack.len() - k,
    {
        let ghost before = views_of(stack@).take(k as int);
        proof {
            assert(views_of(stack@).take(k as int + 1).drop_last() =~= before);
        }
        if k > 0 {
            rel.append("/");
            proof {
                reveal_strlit("/");
            }
        }
        rel.append(stack[k].as_str());
        proof {
            if k == 0 {
                assert(views_of(stack@).take(1) =~= seq![stack@[0]@]);
            }
        }
        k = k + 1;
    }
    proof {
        assert(views_of(stack@).take(stack@.len() as int) =~= views_of(stack@));
    }
    join_under(working_dir, rel.as_str())
}

/// `rel` attached below `root`, as `Path::join` does for a relative `rel`.
pub fn join_under(root: &str, rel: &str) -> (r: String)
    ensures
        r@ == attach(root@, rel@),
{
    let mut r = root.to_owned();
    if rel.unicode_len() > 0 {
        let m = root.unicode_len();
        if m == 0 || root.get_char(m - 1) == '/' {
            r.append(rel);
        } else {
            r.append("/");
            proof {
                reveal_strlit("/");
            }
            r.append(rel);
        }
    }
    r
}

/// The names along `parts`, without empty and `.` parts.
pub open spec fn named_parts(parts: Seq<Seq<char>>) -> Seq<Seq<char>>
    decreases parts.len(),
{
    if parts.len() == 0 {
        Seq::empty()
    } else {
        let prev = named_parts(parts.drop_last());
        if parts.last().len() == 0 || is_cur_dir(parts.last()) {
            prev
        } else {
            prev.push(parts.last())
        }
    }
}

/// The components of a path: a root marker for an absolute path, then its
/// names, with repeated separators and `.` dropped.
pub open spec fn path_components(p: Seq<char>) -> Seq<Seq<char>> {
    let root: Seq<Seq<char>> = if p.len() > 0 && p[0] == '/' {
        seq![seq!['/']]
    } else {
        Seq::empty()
    };
    root + named_parts(split_on(p, '/'))
}

fn named(parts: &Vec<String>) -> (r: Vec<String>)
    ensures
        views_of(r@) == named_parts(views_of(parts@)),
{
    let ghost pv = views_of(parts@);
    let mut r: Vec<String> = Vec::new();
    let mut i: usize = 0;
    while i < parts.len()
        invariant
            pv == views_of(parts@),
            i <= parts@.len(),
            views_of(r@) == named_parts(pv.take(i as int)),
        decreases parts@.len() - i,
    {
        let ghost before = r@;
        let ghost part = parts@[i as int]@;
        proof {
            assert(pv.take(i as int + 1).drop_last() =~= pv.take(i as int));
            assert(pv.take(i as int + 1).last() == part);
        }
        let len = parts[i].unicode_len();
        let is_dot = len == 1 && parts[i].get_char(0) == '.';
        proof {
            if is_dot {
                assert(part =~= seq!['.']);
            } else if is_cur_dir(part) {
                assert(part[0] == '.');
            }
        }
        if len > 0 && !is_dot {
            r.push(parts[i].clone());
            proof {
                assert(views_of(r@) =~= views_of(before).push(part));
            }
        }
        i = i + 1;
    }
    proof {
        assert(pv.take(parts@.len() as int) =~= pv);
    }
    r
}

fn components(p: &str) -> (r: Vec<String>)
    ensures
        views_of(r@) == path_components(p@),
{
    let parts = split_text(p, '/');
    let names = named(&parts);
    let absolute = p.unicode_len() > 0 && p.get_char(0) == '/';
    let mut r: Vec<String> = Vec::new();
    if absolute {
        let slash = "/".to_owned();
        proof {
            reveal_strlit("/");
            assert(slash@ =~= seq!['/']);
        }
        r.push(slash);
        proof {
            assert(views_of(r@) =~= seq![seq!['/']]);
        }
    } else {
        proof {
            assert(views_of(r@) =~= Seq::<Seq<char>>::empty());
        }
    }
    let ghost root = views_of(r@);
    let mut i: usize = 0;
    while i < names.len()
        invariant
            i <= names@.len(),
            views_of(r@) == root + views_of(names@).take(i as int),
        decreases names@.len() - i,
    {
        let ghost before = r@;
        r.push(names[i].clone());
        proof {
            assert(views_of(r@) =~= views_of(before).push(names@[i as int]@));
            assert(views_of(names@).take(i as int + 1) =~= views_of(names@).take(i as int).push(
                names@[i as int]@,
            ));
        }
        i = i + 1;
    }
    proof {
        assert(views_of(names@).take(names@.len() as int) =~= views_of(names@));
    }
    r
}

/// Whether `path` lies in `dir` (or is `dir`), comparing whole components
/// as `Path::starts_with` does, so that `/a/bc` does not lie in `/a/b`.
pub fn is_within(path: &str, dir: &str) -> (r: bool)
    ensures
        r == path_components(dir@).is_prefix_of(path_components(path@)),
{
    let pc = components(path);
    let dc = components(dir);
    if dc.len() > pc.len() {
        return false;
    }
    let mut i: usize = 0;
    while i < dc.len()
        invariant
            views_of(dc@) == path_components(dir@),
            views_of(pc@) == path_components(path@),
            dc@.len() <= pc@.len(),
            i <= dc@.len(),
            forall|j: int| 0 <= j < i ==> views_of(dc@)[j] == views_of(pc@)[j],
        decreases dc@.len() - i,
    {
        if !crate::text::same_text(dc[i].as_str(), pc[i].as_str()) {
            proof {
                let sub = views_of(pc@).subrange(0, dc@.len() as int);
                assert(views_of(dc@)[i as int] != sub[i as int]);
                assert(!(views_of(dc@) =~= sub));
                assert(!path_components(dir@).is_prefix_of(path_components(path@)));
            }
            return false;
        }
        i = i + 1;
    }
    proof {
        assert(views_of(dc@) =~= views_of(pc@).subrange(0, dc@.len() as int));
    }
    true
}

/// Applies one segment to the resolved stack.
fn push_segment(stack: &mut Vec<String>, seg: &str)
    ensures
        views_of(final(stack)@) == apply_segment(views_of(old(stack)@), seg@),
{
    let len = seg.unicode_len();
    let dot_count: usize = if len == 1 && seg.get_char(0) == '.' {
        1
    } else if len == 2 && seg.get_char(0) == '.' && seg.get_char(1) == '.' {
        2
    } else {
        0
    };
    proof {
        if dot_count == 1 {
            assert(seg@ =~= seq!['.']);
        } else if dot_count == 2 {
            assert(seg@ =~= seq!['.', '.']);
        } else {
            assert(!is_cur_dir(seg@) && !is_parent_dir(seg@)) by {
                if is_cur_dir(seg@) {
                    assert(seg@[0] == '.');
                }
                if is_parent_dir(seg@) {
                    assert(seg@[0] == '.' && seg@[1] == '.');
                }
            }
        }
    }
    if len == 0 || dot_count == 1 {
    } else if dot_count == 2 {
        if stack.len() > 0 {
            stack.pop();
            proof {
                assert(views_of(stack@) =~= views_of(old(stack)@).drop_last());
            }
        }
    } else {
        stack.push(seg.to_owned());
        proof {
            assert(views_of(stack@) =~= views_of(old(stack)@).push(seg@));
        }
    }
}

} // verus!
