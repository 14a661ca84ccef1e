//! Small string helpers shared by the other modules.

use vstd::prelude::*;

verus! {

/// Splits `p` at every `sep`. The result always holds at least one part;
/// empty parts stand for doubled, leading or trailing separators.
pub open spec fn split_on(p: Seq<char>, sep: char) -> Seq<Seq<char>>
    decreases p.len(),
{
    if p.len() == 0 {
        seq![Seq::empty()]
    } else {
        let prev = split_on(p.drop_last(), sep);
        if p.last() == sep {
            prev.push(Seq::empty())
        } else {
            prev.update(prev.len() - 1, prev.last().push(p.last()))
        }
    }
}

pub proof fn lemma_split_on_nonempty(p: Seq<char>, sep: char)
    ensures
        split_on(p, sep).len() >= 1,
    decreases p.len(),
{
    if p.len() > 0 {
        lemma_split_on_nonempty(p.drop_last(), sep);
    }
}

/// Splits `s` at every `sep`, as `str::split` does.
pub fn split_text(s: &str, sep: char) -> (r: Vec<String>)
    ensures
        views_of(r@) == split_on(s@, sep),
{
    let n = s.unicode_len();
    let mut parts: Vec<String> = Vec::new();
    let mut start: usize = 0;
    let mut i: usize = 0;
    proof {
        assert(s@.subrange(0, 0) =~= Seq::<char>::empty());
        assert(split_on(Seq::<char>::empty(), sep).drop_last() =~= Seq::<Seq<char>>::empty());
        assert(views_of(parts@) =~= Seq::<Seq<char>>::empty());
    }
    while i < n
        invariant
            n == s@.len(),
            start <= i <= n,
            split_on(s@.subrange(0, i as int), sep).drop_last() == views_of(parts@),
            split_on(s@.subrange(0, i as int), sep).last() == s@.subrange(start as int, i as int),
        decreases n - i,
    {
        let c = s.get_char(i);
        let ghost pre = s@.subrange(0, i as int);
        let ghost cur = s@.subrange(0, i as int + 1);
        proof {
            assert(cur.drop_last() =~= pre);
            assert(cur.last() == c);
            lemma_split_on_nonempty(pre, sep);
        }
        if c == sep {
            let part = s.substring_char(start, i).to_owned();
            let ghost before = parts@;
            parts.push(part);
            proof {
                assert(views_of(parts@) =~= views_of(before).push(part@));
                assert(split_on(cur, sep).drop_last() =~= split_on(pre, sep));
                assert(split_on(pre, sep) =~= split_on(pre, sep).drop_last().push(
                    split_on(pre, sep).last(),
                ));
            }
            start = i + 1;
            proof {
                assert(s@.subrange(start as int, i as int + 1) =~= Seq::<char>::empty());
            }
        } else {
            proof {
                assert(split_on(cur, sep).drop_last() =~= split_on(pre, sep).drop_last());
                assert(s@.subrange(start as int, i as int + 1) =~= s@.subrange(
                    start as int,
                    i as int,
                ).push(c));
            }
        }
        i = i + 1;
    }
    let last = s.substring_char(start, n).to_owned();
    let ghost before = parts@;
    parts.push(last);
    proof {
        assert(s@.subrange(0, n as int) =~= s@);
        lemma_split_on_nonempty(s@, sep);
        let sp = split_on(s@, sep);
        assert(sp =~= sp.drop_last().push(sp.last()));
        assert(views_of(parts@) =~= views_of(before).push(last@));
    }
    parts
}

/// `s` without the double quotes at either end, as
/// `str::trim_matches('"')` leaves it.
pub open spec fn without_quotes(s: Seq<char>) -> Seq<char>
    decreases s.len(),
{
    if s.len() > 0 && s[0] == '"' {
        without_quotes(s.drop_first())
    } else if s.len() > 0 && s.last() == '"' {
        without_quotes(s.drop_last())
    } else {
        s
    }
}

/// Strips the double quotes at either end of `s`.
pub fn trim_quotes(s: &str) -> (r: String)
    ensures
        r@ == without_quotes(s@),
{
    let n = s.unicode_len();
    let mut i: usize = 0;
    proof {
        assert(s@.subrange(0, n as int) =~= s@);
    }
    while i < n && s.get_char(i) == '"'
        invariant
            n == s@.len(),
            i <= n,
            without_quotes(s@) == without_quotes(s@.subrange(i as int, n as int)),
        decreases n - i,
    {
        proof {
            assert(s@.subrange(i as int, n as int).drop_first() =~= s@.subrange(
                i as int + 1,
                n as int,
            ));
        }
        i = i + 1;
    }
    let mut j: usize = n;
    while j > i && s.get_char(j - 1) == '"'
        invariant
            n == s@.len(),
            i <= j <= n,
            i < n ==> s@[i as int] != '"',
            j > i ==> s@[i as int] != '"',
            without_quotes(s@) == without_quotes(s@.subrange(i as int, j as int)),
        decreases j - i,
    {
        proof {
            let x = s@.subrange(i as int, j as int);
            assert(x[0] == s@[i as int]);
            assert(x.last() == s@[j - 1]);
            assert(x.drop_last() =~= s@.subrange(i as int, j - 1));
        }
        j = j - 1;
    }
    proof {
        let x = s@.subrange(i as int, j as int);
        if j > i {
            assert(x[0] == s@[i as int]);
            assert(x.last() == s@[j - 1]);
        } else {
            assert(x.len() == 0);
        }
    }
    s.substring_char(i, j).to_owned()
}

/// The character sequences of a list of strings.
pub open spec fn views_of(v: Seq<String>) -> Seq<Seq<char>> {
    v.map_values(|s: String| s@)
}

/// Compares two strings character by character.
pub fn same_text(a: &str, b: &str) -> (r: bool)
    ensures
        r == (a@ == b@),
{
    let n = a.unicode_len();
    if n != b.unicode_len() {
        return false;
    }
    let mut i: usize = 0;
    while i < n
        invariant
            n == a@.len(),
            n == b@.len(),
            i <= n,
            forall|j: int| 0 <= j < i ==> a@[j] == b@[j],
        decreases n - i,
    {
        if a.get_char(i) != b.get_char(i) {
            return false;
        }
        i = i + 1;
    }
    proof {
        assert(a@ =~= b@);
    }
    true
}

/// Whether `text` begins with `prefix`.
pub fn starts_with_text(text: &str, prefix: &str) -> (r: bool)
    ensures
        r == prefix@.is_prefix_of(text@),
{
    let n = prefix.unicode_len();
    if n > text.unicode_len() {
        return false;
    }
    let head = text.substring_char(0, n);
    let r = same_text(head, prefix);
    proof {
        if prefix@.is_prefix_of(text@) {
            assert(head@ =~= prefix@);
        }
    }
    r
}

/// A fresh copy of a list of strings.
pub fn copy_strings(v: &Vec<String>) -> (r: Vec<String>)
    ensures
        r@ == v@,
{
    let mut r: Vec<String> = Vec::new();
    let mut i: usize = 0;
    while i < v.len()
        invariant
            i <= v@.len(),
            r@ == v@.subrange(0, i as int),
        decreases v@.len() - i,
    {
        r.push(v[i].clone());
        proof {
            assert(r@ =~= v@.subrange(0, i as int + 1));
        }
        i = i + 1;
    }
    proof {
        assert(v@.subrange(0, v@.len() as int) =~= v@);
    }
    r
}

/// Whether `v` holds a string equal to `s`.
pub fn contains_text(v: &Vec<String>, s: &str) -> (r: bool)
    ensures
        r == views_of(v@).contains(s@),
{
    let mut i: usize = 0;
    while i < v.len()
        invariant
            i <= v@.len(),
            forall|j: int| 0 <= j < i ==> v@[j]@ != s@,
        decreases v@.len() - i,
    {
        if same_text(v[i].as_str(), s) {
            proof {
                assert(views_of(v@)[i as int] == s@);
            }
            return true;
        }
        i = i + 1;
    }
    proof {
        if views_of(v@).contains(s@) {
            let j = choose|j: int| 0 <= j < views_of(v@).len() && views_of(v@)[j] == s@;
            assert(v@[j]@ == s@);
        }
    }
    false
}

/// The parts of `s` before and after its first `c`, if it holds one.
pub open spec fn split_at_first(s: Seq<char>, c: char) -> Option<(Seq<char>, Seq<char>)> {
    if exists|i: int| 0 <= i < s.len() && s[i] == c {
        let i = choose|i: int|
            0 <= i < s.len() && s[i] == c && forall|j: int| 0 <= j < i ==> s[j] != c;
        Some((s.subrange(0, i), s.subrange(i + 1, s.len() as int)))
    } else {
        None
    }
}

/// Splits `s` at its first `c`, as `str::split_once` does.
pub fn split_once_char(s: &str, c: char) -> (r: Option<(String, String)>)
    ensures
        match r {
            Some((a, b)) => split_at_first(s@, c) == Some((a@, b@)) && s@ == a@ + seq![c] + b@
                && forall|j: int| 0 <= j < a@.len() ==> a@[j] != c,
            None => split_at_first(s@, c) is None && forall|j: int|
                0 <= j < s@.len() ==> s@[j] != c,
        },
{
    let n = s.unicode_len();
    let mut i: usize = 0;
    while i < n
        invariant
            n == s@.len(),
            i <= n,
            forall|j: int| 0 <= j < i ==> s@[j] != c,
        decreases n - i,
    {
        if s.get_char(i) == c {
            let a = s.substring_char(0, i).to_owned();
            let b = s.substring_char(i + 1, n).to_owned();
            proof {
                let k = choose|k: int|
                    0 <= k < s@.len() && s@[k] == c && forall|j: int| 0 <= j < k ==> s@[j] != c;
                if k < i {
                } else if k > i {
                    assert(s@[i as int] == c);
                }
                assert(k == i);
                assert(s@ =~= a@ + seq![c] + b@);
            }
            return Some((a, b));
        }
        i = i + 1;
    }
    None
}

} // verus!
