//! An ordered table of named string values, as supplied by a caller before or
//! during a run.

use vstd::prelude::*;

use crate::text::same_text;

verus! {

/// The value stored for `key`: the first entry whose name is `key`.
pub open spec fn first_value(entries: Seq<(Seq<char>, Seq<char>)>, key: Seq<char>) -> Option<
    Seq<char>,
>
    decreases entries.len(),
{
    if entries.len() == 0 {
        None
    } else if entries[0].0 == key {
        Some(entries[0].1)
    } else {
        first_value(entries.drop_first(), key)
    }
}

pub open spec fn pair_views(v: Seq<(String, String)>) -> Seq<(Seq<char>, Seq<char>)> {
    v.map_values(|p: (String, String)| (p.0@, p.1@))
}

/// Named values, looked up by name. Later writes to a name replace earlier
/// ones.
pub struct ValueStore {
    entries: Vec<(String, String)>,
}

impl View for ValueStore {
    type V = Seq<(Seq<char>, Seq<char>)>;

    closed spec fn view(&self) -> Self::V {
        pair_views(self.entries@)
    }
}

impl ValueStore {
    pub open spec fn get_spec(&self, key: Seq<char>) -> Option<Seq<char>> {
        first_value(self@, key)
    }

    pub fn new() -> (r: ValueStore)
        ensures
            forall|k: Seq<char>| r.get_spec(k) is None,
    {
        let r = ValueStore { entries: Vec::new() };
        proof {
            assert(r@ =~= Seq::<(Seq<char>, Seq<char>)>::empty());
        }
        r
    }

    /// Index of the first entry named `key`, if any.
    fn position(&self, key: &str) -> (r: Option<usize>)
        ensures
            match r {
                Some(i) => i < self@.len() && self@[i as int].0 == key@ && self.get_spec(key@)
                    == Some(self@[i as int].1) && forall|j: int|
                    0 <= j < i ==> self@[j].0 != key@,
                None => self.get_spec(key@) is None && forall|j: int|
                    0 <= j < self@.len() ==> self@[j].0 != key@,
            },
    {
        let mut i: usize = 0;
        assert(self@.subrange(0, self@.len() as int) =~= self@);
        while i < self.entries.len()
            invariant
                i <= self@.len(),
                self@.len() == self.entries@.len(),
                forall|j: int| 0 <= j < i ==> self@[j].0 != key@,
                first_value(self@, key@) == first_value(self@.subrange(i as int, self@.len() as int), key@),
            decreases self@.len() - i,
        {
            let ghost rest = self@.subrange(i as int, self@.len() as int);
            assert(rest[0] == self@[i as int]);
            if same_text(self.entries[i].0.as_str(), key) {
                return Some(i);
            }
            assert(rest.drop_first() =~= self@.subrange(i as int + 1, self@.len() as int));
            i = i + 1;
        }
        None
    }

    /// The value stored for `key`.
    pub fn get(&self, key: &str) -> (r: Option<String>)
        ensures
            match r {
                Some(v) => self.get_spec(key@) == Some(v@),
                None => self.get_spec(key@) is None,
            },
    {
        match self.position(key) {
            Some(i) => Some(self.entries[i].1.clone()),
            None => None,
        }
    }

    /// Stores `value` under `key`, replacing what was stored there.
    pub fn insert(&mut self, key: &str, value: &str)
        ensures
            final(self).get_spec(key@) == Some(value@),
            forall|k: Seq<char>| k != key@ ==> final(self).get_spec(k) == old(self).get_spec(k),
    {
        match self.position(key) {
            Some(i) => {
                self.entries.set(i, (key.to_owned(), value.to_owned()));
                proof {
                    let o = old(self)@;
                    let n = self@;
                    assert(n =~= o.update(i as int, (key@, value@)));
                    assert forall|k: Seq<char>| k != key@ implies first_value(n, k) == first_value(o, k) by {
                        lemma_first_value_update(o, i as int, key@, value@, k);
                    }
                    lemma_first_value_update(o, i as int, key@, value@, key@);
                }
            }
            None => {
                self.entries.push((key.to_owned(), value.to_owned()));
                proof {
                    let o = old(self)@;
                    let n = self@;
                    assert(n =~= o.push((key@, value@)));
                    assert forall|k: Seq<char>| #![auto] true implies first_value(n, k) == if k == key@ {
                        Some(value@)
                    } else {
                        first_value(o, k)
                    } by {
                        lemma_first_value_push(o, key@, value@, k);
                    }
                }
            }
        }
    }

    /// Drops every entry stored under `key`.
    pub fn remove(&mut self, key: &str)
        ensures
            final(self).get_spec(key@) is None,
            forall|k: Seq<char>| k != key@ ==> final(self).get_spec(k) == old(self).get_spec(k),
    {
        let mut kept: Vec<(String, String)> = Vec::new();
        let mut i: usize = 0;
        while i < self.entries.len()
            invariant
                i <= self.entries@.len(),
                self@ == old(self)@,
                self@.len() == self.entries@.len(),
                first_value(pair_views(kept@), key@) is None,
                forall|k: Seq<char>|
                    k != key@ ==> first_value(self@.subrange(0, i as int), k)
                        == first_value(pair_views(kept@), k),
            decreases self.entries@.len() - i,
        {
            let ghost before = pair_views(kept@);
            if !same_text(self.entries[i].0.as_str(), key) {
                let k0 = self.entries[i].0.clone();
                let v0 = self.entries[i].1.clone();
                kept.push((k0, v0));
                proof {
                    assert(pair_views(kept@) =~= before.push(self@[i as int]));
                    lemma_first_value_push(before, self@[i as int].0, self@[i as int].1, key@);
                }
            }
            proof {
                assert(self@.subrange(0, i as int + 1) =~= self@.subrange(0, i as int).push(
                    self@[i as int],
                ));
                assert forall|k: Seq<char>| k != key@ implies first_value(
                    self@.subrange(0, i as int + 1),
                    k,
                ) == first_value(pair_views(kept@), k) by {
                    lemma_first_value_push(
                        self@.subrange(0, i as int),
                        self@[i as int].0,
                        self@[i as int].1,
                        k,
                    );
                    if self@[i as int].0 != key@ {
                        lemma_first_value_push(before, self@[i as int].0, self@[i as int].1, k);
                    }
                }
            }
            i = i + 1;
        }
        proof {
            assert(self@.subrange(0, self@.len() as int) =~= self@);
        }
        self.entries = kept;
    }

    /// Stores every entry of `other`, in order, over this store.
    pub fn merge(&mut self, other: &ValueStore)
        ensures
            forall|k: Seq<char>|
                final(self).get_spec(k) == match other.get_spec(k) {
                    Some(v) => Some(v),
                    None => old(self).get_spec(k),
                },
    {
        let n = other.entries.len();
        let mut i: usize = n;
        while i > 0
            invariant
                i <= n,
                n == other@.len(),
                forall|k: Seq<char>|
                    self.get_spec(k) == match first_value(
                        other@.subrange(i as int, n as int),
                        k,
                    ) {
                        Some(v) => Some(v),
                        None => old(self).get_spec(k),
                    },
            decreases i,
        {
            i = i - 1;
            let ghost rest = other@.subrange(i as int + 1, n as int);
            let ghost here = other@.subrange(i as int, n as int);
            proof {
                assert(here[0] == other@[i as int]);
                assert(here.drop_first() =~= rest);
            }
            self.insert(other.entries[i].0.as_str(), other.entries[i].1.as_str());
        }
        proof {
            assert(other@.subrange(0, n as int) =~= other@);
        }
    }

    /// The stored entries, the first for each name first.
    pub fn entries(&self) -> (r: Vec<(String, String)>)
        ensures
            pair_views(r@) == self@,
    {
        let mut r: Vec<(String, String)> = Vec::new();
        let mut i: usize = 0;
        while i < self.entries.len()
            invariant
                i <= self.entries@.len(),
                pair_views(r@) == pair_views(self.entries@.subrange(0, i as int)),
            decreases self.entries@.len() - i,
        {
            let ghost before = r@;
            let k = self.entries[i].0.clone();
            let v = self.entries[i].1.clone();
            r.push((k, v));
            proof {
                assert(self.entries@.subrange(0, i as int + 1) =~= self.entries@.subrange(
                    0,
                    i as int,
                ).push(self.entries@[i as int]));
                assert(r@ =~= before.push((k, v)));
                assert(pair_views(r@) =~= pair_views(before).push((k@, v@)));
                assert(pair_views(self.entries@.subrange(0, i as int + 1)) =~= pair_views(
                    self.entries@.subrange(0, i as int),
                ).push((self.entries@[i as int].0@, self.entries@[i as int].1@)));
            }
            i = i + 1;
        }
        proof {
            assert(self.entries@.subrange(0, self.entries@.len() as int) =~= self.entries@);
        }
        r
    }
}

proof fn lemma_first_value_push(
    e: Seq<(Seq<char>, Seq<char>)>,
    key: Seq<char>,
    value: Seq<char>,
    k: Seq<char>,
)
    ensures
        first_value(e.push((key, value)), k) == match first_value(e, k) {
            Some(v) => Some(v),
            None => if k == key {
                Some(value)
            } else {
                None
            },
        },
    decreases e.len(),
{
    let pushed = e.push((key, value));
    assert(pushed[0] == if e.len() == 0 {
        (key, value)
    } else {
        e[0]
    });
    if e.len() > 0 {
        assert(pushed.drop_first() =~= e.drop_first().push((key, value)));
        lemma_first_value_push(e.drop_first(), key, value, k);
    } else {
        assert(pushed.drop_first() =~= Seq::<(Seq<char>, Seq<char>)>::empty());
        assert(first_value(pushed.drop_first(), k) is None);
        assert(first_value(e, k) is None);
    }
}

proof fn lemma_first_value_update(
    e: Seq<(Seq<char>, Seq<char>)>,
    i: int,
    key: Seq<char>,
    value: Seq<char>,
    k: Seq<char>,
)
    requires
        0 <= i < e.len(),
        e[i].0 == key,
        forall|j: int| 0 <= j < i ==> e[j].0 != key,
    ensures
        first_value(e.update(i, (key, value)), k) == if k == key {
            Some(value)
        } else {
            first_value(e, k)
        },
    decreases e.len(),
{
    let u = e.update(i, (key, value));
    if i > 0 {
        assert(u[0] == e[0]);
        assert(u.drop_first() =~= e.drop_first().update(i - 1, (key, value)));
        lemma_first_value_update(e.drop_first(), i - 1, key, value, k);
    } else {
        assert(u[0] == (key, value));
        assert(u.drop_first() =~= e.drop_first());
    }
}

} // verus!
