//! An always-growing set of names kept in ascending order.

use vstd::prelude::*;
use vstd::string::*;
use crate::text::{chars_of, str_eq};

verus! {

/// `a` comes strictly before `b`, comparing characters in order (a proper
/// prefix comes first).
pub open spec fn seq_lt(a: Seq<char>, b: Seq<char>) -> bool
    decreases a.len(),
{
    if a.len() == 0 {
        b.len() > 0
    } else if b.len() == 0 {
        false
    } else if a[0] != b[0] {
        (a[0] as u32) < (b[0] as u32)
    } else {
        seq_lt(a.drop_first(), b.drop_first())
    }
}

/// Every name comes strictly before the next.
pub open spec fn ascending(v: Seq<Seq<char>>) -> bool {
    forall|i: int, j: int| 0 <= i < j < v.len() ==> seq_lt(#[trigger] v[i], #[trigger] v[j])
}

proof fn lemma_lt_irreflexive(a: Seq<char>)
    ensures
        !seq_lt(a, a),
    decreases a.len(),
{
    if a.len() > 0 {
        lemma_lt_irreflexive(a.drop_first());
    }
}

proof fn lemma_lt_total(a: Seq<char>, b: Seq<char>)
    ensures
        a != b ==> seq_lt(a, b) || seq_lt(b, a),
    decreases a.len(),
{
    if a.len() > 0 && b.len() > 0 {
        if a[0] == b[0] {
            lemma_lt_total(a.drop_first(), b.drop_first());
            if a.drop_first() == b.drop_first() {
                assert(a =~= seq![a[0]] + a.drop_first());
                assert(b =~= seq![b[0]] + b.drop_first());
            }
        } else {
            vstd::utf8::char_u32_cast(a[0], a[0] as u32);
            vstd::utf8::char_u32_cast(b[0], b[0] as u32);
        }
    } else if a.len() == 0 && b.len() == 0 {
        assert(a =~= b);
    }
}

proof fn lemma_lt_transitive(a: Seq<char>, b: Seq<char>, c: Seq<char>)
    requires
        seq_lt(a, b),
        seq_lt(b, c),
    ensures
        seq_lt(a, c),
    decreases a.len(),
{
    if a.len() > 0 && b.len() > 0 && c.len() > 0 && a[0] == b[0] && b[0] == c[0] {
        lemma_lt_transitive(a.drop_first(), b.drop_first(), c.drop_first());
    }
}

/// Whether `a` comes strictly before `b`.
pub fn str_lt(a: &str, b: &str) -> (r: bool)
    ensures
        r == seq_lt(a@, b@),
{
    let x = chars_of(a);
    let y = chars_of(b);
    let mut i: usize = 0;
    assert(x@.subrange(0, x@.len() as int) =~= x@);
    assert(y@.subrange(0, y@.len() as int) =~= y@);
    while i < x.len() && i < y.len()
        invariant
            x@ == a@,
            y@ == b@,
            i <= x@.len(),
            i <= y@.len(),
            seq_lt(x@, y@) == seq_lt(x@.subrange(i as int, x@.len() as int), y@.subrange(i as int, y@.len() as int)),
        decreases x@.len() - i,
    {
        let ghost xs = x@.subrange(i as int, x@.len() as int);
        let ghost ys = y@.subrange(i as int, y@.len() as int);
        assert(xs[0] == x@[i as int] && ys[0] == y@[i as int]);
        let cx = x[i];
        let cy = y[i];
        if cx != cy {
            assert(xs.len() > 0 && ys.len() > 0 && xs[0] != ys[0]);
            assert(seq_lt(xs, ys) == ((cx as u32) < (cy as u32)));
            return (cx as u32) < (cy as u32);
        }
        assert(xs.drop_first() =~= x@.subrange(i + 1, x@.len() as int));
        assert(ys.drop_first() =~= y@.subrange(i + 1, y@.len() as int));
        i = i + 1;
    }
    assert(i == x@.len() ==> x@.subrange(i as int, x@.len() as int).len() == 0);
    assert(i == y@.len() ==> y@.subrange(i as int, y@.len() as int).len() == 0);
    i == x.len() && i < y.len()
}

/// A set of names, ascending and without repeats.
pub struct KeySet {
    names: Vec<String>,
}

impl KeySet {
    /// The names, in order.
    pub closed spec fn seq(&self) -> Seq<Seq<char>> {
        self.names@.map_values(|s: String| s@)
    }

    /// The names as a set.
    pub closed spec fn view(&self) -> Set<Seq<char>> {
        self.seq().to_set()
    }

    pub closed spec fn wf(&self) -> bool {
        ascending(self.seq())
    }

    /// The empty set.
    pub fn new() -> (r: Self)
        ensures
            r.wf(),
            r.view() == Set::<Seq<char>>::empty(),
    {
        let r = KeySet { names: Vec::new() };
        assert(r.seq().to_set() =~= Set::<Seq<char>>::empty());
        r
    }

    /// Adds `name`.
    pub fn insert(&mut self, name: &str)
        requires
            old(self).wf(),
        ensures
            final(self).wf(),
            final(self).view() == old(self).view().insert(name@),
    {
        let ghost s0 = self.seq();
        let n = self.names.len();
        let mut p: usize = 0;
        while p < n && str_lt(self.names[p].as_str(), name)
            invariant
                n == self.names@.len(),
                s0 == self.seq(),
                ascending(s0),
                p <= n,
                forall|i: int| 0 <= i < p ==> seq_lt(#[trigger] s0[i], name@),
            decreases n - p,
        {
            p = p + 1;
        }
        if p < n && str_eq(self.names[p].as_str(), name) {
            assert(s0[p as int] == name@);
            assert(s0.to_set().insert(name@) =~= s0.to_set());
            return;
        }
        proof {
            if p < n {
                assert(!seq_lt(s0[p as int], name@));
                lemma_lt_total(s0[p as int], name@);
                assert forall|i: int| p <= i < n implies seq_lt(name@, #[trigger] s0[i]) by {
                    if i > p {
                        lemma_lt_transitive(name@, s0[p as int], s0[i]);
                    }
                }
            }
        }
        self.names.insert(p, String::from_str(name));
        proof {
            let s1 = self.seq();
            assert(s1 =~= s0.insert(p as int, name@));
            assert forall|i: int, j: int| 0 <= i < j < s1.len() implies seq_lt(#[trigger] s1[i], #[trigger] s1[j]) by {
                if j < p {
                } else if j == p {
                } else if i < p {
                    lemma_lt_transitive(s0[i], name@, s0[j - 1]);
                } else if i == p {
                } else {
                }
            }
            assert forall|x: Seq<char>| s1.to_set().contains(x) <==> s0.to_set().insert(name@).contains(x) by {
                if s1.contains(x) {
                    let k = choose|k: int| 0 <= k < s1.len() && s1[k] == x;
                    if k != p {
                        let k0 = if k < p { k } else { k - 1 };
                        assert(s0[k0] == x);
                    }
                }
                if s0.contains(x) {
                    let k = choose|k: int| 0 <= k < s0.len() && s0[k] == x;
                    let k1 = if k < p { k } else { k + 1 };
                    assert(s1[k1] == x);
                }
                if x == name@ {
                    assert(s1[p as int] == x);
                }
            }
            assert(s1.to_set() =~= s0.to_set().insert(name@));
        }
    }

    /// Whether `name` is in the set.
    pub fn contains(&self, name: &str) -> (r: bool)
        ensures
            r == self.view().contains(name@),
    {
        crate::filter::name_in(&self.names, name)
    }

    /// Removes every name.
    pub fn clear(&mut self)
        ensures
            final(self).wf(),
            final(self).view() == Set::<Seq<char>>::empty(),
    {
        self.names.clear();
        assert(self.seq().to_set() =~= Set::<Seq<char>>::empty());
    }

    /// The names, ascending.
    pub fn to_vec(&self) -> (r: Vec<String>)
        requires
            self.wf(),
        ensures
            ascending(r@.map_values(|s: String| s@)),
            r@.map_values(|s: String| s@).to_set() == self.view(),
    {
        let mut r: Vec<String> = Vec::new();
        let mut i: usize = 0;
        while i < self.names.len()
            invariant
                i <= self.names@.len(),
                r@.map_values(|s: String| s@) == self.seq().subrange(0, i as int),
            decreases self.names@.len() - i,
        {
            let c = self.names[i].clone();
            let ghost prev = r@;
            r.push(c);
            proof {
                assert(r@.map_values(|s: String| s@) =~= prev.map_values(|s: String| s@).push(self.seq()[i as int]));
                assert(self.seq().subrange(0, i + 1) =~= self.seq().subrange(0, i as int).push(self.seq()[i as int]));
            }
            i = i + 1;
        }
        assert(self.seq().subrange(0, i as int) =~= self.seq());
        r
    }
}

} // verus!
