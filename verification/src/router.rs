use vstd::prelude::*;
use crate::text::{owned, push_str, str_eq, string_push};

verus! {

/// Position of the first entry of `es` with key `k`, searching from `i`.
pub open spec fn key_pos_from<P>(es: Seq<(Seq<char>, P)>, k: Seq<char>, i: int) -> Option<int>
    decreases es.len() - i,
{
    if i < 0 || i >= es.len() {
        None
    } else if es[i].0 == k {
        Some(i)
    } else {
        key_pos_from(es, k, i + 1)
    }
}

/// The procedure that `es` holds under key `k`, if any.
pub open spec fn lookup<P>(es: Seq<(Seq<char>, P)>, k: Seq<char>) -> Option<P> {
    match key_pos_from(es, k, 0) {
        Some(i) => Some(es[i].1),
        None => None,
    }
}

/// `true` when `es` holds an entry under key `k`.
pub open spec fn has_key<P>(es: Seq<(Seq<char>, P)>, k: Seq<char>) -> bool {
    exists|i: int| 0 <= i < es.len() && #[trigger] es[i].0 == k
}

/// No two entries of `es` share a key.
pub open spec fn keys_distinct<P>(es: Seq<(Seq<char>, P)>) -> bool {
    forall|i: int, j: int| 0 <= i < j < es.len() ==> #[trigger] es[i].0 != #[trigger] es[j].0
}

/// The key under which a nested router's key `k` is stored: `prefix.k`.
pub open spec fn nested_key(prefix: Seq<char>, k: Seq<char>) -> Seq<char> {
    prefix + seq!['.'] + k
}

/// The entries of a router nested under `prefix`.
pub open spec fn nested_entries<P>(prefix: Seq<char>, es: Seq<(Seq<char>, P)>) -> Seq<(Seq<char>, P)> {
    Seq::new(es.len(), |i: int| (nested_key(prefix, es[i].0), es[i].1))
}

/// What a position found by [`key_pos_from`] means.
pub proof fn lemma_key_pos_from<P>(es: Seq<(Seq<char>, P)>, k: Seq<char>, i: int)
    requires
        0 <= i,
    ensures
        match key_pos_from(es, k, i) {
            Some(j) => i <= j < es.len() && es[j].0 == k && forall|l: int| i <= l < j ==> es[l].0 != k,
            None => forall|l: int| i <= l < es.len() ==> es[l].0 != k,
        },
    decreases es.len() - i,
{
    if i < es.len() && es[i].0 != k {
        lemma_key_pos_from(es, k, i + 1);
    }
}

/// A key is found exactly when some entry holds it.
pub proof fn lemma_lookup_has_key<P>(es: Seq<(Seq<char>, P)>, k: Seq<char>)
    ensures
        lookup(es, k) is Some <==> has_key(es, k),
        lookup(es, k) matches Some(p) ==> exists|i: int|
            0 <= i < es.len() && es[i].0 == k && es[i].1 == p,
{
    lemma_key_pos_from(es, k, 0);
    if has_key(es, k) {
        let i = choose|i: int| 0 <= i < es.len() && #[trigger] es[i].0 == k;
        assert(es[i].0 == k);
    }
}

/// In entries with distinct keys, the entry at position `i` is what its key
/// looks up.
pub proof fn lemma_lookup_at<P>(es: Seq<(Seq<char>, P)>, i: int)
    requires
        keys_distinct(es),
        0 <= i < es.len(),
    ensures
        lookup(es, es[i].0) == Some(es[i].1),
{
    lemma_key_pos_from(es, es[i].0, 0);
    match key_pos_from(es, es[i].0, 0) {
        Some(j) => {
            if j != i {
                if j < i {
                    assert(es[j].0 != es[i].0);
                } else {
                    assert(es[i].0 != es[j].0);
                }
            }
        },
        None => {
            assert(es[i].0 != es[i].0);
        },
    }
}

/// Two nested keys under the same prefix are equal only when the inner keys
/// are.
pub proof fn lemma_nested_key_injective(prefix: Seq<char>, a: Seq<char>, b: Seq<char>)
    ensures
        nested_key(prefix, a) == nested_key(prefix, b) ==> a == b,
{
    if nested_key(prefix, a) == nested_key(prefix, b) {
        let n: int = prefix.len() as int + 1;
        assert(nested_key(prefix, a).skip(n) =~= a);
        assert(nested_key(prefix, b).skip(n) =~= b);
    }
}

/// A collection of procedures keyed by name. Keys are unique; entries keep the
/// order in which they were added.
pub struct Router<P> {
    procedures: Vec<(String, P)>,
}

/// The model of stored entries: each key as characters, with its procedure.
pub open spec fn entries_of<P>(v: Seq<(String, P)>) -> Seq<(Seq<char>, P)> {
    Seq::new(v.len(), |i: int| (v[i].0@, v[i].1))
}

impl<P> View for Router<P> {
    type V = Seq<(Seq<char>, P)>;

    closed spec fn view(&self) -> Seq<(Seq<char>, P)> {
        entries_of(self.procedures@)
    }
}

impl<P> Router<P> {
    #[verifier::type_invariant]
    spec fn inv(self) -> bool {
        keys_distinct(entries_of(self.procedures@))
    }

    /// An empty router.
    pub fn new() -> (r: Router<P>)
        ensures
            r@ == Seq::<(Seq<char>, P)>::empty(),
    {
        let r = Router { procedures: Vec::new() };
        proof {
            assert(r@ =~= Seq::<(Seq<char>, P)>::empty());
        }
        r
    }

    fn find(&self, key: &str) -> (r: Option<usize>)
        ensures
            match key_pos_from(self@, key@, 0) {
                Some(i) => r == Some(i as usize),
                None => r is None,
            },
    {
        let n = self.procedures.len();
        let mut i: usize = 0;
        while i < n
            invariant
                n == self.procedures@.len(),
                0 <= i <= n,
                key_pos_from(self@, key@, 0) == key_pos_from(self@, key@, i as int),
            decreases n - i,
        {
            if str_eq(self.procedures[i].0.as_str(), key) {
                return Some(i);
            }
            i = i + 1;
        }
        None
    }

    /// Adds `proc` under `key`, mutation style. The key must be new.
    pub fn _insert(&mut self, key: &str, proc: P)
        requires
            !has_key(old(self)@, key@),
        ensures
            final(self)@ == old(self)@.push((key@, proc)),
    {
        proof {
            use_type_invariant(&*self);
        }
        let ghost before = self@;
        let mut v = Vec::new();
        std::mem::swap(&mut v, &mut self.procedures);
        v.push((owned(key), proc));
        proof {
            assert(entries_of(v@) =~= before.push((key@, proc)));
            assert forall|i: int, j: int| 0 <= i < j < entries_of(v@).len() implies #[trigger] entries_of(
                v@,
            )[i].0 != #[trigger] entries_of(v@)[j].0 by {
                if j == before.len() {
                    assert(before[i].0 != key@);
                }
            }
        }
        self.procedures = v;
    }

    /// Adds `proc` under `key`. The key must be new.
    pub fn procedure(self, key: &str, proc: P) -> (r: Router<P>)
        requires
            !has_key(self@, key@),
        ensures
            r@ == self@.push((key@, proc)),
            keys_distinct(r@),
    {
        let mut r = self;
        r._insert(key, proc);
        proof {
            use_type_invariant(&r);
        }
        r
    }

    /// Adds every procedure of `router` under `prefix.key`, mutation style.
    /// No such key may be present already.
    pub fn _insert_nest(&mut self, prefix: &str, router: Router<P>)
        requires
            forall|i: int|
                0 <= i < router@.len() ==> !has_key(old(self)@, nested_key(prefix@, #[trigger] router@[i].0)),
        ensures
            final(self)@ == old(self)@ + nested_entries(prefix@, router@),
    {
        proof {
            use_type_invariant(&*self);
            use_type_invariant(&router);
        }
        let ghost before = self@;
        let ghost inner = router@;
        let mut src = router.procedures;
        let mut dst = Vec::new();
        std::mem::swap(&mut dst, &mut self.procedures);
        let n = src.len();
        let mut taken: Vec<(String, P)> = Vec::new();
        // Reverse first so that `pop` hands the entries out in their order.
        while src.len() > 0
            invariant
                entries_of(src@) + entries_of(taken@).reverse() == inner,
            decreases src.len(),
        {
            let ghost s0 = src@;
            let ghost t0 = taken@;
            let e = src.pop().unwrap();
            taken.push(e);
            proof {
                assert(entries_of(src@) + entries_of(taken@).reverse() =~= entries_of(s0)
                    + entries_of(t0).reverse());
            }
        }
        proof {
            assert(entries_of(src@) =~= Seq::<(Seq<char>, P)>::empty());
            assert(entries_of(taken@).reverse() =~= inner);
        }
        let mut k: usize = 0;
        while taken.len() > 0
            invariant
                k + taken@.len() == n,
                n == inner.len(),
                entries_of(taken@).reverse() == inner.skip(k as int),
                entries_of(dst@) == before + nested_entries(prefix@, inner.take(k as int)),
                keys_distinct(before),
                keys_distinct(inner),
                forall|i: int|
                    0 <= i < inner.len() ==> !has_key(before, nested_key(prefix@, #[trigger] inner[i].0)),
            decreases taken.len(),
        {
            let ghost t0 = taken@;
            let ghost d0 = entries_of(dst@);
            let (key, proc) = taken.pop().unwrap();
            proof {
                assert(entries_of(t0).reverse()[0] == entries_of(t0)[t0.len() - 1]);
                assert(inner.skip(k as int)[0] == inner[k as int]);
                assert(key@ == inner[k as int].0);
                assert(proc == inner[k as int].1);
                assert forall|i: int| 0 <= i < taken@.len() implies entries_of(taken@).reverse()[i]
                    == inner.skip(k + 1)[i] by {
                    assert(entries_of(taken@).reverse()[i] == entries_of(taken@)[taken@.len() - 1 - i]);
                    assert(entries_of(t0).reverse()[i + 1] == entries_of(t0)[t0.len() - 1 - (i + 1)]);
                    assert(inner.skip(k as int)[i + 1] == inner.skip(k + 1)[i]);
                }
                assert(entries_of(taken@).reverse() =~= inner.skip(k + 1));
            }
            let mut full = owned(prefix);
            string_push(&mut full, '.');
            push_str(&mut full, key.as_str());
            let ghost full_v = full@;
            let ghost dv0 = dst@;
            dst.push((full, proc));
            proof {
                assert(full_v == nested_key(prefix@, inner[k as int].0));
                assert(dst@ == dv0.push((dst@.last().0, proc)));
                assert(entries_of(dst@).last() == (full_v, proc));
                assert(inner.take(k + 1).drop_last() =~= inner.take(k as int));
                assert(nested_entries(prefix@, inner.take(k + 1)) =~= nested_entries(
                    prefix@,
                    inner.take(k as int),
                ).push((nested_key(prefix@, inner[k as int].0), inner[k as int].1)));
                assert(entries_of(dst@) =~= d0.push((nested_key(prefix@, inner[k as int].0), proc)));
            }
            k = k + 1;
        }
        proof {
            assert(inner.take(n as int) =~= inner);
            let all = entries_of(dst@);
            let ne = nested_entries(prefix@, inner);
            assert(all =~= before + ne);
            assert forall|i: int, j: int| 0 <= i < j < all.len() implies #[trigger] all[i].0
                != #[trigger] all[j].0 by {
                if j < before.len() {
                } else if i < before.len() {
                    let jj = j - before.len();
                    assert(all[j].0 == nested_key(prefix@, inner[jj].0));
                    if all[i].0 == all[j].0 {
                        assert(before[i].0 == nested_key(prefix@, inner[jj].0));
                        assert(has_key(before, nested_key(prefix@, inner[jj].0)));
                    }
                } else {
                    let ii = i - before.len();
                    let jj = j - before.len();
                    lemma_nested_key_injective(prefix@, inner[ii].0, inner[jj].0);
                }
            }
        }
        self.procedures = dst;
    }

    /// Adds every procedure of `router` under `prefix.key`. No such key may be
    /// present already.
    pub fn nest(self, prefix: &str, router: Router<P>) -> (r: Router<P>)
        requires
            forall|i: int| 0 <= i < router@.len() ==> !has_key(self@, nested_key(prefix@, #[trigger] router@[i].0)),
        ensures
            r@ == self@ + nested_entries(prefix@, router@),
            keys_distinct(r@),
    {
        let mut r = self;
        r._insert_nest(prefix, router);
        proof {
            use_type_invariant(&r);
        }
        r
    }

    /// The procedure stored under `key`, if any.
    pub fn get(&self, key: &str) -> (r: Option<&P>)
        ensures
            match lookup(self@, key@) {
                Some(p) => r matches Some(q) && *q == p,
                None => r is None,
            },
    {
        proof {
            lemma_key_pos_from(self@, key@, 0);
        }
        match self.find(key) {
            Some(i) => {
                proof {
                    assert(key_pos_from(self@, key@, 0) is Some);
                    let j = key_pos_from(self@, key@, 0)->0;
                    assert(0 <= j < self@.len());
                    assert(self@.len() == self.procedures.len());
                    assert(key_pos_from(self@, key@, 0) == Some(i as int));
                    assert(lookup(self@, key@) == Some(self@[i as int].1));
                    assert(self@[i as int].1 == self.procedures@[i as int].1);
                }
                Some(&self.procedures[i].1)
            },
            None => {
                assert(lookup(self@, key@) is None);
                None
            },
        }
    }

    /// Every entry, in the order added.
    pub fn procedures(&self) -> (r: &Vec<(String, P)>)
        ensures
            entries_of(r@) == self@,
    {
        &self.procedures
    }

    /// The number of procedures.
    pub fn len(&self) -> (r: usize)
        ensures
            r == self@.len(),
    {
        self.procedures.len()
    }

    /// `true` when the router holds no procedure.
    pub fn is_empty(&self) -> (r: bool)
        ensures
            r == (self@.len() == 0),
    {
        self.procedures.len() == 0
    }
}

impl<P> Default for Router<P> {
    fn default() -> (r: Router<P>)
        ensures
            r@ == Seq::<(Seq<char>, P)>::empty(),
    {
        Router::new()
    }
}

/// In entries with distinct keys, a key found at position `i` looks up the
/// procedure stored there, and a key held nowhere looks up nothing.
proof fn lemma_lookup_distinct<P>(es: Seq<(Seq<char>, P)>, k: Seq<char>)
    requires
        keys_distinct(es),
    ensures
        forall|i: int| 0 <= i < es.len() && es[i].0 == k ==> lookup(es, k) == Some(es[i].1),
        !has_key(es, k) ==> lookup(es, k) is None,
{
    lemma_lookup_has_key(es, k);
    assert forall|i: int| 0 <= i < es.len() && es[i].0 == k implies lookup(es, k) == Some(
        es[i].1,
    ) by {
        lemma_lookup_at(es, i);
    }
}

/// Adding a procedure under a new key: the key then finds that procedure,
/// every other key finds what it found before, and the keys stay distinct.
pub proof fn law_procedure_then_get<P>(es: Seq<(Seq<char>, P)>, k: Seq<char>, p: P, other: Seq<char>)
    requires
        keys_distinct(es),
        !has_key(es, k),
    ensures
        keys_distinct(es.push((k, p))),
        lookup(es.push((k, p)), k) == Some(p),
        other != k ==> lookup(es.push((k, p)), other) == lookup(es, other),
        es.push((k, p)).len() == es.len() + 1,
{
    let all = es.push((k, p));
    assert forall|i: int, j: int| 0 <= i < j < all.len() implies #[trigger] all[i].0
        != #[trigger] all[j].0 by {
        if j == es.len() {
            assert(es[i].0 != k);
        }
    }
    lemma_lookup_distinct(all, k);
    assert(all[es.len() as int].0 == k);
    if other != k {
        lemma_lookup_distinct(all, other);
        lemma_lookup_distinct(es, other);
        if has_key(es, other) {
            let i = choose|i: int| 0 <= i < es.len() && #[trigger] es[i].0 == other;
            assert(all[i] == es[i]);
        } else {
            assert forall|i: int| 0 <= i < all.len() implies all[i].0 != other by {
                if i < es.len() {
                    assert(all[i] == es[i]);
                }
            }
        }
    }
}

/// Nesting a router under `prefix`: each of its keys `k` finds, as
/// `prefix.k`, the procedure it found in the nested router; every key already
/// present finds what it found before; and the sizes add up.
pub proof fn law_nest_then_get<P>(
    es: Seq<(Seq<char>, P)>,
    prefix: Seq<char>,
    inner: Seq<(Seq<char>, P)>,
    k: Seq<char>,
)
    requires
        keys_distinct(es),
        keys_distinct(inner),
        forall|i: int| 0 <= i < inner.len() ==> !has_key(es, nested_key(prefix, #[trigger] inner[i].0)),
    ensures
        keys_distinct(es + nested_entries(prefix, inner)),
        has_key(inner, k) ==> lookup(es + nested_entries(prefix, inner), nested_key(prefix, k))
            == lookup(inner, k),
        has_key(es, k) ==> lookup(es + nested_entries(prefix, inner), k) == lookup(es, k),
        (es + nested_entries(prefix, inner)).len() == es.len() + inner.len(),
{
    let ne = nested_entries(prefix, inner);
    let all = es + ne;
    assert forall|i: int, j: int| 0 <= i < j < all.len() implies #[trigger] all[i].0
        != #[trigger] all[j].0 by {
        if j < es.len() {
        } else if i < es.len() {
            let jj = j - es.len();
            if all[i].0 == all[j].0 {
                assert(es[i].0 == nested_key(prefix, inner[jj].0));
                assert(has_key(es, nested_key(prefix, inner[jj].0)));
            }
        } else {
            lemma_nested_key_injective(prefix, inner[i - es.len()].0, inner[j - es.len()].0);
        }
    }
    if has_key(inner, k) {
        let i = choose|i: int| 0 <= i < inner.len() && #[trigger] inner[i].0 == k;
        lemma_lookup_distinct(inner, k);
        lemma_lookup_distinct(all, nested_key(prefix, k));
        assert(all[es.len() + i] == (nested_key(prefix, k), inner[i].1));
    }
    if has_key(es, k) {
        let i = choose|i: int| 0 <= i < es.len() && #[trigger] es[i].0 == k;
        lemma_lookup_distinct(es, k);
        lemma_lookup_distinct(all, k);
        assert(all[i] == es[i]);
    }
}

} // verus!
