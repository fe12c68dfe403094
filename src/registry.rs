use vstd::prelude::*;
use vstd::set_lib::{set_int_range, lemma_int_range, lemma_len_subset};

verus! {

/// Something stored under a numeric key.
pub trait Keyed {
    spec fn key(&self) -> u32;

    fn id(&self) -> (r: u32)
        ensures
            r == self.key(),
    ;
}

/// The keys of a sequence of entries, in order.
pub open spec fn keys_of<T: Keyed>(s: Seq<T>) -> Seq<u32> {
    s.map_values(|e: T| e.key())
}

pub open spec fn has_key<T: Keyed>(s: Seq<T>, k: u32) -> bool {
    exists|i: int| 0 <= i < s.len() && #[trigger] s[i].key() == k
}

/// No two entries share a key.
pub open spec fn unique_keys<T: Keyed>(s: Seq<T>) -> bool {
    forall|i: int, j: int| 0 <= i < s.len() && 0 <= j < s.len() && i != j ==> #[trigger] s[i].key() != #[trigger] s[j].key()
}

/// `k` is the smallest key that no entry uses.
pub open spec fn is_smallest_free<T: Keyed>(s: Seq<T>, k: u32) -> bool {
    &&& !has_key(s, k)
    &&& forall|j: u32| j < k ==> has_key(s, j)
}

/// The smallest key that no entry uses (there is one whenever the entries
/// are fewer than `u32::MAX`).
pub open spec fn smallest_free<T: Keyed>(s: Seq<T>) -> u32 {
    choose|k: u32| is_smallest_free(s, k)
}

/// At most one key is the smallest free one, so it is `smallest_free`.
pub proof fn lemma_smallest_free_is<T: Keyed>(s: Seq<T>, k: u32)
    requires
        is_smallest_free(s, k),
    ensures
        smallest_free(s) == k,
{
    let c = smallest_free(s);
    assert(is_smallest_free(s, c));
    if c < k {
        assert(has_key(s, c));
    } else if k < c {
        assert(has_key(s, k));
    }
}

/// Adding an entry: every entry with its key is replaced by it; without one it is appended.
pub open spec fn upsert<T: Keyed>(s: Seq<T>, e: T) -> Seq<T> {
    if has_key(s, e.key()) {
        s.map_values(|x: T| if x.key() == e.key() { e } else { x })
    } else {
        s.push(e)
    }
}

/// The entries whose key is not `k`, in order.
pub open spec fn without<T: Keyed>(s: Seq<T>, k: u32) -> Seq<T>
    decreases s.len(),
{
    if s.len() == 0 {
        s
    } else if s[0].key() == k {
        without(s.skip(1), k)
    } else {
        seq![s[0]] + without(s.skip(1), k)
    }
}

pub proof fn lemma_without_concat<T: Keyed>(a: Seq<T>, b: Seq<T>, k: u32)
    ensures
        without(a + b, k) == without(a, k) + without(b, k),
    decreases a.len(),
{
    if a.len() == 0 {
        assert(a + b =~= b);
        assert(without(a, k) + without(b, k) =~= without(b, k));
    } else {
        assert((a + b).skip(1) =~= a.skip(1) + b);
        lemma_without_concat(a.skip(1), b, k);
        assert((a + b)[0] == a[0]);
        if a[0].key() != k {
            assert(seq![a[0]] + (without(a.skip(1), k) + without(b, k)) =~= (seq![a[0]] + without(
                a.skip(1),
                k,
            )) + without(b, k));
        }
    }
}

pub proof fn lemma_without_absent<T: Keyed>(s: Seq<T>, k: u32)
    requires
        !has_key(s, k),
    ensures
        without(s, k) == s,
    decreases s.len(),
{
    if s.len() > 0 {
        assert(!has_key(s.skip(1), k)) by {
            if has_key(s.skip(1), k) {
                let i = choose|i: int| 0 <= i < s.skip(1).len() && #[trigger] s.skip(1)[i].key() == k;
                assert(s[i + 1].key() == k);
            }
        }
        assert(s[0].key() != k) by {
            assert(!(s[0].key() == k)) by {
                if s[0].key() == k {
                    assert(has_key(s, k));
                }
            }
        }
        lemma_without_absent(s.skip(1), k);
        assert(seq![s[0]] + s.skip(1) =~= s);
    } else {
        assert(s.len() == 0);
    }
}

proof fn lemma_without_remove_one<T: Keyed>(s: Seq<T>, i: int, k: u32)
    requires
        0 <= i < s.len(),
        s[i].key() == k,
    ensures
        without(s.remove(i), k) == without(s, k),
{
    let a = s.subrange(0, i);
    let b = s.subrange(i + 1, s.len() as int);
    assert(s =~= a + (seq![s[i]] + b));
    assert(s.remove(i) =~= a + b);
    lemma_without_concat(a, seq![s[i]] + b, k);
    lemma_without_concat(a, b, k);
    assert((seq![s[i]] + b).skip(1) =~= b);
}

/// With fewer entries than `k + 1`, not every key up to `k` can be in use.
proof fn lemma_some_free<T: Keyed>(s: Seq<T>, k: u32)
    requires
        s.len() <= k,
    ensures
        exists|j: u32| j <= k && !has_key(s, j),
{
    if forall|j: u32| j <= k ==> has_key(s, j) {
        let ks = s.map_values(|e: T| e.key() as int);
        let range = set_int_range(0, k as int + 1);
        assert(range.subset_of(ks.to_set())) by {
            assert forall|v: int| range.contains(v) implies ks.to_set().contains(v) by {
                let j = v as u32;
                assert(j <= k);
                assert(has_key(s, j));
                let i = choose|i: int| 0 <= i < s.len() && #[trigger] s[i].key() == j;
                assert(ks[i] == v);
            }
        }
        lemma_int_range(0, k as int + 1);
        ks.lemma_cardinality_of_set();
        lemma_len_subset(range, ks.to_set());
        assert(false);
    }
}

/// Every entry left after removing a key was there before.
pub proof fn lemma_without_members<T: Keyed>(s: Seq<T>, k: u32)
    ensures
        forall|i: int| #![trigger without(s, k)[i]] 0 <= i < without(s, k).len() ==> exists|j: int| 0 <= j < s.len() && #[trigger] s[j] == without(s, k)[i],
    decreases s.len(),
{
    if s.len() > 0 {
        let t = s.skip(1);
        lemma_without_members(t, k);
        assert forall|i: int| #![trigger without(s, k)[i]] 0 <= i < without(s, k).len() implies exists|j: int| 0 <= j < s.len() && #[trigger] s[j] == without(s, k)[i] by {
            if s[0].key() == k {
                let j = choose|j: int| 0 <= j < t.len() && #[trigger] t[j] == without(t, k)[i];
                assert(s[j + 1] == t[j]);
            } else if i == 0 {
                assert(s[0] == without(s, k)[0]);
            } else {
                assert(without(s, k)[i] == without(t, k)[i - 1]);
                let j = choose|j: int| 0 <= j < t.len() && #[trigger] t[j] == without(t, k)[i - 1];
                assert(s[j + 1] == t[j]);
            }
        }
    }
}

/// Every entry kept by a filter was there before.
pub proof fn lemma_filter_members<T>(s: Seq<T>, pred: spec_fn(T) -> bool)
    ensures
        forall|i: int| 0 <= i < s.filter(pred).len() ==> exists|j: int| 0 <= j < s.len() && #[trigger] s.filter(pred)[i] == s[j],
    decreases s.len(),
{
    reveal(Seq::filter);
    if s.len() > 0 {
        let d = s.drop_last();
        lemma_filter_members(d, pred);
        let f = d.filter(pred);
        assert forall|i: int| 0 <= i < s.filter(pred).len() implies exists|j: int| 0 <= j < s.len() && #[trigger] s.filter(pred)[i] == s[j] by {
            if i < f.len() {
                let j = choose|j: int| 0 <= j < d.len() && #[trigger] f[i] == d[j];
                assert(s.filter(pred)[i] == s[j]);
            } else {
                assert(s.filter(pred)[i] == s[s.len() - 1]);
            }
        }
    }
}

/// Keeping only some entries keeps the keys distinct, and every kept entry
/// was there before.
pub proof fn lemma_filter_unique<T: Keyed>(s: Seq<T>, pred: spec_fn(T) -> bool)
    requires
        unique_keys(s),
    ensures
        unique_keys(s.filter(pred)),
        forall|i: int| 0 <= i < s.filter(pred).len() ==> exists|j: int| 0 <= j < s.len() && #[trigger] s.filter(pred)[i] == s[j],
    decreases s.len(),
{
    reveal(Seq::filter);
    if s.len() > 0 {
        let d = s.drop_last();
        assert(unique_keys(d)) by {
            assert forall|a: int, b: int| 0 <= a < d.len() && 0 <= b < d.len() && a != b implies #[trigger] d[a].key() != #[trigger] d[b].key() by {
                assert(d[a] == s[a]);
                assert(d[b] == s[b]);
            }
        }
        lemma_filter_unique(d, pred);
        let f = d.filter(pred);
        assert forall|i: int| 0 <= i < f.len() implies exists|j: int| 0 <= j < s.len() && #[trigger] f[i] == s[j] by {
            let j = choose|j: int| 0 <= j < d.len() && #[trigger] f[i] == d[j];
            assert(f[i] == s[j]);
        }
        if pred(s.last()) {
            let g = f.push(s.last());
            assert forall|a: int, b: int| 0 <= a < g.len() && 0 <= b < g.len() && a != b implies #[trigger] g[a].key() != #[trigger] g[b].key() by {
                if a < f.len() && b < f.len() {
                } else if a < f.len() {
                    let j = choose|j: int| 0 <= j < d.len() && #[trigger] f[a] == d[j];
                    assert(f[a] == s[j]);
                    assert(g[b] == s[s.len() - 1]);
                } else if b < f.len() {
                    let j = choose|j: int| 0 <= j < d.len() && #[trigger] f[b] == d[j];
                    assert(f[b] == s[j]);
                    assert(g[a] == s[s.len() - 1]);
                }
            }
            assert forall|i: int| 0 <= i < g.len() implies exists|j: int| 0 <= j < s.len() && #[trigger] g[i] == s[j] by {
                if i < f.len() {
                    assert(g[i] == f[i]);
                } else {
                    assert(g[i] == s[s.len() - 1]);
                }
            }
        }
    }
}

/// A collection of entries with distinct keys.
pub struct Registry<T> {
    pub items: Vec<T>,
}

impl<T: Keyed> Registry<T> {
    pub open spec fn view(&self) -> Seq<T> {
        self.items@
    }

    pub open spec fn wf(&self) -> bool {
        unique_keys(self.items@)
    }

    pub fn new() -> (r: Self)
        ensures
            r.items@ == Seq::<T>::empty(),
            r.wf(),
    {
        Registry { items: Vec::new() }
    }

    pub fn len(&self) -> (r: usize)
        ensures
            r == self.items@.len(),
    {
        self.items.len()
    }

    /// The position of the entry with key `k`, if there is one.
    pub fn position(&self, k: u32) -> (r: Option<usize>)
        requires
            self.wf(),
        ensures
            r matches Some(i) ==> i < self.items@.len() && self.items@[i as int].key() == k,
            r is None <==> !has_key(self.items@, k),
    {
        let mut i: usize = 0;
        while i < self.items.len()
            invariant
                i <= self.items@.len(),
                forall|j: int| 0 <= j < i ==> #[trigger] self.items@[j].key() != k,
            decreases self.items@.len() - i,
        {
            if self.items[i].id() == k {
                return Some(i);
            }
            i += 1;
        }
        None
    }

    /// The entry with key `k`, or `None` when no entry has it.
    pub fn get(&self, k: u32) -> (r: Option<&T>)
        requires
            self.wf(),
        ensures
            r matches Some(e) ==> e.key() == k && self.items@.contains(*e),
            r is None <==> !has_key(self.items@, k),
    {
        match self.position(k) {
            Some(i) => Some(&self.items[i]),
            None => None,
        }
    }

    /// Inserts `e`, replacing the entry with the same key if there is one.
    pub fn add(&mut self, e: T)
        requires
            old(self).wf(),
        ensures
            final(self).items@ == upsert(old(self).items@, e),
            final(self).wf(),
            has_key(final(self).items@, e.key()),
    {
        let k = e.id();
        match self.position(k) {
            Some(i) => {
                let ghost s = self.items@;
                self.items.set(i, e);
                assert(self.items@ =~= s.map_values(|x: T| if x.key() == k { e } else { x })) by {
                    assert forall|j: int| 0 <= j < s.len() implies #[trigger] self.items@[j] == (
                    if s[j].key() == k {
                        e
                    } else {
                        s[j]
                    }) by {
                        if j != i {
                            assert(s[j].key() != s[i as int].key());
                        }
                    }
                }
                assert(self.items@[i as int].key() == k);
            },
            None => {
                self.items.push(e);
                assert(self.items@[self.items@.len() - 1].key() == k);
            },
        }
    }

    /// Removes every entry with key `k`.
    pub fn remove(&mut self, k: u32)
        requires
            old(self).wf(),
        ensures
            final(self).items@ == without(old(self).items@, k),
            final(self).wf(),
            !has_key(final(self).items@, k),
    {
        let mut i: usize = 0;
        while i < self.items.len()
            invariant
                i <= self.items@.len(),
                unique_keys(self.items@),
                without(self.items@, k) == without(old(self).items@, k),
                forall|j: int| 0 <= j < i ==> #[trigger] self.items@[j].key() != k,
            decreases self.items@.len() - i,
        {
            if self.items[i].id() == k {
                let ghost s = self.items@;
                proof {
                    lemma_without_remove_one(s, i as int, k);
                }
                self.items.remove(i);
                assert forall|a: int, b: int|
                    0 <= a < self.items@.len() && 0 <= b < self.items@.len() && a != b implies #[trigger] self.items@[a].key()
                    != #[trigger] self.items@[b].key() by {
                    let oa = if a < i { a } else { a + 1 };
                    let ob = if b < i { b } else { b + 1 };
                    assert(self.items@[a] == s[oa]);
                    assert(self.items@[b] == s[ob]);
                }
            } else {
                i += 1;
            }
        }
        proof {
            assert(!has_key(self.items@, k));
            lemma_without_absent(self.items@, k);
        }
    }

    /// The keys of all entries, in order.
    pub fn ids(&self) -> (r: Vec<u32>)
        ensures
            r@ == keys_of(self.items@),
    {
        let mut r: Vec<u32> = Vec::new();
        let mut i: usize = 0;
        while i < self.items.len()
            invariant
                i <= self.items@.len(),
                r@ == keys_of(self.items@.subrange(0, i as int)),
            decreases self.items@.len() - i,
        {
            r.push(self.items[i].id());
            i += 1;
            assert(keys_of(self.items@.subrange(0, i as int)) =~= keys_of(
                self.items@.subrange(0, i - 1),
            ).push(self.items@[i - 1].key()));
        }
        assert(self.items@.subrange(0, i as int) =~= self.items@);
        r
    }

    /// The smallest key that no entry uses.
    pub fn next_id(&self) -> (r: u32)
        requires
            self.items@.len() < u32::MAX,
        ensures
            is_smallest_free(self.items@, r),
            r == smallest_free(self.items@),
    {
        proof {
            lemma_some_free(self.items@, self.items@.len() as u32);
        }
        let mut k: u32 = 0;
        loop
            invariant
                k <= self.items@.len(),
                self.items@.len() < u32::MAX,
                exists|j: u32| j <= self.items@.len() && !has_key(self.items@, j),
                forall|j: u32| j < k ==> has_key(self.items@, j),
            decreases self.items@.len() - k,
        {
            let mut used = false;
            let mut i: usize = 0;
            while i < self.items.len()
                invariant
                    i <= self.items@.len(),
                    used <==> exists|j: int| 0 <= j < i && #[trigger] self.items@[j].key() == k,
                decreases self.items@.len() - i,
            {
                if self.items[i].id() == k {
                    used = true;
                }
                i += 1;
            }
            if !used {
                proof {
                    lemma_smallest_free_is(self.items@, k);
                }
                return k;
            }
            proof {
                if k == self.items@.len() {
                    let j = choose|j: u32| j <= self.items@.len() && !has_key(self.items@, j);
                    if j < k {
                        assert(has_key(self.items@, j));
                    }
                    assert(has_key(self.items@, k));
                }
            }
            k += 1;
        }
    }
}

} // verus!
