//! An ordered map from strings to strings, kept as a list of entries sorted
//! by key, so that walking it gives the keys in ascending order.
use vstd::prelude::*;
use crate::text::chars_of;

verus! {

/// Lexicographic order of character sequences by code point; for strings
/// this is the order of their UTF-8 bytes, which is how `String` compares.
pub open spec fn key_lt(a: Seq<char>, b: Seq<char>) -> bool
    decreases a.len(),
{
    if b.len() == 0 {
        false
    } else if a.len() == 0 {
        true
    } else if a[0] != b[0] {
        (a[0] as int) < (b[0] as int)
    } else {
        key_lt(a.drop_first(), b.drop_first())
    }
}

pub type Entries = Seq<(Seq<char>, Seq<char>)>;

/// Keys strictly ascending.
pub open spec fn sorted(m: Entries) -> bool {
    forall|i: int, j: int| 0 <= i < j < m.len() ==> key_lt(#[trigger] m[i].0, #[trigger] m[j].0)
}

/// Position of the first entry whose key is not below `k`.
pub open spec fn lower_bound(m: Entries, k: Seq<char>) -> int
    decreases m.len(),
{
    if m.len() == 0 || !key_lt(m[0].0, k) {
        0
    } else {
        1 + lower_bound(m.drop_first(), k)
    }
}

pub open spec fn has_key_at(m: Entries, k: Seq<char>) -> bool {
    lower_bound(m, k) < m.len() && m[lower_bound(m, k)].0 == k
}

/// The value stored under `k`.
pub open spec fn sm_get(m: Entries, k: Seq<char>) -> Option<Seq<char>> {
    if has_key_at(m, k) {
        Some(m[lower_bound(m, k)].1)
    } else {
        None
    }
}

/// `k` set to `v`: the entry replaced if present, else added in key order.
pub open spec fn sm_insert(m: Entries, k: Seq<char>, v: Seq<char>) -> Entries {
    if has_key_at(m, k) {
        m.update(lower_bound(m, k), (k, v))
    } else {
        m.insert(lower_bound(m, k), (k, v))
    }
}

/// The entry for `k` removed, if present.
pub open spec fn sm_remove(m: Entries, k: Seq<char>) -> Entries {
    if has_key_at(m, k) {
        m.remove(lower_bound(m, k))
    } else {
        m
    }
}

pub open spec fn entry_views(v: Seq<(String, String)>) -> Entries {
    v.map_values(|e: (String, String)| (e.0@, e.1@))
}

/// String-to-string map iterated in ascending key order.
pub struct StrMap {
    pub entries: Vec<(String, String)>,
}

impl View for StrMap {
    type V = Entries;

    open spec fn view(&self) -> Entries {
        entry_views(self.entries@)
    }
}

pub fn key_lt_exec(a: &str, b: &str) -> (r: bool)
    ensures
        r == key_lt(a@, b@),
{
    let av = chars_of(a);
    let bv = chars_of(b);
    let mut i: usize = 0;
    assert(av@.skip(0) =~= av@);
    assert(bv@.skip(0) =~= bv@);
    loop
        invariant
            i <= av@.len(),
            i <= bv@.len(),
            av@ == a@,
            bv@ == b@,
            key_lt(a@, b@) == key_lt(av@.skip(i as int), bv@.skip(i as int)),
        decreases av@.len() - i,
    {
        if i == bv.len() {
            return false;
        }
        if i == av.len() {
            return true;
        }
        let x = av[i];
        let y = bv[i];
        if x != y {
            assert(av@.skip(i as int)[0] == x);
            assert(bv@.skip(i as int)[0] == y);
            return x < y;
        }
        assert(av@.skip(i as int).drop_first() =~= av@.skip(i + 1));
        assert(bv@.skip(i as int).drop_first() =~= bv@.skip(i + 1));
        i = i + 1;
    }
}

impl StrMap {
    pub fn new() -> (r: Self)
        ensures
            r@ == Seq::<(Seq<char>, Seq<char>)>::empty(),
    {
        let r = StrMap { entries: Vec::new() };
        assert(r@ =~= Seq::<(Seq<char>, Seq<char>)>::empty());
        r
    }

    pub fn len(&self) -> (r: usize)
        ensures
            r == self@.len(),
    {
        self.entries.len()
    }

    /// The `i`-th entry in key order.
    pub fn entry(&self, i: usize) -> (r: (&String, &String))
        requires
            i < self@.len(),
        ensures
            (r.0@, r.1@) == self@[i as int],
    {
        (&self.entries[i].0, &self.entries[i].1)
    }

    fn lower_bound_exec(&self, k: &str) -> (r: usize)
        ensures
            r == lower_bound(self@, k@),
            r <= self@.len(),
    {
        let mut i: usize = 0;
        assert(self@.skip(0) =~= self@);
        while i < self.entries.len() && key_lt_exec(self.entries[i].0.as_str(), k)
            invariant
                i <= self@.len(),
                lower_bound(self@, k@) == i + lower_bound(self@.skip(i as int), k@),
            decreases self@.len() - i,
        {
            assert(self@.skip(i as int)[0] == self@[i as int]);
            assert(self@.skip(i as int).drop_first() =~= self@.skip(i + 1));
            i = i + 1;
        }
        if i < self.entries.len() {
            assert(self@.skip(i as int)[0] == self@[i as int]);
        } else {
            assert(self@.skip(i as int).len() == 0);
        }
        i
    }

    pub fn get(&self, k: &str) -> (r: Option<String>)
        ensures
            crate::actions::opt_view(r) == sm_get(self@, k@),
    {
        let i = self.lower_bound_exec(k);
        if i < self.entries.len() && crate::text::str_eq(self.entries[i].0.as_str(), k) {
            Some(self.entries[i].1.clone())
        } else {
            None
        }
    }

    pub fn insert(&mut self, k: String, v: String)
        ensures
            final(self)@ == sm_insert(old(self)@, k@, v@),
    {
        let i = self.lower_bound_exec(k.as_str());
        let ghost before = self@;
        if i < self.entries.len() && crate::text::str_eq(self.entries[i].0.as_str(), k.as_str()) {
            self.entries.set(i, (k, v));
            assert(self@ =~= before.update(i as int, (k@, v@)));
        } else {
            let ghost kv = (k@, v@);
            self.entries.insert(i, (k, v));
            assert(self@ =~= before.insert(i as int, kv));
        }
    }

    pub fn remove(&mut self, k: &str)
        ensures
            final(self)@ == sm_remove(old(self)@, k@),
    {
        let i = self.lower_bound_exec(k);
        let ghost before = self@;
        if i < self.entries.len() && crate::text::str_eq(self.entries[i].0.as_str(), k) {
            self.entries.remove(i);
            assert(self@ =~= before.remove(i as int));
        }
    }
}

// ---------------------------------------------------------------- order laws

pub proof fn lemma_key_lt_irreflexive(a: Seq<char>)
    ensures
        !key_lt(a, a),
    decreases a.len(),
{
    if a.len() > 0 {
        lemma_key_lt_irreflexive(a.drop_first());
    }
}

pub proof fn lemma_key_lt_total(a: Seq<char>, b: Seq<char>)
    ensures
        a != b ==> key_lt(a, b) || key_lt(b, a),
        !(key_lt(a, b) && key_lt(b, a)),
    decreases a.len(),
{
    if a.len() > 0 && b.len() > 0 && a[0] == b[0] {
        lemma_key_lt_total(a.drop_first(), b.drop_first());
        if a != b {
            assert(a.drop_first() != b.drop_first()) by {
                if a.drop_first() == b.drop_first() {
                    assert(a =~= b) by {
                        assert forall|i: int| 0 <= i < a.len() implies a[i] == b[i] by {
                            if i > 0 {
                                assert(a[i] == a.drop_first()[i - 1]);
                                assert(b[i] == b.drop_first()[i - 1]);
                            }
                        }
                    }
                }
            }
        }
    } else if a.len() == 0 && b.len() == 0 {
        assert(a =~= b);
    } else if a.len() > 0 && b.len() > 0 {
        assert((a[0] as int) != (b[0] as int));
    }
}

pub proof fn lemma_key_lt_transitive(a: Seq<char>, b: Seq<char>, c: Seq<char>)
    requires
        key_lt(a, b),
        key_lt(b, c),
    ensures
        key_lt(a, c),
    decreases a.len(),
{
    if a.len() > 0 && b.len() > 0 && c.len() > 0 && a[0] == b[0] && b[0] == c[0] {
        lemma_key_lt_transitive(a.drop_first(), b.drop_first(), c.drop_first());
    }
}

/// Below the lower bound keys are smaller than `k`; from it on (in a sorted
/// map) they are not.
pub proof fn lemma_lower_bound(m: Entries, k: Seq<char>)
    ensures
        0 <= lower_bound(m, k) <= m.len(),
        forall|i: int| 0 <= i < lower_bound(m, k) ==> key_lt(#[trigger] m[i].0, k),
        sorted(m) ==> forall|i: int| lower_bound(m, k) <= i < m.len() ==> !key_lt(#[trigger] m[i].0, k),
    decreases m.len(),
{
    if m.len() > 0 && key_lt(m[0].0, k) {
        let t = m.drop_first();
        lemma_lower_bound(t, k);
        assert forall|i: int| 0 <= i < lower_bound(m, k) implies key_lt(#[trigger] m[i].0, k) by {
            if i > 0 {
                assert(m[i] == t[i - 1]);
            }
        }
        if sorted(m) {
            assert(sorted(t)) by {
                assert forall|i: int, j: int| 0 <= i < j < t.len() implies key_lt(#[trigger] t[i].0, #[trigger] t[j].0) by {
                    assert(t[i] == m[i + 1]);
                    assert(t[j] == m[j + 1]);
                }
            }
            assert forall|i: int| lower_bound(m, k) <= i < m.len() implies !key_lt(#[trigger] m[i].0, k) by {
                assert(m[i] == t[i - 1]);
            }
        }
    } else if m.len() > 0 {
        if sorted(m) {
            assert forall|i: int| 0 <= i < m.len() implies !key_lt(#[trigger] m[i].0, k) by {
                if i > 0 && key_lt(m[i].0, k) {
                    assert(key_lt(m[0].0, m[i].0));
                    lemma_key_lt_transitive(m[0].0, m[i].0, k);
                }
            }
        }
    }
}

/// In a sorted map the lower bound is where `k` is, if anywhere.
pub proof fn lemma_find_key(m: Entries, k: Seq<char>)
    requires
        sorted(m),
    ensures
        has_key_at(m, k) <==> exists|i: int| 0 <= i < m.len() && (#[trigger] m[i]).0 == k,
{
    lemma_lower_bound(m, k);
    if exists|i: int| 0 <= i < m.len() && (#[trigger] m[i]).0 == k {
        let i = choose|i: int| 0 <= i < m.len() && (#[trigger] m[i]).0 == k;
        let lb = lower_bound(m, k);
        lemma_key_lt_irreflexive(k);
        if i < lb {
            assert(key_lt(m[i].0, k));
        } else if i > lb {
            assert(key_lt(m[lb].0, m[i].0));
            lemma_key_lt_total(m[lb].0, k);
        }
    }
}

/// Inserting keeps the keys sorted.
pub proof fn law_insert_keeps_sorted(m: Entries, k: Seq<char>, v: Seq<char>)
    requires
        sorted(m),
    ensures
        sorted(sm_insert(m, k, v)),
{
    lemma_lower_bound(m, k);
    let lb = lower_bound(m, k);
    let r = sm_insert(m, k, v);
    if has_key_at(m, k) {
        assert forall|i: int, j: int| 0 <= i < j < r.len() implies key_lt(#[trigger] r[i].0, #[trigger] r[j].0) by {
            assert(r[i].0 == m[i].0);
            assert(r[j].0 == m[j].0);
        }
    } else {
        assert forall|i: int, j: int| 0 <= i < j < r.len() implies key_lt(#[trigger] r[i].0, #[trigger] r[j].0) by {
            if j < lb {
                assert(r[i] == m[i] && r[j] == m[j]);
            } else if j == lb {
                assert(r[i] == m[i]);
            } else if i < lb {
                assert(r[i] == m[i] && r[j] == m[j - 1]);
                lemma_key_lt_total(m[j - 1].0, k);
                if j - 1 > lb {
                    assert(key_lt(m[lb].0, m[j - 1].0));
                    lemma_key_lt_total(m[lb].0, k);
                    lemma_key_lt_transitive(k, m[lb].0, m[j - 1].0);
                }
                lemma_key_lt_transitive(m[i].0, k, m[j - 1].0);
            } else if i == lb {
                assert(r[j] == m[j - 1]);
                lemma_key_lt_total(m[lb].0, k);
                if j - 1 > lb {
                    assert(key_lt(m[lb].0, m[j - 1].0));
                    lemma_key_lt_transitive(k, m[lb].0, m[j - 1].0);
                }
            } else {
                assert(r[i] == m[i - 1] && r[j] == m[j - 1]);
            }
        }
    }
}

/// After inserting `k`, looking `k` up gives the inserted value.
pub proof fn law_get_after_insert(m: Entries, k: Seq<char>, v: Seq<char>)
    requires
        sorted(m),
    ensures
        sm_get(sm_insert(m, k, v), k) == Some(v),
{
    law_insert_keeps_sorted(m, k, v);
    let r = sm_insert(m, k, v);
    lemma_lower_bound(m, k);
    let lb = lower_bound(m, k);
    assert(r[lb].0 == k);
    lemma_find_key(r, k);
    lemma_lower_bound(r, k);
    let rb = lower_bound(r, k);
    lemma_key_lt_irreflexive(k);
    if rb != lb {
        if rb < lb {
            assert(key_lt(r[rb].0, r[lb].0));
        } else {
            assert(key_lt(r[lb].0, r[rb].0));
        }
    }
}

/// Inserting `k` leaves what other keys give unchanged.
pub proof fn law_get_other_after_insert(m: Entries, k: Seq<char>, v: Seq<char>, k2: Seq<char>)
    requires
        sorted(m),
        k2 != k,
    ensures
        sm_get(sm_insert(m, k, v), k2) == sm_get(m, k2),
{
    law_insert_keeps_sorted(m, k, v);
    let r = sm_insert(m, k, v);
    lemma_find_key(r, k2);
    lemma_find_key(m, k2);
    lemma_lower_bound(m, k);
    lemma_lower_bound(r, k2);
    lemma_lower_bound(m, k2);
    let lb = lower_bound(m, k);
    if has_key_at(m, k2) {
        let i = lower_bound(m, k2);
        let j = if !has_key_at(m, k) && i >= lb {
            i + 1
        } else {
            i
        };
        assert(r[j] == m[i]);
        let rb = lower_bound(r, k2);
        lemma_key_lt_irreflexive(k2);
        if rb != j {
            if rb < j {
                assert(key_lt(r[rb].0, r[j].0));
            } else {
                assert(key_lt(r[j].0, r[rb].0));
            }
        }
    } else {
        if has_key_at(r, k2) {
            let j = lower_bound(r, k2);
            if !has_key_at(m, k) && j >= lb {
                if j > lb {
                    assert(r[j] == m[j - 1]);
                }
            } else {
                assert(r[j].0 == m[j].0);
            }
        }
    }
}

/// Removing keeps the keys sorted.
pub proof fn law_remove_keeps_sorted(m: Entries, k: Seq<char>)
    requires
        sorted(m),
    ensures
        sorted(sm_remove(m, k)),
{
    lemma_lower_bound(m, k);
    if has_key_at(m, k) {
        let lb = lower_bound(m, k);
        let r = sm_remove(m, k);
        assert forall|i: int, j: int| 0 <= i < j < r.len() implies key_lt(#[trigger] r[i].0, #[trigger] r[j].0) by {
            let i2 = if i < lb { i } else { i + 1 };
            let j2 = if j < lb { j } else { j + 1 };
            assert(r[i] == m[i2]);
            assert(r[j] == m[j2]);
        }
    }
}

/// After removing `k`, looking `k` up gives nothing.
pub proof fn law_get_after_remove(m: Entries, k: Seq<char>)
    requires
        sorted(m),
    ensures
        sm_get(sm_remove(m, k), k) is None,
{
    law_remove_keeps_sorted(m, k);
    let r = sm_remove(m, k);
    lemma_find_key(r, k);
    lemma_find_key(m, k);
    lemma_lower_bound(m, k);
    if has_key_at(r, k) {
        let j = choose|j: int| 0 <= j < r.len() && (#[trigger] r[j]).0 == k;
        let lb = lower_bound(m, k);
        if has_key_at(m, k) {
            let j2 = if j < lb { j } else { j + 1 };
            assert(r[j] == m[j2]);
            lemma_key_lt_irreflexive(k);
            if j2 < lb {
                assert(key_lt(m[j2].0, k));
            } else {
                assert(key_lt(m[lb].0, m[j2].0));
            }
        } else {
            assert(r[j] == m[j]);
        }
    }
}

/// Removing `k` leaves what other keys give unchanged.
pub proof fn law_get_other_after_remove(m: Entries, k: Seq<char>, k2: Seq<char>)
    requires
        sorted(m),
        k2 != k,
    ensures
        sm_get(sm_remove(m, k), k2) == sm_get(m, k2),
{
    law_remove_keeps_sorted(m, k);
    let r = sm_remove(m, k);
    lemma_find_key(r, k2);
    lemma_find_key(m, k2);
    lemma_lower_bound(m, k);
    lemma_lower_bound(r, k2);
    lemma_lower_bound(m, k2);
    let lb = lower_bound(m, k);
    if has_key_at(m, k) {
        if has_key_at(m, k2) {
            let i = lower_bound(m, k2);
            assert(i != lb);
            let j = if i < lb { i } else { i - 1 };
            assert(r[j] == m[i]);
            let rb = lower_bound(r, k2);
            lemma_key_lt_irreflexive(k2);
            if rb != j {
                if rb < j {
                    assert(key_lt(r[rb].0, r[j].0));
                } else {
                    assert(key_lt(r[j].0, r[rb].0));
                }
            }
        } else {
            if has_key_at(r, k2) {
                let j = lower_bound(r, k2);
                let j2 = if j < lb { j } else { j + 1 };
                assert(r[j] == m[j2]);
            }
        }
    }
}

} // verus!
