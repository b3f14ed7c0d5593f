//! The indexed record store's core: records kept strictly ascending by their
//! composite key, with exact-key lookup, upsert, and delete.
//!
//! Secondary-index scans are derived from this order: a scan filters the
//! ordered sequence, so its results inherit the ascending key order, and
//! keeping every record family in one ordered sequence makes index
//! maintenance transactional with the primary write by construction.

use vstd::prelude::*;
use crate::keys::{
    KeyModel, KeyTuple, key_model, key_lt, key_lt_exec, key_eq_exec, lemma_key_lt_total,
    lemma_key_lt_asym, lemma_key_lt_trans, lemma_key_lt_irrefl,
};

verus! {

/// A record that carries its own composite key.
pub trait Keyed: Sized {
    spec fn skey(&self) -> KeyModel;

    fn key_of(&self) -> (k: KeyTuple)
        ensures
            key_model(k) == self.skey(),
    ;
}

/// Records strictly ascending by key: sorted, with every key unique.
pub open spec fn sorted_by_key<V: Keyed>(s: Seq<V>) -> bool {
    forall|i: int, j: int|
        0 <= i < j < s.len() ==> key_lt(#[trigger] s[i].skey(), #[trigger] s[j].skey())
}

/// The first record with the given key, if any.
pub open spec fn spec_get<V: Keyed>(s: Seq<V>, k: KeyModel) -> Option<V>
    decreases s.len(),
{
    if s.len() == 0 {
        None
    } else if s[0].skey() == k {
        Some(s[0])
    } else {
        spec_get(s.skip(1), k)
    }
}

/// The sequence with `v` placed at its key position; a record already under
/// the same key is replaced.
pub open spec fn insert_sorted<V: Keyed>(s: Seq<V>, v: V) -> Seq<V>
    decreases s.len(),
{
    if s.len() == 0 {
        seq![v]
    } else if key_lt(v.skey(), s[0].skey()) {
        seq![v] + s
    } else if v.skey() == s[0].skey() {
        seq![v] + s.skip(1)
    } else {
        seq![s[0]] + insert_sorted(s.skip(1), v)
    }
}

/// The sequence with the first record of the given key removed.
pub open spec fn remove_key<V: Keyed>(s: Seq<V>, k: KeyModel) -> Seq<V>
    decreases s.len(),
{
    if s.len() == 0 {
        s
    } else if s[0].skey() == k {
        s.skip(1)
    } else {
        seq![s[0]] + remove_key(s.skip(1), k)
    }
}

pub proof fn lemma_sorted_skip<V: Keyed>(s: Seq<V>, n: int)
    requires
        sorted_by_key(s),
        0 <= n <= s.len(),
    ensures
        sorted_by_key(s.skip(n)),
{
    assert forall|i: int, j: int| 0 <= i < j < s.skip(n).len() implies key_lt(
        #[trigger] s.skip(n)[i].skey(),
        #[trigger] s.skip(n)[j].skey(),
    ) by {
        assert(s.skip(n)[i] == s[i + n]);
        assert(s.skip(n)[j] == s[j + n]);
    }
}

/// In a sorted sequence a key below every record's key is absent.
pub proof fn lemma_get_none_if_all_ne<V: Keyed>(s: Seq<V>, k: KeyModel)
    requires
        forall|i: int| 0 <= i < s.len() ==> #[trigger] s[i].skey() != k,
    ensures
        spec_get(s, k) is None,
    decreases s.len(),
{
    if s.len() > 0 {
        lemma_get_none_if_all_ne(s.skip(1), k);
    }
}

/// Scanning past a prefix free of the key leaves the lookup unchanged.
pub proof fn lemma_spec_get_skip<V: Keyed>(s: Seq<V>, k: KeyModel, n: int)
    requires
        0 <= n <= s.len(),
        forall|j: int| 0 <= j < n ==> #[trigger] s[j].skey() != k,
    ensures
        spec_get(s, k) == spec_get(s.skip(n), k),
    decreases n,
{
    if n > 0 {
        lemma_spec_get_skip(s.skip(1), k, n - 1);
        assert(s.skip(1).skip(n - 1) =~= s.skip(n));
    } else {
        assert(s.skip(0) =~= s);
    }
}

/// A found record is stored at some index.
pub proof fn lemma_spec_get_in<V: Keyed>(s: Seq<V>, k: KeyModel)
    ensures
        spec_get(s, k) matches Some(v) ==> exists|i: int| 0 <= i < s.len() && s[i] == v,
        spec_get(s, k) matches Some(v) ==> v.skey() == k,
    decreases s.len(),
{
    if s.len() > 0 && s[0].skey() != k {
        lemma_spec_get_in(s.skip(1), k);
        if spec_get(s, k) is Some {
            let v = spec_get(s.skip(1), k)->Some_0;
            let i = choose|i: int| 0 <= i < s.skip(1).len() && s.skip(1)[i] == v;
            assert(s[i + 1] == v);
        }
    }
}

/// After a removal the key is gone — in a sorted table it was unique.
pub proof fn lemma_remove_key_self<V: Keyed>(s: Seq<V>, k: KeyModel)
    requires
        sorted_by_key(s),
    ensures
        spec_get(remove_key(s, k), k) is None,
    decreases s.len(),
{
    if s.len() > 0 {
        if s[0].skey() == k {
            lemma_sorted_skip(s, 1);
            assert forall|i: int| 0 <= i < s.skip(1).len() implies #[trigger] s.skip(1)[i].skey()
                != k by {
                assert(key_lt(s[0].skey(), s[i + 1].skey()));
                lemma_key_lt_irrefl(s[i + 1].skey());
            }
            lemma_get_none_if_all_ne(s.skip(1), k);
        } else {
            lemma_sorted_skip(s, 1);
            lemma_remove_key_self(s.skip(1), k);
            let r = remove_key(s, k);
            assert(r[0] == s[0]);
            assert(r.skip(1) =~= remove_key(s.skip(1), k));
        }
    }
}

/// An inserted record is found under its own key.
pub proof fn lemma_insert_sorted_get_self<V: Keyed>(s: Seq<V>, v: V)
    ensures
        spec_get(insert_sorted(s, v), v.skey()) == Some(v),
    decreases s.len(),
{
    let r = insert_sorted(s, v);
    if s.len() == 0 {
    } else if key_lt(v.skey(), s[0].skey()) {
        assert(r[0] == v);
    } else if v.skey() == s[0].skey() {
        assert(r[0] == v);
    } else {
        lemma_key_lt_irrefl(s[0].skey());
        lemma_insert_sorted_get_self(s.skip(1), v);
        assert(r[0] == s[0]);
        assert(r.skip(1) =~= insert_sorted(s.skip(1), v));
    }
}

/// An insertion leaves every other key's lookup unchanged.
pub proof fn lemma_insert_sorted_get_other<V: Keyed>(s: Seq<V>, v: V, k: KeyModel)
    requires
        k != v.skey(),
    ensures
        spec_get(insert_sorted(s, v), k) == spec_get(s, k),
    decreases s.len(),
{
    let r = insert_sorted(s, v);
    if s.len() == 0 {
        assert(r =~= seq![v]);
        assert(r.skip(1) =~= Seq::<V>::empty());
        assert(spec_get(r.skip(1), k) is None);
        assert(spec_get(r, k) is None);
        assert(spec_get(s, k) is None);
    } else if key_lt(v.skey(), s[0].skey()) {
        assert(r[0] == v);
        assert(r.skip(1) =~= s);
        assert(spec_get(r, k) == spec_get(s, k));
    } else if v.skey() == s[0].skey() {
        assert(r[0] == v);
        assert(r.skip(1) =~= s.skip(1));
        assert(spec_get(r, k) == spec_get(r.skip(1), k));
        assert(spec_get(s, k) == spec_get(s.skip(1), k));
    } else {
        lemma_insert_sorted_get_other(s.skip(1), v, k);
        assert(r[0] == s[0]);
        assert(r.skip(1) =~= insert_sorted(s.skip(1), v));
        if s[0].skey() == k {
            assert(spec_get(r, k) == Some(r[0]));
            assert(spec_get(s, k) == Some(s[0]));
        } else {
            assert(spec_get(r, k) == spec_get(r.skip(1), k));
            assert(spec_get(s, k) == spec_get(s.skip(1), k));
        }
    }
}

pub proof fn lemma_insert_sorted_sorted<V: Keyed>(s: Seq<V>, v: V)
    requires
        sorted_by_key(s),
    ensures
        sorted_by_key(insert_sorted(s, v)),
    decreases s.len(),
{
    let r = insert_sorted(s, v);
    if s.len() == 0 {
    } else if key_lt(v.skey(), s[0].skey()) {
        assert forall|i: int, j: int| 0 <= i < j < r.len() implies key_lt(
            #[trigger] r[i].skey(),
            #[trigger] r[j].skey(),
        ) by {
            if i == 0 {
                if j > 1 {
                    lemma_key_lt_trans(v.skey(), s[0].skey(), s[j - 1].skey());
                }
            }
        }
    } else if v.skey() == s[0].skey() {
        assert forall|i: int, j: int| 0 <= i < j < r.len() implies key_lt(
            #[trigger] r[i].skey(),
            #[trigger] r[j].skey(),
        ) by {
            if i == 0 {
                assert(r[j] == s[j]);
            } else {
                assert(r[i] == s[i] && r[j] == s[j]);
            }
        }
    } else {
        lemma_sorted_skip(s, 1);
        lemma_insert_sorted_sorted(s.skip(1), v);
        lemma_key_lt_total(v.skey(), s[0].skey());
        let t = insert_sorted(s.skip(1), v);
        lemma_insert_sorted_keys(s.skip(1), v);
        assert forall|i: int, j: int| 0 <= i < j < r.len() implies key_lt(
            #[trigger] r[i].skey(),
            #[trigger] r[j].skey(),
        ) by {
            if i == 0 {
                assert(r[j] == t[j - 1]);
                assert(t[j - 1].skey() == v.skey() || exists|m: int|
                    0 <= m < s.skip(1).len() && t[j - 1].skey() == s.skip(1)[m].skey());
                if t[j - 1].skey() == v.skey() {
                } else {
                    let m = choose|m: int|
                        0 <= m < s.skip(1).len() && t[j - 1].skey() == s.skip(1)[m].skey();
                    assert(s.skip(1)[m] == s[m + 1]);
                }
            } else {
                assert(r[i] == t[i - 1] && r[j] == t[j - 1]);
            }
        }
    }
}

/// Every record in an insertion's result is the new record or one already
/// present.
pub proof fn lemma_insert_sorted_elems<V: Keyed>(s: Seq<V>, v: V)
    ensures
        forall|i: int| 0 <= i < insert_sorted(s, v).len() ==> (#[trigger] insert_sorted(s, v)[i]
            == v || exists|m: int| 0 <= m < s.len() && insert_sorted(s, v)[i] == s[m]),
    decreases s.len(),
{
    let r = insert_sorted(s, v);
    if s.len() == 0 {
    } else if key_lt(v.skey(), s[0].skey()) {
    } else if v.skey() == s[0].skey() {
        assert forall|i: int| 0 <= i < r.len() implies (#[trigger] r[i] == v || exists|m: int|
            0 <= m < s.len() && r[i] == s[m]) by {
            if i > 0 {
                assert(r[i] == s[i]);
            }
        }
    } else {
        lemma_insert_sorted_elems(s.skip(1), v);
        let t = insert_sorted(s.skip(1), v);
        assert forall|i: int| 0 <= i < r.len() implies (#[trigger] r[i] == v || exists|m: int|
            0 <= m < s.len() && r[i] == s[m]) by {
            if i == 0 {
                assert(r[0] == s[0]);
            } else {
                assert(r[i] == t[i - 1]);
                if t[i - 1] != v {
                    let m = choose|m: int| 0 <= m < s.skip(1).len() && t[i - 1] == s.skip(1)[m];
                    assert(s.skip(1)[m] == s[m + 1]);
                }
            }
        }
    }
}

/// Every record after a removal was already present.
pub proof fn lemma_remove_key_elems<V: Keyed>(s: Seq<V>, k: KeyModel)
    ensures
        forall|i: int| 0 <= i < remove_key(s, k).len() ==> exists|m: int|
            0 <= m < s.len() && #[trigger] remove_key(s, k)[i] == s[m],
    decreases s.len(),
{
    let r = remove_key(s, k);
    if s.len() == 0 {
    } else if s[0].skey() == k {
        assert forall|i: int| 0 <= i < r.len() implies exists|m: int|
            0 <= m < s.len() && #[trigger] r[i] == s[m] by {
            assert(r[i] == s[i + 1]);
        }
    } else {
        lemma_remove_key_elems(s.skip(1), k);
        let t = remove_key(s.skip(1), k);
        assert forall|i: int| 0 <= i < r.len() implies exists|m: int|
            0 <= m < s.len() && #[trigger] r[i] == s[m] by {
            if i == 0 {
                assert(r[0] == s[0]);
            } else {
                assert(r[i] == t[i - 1]);
                let m = choose|m: int| 0 <= m < s.skip(1).len() && t[i - 1] == s.skip(1)[m];
                assert(s.skip(1)[m] == s[m + 1]);
            }
        }
    }
}

/// Every key in an insertion's result is the new key or one already present.
pub proof fn lemma_insert_sorted_keys<V: Keyed>(s: Seq<V>, v: V)
    ensures
        forall|i: int| 0 <= i < insert_sorted(s, v).len() ==> (#[trigger] insert_sorted(
            s,
            v,
        )[i].skey() == v.skey() || exists|m: int|
            0 <= m < s.len() && insert_sorted(s, v)[i].skey() == s[m].skey()),
    decreases s.len(),
{
    let r = insert_sorted(s, v);
    if s.len() == 0 {
    } else if key_lt(v.skey(), s[0].skey()) {
    } else if v.skey() == s[0].skey() {
        assert forall|i: int| 0 <= i < r.len() implies (#[trigger] r[i].skey() == v.skey()
            || exists|m: int| 0 <= m < s.len() && r[i].skey() == s[m].skey()) by {
            if i > 0 {
                assert(r[i] == s[i]);
            }
        }
    } else {
        lemma_insert_sorted_keys(s.skip(1), v);
        let t = insert_sorted(s.skip(1), v);
        assert forall|i: int| 0 <= i < r.len() implies (#[trigger] r[i].skey() == v.skey()
            || exists|m: int| 0 <= m < s.len() && r[i].skey() == s[m].skey()) by {
            if i == 0 {
                assert(r[0].skey() == s[0].skey());
            } else {
                assert(r[i] == t[i - 1]);
                if t[i - 1].skey() != v.skey() {
                    let m = choose|m: int|
                        0 <= m < s.skip(1).len() && t[i - 1].skey() == s.skip(1)[m].skey();
                    assert(s.skip(1)[m] == s[m + 1]);
                }
            }
        }
    }
}

/// Inserting at the position found by a lower-bound scan matches the
/// recursive insertion.
pub proof fn lemma_insert_sorted_at<V: Keyed>(s: Seq<V>, v: V, i: int)
    requires
        0 <= i <= s.len(),
        forall|j: int| 0 <= j < i ==> key_lt(#[trigger] s[j].skey(), v.skey()),
        i < s.len() ==> !key_lt(s[i].skey(), v.skey()),
    ensures
        insert_sorted(s, v) == if i < s.len() && s[i].skey() == v.skey() {
            s.update(i, v)
        } else {
            s.insert(i, v)
        },
    decreases i,
{
    if i == 0 {
        if s.len() == 0 {
            assert(insert_sorted(s, v) =~= s.insert(0, v));
        } else {
            lemma_key_lt_total(v.skey(), s[0].skey());
            if s[0].skey() == v.skey() {
                assert(insert_sorted(s, v) =~= s.update(0, v));
            } else {
                assert(key_lt(v.skey(), s[0].skey()));
                assert(insert_sorted(s, v) =~= s.insert(0, v));
            }
        }
    } else {
        lemma_key_lt_asym(s[0].skey(), v.skey());
        lemma_key_lt_irrefl(s[0].skey());
        assert(s[0].skey() != v.skey());
        assert(!key_lt(v.skey(), s[0].skey()));
        lemma_insert_sorted_at(s.skip(1), v, i - 1);
        if i < s.len() && s[i].skey() == v.skey() {
            assert(s.skip(1)[i - 1] == s[i]);
            assert(insert_sorted(s, v) =~= s.update(i, v));
        } else {
            assert(insert_sorted(s, v) =~= s.insert(i, v));
        }
    }
}

pub proof fn lemma_remove_key_at<V: Keyed>(s: Seq<V>, k: KeyModel, i: int)
    requires
        0 <= i < s.len(),
        s[i].skey() == k,
        forall|j: int| 0 <= j < i ==> #[trigger] s[j].skey() != k,
    ensures
        remove_key(s, k) == s.remove(i),
    decreases i,
{
    if i == 0 {
        assert(remove_key(s, k) =~= s.remove(0));
    } else {
        lemma_remove_key_at(s.skip(1), k, i - 1);
        assert(remove_key(s, k) =~= s.remove(i));
    }
}

pub proof fn lemma_remove_key_absent<V: Keyed>(s: Seq<V>, k: KeyModel)
    requires
        forall|i: int| 0 <= i < s.len() ==> #[trigger] s[i].skey() != k,
    ensures
        remove_key(s, k) == s,
    decreases s.len(),
{
    if s.len() > 0 {
        lemma_remove_key_absent(s.skip(1), k);
        assert(remove_key(s, k) =~= s);
    }
}

pub proof fn lemma_remove_key_sorted<V: Keyed>(s: Seq<V>, k: KeyModel)
    requires
        sorted_by_key(s),
    ensures
        sorted_by_key(remove_key(s, k)),
        remove_key(s, k).len() <= s.len(),
    decreases s.len(),
{
    let r = remove_key(s, k);
    if s.len() == 0 {
    } else if s[0].skey() == k {
        lemma_sorted_skip(s, 1);
    } else {
        lemma_sorted_skip(s, 1);
        lemma_remove_key_sorted(s.skip(1), k);
        lemma_remove_key_is_subseq_keys(s.skip(1), k);
        let t = remove_key(s.skip(1), k);
        assert forall|i: int, j: int| 0 <= i < j < r.len() implies key_lt(
            #[trigger] r[i].skey(),
            #[trigger] r[j].skey(),
        ) by {
            if i == 0 {
                assert(r[j] == t[j - 1]);
                let m = choose|m: int|
                    0 <= m < s.skip(1).len() && t[j - 1].skey() == s.skip(1)[m].skey();
                assert(s.skip(1)[m] == s[m + 1]);
            } else {
                assert(r[i] == t[i - 1] && r[j] == t[j - 1]);
            }
        }
    }
}

/// Every key after a removal was already present.
pub proof fn lemma_remove_key_is_subseq_keys<V: Keyed>(s: Seq<V>, k: KeyModel)
    ensures
        forall|i: int| 0 <= i < remove_key(s, k).len() ==> exists|m: int|
            0 <= m < s.len() && #[trigger] remove_key(s, k)[i].skey() == s[m].skey(),
    decreases s.len(),
{
    let r = remove_key(s, k);
    if s.len() == 0 {
    } else if s[0].skey() == k {
        assert forall|i: int| 0 <= i < r.len() implies exists|m: int|
            0 <= m < s.len() && #[trigger] r[i].skey() == s[m].skey() by {
            assert(r[i].skey() == s[i + 1].skey());
        }
    } else {
        lemma_remove_key_is_subseq_keys(s.skip(1), k);
        let t = remove_key(s.skip(1), k);
        assert forall|i: int| 0 <= i < r.len() implies exists|m: int|
            0 <= m < s.len() && #[trigger] r[i].skey() == s[m].skey() by {
            if i == 0 {
                assert(r[0].skey() == s[0].skey());
            } else {
                assert(r[i] == t[i - 1]);
                let m = choose|m: int|
                    0 <= m < s.skip(1).len() && t[i - 1].skey() == s.skip(1)[m].skey();
                assert(s.skip(1)[m] == s[m + 1]);
            }
        }
    }
}

/// Looks a record up by its exact key.
pub fn table_get<'a, V: Keyed>(items: &'a Vec<V>, k: &KeyTuple) -> (r: Option<&'a V>)
    ensures
        match r {
            Some(v) => spec_get(items@, key_model(*k)) == Some(*v),
            None => spec_get(items@, key_model(*k)) is None,
        },
{
    let n = items.len();
    let mut i: usize = 0;
    while i < n
        invariant
            i <= n,
            n == items@.len(),
            forall|j: int| 0 <= j < i ==> #[trigger] items@[j].skey() != key_model(*k),
        decreases n - i,
    {
        let ki = items[i].key_of();
        if key_eq_exec(&ki, k) {
            proof {
                lemma_spec_get_skip(items@, key_model(*k), i as int);
            }
            return Some(&items[i]);
        }
        i = i + 1;
    }
    proof {
        lemma_get_none_if_all_ne(items@, key_model(*k));
    }
    None
}

/// The index of the first record whose key is not below the given key.
fn lower_bound<V: Keyed>(items: &Vec<V>, k: &KeyTuple) -> (i: usize)
    ensures
        i <= items@.len(),
        forall|j: int| 0 <= j < i ==> key_lt(#[trigger] items@[j].skey(), key_model(*k)),
        i < items@.len() ==> !key_lt(items@[i as int].skey(), key_model(*k)),
{
    let n = items.len();
    let mut i: usize = 0;
    while i < n
        invariant
            i <= n,
            n == items@.len(),
            forall|j: int| 0 <= j < i ==> key_lt(#[trigger] items@[j].skey(), key_model(*k)),
        decreases n - i,
    {
        let ki = items[i].key_of();
        if !key_lt_exec(&ki, k) {
            return i;
        }
        i = i + 1;
    }
    i
}

/// Saves a record: inserts it at its key position, or replaces the record
/// already stored under the same key.
pub fn table_upsert<V: Keyed>(items: &mut Vec<V>, v: V)
    requires
        sorted_by_key(old(items)@),
    ensures
        final(items)@ == insert_sorted(old(items)@, v),
        sorted_by_key(final(items)@),
{
    proof {
        lemma_insert_sorted_sorted(old(items)@, v);
    }
    let k = v.key_of();
    let i = lower_bound(items, &k);
    if i < items.len() {
        let ki = items[i].key_of();
        if key_eq_exec(&ki, &k) {
            proof {
                lemma_insert_sorted_at(items@, v, i as int);
            }
            items.remove(i);
            items.insert(i, v);
            proof {
                assert(items@ =~= old(items)@.update(i as int, v));
            }
            return;
        }
    }
    proof {
        lemma_insert_sorted_at(items@, v, i as int);
    }
    items.insert(i, v);
}

/// Deletes the record under the given key; leaves the table unchanged when
/// the key is absent.
pub fn table_remove<V: Keyed>(items: &mut Vec<V>, k: &KeyTuple)
    requires
        sorted_by_key(old(items)@),
    ensures
        final(items)@ == remove_key(old(items)@, key_model(*k)),
        sorted_by_key(final(items)@),
{
    let n = items.len();
    let mut i: usize = 0;
    while i < n
        invariant
            i <= n,
            n == items@.len(),
            items@ == old(items)@,
            sorted_by_key(items@),
            forall|j: int| 0 <= j < i ==> #[trigger] items@[j].skey() != key_model(*k),
        decreases n - i,
    {
        let ki = items[i].key_of();
        if key_eq_exec(&ki, k) {
            proof {
                lemma_remove_key_at(items@, key_model(*k), i as int);
                lemma_remove_key_sorted(items@, key_model(*k));
            }
            items.remove(i);
            return;
        }
        i = i + 1;
    }
    proof {
        lemma_remove_key_absent(items@, key_model(*k));
    }
}

} // verus!
