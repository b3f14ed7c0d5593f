//! Composite record keys and their total order.
//!
//! Every record family in the store is addressed by a key of at most three
//! string components and one numeric component; shorter keys leave the unused
//! slots at their defaults. Records are kept sorted by this key, which is what
//! gives range scans and bid sweeps their documented ascending order.

use vstd::prelude::*;

verus! {

/// An executable composite key.
pub type KeyTuple = (String, String, String, u64);

/// The mathematical image of a composite key.
pub type KeyModel = (Seq<char>, Seq<char>, Seq<char>, u64);

pub open spec fn key_model(k: KeyTuple) -> KeyModel {
    (k.0@, k.1@, k.2@, k.3)
}

/// Strict lexicographic order on character sequences, by code point.
pub open spec fn seq_lt(a: Seq<char>, b: Seq<char>) -> bool
    decreases a.len(),
{
    if b.len() == 0 {
        false
    } else if a.len() == 0 {
        true
    } else if a[0] != b[0] {
        (a[0] as int) < (b[0] as int)
    } else {
        seq_lt(a.skip(1), b.skip(1))
    }
}

/// Strict lexicographic order on composite keys: component by component,
/// the numeric slot last.
pub open spec fn key_lt(a: KeyModel, b: KeyModel) -> bool {
    if a.0 != b.0 {
        seq_lt(a.0, b.0)
    } else if a.1 != b.1 {
        seq_lt(a.1, b.1)
    } else if a.2 != b.2 {
        seq_lt(a.2, b.2)
    } else {
        a.3 < b.3
    }
}

pub proof fn lemma_seq_lt_total(a: Seq<char>, b: Seq<char>)
    ensures
        a == b || seq_lt(a, b) || seq_lt(b, a),
    decreases a.len(),
{
    if a.len() == 0 && b.len() == 0 {
        assert(a =~= b);
    }
    if a.len() > 0 && b.len() > 0 && a[0] != b[0] {
        assert((a[0] as int) != (b[0] as int));
    }
    if a.len() > 0 && b.len() > 0 && a[0] == b[0] {
        lemma_seq_lt_total(a.skip(1), b.skip(1));
        if a.skip(1) == b.skip(1) {
            assert forall|i: int| 0 <= i < a.len() implies a[i] == b[i] by {
                if i > 0 {
                    assert(a.skip(1)[i - 1] == b.skip(1)[i - 1]);
                }
            }
            assert(a =~= b);
        }
    }
}

pub proof fn lemma_seq_lt_asym(a: Seq<char>, b: Seq<char>)
    requires
        seq_lt(a, b),
    ensures
        !seq_lt(b, a),
    decreases a.len(),
{
    if a.len() > 0 && b.len() > 0 && a[0] == b[0] {
        lemma_seq_lt_asym(a.skip(1), b.skip(1));
    }
}

pub proof fn lemma_seq_lt_trans(a: Seq<char>, b: Seq<char>, c: Seq<char>)
    requires
        seq_lt(a, b),
        seq_lt(b, c),
    ensures
        seq_lt(a, c),
    decreases a.len(),
{
    if a.len() > 0 && b.len() > 0 && c.len() > 0 {
        if a[0] == b[0] && b[0] == c[0] {
            lemma_seq_lt_trans(a.skip(1), b.skip(1), c.skip(1));
        }
    }
}

pub proof fn lemma_key_lt_irrefl(a: KeyModel)
    ensures
        !key_lt(a, a),
{
}

pub proof fn lemma_key_lt_total(a: KeyModel, b: KeyModel)
    ensures
        a == b || key_lt(a, b) || key_lt(b, a),
{
    lemma_seq_lt_total(a.0, b.0);
    lemma_seq_lt_total(a.1, b.1);
    lemma_seq_lt_total(a.2, b.2);
}

pub proof fn lemma_key_lt_asym(a: KeyModel, b: KeyModel)
    requires
        key_lt(a, b),
    ensures
        !key_lt(b, a),
{
    if a.0 != b.0 {
        lemma_seq_lt_asym(a.0, b.0);
    } else if a.1 != b.1 {
        lemma_seq_lt_asym(a.1, b.1);
    } else if a.2 != b.2 {
        lemma_seq_lt_asym(a.2, b.2);
    }
}

pub proof fn lemma_key_lt_trans(a: KeyModel, b: KeyModel, c: KeyModel)
    requires
        key_lt(a, b),
        key_lt(b, c),
    ensures
        key_lt(a, c),
{
    if a.0 == c.0 {
        if a.0 != b.0 {
            lemma_seq_lt_asym(a.0, b.0);
        }
    } else {
        if a.0 != b.0 && b.0 != c.0 {
            lemma_seq_lt_trans(a.0, b.0, c.0);
        }
    }
    if a.0 == c.0 && a.1 == c.1 {
        if a.1 != b.1 {
            lemma_seq_lt_asym(a.1, b.1);
        }
    } else if a.0 == c.0 {
        if a.1 != b.1 && b.1 != c.1 {
            lemma_seq_lt_trans(a.1, b.1, c.1);
        }
    }
    if a.0 == c.0 && a.1 == c.1 && a.2 == c.2 {
        if a.2 != b.2 {
            lemma_seq_lt_asym(a.2, b.2);
        }
    } else if a.0 == c.0 && a.1 == c.1 {
        if a.2 != b.2 && b.2 != c.2 {
            lemma_seq_lt_trans(a.2, b.2, c.2);
        }
    }
}

/// Decides the lexicographic order on two strings.
pub fn str_lt(a: &str, b: &str) -> (r: bool)
    ensures
        r == seq_lt(a@, b@),
{
    let alen = a.unicode_len();
    let blen = b.unicode_len();
    let mut i: usize = 0;
    proof {
        assert(a@.skip(0) =~= a@);
        assert(b@.skip(0) =~= b@);
    }
    loop
        invariant
            i <= alen,
            i <= blen,
            alen == a@.len(),
            blen == b@.len(),
            seq_lt(a@, b@) == seq_lt(a@.skip(i as int), b@.skip(i as int)),
        decreases alen - i,
    {
        if i == alen {
            return i < blen;
        }
        if i == blen {
            return false;
        }
        let ca = a.get_char(i);
        let cb = b.get_char(i);
        if ca != cb {
            return (ca as u32) < (cb as u32);
        }
        proof {
            assert(a@.skip(i as int).skip(1) =~= a@.skip(i + 1));
            assert(b@.skip(i as int).skip(1) =~= b@.skip(i + 1));
        }
        i = i + 1;
    }
}

/// Decides the order on composite keys.
pub fn key_lt_exec(a: &KeyTuple, b: &KeyTuple) -> (r: bool)
    ensures
        r == key_lt(key_model(*a), key_model(*b)),
{
    if a.0 != b.0 {
        str_lt(a.0.as_str(), b.0.as_str())
    } else if a.1 != b.1 {
        str_lt(a.1.as_str(), b.1.as_str())
    } else if a.2 != b.2 {
        str_lt(a.2.as_str(), b.2.as_str())
    } else {
        a.3 < b.3
    }
}

/// Decides equality of composite keys.
pub fn key_eq_exec(a: &KeyTuple, b: &KeyTuple) -> (r: bool)
    ensures
        r == (key_model(*a) == key_model(*b)),
{
    let r = a.0 == b.0 && a.1 == b.1 && a.2 == b.2 && a.3 == b.3;
    proof {
        if r {
            assert(key_model(*a) =~= key_model(*b));
        }
    }
    r
}

} // verus!
