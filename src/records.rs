//! Fixed-size records laid end to end: the list part of a message.
use vstd::prelude::*;

verus! {

/// The records of `s`, each encoded by `f`, in order.
pub open spec fn records_bytes<T>(s: Seq<T>, f: spec_fn(T) -> Seq<u8>) -> Seq<u8>
    decreases s.len(),
{
    if s.len() == 0 {
        Seq::empty()
    } else {
        records_bytes(s.drop_last(), f) + f(s.last())
    }
}

pub proof fn lemma_records_push<T>(s: Seq<T>, t: T, f: spec_fn(T) -> Seq<u8>)
    ensures
        records_bytes(s.push(t), f) == records_bytes(s, f) + f(t),
{
    assert(s.push(t).drop_last() =~= s);
}

pub proof fn lemma_records_len<T>(s: Seq<T>, f: spec_fn(T) -> Seq<u8>, r: nat)
    requires
        forall|t: T| #[trigger] f(t).len() == r,
    ensures
        records_bytes(s, f).len() == r * s.len(),
    decreases s.len(),
{
    if s.len() > 0 {
        lemma_records_len(s.drop_last(), f, r);
        let n = s.len();
        assert(r * (n - 1) + r == r * n) by (nonlinear_arith);
    }
}

/// Record `k` stands at offset `r * k`.
pub proof fn lemma_records_index<T>(s: Seq<T>, f: spec_fn(T) -> Seq<u8>, r: nat, k: int)
    requires
        forall|t: T| #[trigger] f(t).len() == r,
        0 <= k < s.len(),
    ensures
        records_bytes(s, f).subrange(r * k, r * k + r) == f(s[k]),
    decreases s.len(),
{
    let n = s.len() as int;
    let prev = s.drop_last();
    lemma_records_len(prev, f, r);
    assert(records_bytes(s, f) == records_bytes(prev, f) + f(s.last()));
    if k < n - 1 {
        lemma_records_index(prev, f, r, k);
        assert(r * k + r <= r * (n - 1)) by (nonlinear_arith)
            requires k < n - 1, r >= 0;
        assert(records_bytes(s, f).subrange(r * k, r * k + r) =~= records_bytes(prev, f).subrange(
            r * k,
            r * k + r,
        ));
    } else {
        assert(r * k == r * (n - 1));
        assert(records_bytes(s, f).subrange(r * k, r * k + r) =~= f(s.last()));
    }
}

/// Two lists of the same length with the same records bytes are equal,
/// when `f` determines its argument.
pub proof fn lemma_records_injective<T>(s1: Seq<T>, s2: Seq<T>, f: spec_fn(T) -> Seq<u8>, r: nat)
    requires
        forall|t: T| #[trigger] f(t).len() == r,
        forall|a: T, b: T| #[trigger] f(a) == #[trigger] f(b) ==> a == b,
        s1.len() == s2.len(),
        records_bytes(s1, f) == records_bytes(s2, f),
    ensures
        s1 == s2,
{
    assert forall|k: int| 0 <= k < s1.len() implies s1[k] == s2[k] by {
        lemma_records_index(s1, f, r, k);
        lemma_records_index(s2, f, r, k);
    }
    assert(s1 =~= s2);
}

} // verus!
