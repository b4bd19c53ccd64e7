//! Sequences that stand for sets: every element occurs once, in the order in
//! which it first arrived.

use vstd::prelude::*;
use crate::types::Principal;

verus! {

/// `s` with `x` appended, unless `s` holds `x` already.
pub open spec fn push_unique<T>(s: Seq<T>, x: T) -> Seq<T> {
    if s.contains(x) {
        s
    } else {
        s.push(x)
    }
}

/// `s` followed by those elements of `xs` that neither `s` nor an earlier
/// position of `xs` holds, in the order of `xs`.
pub open spec fn extend_unique<T>(s: Seq<T>, xs: Seq<T>) -> Seq<T>
    decreases xs.len(),
{
    if xs.len() == 0 {
        s
    } else {
        push_unique(extend_unique(s, xs.drop_last()), xs.last())
    }
}

/// Taking one more element of `xs` into account appends it if it is new.
pub proof fn lemma_extend_unique_step<T>(s: Seq<T>, xs: Seq<T>, i: int)
    requires
        0 <= i < xs.len(),
    ensures
        extend_unique(s, xs.take(i + 1)) == push_unique(extend_unique(s, xs.take(i)), xs[i]),
{
    assert(xs.take(i + 1).drop_last() =~= xs.take(i));
}

/// Extending keeps what was there in front, and never shortens.
pub proof fn lemma_extend_unique_prefix<T>(s: Seq<T>, xs: Seq<T>)
    ensures
        s.len() <= extend_unique(s, xs).len(),
        extend_unique(s, xs).take(s.len() as int) == s,
        xs.len() > 0 ==> extend_unique(s, xs).len() > 0,
    decreases xs.len(),
{
    if xs.len() == 0 {
        assert(s.take(s.len() as int) =~= s);
    } else {
        lemma_extend_unique_prefix(s, xs.drop_last());
        let before = extend_unique(s, xs.drop_last());
        if before.contains(xs.last()) {
        } else {
            assert(before.push(xs.last()).take(s.len() as int) =~= before.take(s.len() as int));
        }
    }
}

/// Extending a duplicate-free sequence gives a duplicate-free sequence.
pub proof fn lemma_extend_unique_no_duplicates<T>(s: Seq<T>, xs: Seq<T>)
    requires
        s.no_duplicates(),
    ensures
        extend_unique(s, xs).no_duplicates(),
    decreases xs.len(),
{
    if xs.len() > 0 {
        lemma_extend_unique_no_duplicates(s, xs.drop_last());
    }
}

/// The extended sequence holds exactly what either sequence held.
pub proof fn lemma_extend_unique_contains<T>(s: Seq<T>, xs: Seq<T>, x: T)
    ensures
        extend_unique(s, xs).contains(x) <==> s.contains(x) || xs.contains(x),
    decreases xs.len(),
{
    if xs.len() > 0 {
        let before = extend_unique(s, xs.drop_last());
        lemma_extend_unique_contains(s, xs.drop_last(), x);
        if xs.contains(x) {
            let i = choose|i: int| 0 <= i < xs.len() && xs[i] == x;
            if i < xs.len() - 1 {
                assert(xs.drop_last()[i] == x);
            }
        }
        if xs.drop_last().contains(x) {
            let i = choose|i: int| 0 <= i < xs.drop_last().len() && xs.drop_last()[i] == x;
            assert(xs[i] == x);
        }
        if !before.contains(xs.last()) {
            assert(before.push(xs.last())[before.len() as int] == xs.last());
            if before.push(xs.last()).contains(x) {
                let i = choose|i: int|
                    0 <= i < before.push(xs.last()).len() && before.push(xs.last())[i] == x;
                if i < before.len() {
                    assert(before[i] == x);
                }
            }
            if before.contains(x) {
                let i = choose|i: int| 0 <= i < before.len() && before[i] == x;
                assert(before.push(xs.last())[i] == x);
            }
        }
    }
}

/// As sets, extending is union.
pub proof fn lemma_extend_unique_to_set<T>(s: Seq<T>, xs: Seq<T>)
    ensures
        extend_unique(s, xs).to_set() == s.to_set().union(xs.to_set()),
{
    assert forall|x: T|
        extend_unique(s, xs).to_set().contains(x) <==> s.to_set().union(xs.to_set()).contains(
            x,
        ) by {
        lemma_extend_unique_contains(s, xs, x);
    }
    assert(extend_unique(s, xs).to_set() =~= s.to_set().union(xs.to_set()));
}

/// Extending by elements that are all present already changes nothing.
pub proof fn lemma_extend_unique_absorbs<T>(s: Seq<T>, xs: Seq<T>)
    requires
        forall|i: int| 0 <= i < xs.len() ==> s.contains(#[trigger] xs[i]),
    ensures
        extend_unique(s, xs) == s,
    decreases xs.len(),
{
    if xs.len() > 0 {
        assert forall|i: int| 0 <= i < xs.drop_last().len() implies s.contains(
            #[trigger] xs.drop_last()[i],
        ) by {
            assert(xs.drop_last()[i] == xs[i]);
        }
        lemma_extend_unique_absorbs(s, xs.drop_last());
        assert(s.contains(xs[xs.len() - 1]));
    }
}

/// Extending twice by the same elements is extending once.
pub proof fn lemma_extend_unique_idempotent<T>(s: Seq<T>, xs: Seq<T>)
    ensures
        extend_unique(extend_unique(s, xs), xs) == extend_unique(s, xs),
{
    let once = extend_unique(s, xs);
    assert forall|i: int| 0 <= i < xs.len() implies once.contains(#[trigger] xs[i]) by {
        lemma_extend_unique_contains(s, xs, xs[i]);
    }
    lemma_extend_unique_absorbs(once, xs);
}

/// Decides whether `v` holds `x`.
pub fn contains_principal(v: &Vec<Principal>, x: &Principal) -> (found: bool)
    ensures
        found == v@.contains(*x),
{
    let mut i: usize = 0;
    while i < v.len()
        invariant
            i <= v.len(),
            forall|j: int| 0 <= j < i ==> v@[j] != *x,
        decreases v.len() - i,
    {
        if v[i].same(x) {
            return true;
        }
        i += 1;
    }
    false
}

/// Appends to `v` the elements of `xs` that it does not hold yet.
pub fn extend_unique_principals(v: &mut Vec<Principal>, xs: &Vec<Principal>)
    ensures
        final(v)@ == extend_unique(old(v)@, xs@),
{
    let mut i: usize = 0;
    proof {
        assert(xs@.take(0) =~= Seq::<Principal>::empty());
    }
    while i < xs.len()
        invariant
            i <= xs.len(),
            v@ == extend_unique(old(v)@, xs@.take(i as int)),
        decreases xs.len() - i,
    {
        proof {
            lemma_extend_unique_step(old(v)@, xs@, i as int);
        }
        if !contains_principal(v, &xs[i]) {
            v.push(xs[i]);
        }
        i += 1;
    }
    proof {
        assert(xs@.take(xs.len() as int) =~= xs@);
    }
}

} // verus!
