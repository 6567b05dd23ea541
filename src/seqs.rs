//! Facts about sequences used by the loops that build lists.
use vstd::prelude::*;

verus! {

pub proof fn lemma_push_last<T>(a: Seq<T>, b: T)
    ensures
        a.push(b).drop_last() == a,
        a.push(b).last() == b,
{
    assert(a.push(b).drop_last() =~= a);
}

pub proof fn lemma_take_next<T>(s: Seq<T>, i: int)
    requires
        0 <= i < s.len(),
    ensures
        s.take(i + 1).drop_last() == s.take(i),
        s.take(i + 1).last() == s[i],
{
    assert(s.take(i + 1).drop_last() =~= s.take(i));
}

pub proof fn lemma_take_all<T>(s: Seq<T>)
    ensures
        s.take(s.len() as int) == s,
{
    assert(s.take(s.len() as int) =~= s);
}

pub proof fn lemma_subrange_next<T>(s: Seq<T>, from: int, i: int)
    requires
        0 <= from <= i < s.len(),
    ensures
        s.subrange(from, i + 1).drop_last() == s.subrange(from, i),
        s.subrange(from, i + 1).last() == s[i],
{
    assert(s.subrange(from, i + 1).drop_last() =~= s.subrange(from, i));
}

} // verus!
