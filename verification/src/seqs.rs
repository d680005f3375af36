//! Sequences thinned out by flags, and the operations that do it.

use vstd::prelude::*;

verus! {

/// The items of `s` whose flag in `dropped` is not set, in order.
pub open spec fn unflagged<X>(s: Seq<X>, dropped: Seq<bool>) -> Seq<X>
    decreases s.len(),
{
    if s.len() == 0 || dropped.len() == 0 {
        Seq::empty()
    } else {
        let init = unflagged(s.drop_last(), dropped.drop_last());
        if dropped.last() {
            init
        } else {
            init.push(s.last())
        }
    }
}

/// The values of the `Some` entries of `s`, in order.
pub open spec fn somes<X>(s: Seq<Option<X>>) -> Seq<X>
    decreases s.len(),
{
    if s.len() == 0 {
        Seq::empty()
    } else {
        let init = somes(s.drop_last());
        match s.last() {
            Some(x) => init.push(x),
            None => init,
        }
    }
}

/// Thinning out never adds items.
pub proof fn lemma_unflagged_len<X>(s: Seq<X>, dropped: Seq<bool>)
    ensures
        unflagged(s, dropped).len() <= s.len(),
    decreases s.len(),
{
    if s.len() > 0 && dropped.len() > 0 {
        lemma_unflagged_len(s.drop_last(), dropped.drop_last());
    }
}

/// With no flag set, nothing is dropped.
pub proof fn lemma_unflagged_none<X>(s: Seq<X>, dropped: Seq<bool>)
    requires
        s.len() == dropped.len(),
        forall|i: int| 0 <= i < dropped.len() ==> !#[trigger] dropped[i],
    ensures
        unflagged(s, dropped) == s,
    decreases s.len(),
{
    if s.len() > 0 {
        assert forall|i: int| 0 <= i < dropped.drop_last().len() implies !#[trigger] dropped.drop_last()[i] by {
            assert(dropped.drop_last()[i] == dropped[i]);
        }
        lemma_unflagged_none(s.drop_last(), dropped.drop_last());
        assert(s.drop_last().push(s.last()) =~= s);
    }
}

/// Every item kept was in `s` with its flag unset.
pub proof fn lemma_unflagged_kept<X>(s: Seq<X>, dropped: Seq<bool>, x: X)
    requires
        s.len() == dropped.len(),
        unflagged(s, dropped).contains(x),
    ensures
        exists|i: int| 0 <= i < s.len() && s[i] == x && !dropped[i],
    decreases s.len(),
{
    let init = unflagged(s.drop_last(), dropped.drop_last());
    if dropped.last() || init.contains(x) {
        if !init.contains(x) {
            assert(false);
        }
        lemma_unflagged_kept(s.drop_last(), dropped.drop_last(), x);
        let i = choose|i: int| 0 <= i < s.drop_last().len() && s.drop_last()[i] == x && !dropped.drop_last()[i];
        assert(s[i] == x && !dropped[i]);
    } else {
        let j = choose|j: int| 0 <= j < init.push(s.last()).len() && init.push(s.last())[j] == x;
        if j < init.len() {
            assert(init.contains(x));
        }
        assert(s[s.len() - 1] == x);
    }
}

/// `items` without the items whose flag in `dropped` is set, in order.
pub fn remove_flagged<X>(items: Vec<X>, dropped: &Vec<bool>) -> (r: Vec<X>)
    requires
        items.len() == dropped.len(),
    ensures
        r@ == unflagged(items@, dropped@),
{
    let ghost s0 = items@;
    let n = items.len();
    let mut rest = items;
    let mut r: Vec<X> = Vec::new();
    let mut i: usize = 0;
    while rest.len() > 0
        invariant
            s0.len() == dropped@.len(),
            s0.len() == n,
            s0.len() == i + rest@.len(),
            rest@ == s0.skip(i as int),
            r@ == unflagged(s0.take(i as int), dropped@.take(i as int)),
        decreases rest.len(),
    {
        let x = rest.remove(0);
        assert(x == s0[i as int]);
        assert(rest@ =~= s0.skip(i + 1));
        assert(s0.take(i + 1).drop_last() =~= s0.take(i as int));
        assert(dropped@.take(i + 1).drop_last() =~= dropped@.take(i as int));
        if !dropped[i] {
            r.push(x);
        }
        i = i + 1;
    }
    assert(s0.take(i as int) =~= s0);
    assert(dropped@.take(i as int) =~= dropped@);
    r
}

/// What `flag` reports for each of `items`, in order.
pub fn flags_of<E, J>(items: &Vec<E>, flag: J) -> (r: Vec<bool>) where J: Fn(&E) -> bool
    requires
        forall|e: &E| #[trigger] flag.requires((e,)),
    ensures
        r.len() == items.len(),
        forall|i: int| 0 <= i < items.len() ==> call_ensures(flag, (&items@[i],), #[trigger] r@[i]),
{
    let n = items.len();
    let mut r: Vec<bool> = Vec::with_capacity(n);
    for i in 0..n
        invariant
            n == items.len(),
            r.len() == i,
            forall|e: &E| #[trigger] flag.requires((e,)),
            forall|j: int| 0 <= j < i ==> call_ensures(flag, (&items@[j],), #[trigger] r@[j]),
    {
        let f = flag(&items[i]);
        r.push(f);
    }
    r
}

} // verus!
