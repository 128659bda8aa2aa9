//! Lists of cell indices picked in ascending order.
use vstd::prelude::*;

verus! {

pub open spec fn ascending(list: Seq<usize>) -> bool {
    forall|a: int, b: int| 0 <= a < b < list.len() ==> list[a] < list[b]
}

/// `list` holds, in ascending order, exactly the indices below `k` that are
/// in `wanted`.
pub open spec fn picks(list: Seq<usize>, k: int, wanted: Set<int>) -> bool {
    &&& ascending(list)
    &&& forall|a: int| 0 <= a < list.len() ==> list[a] < k && wanted.contains(#[trigger] list[a] as int)
    &&& forall|i: int|
        0 <= i < k && #[trigger] wanted.contains(i) ==> exists|a: int| 0 <= a < list.len() && list[a] == i
}

/// Nothing is picked below zero.
pub proof fn picks_none(wanted: Set<int>)
    ensures
        picks(Seq::<usize>::empty(), 0, wanted),
{
}

/// Looking at one more index extends the list by it, or leaves it.
pub proof fn picks_extend(list: Seq<usize>, k: int, wanted: Set<int>)
    requires
        picks(list, k, wanted),
        0 <= k <= usize::MAX,
    ensures
        wanted.contains(k) ==> picks(list.push(k as usize), k + 1, wanted),
        !wanted.contains(k) ==> picks(list, k + 1, wanted),
{
    if wanted.contains(k) {
        let longer = list.push(k as usize);
        assert forall|i: int| 0 <= i < k + 1 && #[trigger] wanted.contains(i) implies exists|a: int|
            0 <= a < longer.len() && longer[a] == i by {
            if i < k {
                let a = choose|a: int| 0 <= a < list.len() && list[a] == i;
                assert(longer[a] == i);
            } else {
                assert(longer[list.len() as int] == i);
            }
        }
    } else {
        assert forall|i: int| 0 <= i < k + 1 && #[trigger] wanted.contains(i) implies exists|a: int|
            0 <= a < list.len() && list[a] == i by {
            assert(i < k);
        }
    }
}

/// Two lists that pick by the same rule are the same list.
pub proof fn picks_unique(x: Seq<usize>, y: Seq<usize>, k: int, wanted: Set<int>)
    requires
        picks(x, k, wanted),
        picks(y, k, wanted),
    ensures
        x == y,
    decreases x.len(),
{
    if x.len() == 0 {
        if y.len() > 0 {
            assert(wanted.contains(y[0] as int));
            let a = choose|a: int| 0 <= a < x.len() && x[a] == y[0];
        }
        assert(x =~= y);
    } else {
        let last = x[x.len() - 1];
        assert(wanted.contains(last as int));
        let b = choose|b: int| 0 <= b < y.len() && y[b] == last;
        if b != y.len() - 1 {
            let top = y[y.len() - 1];
            assert(wanted.contains(top as int));
            let a = choose|a: int| 0 <= a < x.len() && x[a] == top;
            assert(y[b] < top);
            if a < x.len() - 1 {
                assert(x[a] < x[x.len() - 1]);
            }
        }
        let xs = x.drop_last();
        let ys = y.drop_last();
        let below = last as int;
        assert(picks(xs, below, wanted)) by {
            assert forall|i: int| 0 <= i < below && #[trigger] wanted.contains(i) implies exists|a: int|
                0 <= a < xs.len() && xs[a] == i by {
                let a = choose|a: int| 0 <= a < x.len() && x[a] == i;
                assert(xs[a] == i);
            }
        }
        assert(picks(ys, below, wanted)) by {
            assert forall|i: int| 0 <= i < below && #[trigger] wanted.contains(i) implies exists|a: int|
                0 <= a < ys.len() && ys[a] == i by {
                let a = choose|a: int| 0 <= a < y.len() && y[a] == i;
                assert(ys[a] == i);
            }
        }
        picks_unique(xs, ys, below, wanted);
        assert(x =~= xs.push(last));
        assert(y =~= ys.push(last));
    }
}

} // verus!
