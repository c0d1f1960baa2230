//! What a bounded ring holds: the latest of what was pushed.

use vstd::prelude::*;

verus! {

/// After `item` was pushed onto a ring of `cap` items that holds `items`: the
/// oldest gives way when the ring is full.
pub open spec fn pushed<T>(items: Seq<T>, cap: nat, item: T) -> Seq<T> {
    if items.len() == cap {
        items.drop_first().push(item)
    } else {
        items.push(item)
    }
}

/// After all of `more` was pushed, in order.
pub open spec fn pushed_all<T>(items: Seq<T>, cap: nat, more: Seq<T>) -> Seq<T>
    decreases more.len(),
{
    if more.len() == 0 {
        items
    } else {
        pushed(pushed_all(items, cap, more.drop_last()), cap, more.last())
    }
}

/// A ring that started empty holds the latest of what was pushed, in order: all
/// of it, or as much as the ring has room for.
pub proof fn a_ring_holds_the_latest<T>(cap: nat, more: Seq<T>)
    requires
        cap > 0,
    ensures
        pushed_all(Seq::<T>::empty(), cap, more) == (if more.len() <= cap {
            more
        } else {
            more.skip(more.len() - cap)
        }),
    decreases more.len(),
{
    if more.len() > 0 {
        a_ring_holds_the_latest(cap, more.drop_last());
        let before = pushed_all(Seq::<T>::empty(), cap, more.drop_last());
        let after = pushed(before, cap, more.last());
        if more.len() <= cap {
            assert(after =~= more);
        } else {
            assert(after =~= more.skip(more.len() - cap));
        }
    } else {
        assert(more =~= Seq::<T>::empty());
    }
}

/// A push keeps everything that there is room for: nothing goes before the ring is
/// full, and then only the oldest.
pub proof fn pushes_drop_only_the_oldest<T>(items: Seq<T>, cap: nat, item: T)
    requires
        0 < cap,
        items.len() <= cap,
    ensures
        pushed(items, cap, item).last() == item,
        items.len() < cap ==> pushed(items, cap, item).drop_last() == items,
        items.len() == cap ==> pushed(items, cap, item).drop_last() == items.skip(1),
{
    assert(pushed(items, cap, item).drop_last() =~= (if items.len() < cap {
        items
    } else {
        items.skip(1)
    }));
}

} // verus!
