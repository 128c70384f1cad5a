//! Putting settings over settings: options, and lists whose items go by a key.
use crate::text::same;
use vstd::prelude::*;

verus! {

/// The later option where it is given, else the earlier one.
pub open spec fn later<T>(target: Option<T>, other: Option<T>) -> Option<T> {
    if other is Some {
        other
    } else {
        target
    }
}

pub fn merge_option<T>(target: &mut Option<T>, other: Option<T>)
    ensures
        *final(target) == later(*old(target), other),
{
    if let Some(value) = other {
        *target = Some(value);
    }
}

/// An item that goes by a key.
pub trait Keyed: DeepView + Sized {
    /// The key of an item.
    spec fn key_of(m: Self::V) -> Seq<char>;

    fn key(&self) -> (key: &str)
        ensures
            key@ == Self::key_of(self.deep_view()),
    ;
}

/// The position of the first item with a key, or the length where there is none.
pub open spec fn position_of<T: Keyed>(list: Seq<T::V>, key: Seq<char>) -> nat
    decreases list.len(),
{
    if list.len() == 0 || T::key_of(list[0]) == key {
        0
    } else {
        1 + position_of::<T>(list.skip(1), key)
    }
}

/// The list with an item in the place of the first one that has its key, or at the end.
pub open spec fn placed<T: Keyed>(list: Seq<T::V>, item: T::V) -> Seq<T::V> {
    let k = position_of::<T>(list, T::key_of(item)) as int;
    if k < list.len() {
        list.update(k, item)
    } else {
        list.push(item)
    }
}

/// The list with items placed one after the other.
pub open spec fn all_placed<T: Keyed>(list: Seq<T::V>, items: Seq<T::V>) -> Seq<T::V>
    decreases items.len(),
{
    if items.len() == 0 {
        list
    } else {
        placed::<T>(all_placed::<T>(list, items.drop_last()), items.last())
    }
}

/// No two items have the same key.
pub open spec fn distinct_keys<T: Keyed>(list: Seq<T::V>) -> bool {
    forall|i: int, j: int|
        0 <= i < j < list.len() ==> T::key_of(#[trigger] list[i]) != T::key_of(#[trigger] list[j])
}

proof fn lemma_position<T: Keyed>(list: Seq<T::V>, key: Seq<char>, k: int)
    requires
        0 <= k <= list.len(),
        forall|i: int| 0 <= i < k ==> T::key_of(#[trigger] list[i]) != key,
        k < list.len() ==> T::key_of(list[k]) == key,
    ensures
        position_of::<T>(list, key) == k,
    decreases list.len(),
{
    if k > 0 {
        assert(T::key_of(list[0]) != key);
        let t = list.skip(1);
        assert forall|i: int| 0 <= i < k - 1 implies T::key_of(#[trigger] t[i]) != key by {
            assert(t[i] == list[i + 1]);
        }
        lemma_position::<T>(t, key, k - 1);
    }
}

proof fn lemma_position_range<T: Keyed>(list: Seq<T::V>, key: Seq<char>)
    ensures
        position_of::<T>(list, key) <= list.len(),
        position_of::<T>(list, key) < list.len() ==> T::key_of(
            list[position_of::<T>(list, key) as int],
        ) == key,
        forall|i: int|
            0 <= i < position_of::<T>(list, key) ==> T::key_of(#[trigger] list[i]) != key,
    decreases list.len(),
{
    if list.len() > 0 && T::key_of(list[0]) != key {
        let t = list.skip(1);
        lemma_position_range::<T>(t, key);
        assert forall|i: int| 0 <= i < position_of::<T>(list, key) implies T::key_of(
            #[trigger] list[i],
        ) != key by {
            if i > 0 {
                assert(list[i] == t[i - 1]);
            }
        }
        assert(position_of::<T>(list, key) < list.len() ==> list[position_of::<T>(
            list,
            key,
        ) as int] == t[position_of::<T>(t, key) as int]);
    }
}

/// A placed item is in the list, items with other keys stay where they are, and no key comes to
/// stand twice.
pub proof fn law_placed<T: Keyed>(list: Seq<T::V>, item: T::V)
    ensures
        placed::<T>(list, item).contains(item),
        placed::<T>(list, item).len() >= list.len(),
        forall|i: int|
            0 <= i < list.len() && T::key_of(#[trigger] list[i]) != T::key_of(item) ==> placed::<T>(
                list,
                item,
            )[i] == list[i],
        distinct_keys::<T>(list) ==> distinct_keys::<T>(placed::<T>(list, item)),
{
    let key = T::key_of(item);
    let k = position_of::<T>(list, key) as int;
    lemma_position_range::<T>(list, key);
    let p = placed::<T>(list, item);
    assert(p[k] == item);
    if distinct_keys::<T>(list) {
        assert forall|i: int, j: int| 0 <= i < j < p.len() implies T::key_of(#[trigger] p[i])
            != T::key_of(#[trigger] p[j]) by {
            if i != k && j != k {
                assert(T::key_of(list[i]) != T::key_of(list[j]));
            } else if i == k {
                assert(T::key_of(list[k]) != T::key_of(list[j]));
            } else if k < list.len() {
                assert(T::key_of(list[i]) != T::key_of(list[k]));
            } else {
                assert(T::key_of(list[i]) != key);
            }
        }
    }
}

/// Placing items keeps keys distinct.
pub proof fn law_merge_keeps_keys_distinct<T: Keyed>(list: Seq<T::V>, items: Seq<T::V>)
    requires
        distinct_keys::<T>(list),
    ensures
        distinct_keys::<T>(all_placed::<T>(list, items)),
    decreases items.len(),
{
    if items.len() > 0 {
        law_merge_keeps_keys_distinct::<T>(list, items.drop_last());
        law_placed::<T>(all_placed::<T>(list, items.drop_last()), items.last());
    }
}

/// The last item of the later list wins over everything else with its key.
pub proof fn law_merge_last_wins<T: Keyed>(list: Seq<T::V>, items: Seq<T::V>)
    requires
        items.len() > 0,
    ensures
        all_placed::<T>(list, items).contains(items.last()),
{
    law_placed::<T>(all_placed::<T>(list, items.drop_last()), items.last());
}

/// Places items one after the other.
pub fn merge_keyed<T: Keyed>(target: &mut Vec<T>, items: Vec<T>)
    ensures
        final(target).deep_view() == all_placed::<T>(old(target).deep_view(), items.deep_view()),
{
    let ghost all = items.deep_view();
    let ghost start = target.deep_view();
    let mut rest = items;
    let ghost mut done: int = 0;
    assert(all.take(0) == Seq::<T::V>::empty());
    assert(rest.deep_view() =~= all.skip(0));
    while rest.len() > 0
        invariant
            0 <= done <= all.len(),
            rest.deep_view() == all.skip(done),
            target.deep_view() == all_placed::<T>(start, all.take(done)),
        decreases rest.len(),
    {
        let ghost before = rest.deep_view();
        assert(before.len() == rest.len());
        let item = rest.remove(0);
        let ghost m = item.deep_view();
        let ghost list = target.deep_view();
        proof {
            assert(before[0] == m);
            assert(all.skip(done)[0] == all[done]);
            assert(all.take(done + 1).drop_last() == all.take(done));
            assert(rest.deep_view() =~= before.skip(1));
            assert(all.skip(done).skip(1) =~= all.skip(done + 1));
            done = done + 1;
        }
        let mut k: usize = 0;
        while k < target.len() && !same(target[k].key(), item.key())
            invariant
                k <= target.len(),
                list == target.deep_view(),
                m == item.deep_view(),
                forall|i: int| 0 <= i < k ==> T::key_of(#[trigger] list[i]) != T::key_of(m),
            decreases target.len() - k,
        {
            assert(list[k as int] == target@[k as int].deep_view());
            k += 1;
        }
        proof {
            if k < target.len() {
                assert(list[k as int] == target@[k as int].deep_view());
            }
            lemma_position::<T>(list, T::key_of(m), k as int);
        }
        if k < target.len() {
            target.set(k, item);
            assert(target.deep_view() =~= list.update(k as int, m));
        } else {
            target.push(item);
            assert(target.deep_view() =~= list.push(m));
        }
    }
    assert(rest.deep_view().len() == 0);
    assert(all.take(done) == all);
}

} // verus!
