//! Selecting the items that are present in a sequence of optional items.

use vstd::prelude::*;

verus! {

/// The items that `marks` holds, in order.
pub open spec fn present<T>(marks: Seq<Option<T>>) -> Seq<T> {
    marks.filter_map(|m: Option<T>| m)
}

/// Reading one more mark adds its item, if it holds one.
pub proof fn lemma_present_take_succ<T>(marks: Seq<Option<T>>, i: int)
    requires
        0 <= i < marks.len(),
    ensures
        present(marks.take(i + 1)) == match marks[i] {
            Some(item) => present(marks.take(i)).push(item),
            None => present(marks.take(i)),
        },
{
    marks.lemma_filter_map_take_succ(|m: Option<T>| m, i);
    match marks[i] {
        Some(item) => {
            assert(present(marks.take(i)) + seq![item] =~= present(marks.take(i)).push(item));
        },
        None => {
            assert(present(marks.take(i)) + Seq::<T>::empty() =~= present(marks.take(i)));
        },
    }
}

/// Where the item at each position is keyed by that position, the present
/// items are exactly the items of the marked positions, each once, in the
/// order of their positions.
pub proof fn lemma_present_keyed<T>(marks: Seq<Option<T>>, key: spec_fn(T) -> int)
    requires
        forall|i: int|
            0 <= i < marks.len() && (#[trigger] marks[i]).is_some() ==> key(marks[i].unwrap())
                == i,
    ensures
        forall|k: int|
            0 <= k < present(marks).len() ==> {
                &&& 0 <= key(#[trigger] present(marks)[k]) < marks.len()
                &&& marks[key(present(marks)[k])] == Some(present(marks)[k])
            },
        forall|j: int, k: int|
            0 <= j < k < present(marks).len() ==> key(#[trigger] present(marks)[j]) < key(
                #[trigger] present(marks)[k],
            ),
        forall|i: int|
            0 <= i < marks.len() && (#[trigger] marks[i]).is_some() ==> exists|k: int|
                0 <= k < present(marks).len() && #[trigger] present(marks)[k]
                    == marks[i].unwrap(),
    decreases marks.len(),
{
    if marks.len() > 0 {
        let rest = marks.drop_last();
        let last = marks.len() - 1;
        assert forall|i: int| 0 <= i < rest.len() && (#[trigger] rest[i]).is_some() implies key(
            rest[i].unwrap(),
        ) == i by {
            assert(rest[i] == marks[i]);
        }
        lemma_present_keyed(rest, key);
        let before = present(rest);
        let all = present(marks);
        assert(all == match marks.last() {
            Some(item) => before + seq![item],
            None => before,
        });
        assert forall|k: int| 0 <= k < all.len() implies {
            &&& 0 <= key(#[trigger] all[k]) < marks.len()
            &&& marks[key(all[k])] == Some(all[k])
        } by {
            if k < before.len() {
                assert(all[k] == before[k]);
                assert(rest[key(before[k])] == marks[key(before[k])]);
            } else {
                assert(all[k] == marks[last].unwrap());
            }
        }
        assert forall|j: int, k: int| 0 <= j < k < all.len() implies key(#[trigger] all[j])
            < key(#[trigger] all[k]) by {
            assert(all[j] == before[j]);
            if k < before.len() {
                assert(all[k] == before[k]);
            } else {
                assert(all[k] == marks[last].unwrap());
            }
        }
        assert forall|i: int| 0 <= i < marks.len() && (#[trigger] marks[i]).is_some() implies exists|
            k: int,
        |
            0 <= k < all.len() && #[trigger] all[k] == marks[i].unwrap() by {
            if i < last {
                assert(rest[i] == marks[i]);
                let k = choose|k: int|
                    0 <= k < before.len() && #[trigger] before[k] == rest[i].unwrap();
                assert(all[k] == before[k]);
            } else {
                assert(all[all.len() - 1] == marks[i].unwrap());
            }
        }
    }
}

} // verus!
