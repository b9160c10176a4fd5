//! Sorting by name.
use crate::text::chars_of;
use vstd::multiset::Multiset;
use vstd::prelude::*;
use vstd::seq_lib::group_to_multiset_ensures;

verus! {

/// A text comes before another, or is the same: the first character that differs
/// decides, and a text comes before its continuations.
pub open spec fn is_ordered(a: Seq<char>, b: Seq<char>) -> bool
    decreases a.len(),
{
    a.len() == 0 || (b.len() > 0 && (a[0] < b[0] || (a[0] == b[0] && is_ordered(
        a.drop_first(),
        b.drop_first(),
    ))))
}

proof fn lemma_order_is_total(a: Seq<char>, b: Seq<char>)
    ensures
        is_ordered(a, b) || is_ordered(b, a),
    decreases a.len(),
{
    if a.len() > 0 && b.len() > 0 && a[0] == b[0] {
        lemma_order_is_total(a.drop_first(), b.drop_first());
    }
}

proof fn lemma_order_is_transitive(a: Seq<char>, b: Seq<char>, c: Seq<char>)
    requires
        is_ordered(a, b),
        is_ordered(b, c),
    ensures
        is_ordered(a, c),
    decreases a.len(),
{
    if a.len() > 0 && a[0] == b[0] && b[0] == c[0] {
        lemma_order_is_transitive(a.drop_first(), b.drop_first(), c.drop_first());
    }
}

/// Whether a text comes before another, or is the same.
pub fn in_order(a: &str, b: &str) -> (yes: bool)
    ensures
        yes == is_ordered(a@, b@),
{
    let left = chars_of(a);
    let right = chars_of(b);
    let mut i: usize = 0;
    assert(left@.skip(0) =~= left@);
    assert(right@.skip(0) =~= right@);
    while i < left.len()
        invariant
            i <= left@.len(),
            i <= right@.len(),
            left@ == a@,
            right@ == b@,
            is_ordered(a@, b@) == is_ordered(left@.skip(i as int), right@.skip(i as int)),
        decreases left.len() - i,
    {
        if i >= right.len() {
            return false;
        }
        if left[i] < right[i] {
            return true;
        }
        if right[i] < left[i] {
            return false;
        }
        assert(left@.skip(i as int).drop_first() =~= left@.skip(i + 1));
        assert(right@.skip(i as int).drop_first() =~= right@.skip(i + 1));
        i += 1;
    }
    true
}

/// Something with a name.
pub trait Named: Sized {
    spec fn spec_name(&self) -> Seq<char>;

    fn name(&self) -> (name: &str)
        ensures
            name@ == self.spec_name(),
    ;
}

/// The names of a list are in order.
pub open spec fn is_sorted<T: Named>(list: Seq<T>) -> bool {
    forall|i: int, j: int|
        0 <= i < j < list.len() ==> is_ordered(
            (#[trigger] list[i]).spec_name(),
            (#[trigger] list[j]).spec_name(),
        )
}

/// The index of the first item whose name comes before all others.
fn first_in_order<T: Named>(list: &Vec<T>) -> (at: usize)
    requires
        list@.len() > 0,
    ensures
        at < list@.len(),
        forall|k: int|
            0 <= k < list@.len() ==> is_ordered(
                list@[at as int].spec_name(),
                (#[trigger] list@[k]).spec_name(),
            ),
        forall|k: int|
            0 <= k < at ==> !is_ordered(
                (#[trigger] list@[k]).spec_name(),
                list@[at as int].spec_name(),
            ),
{
    let mut at: usize = 0;
    let mut i: usize = 1;
    proof {
        lemma_order_is_total(list@[0].spec_name(), list@[0].spec_name());
    }
    while i < list.len()
        invariant
            at < i <= list@.len(),
            forall|k: int|
                0 <= k < i ==> is_ordered(
                    list@[at as int].spec_name(),
                    (#[trigger] list@[k]).spec_name(),
                ),
            forall|k: int|
                0 <= k < at ==> !is_ordered(
                    (#[trigger] list@[k]).spec_name(),
                    list@[at as int].spec_name(),
                ),
        decreases list.len() - i,
    {
        if !in_order(list[at].name(), list[i].name()) {
            proof {
                let old_name = list@[at as int].spec_name();
                let new_name = list@[i as int].spec_name();
                lemma_order_is_total(old_name, new_name);
                lemma_order_is_total(new_name, new_name);
                assert forall|k: int| 0 <= k < i implies is_ordered(
                    new_name,
                    (#[trigger] list@[k]).spec_name(),
                ) by {
                    lemma_order_is_transitive(new_name, old_name, list@[k].spec_name());
                }
                assert forall|k: int| 0 <= k < i implies !is_ordered(
                    (#[trigger] list@[k]).spec_name(),
                    new_name,
                ) by {
                    if is_ordered(list@[k].spec_name(), new_name) {
                        lemma_order_is_transitive(old_name, list@[k].spec_name(), new_name);
                    }
                }
            }
            at = i;
        }
        i += 1;
    }
    at
}

/// Sorts a list by name. It holds the same items afterwards.
pub fn sort_by_name<T: Named>(list: Vec<T>) -> (sorted: Vec<T>)
    ensures
        is_sorted(sorted@),
        sorted@.to_multiset() == list@.to_multiset(),
        sorted@.len() == list@.len(),
{
    broadcast use group_to_multiset_ensures;

    let mut rest = list;
    let mut sorted: Vec<T> = Vec::new();
    proof {
        assert(sorted@.to_multiset().add(rest@.to_multiset()) =~= list@.to_multiset());
    }
    while rest.len() > 0
        invariant
            is_sorted(sorted@),
            sorted@.len() + rest@.len() == list@.len(),
            forall|i: int, k: int|
                0 <= i < sorted@.len() && 0 <= k < rest@.len() ==> is_ordered(
                    (#[trigger] sorted@[i]).spec_name(),
                    (#[trigger] rest@[k]).spec_name(),
                ),
            sorted@.to_multiset().add(rest@.to_multiset()) == list@.to_multiset(),
        decreases rest.len(),
    {
        let at = first_in_order(&rest);
        let ghost rest_before = rest@;
        let ghost sorted_before = sorted@;
        let item = rest.remove(at);
        proof {
            assert(rest@ == rest_before.remove(at as int));
            assert(rest_before[at as int] == item);
            assert forall|k: int| 0 <= k < rest@.len() implies is_ordered(
                item.spec_name(),
                (#[trigger] rest@[k]).spec_name(),
            ) by {
                if k < at {
                    assert(rest@[k] == rest_before[k]);
                } else {
                    assert(rest@[k] == rest_before[k + 1]);
                }
            }
            assert forall|i: int, k: int|
                0 <= i < sorted_before.len() && 0 <= k < rest@.len() implies is_ordered(
                (#[trigger] sorted_before[i]).spec_name(),
                (#[trigger] rest@[k]).spec_name(),
            ) by {
                if k < at {
                    assert(rest@[k] == rest_before[k]);
                } else {
                    assert(rest@[k] == rest_before[k + 1]);
                }
            }
            assert forall|i: int| 0 <= i < sorted_before.len() implies is_ordered(
                (#[trigger] sorted_before[i]).spec_name(),
                item.spec_name(),
            ) by {
                assert(is_ordered(
                    sorted_before[i].spec_name(),
                    rest_before[at as int].spec_name(),
                ));
            }
        }
        sorted.push(item);
        proof {
            assert(sorted@ == sorted_before.push(item));
            sorted_before.to_multiset_ensures();
            rest_before.to_multiset_ensures();
            assert(sorted@.to_multiset() =~= sorted_before.to_multiset().insert(item));
            assert(rest@.to_multiset() =~= rest_before.to_multiset().remove(item));
            assert(sorted@.to_multiset().add(rest@.to_multiset()) =~= list@.to_multiset());
        }
    }
    proof {
        assert(rest@.to_multiset() =~= Multiset::empty());
        assert(sorted@.to_multiset().add(rest@.to_multiset()) =~= sorted@.to_multiset());
    }
    sorted
}

/// Texts are ordered by the first character that differs: a text comes before another
/// exactly where the two are the same up to some place, and there either the first ends,
/// or its character is the smaller one.
pub proof fn law_texts_are_ordered_by_their_first_difference(a: Seq<char>, b: Seq<char>)
    ensures
        is_ordered(a, b) <==> exists|k: int| #[trigger] is_same_up_to(a, b, k) && (k == a.len()
            || k < b.len() && a[k] < b[k]),
    decreases a.len(),
{
    if a.len() == 0 {
        assert(is_same_up_to(a, b, 0));
    } else if b.len() > 0 && a[0] < b[0] {
        assert(is_same_up_to(a, b, 0));
    } else if b.len() > 0 && a[0] == b[0] {
        let rest = a.drop_first();
        let other = b.drop_first();
        law_texts_are_ordered_by_their_first_difference(rest, other);
        if is_ordered(rest, other) {
            let k = choose|k: int| #[trigger]
                is_same_up_to(rest, other, k) && (k == rest.len() || k < other.len() && rest[k]
                    < other[k]);
            assert forall|i: int| 0 <= i < k + 1 implies a[i] == b[i] by {
                if i > 0 {
                    assert(rest[i - 1] == other[i - 1]);
                }
            }
            assert(is_same_up_to(a, b, k + 1));
        }
        if exists|k: int| #[trigger]
            is_same_up_to(a, b, k) && (k == a.len() || k < b.len() && a[k] < b[k]) {
            let k = choose|k: int| #[trigger]
                is_same_up_to(a, b, k) && (k == a.len() || k < b.len() && a[k] < b[k]);
            assert(k > 0);
            assert forall|i: int| 0 <= i < k - 1 implies rest[i] == other[i] by {
                assert(a[i + 1] == b[i + 1]);
            }
            assert(is_same_up_to(rest, other, k - 1));
        }
    } else {
        assert forall|k: int| #[trigger] is_same_up_to(a, b, k) implies !(k == a.len() || k
            < b.len() && a[k] < b[k]) by {
            if k > 0 {
                assert(a[0] == b[0]);
            }
        }
    }
}

/// Two texts reach some place and are the same before it.
pub open spec fn is_same_up_to(a: Seq<char>, b: Seq<char>, k: int) -> bool {
    &&& 0 <= k <= a.len()
    &&& k <= b.len()
    &&& forall|i: int| 0 <= i < k ==> a[i] == b[i]
}

} // verus!
