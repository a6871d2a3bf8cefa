use vstd::prelude::*;

use crate::text::chars_of;

verus! {

/// `a` comes before `b` when their characters are compared one by one by code
/// point, a proper prefix coming first. On UTF-8 text this is the byte order
/// in which the standard library compares file names.
pub open spec fn text_precedes(a: Seq<char>, b: Seq<char>) -> bool
    decreases a.len(),
{
    if a.len() == 0 {
        b.len() > 0
    } else if b.len() == 0 {
        false
    } else if a[0] != b[0] {
        a[0] < b[0]
    } else {
        text_precedes(a.drop_first(), b.drop_first())
    }
}

/// The order of optional names: a missing name first, then names by
/// `text_precedes`.
pub open spec fn name_precedes(a: Option<Seq<char>>, b: Option<Seq<char>>) -> bool {
    match (a, b) {
        (None, Some(_)) => true,
        (Some(x), Some(y)) => text_precedes(x, y),
        _ => false,
    }
}

/// Position `i` comes before position `j` when sorting by name and keeping
/// positions with equal names in their order.
pub open spec fn sorts_before(names: Seq<Option<Seq<char>>>, i: int, j: int) -> bool {
    name_precedes(names[i], names[j]) || (names[i] == names[j] && i < j)
}

/// `order` lists every position of `names` once, sorted by name and, among
/// equal names, by position.
pub open spec fn is_name_order(order: Seq<usize>, names: Seq<Option<Seq<char>>>) -> bool {
    &&& order.len() == names.len()
    &&& forall|k: int| 0 <= k < order.len() ==> order[k] < names.len()
    &&& forall|a: int, b: int| 0 <= a < b < order.len() ==> order[a] != order[b]
    &&& forall|a: int, b: int|
        0 <= a < b < order.len() ==> sorts_before(names, order[a] as int, order[b] as int)
}

/// `order` lists every position below `count` once.
pub open spec fn is_permutation(order: Seq<usize>, count: nat) -> bool {
    &&& order.len() == count
    &&& forall|k: int| 0 <= k < order.len() ==> order[k] < count
    &&& forall|a: int, b: int| 0 <= a < b < order.len() ==> order[a] != order[b]
}

/// No text comes before itself.
pub proof fn lemma_text_irreflexive(a: Seq<char>)
    ensures
        !text_precedes(a, a),
    decreases a.len(),
{
    if a.len() > 0 {
        lemma_text_irreflexive(a.drop_first());
    }
}

/// Of two different texts, one comes before the other.
pub proof fn lemma_text_total(a: Seq<char>, b: Seq<char>)
    ensures
        a == b || text_precedes(a, b) || text_precedes(b, a),
    decreases a.len(),
{
    if a.len() > 0 && b.len() > 0 && a[0] == b[0] {
        lemma_text_total(a.drop_first(), b.drop_first());
        if a.drop_first() == b.drop_first() {
            assert(a =~= seq![a[0]] + a.drop_first());
            assert(b =~= seq![b[0]] + b.drop_first());
        }
    } else if a.len() == 0 && b.len() == 0 {
        assert(a =~= b);
    }
}

/// Two texts never come before each other.
pub proof fn lemma_text_asymmetric(a: Seq<char>, b: Seq<char>)
    ensures
        !(text_precedes(a, b) && text_precedes(b, a)),
    decreases a.len(),
{
    if a.len() > 0 && b.len() > 0 && a[0] == b[0] {
        lemma_text_asymmetric(a.drop_first(), b.drop_first());
    }
}

/// The order of texts is transitive.
pub proof fn lemma_text_transitive(a: Seq<char>, b: Seq<char>, c: Seq<char>)
    requires
        text_precedes(a, b),
        text_precedes(b, c),
    ensures
        text_precedes(a, c),
    decreases a.len(),
{
    if a.len() > 0 && b.len() > 0 && c.len() > 0 && a[0] == b[0] && b[0] == c[0] {
        lemma_text_transitive(a.drop_first(), b.drop_first(), c.drop_first());
    }
}

proof fn lemma_name_total(a: Option<Seq<char>>, b: Option<Seq<char>>)
    ensures
        a == b || name_precedes(a, b) || name_precedes(b, a),
{
    if let (Some(x), Some(y)) = (a, b) {
        lemma_text_total(x, y);
    }
}

proof fn lemma_name_transitive(a: Option<Seq<char>>, b: Option<Seq<char>>, c: Option<Seq<char>>)
    requires
        name_precedes(a, b),
        name_precedes(b, c),
    ensures
        name_precedes(a, c),
{
    if let (Some(x), Some(y), Some(z)) = (a, b, c) {
        lemma_text_transitive(x, y, z);
    }
}

fn text_before(a: &[char], b: &[char]) -> (before: bool)
    ensures
        before == text_precedes(a@, b@),
{
    let mut index: usize = 0;
    assert(a@.skip(0) =~= a@);
    assert(b@.skip(0) =~= b@);
    while index < a.len() && index < b.len() && a[index] == b[index]
        invariant
            index <= a.len(),
            index <= b.len(),
            text_precedes(a@, b@) == text_precedes(a@.skip(index as int), b@.skip(index as int)),
        decreases a.len() - index,
    {
        proof {
            assert(a@.skip(index as int + 1) =~= a@.skip(index as int).drop_first());
            assert(b@.skip(index as int + 1) =~= b@.skip(index as int).drop_first());
        }
        index += 1;
    }
    if index == a.len() {
        index < b.len()
    } else if index == b.len() {
        false
    } else {
        a[index] < b[index]
    }
}

/// The character sequences of optional names.
pub open spec fn names_view(names: Seq<Option<String>>) -> Seq<Option<Seq<char>>> {
    Seq::new(
        names.len(),
        |i: int|
            match names[i] {
                Some(name) => Some(name@),
                None => None,
            },
    )
}

/// The positions of `names` sorted by name, positions with equal names keeping
/// their order.
pub fn name_order(names: &Vec<Option<String>>) -> (order: Vec<usize>)
    ensures
        is_name_order(order@, names_view(names@)),
{
    let ghost view = names_view(names@);
    let mut chars: Vec<Option<Vec<char>>> = Vec::new();
    let mut index: usize = 0;
    while index < names.len()
        invariant
            index <= names.len(),
            view == names_view(names@),
            chars@.len() == index,
            forall|i: int|
                0 <= i < index ==> (match #[trigger] chars@[i] {
                    Some(text) => view[i] == Some(text@),
                    None => view[i] is None,
                }),
        decreases names.len() - index,
    {
        let entry = match &names[index] {
            Some(name) => Some(chars_of(name.as_str())),
            None => None,
        };
        chars.push(entry);
        index += 1;
    }
    let mut order: Vec<usize> = Vec::new();
    let mut next: usize = 0;
    while next < chars.len()
        invariant
            next <= chars@.len(),
            chars@.len() == view.len(),
            forall|i: int|
                0 <= i < chars@.len() ==> (match #[trigger] chars@[i] {
                    Some(text) => view[i] == Some(text@),
                    None => view[i] is None,
                }),
            order@.len() == next,
            forall|k: int| 0 <= k < order@.len() ==> order@[k] < next,
            forall|a: int, b: int| 0 <= a < b < order@.len() ==> order@[a] != order@[b],
            forall|a: int, b: int|
                0 <= a < b < order@.len() ==> sorts_before(view, order@[a] as int, order@[b] as int),
        decreases chars@.len() - next,
    {
        let mut position: usize = 0;
        while position < order.len() && !chars_name_before(&chars[next], &chars[order[position]])
            invariant
                position <= order@.len(),
                next < chars@.len(),
                chars@.len() == view.len(),
                forall|i: int|
                    0 <= i < chars@.len() ==> (match #[trigger] chars@[i] {
                        Some(text) => view[i] == Some(text@),
                        None => view[i] is None,
                    }),
                forall|k: int| 0 <= k < order@.len() ==> order@[k] < next,
                forall|q: int|
                    0 <= q < position ==> !name_precedes(view[next as int], view[order@[q] as int]),
            decreases order@.len() - position,
        {
            position += 1;
        }
        let ghost before = order@;
        proof {
            if position < before.len() {
                assert(name_precedes(view[next as int], view[before[position as int] as int]));
            }
        }
        order.insert(position, next);
        proof {
            let after = order@;
            assert(after == before.insert(position as int, next));
            assert forall|k: int| 0 <= k < after.len() implies after[k] < next + 1 by {
                if k < position {
                    assert(after[k] == before[k]);
                } else if k > position {
                    assert(after[k] == before[k - 1]);
                }
            }
            assert forall|a: int, b: int| 0 <= a < b < after.len() implies after[a] != after[b] by {
                if a < position && b < position {
                    assert(after[a] == before[a] && after[b] == before[b]);
                } else if a < position && b == position {
                    assert(after[a] == before[a]);
                } else if a < position {
                    assert(after[a] == before[a] && after[b] == before[b - 1]);
                } else if a == position {
                    assert(after[b] == before[b - 1]);
                } else {
                    assert(after[a] == before[a - 1] && after[b] == before[b - 1]);
                }
            }
            assert forall|a: int, b: int| 0 <= a < b < after.len() implies sorts_before(
                view,
                after[a] as int,
                after[b] as int,
            ) by {
                let name = view[next as int];
                if a < position && b < position {
                    assert(after[a] == before[a] && after[b] == before[b]);
                } else if b == position {
                    assert(after[a] == before[a]);
                    lemma_name_total(view[before[a] as int], name);
                } else if a == position {
                    let first = before[position as int];
                    assert(after[b] == before[b - 1]);
                    if b - 1 > position {
                        assert(sorts_before(view, first as int, before[b - 1] as int));
                        if name_precedes(view[first as int], view[before[b - 1] as int]) {
                            lemma_name_transitive(name, view[first as int], view[before[b - 1] as int]);
                        }
                    }
                } else if a < position {
                    assert(after[a] == before[a] && after[b] == before[b - 1]);
                } else {
                    assert(after[a] == before[a - 1] && after[b] == before[b - 1]);
                }
            }
        }
        next += 1;
    }
    order
}

fn chars_name_before(a: &Option<Vec<char>>, b: &Option<Vec<char>>) -> (before: bool)
    ensures
        before == name_precedes(
            match a {
                Some(text) => Some(text@),
                None => None,
            },
            match b {
                Some(text) => Some(text@),
                None => None,
            },
        ),
{
    match (a, b) {
        (None, Some(_)) => true,
        (Some(x), Some(y)) => text_before(x.as_slice(), y.as_slice()),
        _ => false,
    }
}

/// The items of `items` in the order that `order` lists their positions.
pub fn reorder<T>(items: Vec<T>, order: &Vec<usize>) -> (reordered: Vec<T>)
    requires
        is_permutation(order@, items@.len()),
    ensures
        reordered@.len() == items@.len(),
        forall|k: int| 0 <= k < reordered@.len() ==> reordered@[k] == items@[order@[k] as int],
{
    let ghost original = items@;
    let count = items.len();
    let mut rest = items;
    let mut slots: Vec<Option<T>> = Vec::new();
    while rest.len() > 0
        invariant
            slots@.len() + rest@.len() == original.len(),
            rest@ == original.subrange(slots@.len() as int, original.len() as int),
            forall|j: int| 0 <= j < slots@.len() ==> #[trigger] slots@[j] == Some(original[j]),
        decreases rest@.len(),
    {
        let item = rest.remove(0);
        slots.push(Some(item));
        proof {
            assert(rest@ =~= original.subrange(slots@.len() as int, original.len() as int));
        }
    }
    let mut reordered: Vec<T> = Vec::new();
    let mut k: usize = 0;
    while k < count
        invariant
            count == original.len(),
            is_permutation(order@, count as nat),
            k <= count,
            slots@.len() == count,
            reordered@.len() == k,
            forall|m: int| 0 <= m < k ==> #[trigger] reordered@[m] == original[order@[m] as int],
            forall|j: int|
                0 <= j < count ==> #[trigger] slots@[j] == (if exists|m: int|
                    0 <= m < k && order@[m] == j {
                    None
                } else {
                    Some(original[j])
                }),
        decreases count - k,
    {
        let index = order[k];
        proof {
            assert(!exists|m: int| 0 <= m < k && order@[m] == index) by {
                if exists|m: int| 0 <= m < k && order@[m] == index {
                    let m = choose|m: int| 0 <= m < k && order@[m] == index;
                    assert(order@[m] != order@[k as int]);
                }
            }
            assert(slots@[index as int] == Some(original[index as int]));
        }
        let ghost before = slots@;
        let taken = slots.remove(index);
        slots.insert(index, None);
        proof {
            assert(slots@ =~= before.update(index as int, None));
            assert forall|j: int| 0 <= j < count implies #[trigger] slots@[j] == (if exists|m: int|
                0 <= m < k + 1 && order@[m] == j {
                None
            } else {
                Some(original[j])
            }) by {
                if j == index {
                    assert(order@[k as int] == j);
                } else {
                    assert(slots@[j] == before[j]);
                    if exists|m: int| 0 <= m < k + 1 && order@[m] == j {
                        let m = choose|m: int| 0 <= m < k + 1 && order@[m] == j;
                        assert(m < k);
                    }
                }
            }
        }
        match taken {
            Some(item) => {
                reordered.push(item);
            },
            None => {
                proof {
                    assert(false);
                }
            },
        }
        k += 1;
    }
    reordered
}

/// The items sorted by their names, items with equal names keeping their
/// order; `names[i]` is the name of `items[i]`.
pub fn order_by_name<T>(items: Vec<T>, names: &Vec<Option<String>>) -> (sorted: Vec<T>)
    requires
        names@.len() == items@.len(),
    ensures
        exists|order: Seq<usize>|
            #[trigger] is_name_order(order, names_view(names@)) && sorted@.len() == items@.len()
                && forall|k: int|
                0 <= k < sorted@.len() ==> sorted@[k] == items@[order[k] as int],
{
    let order = name_order(names);
    let ghost original = items@;
    let sorted = reorder(items, &order);
    assert(is_name_order(order@, names_view(names@)));
    sorted
}

} // verus!
