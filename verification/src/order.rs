//! The order of texts and of lists of texts, and tables sorted by it.
//!
//! Texts are ordered by their code points, the first difference deciding; this is the order of
//! their UTF-8 bytes. Lists of texts are ordered the same way, text by text.
use crate::text::chars_of;
use vstd::prelude::*;

verus! {

/// How one value stands to another.
#[derive(Clone, Copy, PartialEq, Eq, Structural, Debug)]
pub enum Order {
    Less,
    Equal,
    Greater,
}

/// A list of texts: the path of a namespace or a table, or the name of a local table.
pub type Texts = Seq<Seq<char>>;

/// How the text `a` stands to the text `b`.
pub open spec fn text_order(a: Seq<char>, b: Seq<char>) -> Order
    decreases a.len(),
{
    if a.len() == 0 && b.len() == 0 {
        Order::Equal
    } else if a.len() == 0 {
        Order::Less
    } else if b.len() == 0 {
        Order::Greater
    } else if a[0] < b[0] {
        Order::Less
    } else if a[0] > b[0] {
        Order::Greater
    } else {
        text_order(a.drop_first(), b.drop_first())
    }
}

/// How the list `a` stands to the list `b`.
pub open spec fn list_order(a: Texts, b: Texts) -> Order
    decreases a.len(),
{
    if a.len() == 0 && b.len() == 0 {
        Order::Equal
    } else if a.len() == 0 {
        Order::Less
    } else if b.len() == 0 {
        Order::Greater
    } else if text_order(a[0], b[0]) != Order::Equal {
        text_order(a[0], b[0])
    } else {
        list_order(a.drop_first(), b.drop_first())
    }
}

/// Two texts are of equal rank only if they are the same text, and swapping them swaps the order.
pub proof fn text_order_antisymmetric(a: Seq<char>, b: Seq<char>)
    ensures
        text_order(a, b) == Order::Equal <==> a == b,
        text_order(a, b) == Order::Less <==> text_order(b, a) == Order::Greater,
    decreases a.len(),
{
    if a.len() > 0 && b.len() > 0 {
        text_order_antisymmetric(a.drop_first(), b.drop_first());
        if a[0] == b[0] && a.drop_first() == b.drop_first() {
            assert(a =~= seq![a[0]] + a.drop_first());
            assert(b =~= seq![b[0]] + b.drop_first());
        }
    } else if a.len() == 0 && b.len() == 0 {
        assert(a =~= b);
    }
}

/// The order of texts is transitive.
pub proof fn text_order_transitive(a: Seq<char>, b: Seq<char>, c: Seq<char>)
    requires
        text_order(a, b) == Order::Less,
        text_order(b, c) == Order::Less,
    ensures
        text_order(a, c) == Order::Less,
    decreases a.len(),
{
    if a.len() > 0 && b.len() > 0 && c.len() > 0 && a[0] == b[0] && b[0] == c[0] {
        text_order_transitive(a.drop_first(), b.drop_first(), c.drop_first());
    }
}

/// Two lists are of equal rank only if they are the same list, and swapping them swaps the order.
pub proof fn list_order_antisymmetric(a: Texts, b: Texts)
    ensures
        list_order(a, b) == Order::Equal <==> a == b,
        list_order(a, b) == Order::Less <==> list_order(b, a) == Order::Greater,
    decreases a.len(),
{
    if a.len() > 0 && b.len() > 0 {
        list_order_antisymmetric(a.drop_first(), b.drop_first());
        text_order_antisymmetric(a[0], b[0]);
        text_order_antisymmetric(b[0], a[0]);
        if a[0] == b[0] && a.drop_first() == b.drop_first() {
            assert(a =~= seq![a[0]] + a.drop_first());
            assert(b =~= seq![b[0]] + b.drop_first());
        }
    } else if a.len() == 0 && b.len() == 0 {
        assert(a =~= b);
    }
}

/// The order of lists is transitive.
pub proof fn list_order_transitive(a: Texts, b: Texts, c: Texts)
    requires
        list_order(a, b) == Order::Less,
        list_order(b, c) == Order::Less,
    ensures
        list_order(a, c) == Order::Less,
    decreases a.len(),
{
    if a.len() > 0 && b.len() > 0 && c.len() > 0 {
        text_order_antisymmetric(a[0], b[0]);
        text_order_antisymmetric(b[0], c[0]);
        text_order_antisymmetric(a[0], c[0]);
        if a[0] == b[0] && b[0] == c[0] {
            list_order_transitive(a.drop_first(), b.drop_first(), c.drop_first());
        } else if a[0] != b[0] && b[0] != c[0] {
            text_order_transitive(a[0], b[0], c[0]);
        }
    }
}

/// How the text `a` stands to the text `b`.
pub fn compare_texts(a: &str, b: &str) -> (o: Order)
    ensures
        o == text_order(a@, b@),
{
    let x = chars_of(a);
    let y = chars_of(b);
    let mut i: usize = 0;
    assert(x@.skip(0) =~= x@ && y@.skip(0) =~= y@);
    while i < x.len() && i < y.len()
        invariant
            x@ == a@,
            y@ == b@,
            i <= x.len(),
            i <= y.len(),
            text_order(a@, b@) == text_order(a@.skip(i as int), b@.skip(i as int)),
        decreases x.len() - i,
    {
        assert(a@.skip(i as int).drop_first() =~= a@.skip(i + 1));
        assert(b@.skip(i as int).drop_first() =~= b@.skip(i + 1));
        if x[i] < y[i] {
            return Order::Less;
        }
        if x[i] > y[i] {
            return Order::Greater;
        }
        i += 1;
    }
    if x.len() == y.len() {
        Order::Equal
    } else if x.len() < y.len() {
        Order::Less
    } else {
        Order::Greater
    }
}

/// How the list `a` stands to the list `b`.
pub fn compare_lists(a: &[String], b: &[String]) -> (o: Order)
    ensures
        o == list_order(a.deep_view(), b.deep_view()),
{
    let ghost x = a.deep_view();
    let ghost y = b.deep_view();
    let mut i: usize = 0;
    assert(x.skip(0) =~= x && y.skip(0) =~= y);
    while i < a.len() && i < b.len()
        invariant
            x == a.deep_view(),
            y == b.deep_view(),
            i <= a.len(),
            i <= b.len(),
            list_order(x, y) == list_order(x.skip(i as int), y.skip(i as int)),
        decreases a.len() - i,
    {
        assert(x.skip(i as int).drop_first() =~= x.skip(i + 1));
        assert(y.skip(i as int).drop_first() =~= y.skip(i + 1));
        assert(x[i as int] == a@[i as int]@ && y[i as int] == b@[i as int]@);
        let o = compare_texts(a[i].as_str(), b[i].as_str());
        if o != Order::Equal {
            return o;
        }
        i += 1;
    }
    if a.len() == b.len() {
        Order::Equal
    } else if a.len() < b.len() {
        Order::Less
    } else {
        Order::Greater
    }
}

/// Whether two lists of texts are the same.
pub fn same_lists(a: &[String], b: &[String]) -> (same: bool)
    ensures
        same == (a.deep_view() == b.deep_view()),
{
    let o = compare_lists(a, b);
    proof {
        list_order_antisymmetric(a.deep_view(), b.deep_view());
    }
    o == Order::Equal
}

// ---------------------------------------------------------------------------
// Tables sorted by key
// ---------------------------------------------------------------------------

/// Whether the keys of a table stand in strictly ascending order: each key occurs once.
pub open spec fn ascending<V>(table: Seq<(Texts, V)>) -> bool {
    forall|i: int, j: int|
        0 <= i < j < table.len() ==> list_order(#[trigger] table[i].0, #[trigger] table[j].0)
            == Order::Less
}

/// The number of entries whose keys come before `key` at the front of the table.
pub open spec fn slot<V>(table: Seq<(Texts, V)>, key: Texts) -> int
    decreases table.len(),
{
    if table.len() == 0 || list_order(table[0].0, key) != Order::Less {
        0
    } else {
        1 + slot(table.drop_first(), key)
    }
}

/// The value that a sorted table holds for `key`.
pub open spec fn value_of<V>(table: Seq<(Texts, V)>, key: Texts) -> Option<V> {
    let i = slot(table, key);
    if i < table.len() && table[i].0 == key {
        Some(table[i].1)
    } else {
        None
    }
}

/// The table with `value` under `key`: in place of the value that was there, or as a new entry.
pub open spec fn with_value<V>(table: Seq<(Texts, V)>, key: Texts, value: V) -> Seq<(Texts, V)> {
    let i = slot(table, key);
    if i < table.len() && table[i].0 == key {
        table.update(i, (key, value))
    } else {
        table.insert(i, (key, value))
    }
}

/// Where a key stands in a sorted table.
pub proof fn slot_splits<V>(table: Seq<(Texts, V)>, key: Texts)
    requires
        ascending(table),
    ensures
        0 <= slot(table, key) <= table.len(),
        forall|j: int|
            0 <= j < slot(table, key) ==> list_order(#[trigger] table[j].0, key) == Order::Less,
        forall|j: int|
            slot(table, key) <= j < table.len() ==> list_order(#[trigger] table[j].0, key)
                != Order::Less,
        forall|j: int|
            slot(table, key) < j < table.len() ==> list_order(#[trigger] table[j].0, key)
                == Order::Greater,
    decreases table.len(),
{
    if table.len() > 0 {
        let rest = table.drop_first();
        assert forall|i: int, j: int| 0 <= i < j < rest.len() implies list_order(
            #[trigger] rest[i].0,
            #[trigger] rest[j].0,
        ) == Order::Less by {
            assert(rest[i] == table[i + 1] && rest[j] == table[j + 1]);
        }
        if list_order(table[0].0, key) == Order::Less {
            slot_splits(rest, key);
            assert forall|j: int| 0 <= j < slot(table, key) implies list_order(
                #[trigger] table[j].0,
                key,
            ) == Order::Less by {
                if j > 0 {
                    assert(rest[j - 1] == table[j]);
                }
            }
            assert forall|j: int| slot(table, key) <= j < table.len() implies list_order(
                #[trigger] table[j].0,
                key,
            ) != Order::Less by {
                assert(rest[j - 1] == table[j]);
            }
            assert forall|j: int| slot(table, key) < j < table.len() implies list_order(
                #[trigger] table[j].0,
                key,
            ) == Order::Greater by {
                assert(rest[j - 1] == table[j]);
            }
        } else {
            assert forall|j: int| 0 < j < table.len() implies list_order(
                #[trigger] table[j].0,
                key,
            ) == Order::Greater by {
                list_order_antisymmetric(table[0].0, key);
                list_order_antisymmetric(table[j].0, key);
                list_order_antisymmetric(key, table[j].0);
                list_order_antisymmetric(key, table[0].0);
                if table[0].0 != key {
                    list_order_transitive(key, table[0].0, table[j].0);
                }
            }
        }
    }
}

/// A position that splits the table around `key` is the slot of `key`.
pub proof fn slot_unique<V>(table: Seq<(Texts, V)>, key: Texts, i: int)
    requires
        0 <= i <= table.len(),
        forall|j: int| 0 <= j < i ==> list_order(#[trigger] table[j].0, key) == Order::Less,
        i < table.len() ==> list_order(table[i].0, key) != Order::Less,
    ensures
        slot(table, key) == i,
    decreases table.len(),
{
    if i > 0 {
        let rest = table.drop_first();
        assert forall|j: int| 0 <= j < i - 1 implies list_order(#[trigger] rest[j].0, key)
            == Order::Less by {
            assert(rest[j] == table[j + 1]);
        }
        assert(list_order(table[0].0, key) == Order::Less);
        if i < table.len() {
            assert(rest[i - 1] == table[i]);
        }
        slot_unique(rest, key, i - 1);
    }
}

/// A sorted table stays sorted when a value is put into it, and holds that value under that key
/// and what it held under every other key.
pub proof fn with_value_keeps_order<V>(table: Seq<(Texts, V)>, key: Texts, value: V)
    requires
        ascending(table),
    ensures
        ascending(with_value(table, key, value)),
        value_of(with_value(table, key, value), key) == Some(value),
        forall|other: Texts|
            other != key ==> #[trigger] value_of(with_value(table, key, value), other) == value_of(
                table,
                other,
            ),
{
    let at = slot(table, key);
    let next = with_value(table, key, value);
    slot_splits(table, key);
    if at < table.len() && table[at].0 == key {
        assert forall|i: int, j: int| 0 <= i < j < next.len() implies list_order(
            #[trigger] next[i].0,
            #[trigger] next[j].0,
        ) == Order::Less by {
            assert(next[i].0 == table[i].0 && next[j].0 == table[j].0);
        }
    } else {
        if at < table.len() {
            list_order_antisymmetric(table[at].0, key);
        }
        assert forall|i: int, j: int| 0 <= i < j < next.len() implies list_order(
            #[trigger] next[i].0,
            #[trigger] next[j].0,
        ) == Order::Less by {
            if i < at && j < at {
                assert(next[i] == table[i] && next[j] == table[j]);
            } else if i < at && j == at {
                assert(next[i] == table[i]);
            } else if i < at {
                assert(next[i] == table[i] && next[j] == table[j - 1]);
            } else if i == at {
                assert(next[j] == table[j - 1]);
                list_order_antisymmetric(table[j - 1].0, key);
                list_order_antisymmetric(key, table[j - 1].0);
            } else {
                assert(next[i] == table[i - 1] && next[j] == table[j - 1]);
            }
        }
    }
    list_order_antisymmetric(key, key);
    assert(next[at] == (key, value));
    assert forall|j: int| 0 <= j < at implies list_order(#[trigger] next[j].0, key)
        == Order::Less by {
        assert(next[j] == table[j]);
    }
    slot_unique(next, key, at);
    assert forall|other: Texts| other != key implies #[trigger] value_of(next, other) == value_of(
        table,
        other,
    ) by {
        value_of_meaning(table, other);
        value_of_meaning(next, other);
        if value_of(table, other) is Some {
            let j = slot(table, other);
            if next.len() == table.len() {
                assert(next[j] == table[j]);
            } else if j < at {
                assert(next[j] == table[j]);
            } else {
                assert(next[j + 1] == table[j]);
            }
        }
        if value_of(next, other) is Some {
            let j = slot(next, other);
            if next.len() == table.len() {
                assert(next[j] == table[j]);
            } else if j < at {
                assert(next[j] == table[j]);
            } else {
                assert(j != at);
                assert(next[j] == table[j - 1]);
            }
        }
    }
}

/// What a sorted table holds for a key is the value of the one entry with that key.
pub proof fn value_of_meaning<V>(table: Seq<(Texts, V)>, key: Texts)
    requires
        ascending(table),
    ensures
        forall|j: int|
            0 <= j < table.len() && #[trigger] table[j].0 == key ==> value_of(table, key) == Some(
                table[j].1,
            ),
        value_of(table, key) is Some ==> 0 <= slot(table, key) < table.len() && table[slot(
            table,
            key,
        )].0 == key,
{
    slot_splits(table, key);
    assert forall|j: int| 0 <= j < table.len() && #[trigger] table[j].0 == key implies value_of(
        table,
        key,
    ) == Some(table[j].1) by {
        list_order_antisymmetric(key, key);
    }
}

/// Where `key` stands in a sorted table.
pub fn find_slot<V: DeepView>(table: &Vec<(Vec<String>, V)>, key: &[String]) -> (i: usize)
    ensures
        i == slot(table.deep_view(), key.deep_view()),
        i <= table.len(),
{
    let ghost all = table.deep_view();
    let ghost k = key.deep_view();
    let mut i: usize = 0;
    while i < table.len()
        invariant
            all == table.deep_view(),
            k == key.deep_view(),
            i <= table.len(),
            forall|j: int| 0 <= j < i ==> list_order(#[trigger] all[j].0, k) == Order::Less,
        decreases table.len() - i,
    {
        assert(all[i as int].0 == table@[i as int].0.deep_view());
        if compare_lists(table[i].0.as_slice(), key) != Order::Less {
            proof {
                slot_unique(all, k, i as int);
            }
            return i;
        }
        i += 1;
    }
    proof {
        slot_unique(all, k, i as int);
    }
    i
}

// ---------------------------------------------------------------------------
// Stable sorting by key
// ---------------------------------------------------------------------------

/// Whether no key stands behind a greater one.
pub open spec fn not_descending<V>(items: Seq<(Texts, V)>) -> bool {
    forall|i: int, j: int|
        0 <= i < j < items.len() ==> list_order(#[trigger] items[i].0, #[trigger] items[j].0)
            != Order::Greater
}

/// The place for `key` behind every item at the end of which no greater key stands.
pub open spec fn place_behind<V>(items: Seq<(Texts, V)>, key: Texts) -> int
    decreases items.len(),
{
    if items.len() == 0 || list_order(items.last().0, key) != Order::Greater {
        items.len() as int
    } else {
        place_behind(items.drop_last(), key)
    }
}

/// The items sorted by key; items with the same key keep their order.
pub open spec fn sorted_by_key<V>(items: Seq<(Texts, V)>) -> Seq<(Texts, V)>
    decreases items.len(),
{
    if items.len() == 0 {
        items
    } else {
        let front = sorted_by_key(items.drop_last());
        front.insert(place_behind(front, items.last().0), items.last())
    }
}

proof fn place_behind_splits<V>(items: Seq<(Texts, V)>, key: Texts)
    ensures
        0 <= place_behind(items, key) <= items.len(),
        forall|i: int|
            place_behind(items, key) <= i < items.len() ==> list_order(#[trigger] items[i].0, key)
                == Order::Greater,
        place_behind(items, key) > 0 ==> list_order(items[place_behind(items, key) - 1].0, key)
            != Order::Greater,
    decreases items.len(),
{
    if items.len() > 0 && list_order(items.last().0, key) == Order::Greater {
        place_behind_splits(items.drop_last(), key);
        let p = place_behind(items, key);
        assert forall|i: int| p <= i < items.len() implies list_order(#[trigger] items[i].0, key)
            == Order::Greater by {
            if i < items.len() - 1 {
                assert(items.drop_last()[i] == items[i]);
            }
        }
    }
}

proof fn place_behind_unique<V>(items: Seq<(Texts, V)>, key: Texts, p: int)
    requires
        0 <= p <= items.len(),
        forall|i: int|
            p <= i < items.len() ==> list_order(#[trigger] items[i].0, key) == Order::Greater,
        p > 0 ==> list_order(items[p - 1].0, key) != Order::Greater,
    ensures
        place_behind(items, key) == p,
{
    place_behind_splits(items, key);
    let q = place_behind(items, key);
    if p < q {
        assert(list_order(items[q - 1].0, key) == Order::Greater);
    } else if q < p {
        assert(list_order(items[p - 1].0, key) == Order::Greater);
    }
}

/// Sorting by key leaves no key behind a greater one.
pub proof fn sorting_orders<V>(items: Seq<(Texts, V)>)
    ensures
        not_descending(sorted_by_key(items)),
    decreases items.len(),
{
    if items.len() > 0 {
        sorting_orders(items.drop_last());
        let front = sorted_by_key(items.drop_last());
        let item = items.last();
        let p = place_behind(front, item.0);
        place_behind_splits(front, item.0);
        let all = sorted_by_key(items);
        assert forall|i: int, j: int| 0 <= i < j < all.len() implies list_order(
            #[trigger] all[i].0,
            #[trigger] all[j].0,
        ) != Order::Greater by {
            if i < p && j < p {
                assert(all[i] == front[i] && all[j] == front[j]);
            } else if i < p && j == p {
                assert(all[i] == front[i]);
                if i < p - 1 {
                    assert(list_order(front[i].0, front[p - 1].0) != Order::Greater);
                    not_greater_transitive(front[i].0, front[p - 1].0, item.0);
                }
            } else if i < p {
                assert(all[i] == front[i] && all[j] == front[j - 1]);
            } else if i == p {
                assert(all[j] == front[j - 1]);
                assert(list_order(front[j - 1].0, item.0) == Order::Greater);
                list_order_antisymmetric(front[j - 1].0, item.0);
            } else {
                assert(all[i] == front[i - 1] && all[j] == front[j - 1]);
            }
        }
    }
}

proof fn not_greater_transitive(a: Texts, b: Texts, c: Texts)
    requires
        list_order(a, b) != Order::Greater,
        list_order(b, c) != Order::Greater,
    ensures
        list_order(a, c) != Order::Greater,
{
    list_order_antisymmetric(a, b);
    list_order_antisymmetric(b, c);
    if list_order(a, b) == Order::Less && list_order(b, c) == Order::Less {
        list_order_transitive(a, b, c);
    }
}

/// Sorting by key keeps the items and, among those with one key, their order.
pub proof fn sorting_is_stable<V>(items: Seq<(Texts, V)>, key: Texts)
    ensures
        sorted_by_key(items).to_multiset() == items.to_multiset(),
        sorted_by_key(items).filter(|item: (Texts, V)| item.0 == key) == items.filter(
            |item: (Texts, V)| item.0 == key,
        ),
    decreases items.len(),
{
    broadcast use vstd::seq_lib::group_to_multiset_ensures;

    let with_key = |item: (Texts, V)| item.0 == key;
    if items.len() > 0 {
        let rest = items.drop_last();
        let item = items.last();
        sorting_is_stable(rest, key);
        let front = sorted_by_key(rest);
        let p = place_behind(front, item.0);
        place_behind_splits(front, item.0);
        assert(items =~= rest.push(item));
        assert(sorted_by_key(items).to_multiset() =~= items.to_multiset());

        let left = front.take(p);
        let right = front.skip(p);
        assert(front =~= left + right);
        assert(front.insert(p, item) =~= left + seq![item] + right);
        Seq::filter_distributes_over_add(left, right, with_key);
        Seq::filter_distributes_over_add(left + seq![item], right, with_key);
        Seq::filter_distributes_over_add(left, seq![item], with_key);
        Seq::filter_distributes_over_add(rest, seq![item], with_key);
        assert(items =~= rest + seq![item]);
        if item.0 == key {
            list_order_antisymmetric(key, key);
            right.lemma_filter_len(with_key);
            if right.filter(with_key).len() > 0 {
                right.lemma_filter_pred(with_key, 0);
                let found = right.filter(with_key)[0];
                right.lemma_filter_contains_rev(with_key, found);
                assert(right.contains(found));
                let i = choose|i: int| 0 <= i < right.len() && right[i] == found;
                assert(front[p + i] == right[i]);
                assert(false);
            }
            assert(right.filter(with_key) =~= seq![]);
            assert(left.filter(with_key) + seq![item].filter(with_key) + right.filter(with_key)
                =~= left.filter(with_key) + right.filter(with_key) + seq![item].filter(with_key));
        } else {
            reveal(Seq::filter);
            assert(seq![item].drop_last() =~= seq![]);
            assert(seq![item].filter(with_key) =~= seq![]);
            assert(left.filter(with_key) + seq![item].filter(with_key) + right.filter(with_key)
                =~= left.filter(with_key) + right.filter(with_key) + seq![item].filter(with_key));
        }
    }
}

/// Sorts items by key; items with the same key keep their order.
pub fn sort_by_key<V: DeepView>(items: Vec<(Vec<String>, V)>) -> (sorted: Vec<(Vec<String>, V)>)
    ensures
        sorted.deep_view() == sorted_by_key(items.deep_view()),
{
    let ghost all = items.deep_view();
    let mut rest = items;
    let mut sorted: Vec<(Vec<String>, V)> = Vec::new();
    while rest.len() > 0
        invariant
            rest.deep_view() == all.skip(all.len() - rest@.len()),
            rest@.len() <= all.len(),
            sorted.deep_view() == sorted_by_key(all.take(all.len() - rest@.len())),
        decreases rest.len(),
    {
        let ghost n = all.len() - rest@.len();
        let ghost before = sorted.deep_view();
        assert(before.len() == sorted@.len());
        let ghost left = rest@;
        assert(rest.deep_view()[0] == left[0].deep_view());
        assert forall|i: int| 0 <= i < left.len() implies all[n + i]
            == #[trigger] left[i].deep_view() by {
            assert(rest.deep_view()[i] == left[i].deep_view());
            assert(all.skip(n)[i] == all[n + i]);
        }
        let item = rest.remove(0);
        assert(rest.deep_view() =~= all.skip(n + 1));
        let ghost key = item.0.deep_view();
        assert(item.deep_view() == all[n]);
        let mut p: usize = sorted.len();
        while p > 0
            invariant
                p <= sorted.len(),
                before == sorted.deep_view(),
                before.len() == sorted@.len(),
                key == item.0.deep_view(),
                forall|i: int|
                    p <= i < before.len() ==> list_order(#[trigger] before[i].0, key)
                        == Order::Greater,
            ensures
                p > 0 ==> list_order(before[p - 1].0, key) != Order::Greater,
            decreases p,
        {
            assert(before[p - 1].0 == sorted@[p - 1].0.deep_view());
            if compare_lists(sorted[p - 1].0.as_slice(), item.0.as_slice()) != Order::Greater {
                break ;
            }
            p -= 1;
        }
        proof {
            place_behind_unique(before, key, p as int);
        }
        let ghost placed = item.deep_view();
        sorted.insert(p, item);
        assert(sorted.deep_view() =~= before.insert(p as int, placed));
        assert(all.take(n + 1).drop_last() =~= all.take(n));
    }
    assert(all.take(all.len() as int) =~= all);
    sorted
}

/// The first character in which two texts differ decides their order, and a text comes before any
/// that goes on behind it.
pub proof fn first_difference_decides(prefix: Seq<char>, a: Seq<char>, b: Seq<char>)
    ensures
        a.len() > 0 && b.len() > 0 && a[0] < b[0] ==> text_order(prefix + a, prefix + b)
            == Order::Less,
        a.len() > 0 && b.len() > 0 && a[0] > b[0] ==> text_order(prefix + a, prefix + b)
            == Order::Greater,
        a.len() == 0 && b.len() > 0 ==> text_order(prefix + a, prefix + b) == Order::Less,
        text_order(prefix, prefix) == Order::Equal,
    decreases prefix.len(),
{
    text_order_antisymmetric(prefix, prefix);
    if prefix.len() > 0 {
        let rest = prefix.drop_first();
        first_difference_decides(rest, a, b);
        assert((prefix + a).drop_first() =~= rest + a);
        assert((prefix + b).drop_first() =~= rest + b);
    } else {
        assert(prefix + a =~= a);
        assert(prefix + b =~= b);
    }
}

} // verus!
