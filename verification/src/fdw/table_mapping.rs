//! Local names for remote tables: which table gets which, and which collide.
use crate::fdw::namespace_walk::{copy_list, TableId};
use crate::order;
use crate::text;
use vstd::prelude::*;

verus! {

/// The local schema and the local name of a table.
pub type LocalMapping = (String, String);

/// A remote table and the local name that the naming rule gives it, or the rule's error.
pub struct NamedTable {
    pub table_id: TableId,
    pub local: Result<LocalMapping, String>,
}

/// A remote table and the outcome of the naming rule.
pub ghost struct NamedTableModel {
    pub table_id: order::Texts,
    pub local: Result<(Seq<char>, Seq<char>), Seq<char>>,
}

impl DeepView for NamedTable {
    type V = NamedTableModel;

    open spec fn deep_view(&self) -> NamedTableModel {
        NamedTableModel { table_id: self.table_id.deep_view(), local: text::outcome(self.local) }
    }
}

/// The paths of tables.
pub open spec fn ids_of(tables: Seq<NamedTableModel>) -> Seq<order::Texts> {
    tables.map_values(|table: NamedTableModel| table.table_id)
}

/// The tables of each local name, sorted by local name.
pub type Groups = Seq<(order::Texts, Seq<order::Texts>)>;

/// The key of a local name.
pub open spec fn local_key(local: (Seq<char>, Seq<char>)) -> order::Texts {
    seq![local.0, local.1]
}

/// The groups with `id` added behind the tables of the local name `key`.
pub open spec fn grouped_with(groups: Groups, key: order::Texts, id: order::Texts) -> Groups {
    match order::value_of(groups, key) {
        Some(ids) => order::with_value(groups, key, ids.push(id)),
        None => order::with_value(groups, key, seq![id]),
    }
}

/// The tables grouped by local name; the first error of the naming rule where there is one.
pub open spec fn groups_of(tables: Seq<NamedTableModel>) -> Result<Groups, Seq<char>>
    decreases tables.len(),
{
    if tables.len() == 0 {
        Ok(seq![])
    } else {
        match groups_of(tables.drop_last()) {
            Err(message) => Err(message),
            Ok(groups) => match tables.last().local {
                Err(message) => Err(message),
                Ok(local) => Ok(grouped_with(groups, local_key(local), tables.last().table_id)),
            },
        }
    }
}

/// The tables that share their local name with another one, by local name.
pub open spec fn conflicting(groups: Groups) -> Seq<order::Texts>
    decreases groups.len(),
{
    if groups.len() == 0 {
        seq![]
    } else if groups.last().1.len() > 1 {
        conflicting(groups.drop_last()) + groups.last().1
    } else {
        conflicting(groups.drop_last())
    }
}

/// The tables that have their local name for themselves, with that name, by local name.
pub open spec fn mapped(groups: Groups) -> Seq<(order::Texts, (Seq<char>, Seq<char>))>
    decreases groups.len(),
{
    if groups.len() == 0 {
        seq![]
    } else if groups.last().1.len() == 1 {
        let key = groups.last().0;
        mapped(groups.drop_last()).push((groups.last().1[0], (key[0], key[1])))
    } else {
        mapped(groups.drop_last())
    }
}

/// The conflicts and the mapping of tables with their local names.
pub open spec fn mapping_of(tables: Seq<NamedTableModel>) -> Result<
    (Seq<order::Texts>, Seq<(order::Texts, (Seq<char>, Seq<char>))>),
    Seq<char>,
> {
    match groups_of(tables) {
        Err(message) => Err(message),
        Ok(groups) => Ok((conflicting(groups), mapped(groups))),
    }
}

fn add_to_group(groups: &mut Vec<(Vec<String>, Vec<TableId>)>, key: Vec<String>, id: TableId)
    ensures
        final(groups).deep_view() == grouped_with(
            old(groups).deep_view(),
            key.deep_view(),
            id.deep_view(),
        ),
{
    let ghost before = groups.deep_view();
    let ghost k = key.deep_view();
    let i = order::find_slot(groups, key.as_slice());
    assert(before.len() == groups@.len());
    if i < groups.len() {
        assert(before[i as int].0 == groups@[i as int].0.deep_view());
        if order::same_lists(groups[i].0.as_slice(), key.as_slice()) {
            let (found, mut ids) = groups.remove(i);
            let ghost old_ids = ids.deep_view();
            assert(old_ids == before[i as int].1);
            ids.push(id);
            assert(ids.deep_view() =~= old_ids.push(id.deep_view()));
            groups.insert(i, (found, ids));
            assert(groups.deep_view() =~= before.update(i as int, (k, ids.deep_view())));
            return ;
        }
    }
    let mut ids: Vec<TableId> = Vec::new();
    ids.push(id);
    assert(ids.deep_view() =~= seq![id.deep_view()]);
    groups.insert(i, (key, ids));
    assert(groups.deep_view() =~= before.insert(i as int, (k, ids.deep_view())));
}

/// Sorts remote tables by their local names: those that share a local name are conflicts, the
/// others are mapped. Fails with the naming rule's first error.
pub fn build_mapping(tables: &[NamedTable]) -> (r: Result<
    (Vec<TableId>, Vec<(TableId, LocalMapping)>),
    String,
>)
    ensures
        text::outcome(r) == mapping_of(tables.deep_view()),
{
    let ghost all = tables.deep_view();
    let mut groups: Vec<(Vec<String>, Vec<TableId>)> = Vec::new();
    assert(groups.deep_view() =~= seq![]);
    for i in 0..tables.len()
        invariant
            all == tables.deep_view(),
            groups_of(all.take(i as int)) == Ok::<Groups, Seq<char>>(groups.deep_view()),
            two_part_keys(groups.deep_view()),
    {
        proof {
            assert(all.take(i + 1).drop_last() =~= all.take(i as int));
            assert(all.take(i + 1).last() == tables@[i as int].deep_view());
        }
        match &tables[i].local {
            Err(message) => {
                proof {
                    first_error_decides(all, i + 1);
                }
                return Err(message.clone());
            },
            Ok(local) => {
                let mut key: Vec<String> = Vec::new();
                key.push(local.0.clone());
                key.push(local.1.clone());
                assert(key.deep_view() =~= seq![local.0@, local.1@]);
                let id = copy_list(tables[i].table_id.as_slice());
                proof {
                    grouping_keeps_keys(groups.deep_view(), key.deep_view(), id.deep_view());
                }
                add_to_group(&mut groups, key, id);
            },
        }
    }
    assert(all.take(all.len() as int) =~= all);
    let ghost sorted = groups.deep_view();
    let mut conflicts: Vec<TableId> = Vec::new();
    let mut mapping: Vec<(TableId, LocalMapping)> = Vec::new();
    assert(conflicts.deep_view() =~= seq![]);
    assert(mapping.deep_view() =~= seq![]);
    for i in 0..groups.len()
        invariant
            sorted == groups.deep_view(),
            two_part_keys(sorted),
            conflicts.deep_view() == conflicting(sorted.take(i as int)),
            mapping.deep_view() == mapped(sorted.take(i as int)),
    {
        let ids: &Vec<TableId> = &groups[i].1;
        let ghost conflicts_before = conflicts.deep_view();
        let ghost mapping_before = mapping.deep_view();
        proof {
            assert(sorted.take(i + 1).drop_last() =~= sorted.take(i as int));
            assert(sorted.take(i + 1).last() == sorted[i as int]);
            assert(sorted[i as int].0 == groups@[i as int].0.deep_view());
            assert(sorted[i as int].1 == ids.deep_view());
            assert(ids.deep_view().len() == ids@.len());
        }
        if ids.len() > 1 {
            for j in 0..ids.len()
                invariant
                    conflicts.deep_view() == conflicts_before + ids.deep_view().take(j as int),
            {
                let ghost so_far = conflicts.deep_view();
                conflicts.push(copy_list(ids[j].as_slice()));
                assert(conflicts.deep_view() =~= so_far.push(ids@[j as int].deep_view()));
                assert(ids.deep_view()[j as int] == ids@[j as int].deep_view());
                assert(conflicts_before + ids.deep_view().take(j + 1) =~= (conflicts_before
                    + ids.deep_view().take(j as int)).push(ids.deep_view()[j as int]));
            }
            assert(ids.deep_view().take(ids@.len() as int) =~= ids.deep_view());
        } else if ids.len() == 1 {
            let key: &Vec<String> = &groups[i].0;
            assert(key.deep_view().len() == key@.len());
            assert(key.deep_view()[0] == key@[0]@ && key.deep_view()[1] == key@[1]@);
            assert(ids.deep_view()[0] == ids@[0].deep_view());
            let entry = (copy_list(ids[0].as_slice()), (key[0].clone(), key[1].clone()));
            mapping.push(entry);
            assert(mapping.deep_view() =~= mapping_before.push(entry.deep_view()));
        }
    }
    assert(sorted.take(sorted.len() as int) =~= sorted);
    Ok((conflicts, mapping))
}

/// Whether each key is a schema and a table name.
pub open spec fn two_part_keys(groups: Groups) -> bool {
    forall|i: int| 0 <= i < groups.len() ==> (#[trigger] groups[i]).0.len() == 2
}

proof fn grouping_keeps_keys(groups: Groups, key: order::Texts, id: order::Texts)
    requires
        two_part_keys(groups),
        key.len() == 2,
    ensures
        two_part_keys(grouped_with(groups, key, id)),
{
    let next = grouped_with(groups, key, id);
    let at = order::slot(groups, key);
    slot_in_range(groups, key);
    assert forall|i: int| 0 <= i < next.len() implies (#[trigger] next[i]).0.len() == 2 by {
        if next.len() == groups.len() {
            if i != at {
                assert(next[i] == groups[i]);
            }
        } else if i < at {
            assert(next[i] == groups[i]);
        } else if i > at {
            assert(next[i] == groups[i - 1]);
        }
    }
}

proof fn slot_in_range(groups: Groups, key: order::Texts)
    ensures
        0 <= order::slot(groups, key) <= groups.len(),
    decreases groups.len(),
{
    if groups.len() > 0 {
        slot_in_range(groups.drop_first(), key);
    }
}

proof fn first_error_decides(tables: Seq<NamedTableModel>, n: int)
    requires
        0 <= n <= tables.len(),
        groups_of(tables.take(n)) is Err,
    ensures
        groups_of(tables) == groups_of(tables.take(n)),
    decreases tables.len(),
{
    if n < tables.len() {
        assert(tables.drop_last().take(n) =~= tables.take(n));
        first_error_decides(tables.drop_last(), n);
    } else {
        assert(tables.take(n) =~= tables);
    }
}

// ---------------------------------------------------------------------------
// What holds of every mapping
// ---------------------------------------------------------------------------

/// The tables that the naming rule gives the local name `key`, in their order.
pub open spec fn tables_named(tables: Seq<NamedTableModel>, key: order::Texts) -> Seq<order::Texts>
    decreases tables.len(),
{
    if tables.len() == 0 {
        seq![]
    } else if tables.last().local is Ok && local_key(tables.last().local->Ok_0) == key {
        tables_named(tables.drop_last(), key).push(tables.last().table_id)
    } else {
        tables_named(tables.drop_last(), key)
    }
}

/// Each group holds the tables of its local name, in their order, and the groups are sorted.
pub proof fn groups_hold_the_named(tables: Seq<NamedTableModel>, key: order::Texts)
    requires
        groups_of(tables) is Ok,
    ensures
        order::ascending(groups_of(tables)->Ok_0),
        order::value_of(groups_of(tables)->Ok_0, key) == (if tables_named(tables, key).len() == 0 {
            None
        } else {
            Some(tables_named(tables, key))
        }),
    decreases tables.len(),
{
    if tables.len() > 0 {
        let before = groups_of(tables.drop_last())->Ok_0;
        let name = local_key(tables.last().local->Ok_0);
        let id = tables.last().table_id;
        groups_hold_the_named(tables.drop_last(), key);
        groups_hold_the_named(tables.drop_last(), name);
        match order::value_of(before, name) {
            Some(ids) => {
                order::with_value_keeps_order(before, name, ids.push(id));
            },
            None => {
                order::with_value_keeps_order(before, name, seq![id]);
                assert(tables_named(tables.drop_last(), name) =~= seq![]);
                assert(seq![].push(id) =~= seq![id]);
            },
        }
    }
}

proof fn no_empty_group(tables: Seq<NamedTableModel>)
    requires
        groups_of(tables) is Ok,
    ensures
        order::ascending(groups_of(tables)->Ok_0),
        two_part_keys(groups_of(tables)->Ok_0),
        forall|i: int|
            0 <= i < groups_of(tables)->Ok_0.len() ==> (#[trigger] groups_of(
                tables,
            )->Ok_0[i]).1.len() > 0,
    decreases tables.len(),
{
    groups_hold_the_named(tables, seq![]);
    let groups = groups_of(tables)->Ok_0;
    if tables.len() > 0 {
        no_empty_group(tables.drop_last());
        grouping_keeps_keys(
            groups_of(tables.drop_last())->Ok_0,
            local_key(tables.last().local->Ok_0),
            tables.last().table_id,
        );
    }
    assert forall|i: int| 0 <= i < groups.len() implies (#[trigger] groups[i]).1.len() > 0 by {
        groups_hold_the_named(tables, groups[i].0);
        order::value_of_meaning(groups, groups[i].0);
    }
}

proof fn conflicting_contains(groups: Groups, id: order::Texts)
    ensures
        conflicting(groups).contains(id) <==> exists|i: int|
            0 <= i < groups.len() && (#[trigger] groups[i]).1.len() > 1 && groups[i].1.contains(
                id,
            ),
    decreases groups.len(),
{
    if groups.len() > 0 {
        let front = groups.drop_last();
        conflicting_contains(front, id);
        let last = groups.len() - 1;
        if conflicting(groups).contains(id) {
            let m = choose|m: int|
                0 <= m < conflicting(groups).len() && conflicting(groups)[m] == id;
            if m < conflicting(front).len() {
                assert(conflicting(front)[m] == id);
                let i = choose|i: int|
                    0 <= i < front.len() && (#[trigger] front[i]).1.len() > 1
                        && front[i].1.contains(id);
                assert(groups[i] == front[i]);
            } else {
                assert(groups[last].1[m - conflicting(front).len()] == id);
                assert(groups[last].1.contains(id));
            }
        }
        if exists|i: int|
            0 <= i < groups.len() && (#[trigger] groups[i]).1.len() > 1 && groups[i].1.contains(
                id,
            ) {
            let i = choose|i: int|
                0 <= i < groups.len() && (#[trigger] groups[i]).1.len() > 1
                    && groups[i].1.contains(id);
            if i < last {
                assert(front[i] == groups[i]);
                let m = choose|m: int|
                    0 <= m < conflicting(front).len() && conflicting(front)[m] == id;
                assert(conflicting(groups)[m] == id);
            } else {
                let m = choose|m: int| 0 <= m < groups[i].1.len() && groups[i].1[m] == id;
                assert(conflicting(groups)[conflicting(front).len() + m] == id);
            }
        }
    }
}

proof fn mapped_contains(
    groups: Groups,
    id: order::Texts,
    local: (Seq<char>, Seq<char>),
)
    requires
        two_part_keys(groups),
    ensures
        mapped(groups).contains((id, local)) <==> exists|i: int|
            0 <= i < groups.len() && (#[trigger] groups[i]) == (local_key(local), seq![id]),
    decreases groups.len(),
{
    if groups.len() > 0 {
        let front = groups.drop_last();
        let last = groups.len() - 1;
        assert(two_part_keys(front)) by {
            assert forall|i: int| 0 <= i < front.len() implies (#[trigger] front[i]).0.len()
                == 2 by {
                assert(front[i] == groups[i]);
            }
        }
        mapped_contains(front, id, local);
        assert(groups[last].0.len() == 2);
        if mapped(groups).contains((id, local)) {
            let m = choose|m: int|
                0 <= m < mapped(groups).len() && mapped(groups)[m] == (id, local);
            if m < mapped(front).len() {
                assert(mapped(front)[m] == (id, local));
                let i = choose|i: int|
                    0 <= i < front.len() && (#[trigger] front[i]) == (local_key(local), seq![id]);
                assert(groups[i] == front[i]);
            } else {
                assert(groups[last].0 =~= local_key(local));
                assert(groups[last].1 =~= seq![id]);
                assert(groups[last] == (local_key(local), seq![id]));
            }
        }
        if exists|i: int|
            0 <= i < groups.len() && (#[trigger] groups[i]) == (local_key(local), seq![id]) {
            let i = choose|i: int|
                0 <= i < groups.len() && (#[trigger] groups[i]) == (local_key(local), seq![id]);
            if i < last {
                assert(front[i] == groups[i]);
                let m = choose|m: int|
                    0 <= m < mapped(front).len() && mapped(front)[m] == (id, local);
                assert(mapped(groups)[m] == (id, local));
            } else {
                assert(groups[last].1[0] == id);
                assert(groups[last].0[0] == local.0 && groups[last].0[1] == local.1);
                assert(mapped(groups)[mapped(front).len() as int] == (id, local));
            }
        }
    }
}

/// A table is mapped to a local name exactly when the naming rule gives that name to it and to
/// no other table.
pub proof fn mapped_means_alone(
    tables: Seq<NamedTableModel>,
    id: order::Texts,
    local: (Seq<char>, Seq<char>),
)
    requires
        mapping_of(tables) is Ok,
    ensures
        mapping_of(tables)->Ok_0.1.contains((id, local)) <==> tables_named(
            tables,
            local_key(local),
        ) == seq![id],
{
    let groups = groups_of(tables)->Ok_0;
    let key = local_key(local);
    no_empty_group(tables);
    mapped_contains(groups, id, local);
    groups_hold_the_named(tables, key);
    order::value_of_meaning(groups, key);
    if tables_named(tables, key) == seq![id] {
        let i = order::slot(groups, key);
        assert(groups[i] == (key, seq![id]));
    }
}

/// A table is a conflict exactly when the naming rule gives it a local name that it gives to
/// another table too.
pub proof fn conflict_means_shared(tables: Seq<NamedTableModel>, id: order::Texts)
    requires
        mapping_of(tables) is Ok,
    ensures
        mapping_of(tables)->Ok_0.0.contains(id) <==> exists|key: order::Texts|
            (#[trigger] tables_named(tables, key)).len() > 1 && tables_named(tables, key).contains(
                id,
            ),
{
    let groups = groups_of(tables)->Ok_0;
    no_empty_group(tables);
    conflicting_contains(groups, id);
    if conflicting(groups).contains(id) {
        let i = choose|i: int|
            0 <= i < groups.len() && (#[trigger] groups[i]).1.len() > 1 && groups[i].1.contains(
                id,
            );
        groups_hold_the_named(tables, groups[i].0);
        order::value_of_meaning(groups, groups[i].0);
        assert(tables_named(tables, groups[i].0).contains(id));
    }
    if exists|key: order::Texts|
        (#[trigger] tables_named(tables, key)).len() > 1 && tables_named(tables, key).contains(
            id,
        ) {
        let key = choose|key: order::Texts|
            (#[trigger] tables_named(tables, key)).len() > 1 && tables_named(tables, key).contains(
                id,
            );
        groups_hold_the_named(tables, key);
        order::value_of_meaning(groups, key);
        let i = order::slot(groups, key);
        assert(groups[i].1.len() > 1 && groups[i].1.contains(id));
    }
}

/// No table is lost and none is counted twice: there are as many conflicts and mapped tables as
/// there are tables.
pub proof fn mapping_covers_all(tables: Seq<NamedTableModel>)
    requires
        mapping_of(tables) is Ok,
    ensures
        mapping_of(tables)->Ok_0.0.len() + mapping_of(tables)->Ok_0.1.len() == tables.len(),
{
    let (conflicts, mapping) = mapping_of(tables)->Ok_0;
    mapping_is_a_permutation(tables);
    vstd::seq_lib::to_multiset_len(conflicts + mapped_ids(mapping));
    vstd::seq_lib::to_multiset_len(ids_of(tables));
}

/// No two mapped tables have the same local name, and the mapping is sorted by it.
pub proof fn mapping_is_sorted(tables: Seq<NamedTableModel>, i: int, j: int)
    requires
        mapping_of(tables) is Ok,
        0 <= i < j < mapping_of(tables)->Ok_0.1.len(),
    ensures
        order::list_order(
            local_key(mapping_of(tables)->Ok_0.1[i].1),
            local_key(mapping_of(tables)->Ok_0.1[j].1),
        ) == order::Order::Less,
{
    no_empty_group(tables);
    mapped_is_sorted(groups_of(tables)->Ok_0, i, j);
}

proof fn mapped_is_sorted(groups: Groups, i: int, j: int)
    requires
        order::ascending(groups),
        two_part_keys(groups),
        0 <= i < j < mapped(groups).len(),
    ensures
        order::list_order(local_key(mapped(groups)[i].1), local_key(mapped(groups)[j].1))
            == order::Order::Less,
    decreases groups.len(),
{
    let front = groups.drop_last();
    assert(two_part_keys(front)) by {
        assert forall|k: int| 0 <= k < front.len() implies (#[trigger] front[k]).0.len() == 2 by {
            assert(front[k] == groups[k]);
        }
    }
    assert(order::ascending(front)) by {
        assert forall|a: int, b: int| 0 <= a < b < front.len() implies order::list_order(
            #[trigger] front[a].0,
            #[trigger] front[b].0,
        ) == order::Order::Less by {
            assert(front[a] == groups[a] && front[b] == groups[b]);
        }
    }
    if j < mapped(front).len() {
        mapped_is_sorted(front, i, j);
    } else {
        let last = groups.len() - 1;
        let entry = mapped(front)[i];
        assert(mapped(front).contains(entry));
        mapped_contains(front, entry.0, entry.1);
        let k = choose|k: int|
            0 <= k < front.len() && (#[trigger] front[k]) == (local_key(entry.1), seq![entry.0]);
        assert(groups[k] == front[k]);
        assert(groups[last].0.len() == 2);
        assert(local_key(mapped(groups)[j].1) =~= groups[last].0);
        assert(order::list_order(groups[k].0, groups[last].0) == order::Order::Less);
    }
}

/// The paths of mapped tables.
pub open spec fn mapped_ids(mapping: Seq<(order::Texts, (Seq<char>, Seq<char>))>) -> Seq<
    order::Texts,
> {
    mapping.map_values(|entry: (order::Texts, (Seq<char>, Seq<char>))| entry.0)
}

/// The tables in the groups, as often as they stand there.
spec fn group_members(groups: Groups) -> vstd::multiset::Multiset<order::Texts>
    decreases groups.len(),
{
    if groups.len() == 0 {
        vstd::multiset::Multiset::empty()
    } else {
        group_members(groups.drop_last()).add(groups.last().1.to_multiset())
    }
}

proof fn members_of_insert(groups: Groups, i: int, entry: (order::Texts, Seq<order::Texts>))
    requires
        0 <= i <= groups.len(),
    ensures
        group_members(groups.insert(i, entry)) == group_members(groups).add(
            entry.1.to_multiset(),
        ),
    decreases groups.len(),
{
    let next = groups.insert(i, entry);
    if i == groups.len() {
        assert(next.drop_last() =~= groups);
    } else {
        assert(next.drop_last() =~= groups.drop_last().insert(i, entry));
        members_of_insert(groups.drop_last(), i, entry);
        assert(group_members(next) =~= group_members(groups).add(entry.1.to_multiset()));
    }
}

proof fn members_of_update(
    groups: Groups,
    i: int,
    entry: (order::Texts, Seq<order::Texts>),
    id: order::Texts,
)
    requires
        0 <= i < groups.len(),
        entry.1 == groups[i].1.push(id),
    ensures
        group_members(groups.update(i, entry)) == group_members(groups).insert(id),
    decreases groups.len(),
{
    broadcast use vstd::seq_lib::group_to_multiset_ensures;

    let next = groups.update(i, entry);
    if i == groups.len() - 1 {
        assert(next.drop_last() =~= groups.drop_last());
    } else {
        assert(next.drop_last() =~= groups.drop_last().update(i, entry));
        members_of_update(groups.drop_last(), i, entry, id);
    }
    assert(group_members(next) =~= group_members(groups).insert(id));
}

proof fn members_are_tables(tables: Seq<NamedTableModel>)
    requires
        groups_of(tables) is Ok,
    ensures
        group_members(groups_of(tables)->Ok_0) == ids_of(tables).to_multiset(),
    decreases tables.len(),
{
    broadcast use vstd::seq_lib::group_to_multiset_ensures;

    if tables.len() > 0 {
        let before = groups_of(tables.drop_last())->Ok_0;
        let key = local_key(tables.last().local->Ok_0);
        let id = tables.last().table_id;
        let at = order::slot(before, key);
        members_are_tables(tables.drop_last());
        slot_in_range(before, key);
        assert(ids_of(tables) =~= ids_of(tables.drop_last()).push(id));
        match order::value_of(before, key) {
            Some(ids) => members_of_update(before, at, (key, ids.push(id)), id),
            None => {
                members_of_insert(before, at, (key, seq![id]));
                assert(seq![id] =~= Seq::<order::Texts>::empty().push(id));
                assert(seq![id].to_multiset() =~= vstd::multiset::Multiset::singleton(id));
            },
        }
        assert(group_members(groups_of(tables)->Ok_0) =~= ids_of(tables).to_multiset());
    } else {
        assert(ids_of(tables).to_multiset() =~= vstd::multiset::Multiset::empty());
    }
}

proof fn members_split(groups: Groups)
    requires
        forall|i: int| 0 <= i < groups.len() ==> (#[trigger] groups[i]).1.len() > 0,
    ensures
        (conflicting(groups) + mapped_ids(mapped(groups))).to_multiset() == group_members(groups),
    decreases groups.len(),
{
    broadcast use vstd::seq_lib::group_to_multiset_ensures;

    if groups.len() > 0 {
        let front = groups.drop_last();
        let last = groups[groups.len() - 1];
        assert forall|i: int| 0 <= i < front.len() implies (#[trigger] front[i]).1.len() > 0 by {
            assert(front[i] == groups[i]);
        }
        members_split(front);
        let shared = conflicting(front);
        let alone = mapped_ids(mapped(front));
        vstd::seq_lib::lemma_multiset_commutative(shared, alone);
        if last.1.len() > 1 {
            vstd::seq_lib::lemma_multiset_commutative(shared, last.1);
            vstd::seq_lib::lemma_multiset_commutative(shared + last.1, alone);
            assert((shared + last.1 + alone).to_multiset() =~= group_members(groups));
        } else {
            assert(last.1 =~= Seq::<order::Texts>::empty().push(last.1[0]));
            assert(last.1.to_multiset() =~= vstd::multiset::Multiset::singleton(last.1[0]));
            assert(mapped_ids(mapped(groups)) =~= alone.push(last.1[0]));
            assert(shared + alone.push(last.1[0]) =~= (shared + alone).push(last.1[0]));
            assert((shared + alone).push(last.1[0]).to_multiset() =~= group_members(groups));
        }
    } else {
        assert(conflicting(groups) + mapped_ids(mapped(groups)) =~= seq![]);
        assert((conflicting(groups) + mapped_ids(mapped(groups))).to_multiset()
            =~= vstd::multiset::Multiset::empty());
    }
}

/// The conflicts and the mapped tables together are the tables, each as often as it was named.
pub proof fn mapping_is_a_permutation(tables: Seq<NamedTableModel>)
    requires
        mapping_of(tables) is Ok,
    ensures
        (mapping_of(tables)->Ok_0.0 + mapped_ids(mapping_of(tables)->Ok_0.1)).to_multiset()
            == ids_of(tables).to_multiset(),
{
    no_empty_group(tables);
    members_split(groups_of(tables)->Ok_0);
    members_are_tables(tables);
}

/// A mapping exists exactly where the naming rule gives every table a local name.
pub proof fn mapping_needs_every_name(tables: Seq<NamedTableModel>)
    ensures
        mapping_of(tables) is Ok <==> forall|i: int|
            0 <= i < tables.len() ==> (#[trigger] tables[i]).local is Ok,
    decreases tables.len(),
{
    if tables.len() > 0 {
        let front = tables.drop_last();
        mapping_needs_every_name(front);
        if mapping_of(tables) is Ok {
            assert forall|i: int| 0 <= i < tables.len() implies (
            #[trigger] tables[i]).local is Ok by {
                if i < front.len() {
                    assert(front[i] == tables[i]);
                }
            }
        }
        if forall|i: int| 0 <= i < tables.len() ==> (#[trigger] tables[i]).local is Ok {
            assert(tables[tables.len() - 1].local is Ok);
            assert forall|i: int| 0 <= i < front.len() implies (
            #[trigger] front[i]).local is Ok by {
                assert(front[i] == tables[i]);
            }
        }
    }
}

proof fn named_as_often(
    tables: Seq<NamedTableModel>,
    id: order::Texts,
    local: (Seq<char>, Seq<char>),
)
    ensures
        tables_named(tables, local_key(local)).to_multiset().count(id)
            == tables.to_multiset().count(NamedTableModel { table_id: id, local: Ok(local) }),
    decreases tables.len(),
{
    broadcast use vstd::seq_lib::group_to_multiset_ensures;

    if tables.len() > 0 {
        let front = tables.drop_last();
        let last = tables.last();
        named_as_often(front, id, local);
        assert(tables =~= front.push(last));
        if last.local is Ok && local_key(last.local->Ok_0) == local_key(local) {
            let found = last.local->Ok_0;
            assert(local_key(found)[0] == found.0 && local_key(found)[1] == found.1);
            assert(local_key(local)[0] == local.0 && local_key(local)[1] == local.1);
            assert(last.local == Ok::<(Seq<char>, Seq<char>), Seq<char>>(local));
        }
    }
}

proof fn ids_as_often(a: Seq<NamedTableModel>, b: Seq<NamedTableModel>)
    requires
        a.to_multiset() == b.to_multiset(),
    ensures
        ids_of(a).to_multiset() == ids_of(b).to_multiset(),
    decreases a.len(),
{
    broadcast use vstd::seq_lib::group_to_multiset_ensures;

    vstd::seq_lib::to_multiset_len(a);
    vstd::seq_lib::to_multiset_len(b);
    if a.len() > 0 {
        let last = a.last();
        let front = a.drop_last();
        assert(a =~= front.push(last));
        assert(a.contains(last)) by {
            assert(a[a.len() - 1] == last);
        }
        assert(b.contains(last)) by {
            assert(b.to_multiset().count(last) > 0);
        }
        let j = choose|j: int| 0 <= j < b.len() && b[j] == last;
        let rest = b.remove(j);
        assert(b =~= rest.insert(j, last));
        assert(rest.to_multiset() =~= front.to_multiset());
        ids_as_often(front, rest);
        assert(ids_of(a) =~= ids_of(front).push(last.table_id));
        assert(ids_of(b) =~= ids_of(rest).insert(j, last.table_id));
        assert(ids_of(a).to_multiset() =~= ids_of(b).to_multiset());
    } else {
        assert(ids_of(a) =~= ids_of(b));
    }
}

/// Whether the local names of entries stand in strictly ascending order.
spec fn names_ascend(entries: Seq<(order::Texts, (Seq<char>, Seq<char>))>) -> bool {
    forall|i: int, j: int|
        0 <= i < j < entries.len() ==> order::list_order(
            local_key((#[trigger] entries[i]).1),
            local_key((#[trigger] entries[j]).1),
        ) == order::Order::Less
}

proof fn ascending_members_decide(
    a: Seq<(order::Texts, (Seq<char>, Seq<char>))>,
    b: Seq<(order::Texts, (Seq<char>, Seq<char>))>,
)
    requires
        names_ascend(a),
        names_ascend(b),
        forall|entry: (order::Texts, (Seq<char>, Seq<char>))|
            a.contains(entry) <==> #[trigger] b.contains(entry),
    ensures
        a == b,
    decreases a.len(),
{
    if a.len() == 0 {
        if b.len() > 0 {
            assert(b.contains(b[0]));
        }
        assert(a =~= b);
    } else {
        let last = a[a.len() - 1];
        assert(a.contains(last));
        assert(b.contains(last));
        let j = choose|j: int| 0 <= j < b.len() && b[j] == last;
        let end = b[b.len() - 1];
        assert(b.contains(end));
        assert(a.contains(end));
        let i = choose|i: int| 0 <= i < a.len() && a[i] == end;
        order::list_order_antisymmetric(local_key(last.1), local_key(end.1));
        order::list_order_antisymmetric(local_key(last.1), local_key(last.1));
        if j < b.len() - 1 {
            assert(order::list_order(local_key(b[j].1), local_key(end.1)) == order::Order::Less);
            if i < a.len() - 1 {
                assert(order::list_order(local_key(a[i].1), local_key(last.1))
                    == order::Order::Less);
            }
        }
        assert(end == last);
        let front = a.drop_last();
        let rest = b.drop_last();
        assert forall|entry: (order::Texts, (Seq<char>, Seq<char>))|
            front.contains(entry) <==> #[trigger] rest.contains(entry) by {
            if front.contains(entry) {
                let k = choose|k: int| 0 <= k < front.len() && front[k] == entry;
                assert(a[k] == entry);
                assert(order::list_order(local_key(a[k].1), local_key(last.1))
                    == order::Order::Less);
                assert(a.contains(entry));
                assert(b.contains(entry));
                let m = choose|m: int| 0 <= m < b.len() && b[m] == entry;
                assert(m < b.len() - 1);
                assert(rest[m] == entry);
            }
            if rest.contains(entry) {
                let k = choose|k: int| 0 <= k < rest.len() && rest[k] == entry;
                assert(b[k] == entry);
                assert(order::list_order(local_key(b[k].1), local_key(end.1))
                    == order::Order::Less);
                assert(b.contains(entry));
                assert(a.contains(entry));
                let m = choose|m: int| 0 <= m < a.len() && a[m] == entry;
                assert(m < a.len() - 1);
                assert(front[m] == entry);
            }
        }
        assert(names_ascend(front)) by {
            assert forall|x: int, y: int| 0 <= x < y < front.len() implies order::list_order(
                local_key((#[trigger] front[x]).1),
                local_key((#[trigger] front[y]).1),
            ) == order::Order::Less by {
                assert(front[x] == a[x] && front[y] == a[y]);
            }
        }
        assert(names_ascend(rest)) by {
            assert forall|x: int, y: int| 0 <= x < y < rest.len() implies order::list_order(
                local_key((#[trigger] rest[x]).1),
                local_key((#[trigger] rest[y]).1),
            ) == order::Order::Less by {
                assert(rest[x] == b[x] && rest[y] == b[y]);
            }
        }
        ascending_members_decide(front, rest);
        assert(a =~= front.push(last));
        assert(b =~= rest.push(last));
    }
}

/// The order in which the tables come does not matter: the mapping is the same, and the conflicts
/// are the same tables.
pub proof fn order_does_not_matter(a: Seq<NamedTableModel>, b: Seq<NamedTableModel>)
    requires
        a.to_multiset() == b.to_multiset(),
        mapping_of(a) is Ok,
    ensures
        mapping_of(b) is Ok,
        mapping_of(a)->Ok_0.1 == mapping_of(b)->Ok_0.1,
        mapping_of(a)->Ok_0.0.to_multiset() == mapping_of(b)->Ok_0.0.to_multiset(),
{
    broadcast use vstd::seq_lib::group_to_multiset_ensures;

    mapping_needs_every_name(a);
    assert forall|i: int| 0 <= i < b.len() implies (#[trigger] b[i]).local is Ok by {
        assert(b.contains(b[i]));
        assert(b.to_multiset().count(b[i]) > 0);
        assert(a.contains(b[i]));
        let j = choose|j: int| 0 <= j < a.len() && a[j] == b[i];
        assert(a[j].local is Ok);
    }
    mapping_needs_every_name(b);
    let one = mapping_of(a)->Ok_0.1;
    let two = mapping_of(b)->Ok_0.1;
    assert(names_ascend(one)) by {
        assert forall|i: int, j: int| 0 <= i < j < one.len() implies order::list_order(
            local_key((#[trigger] one[i]).1),
            local_key((#[trigger] one[j]).1),
        ) == order::Order::Less by {
            mapping_is_sorted(a, i, j);
        }
    }
    assert(names_ascend(two)) by {
        assert forall|i: int, j: int| 0 <= i < j < two.len() implies order::list_order(
            local_key((#[trigger] two[i]).1),
            local_key((#[trigger] two[j]).1),
        ) == order::Order::Less by {
            mapping_is_sorted(b, i, j);
        }
    }
    assert forall|entry: (order::Texts, (Seq<char>, Seq<char>))|
        one.contains(entry) <==> #[trigger] two.contains(entry) by {
        let id = entry.0;
        let key = local_key(entry.1);
        mapped_means_alone(a, id, entry.1);
        mapped_means_alone(b, id, entry.1);
        let in_a = tables_named(a, key);
        let in_b = tables_named(b, key);
        assert(in_a.to_multiset() =~= in_b.to_multiset()) by {
            assert forall|x: order::Texts| #[trigger]
                in_a.to_multiset().count(x) == in_b.to_multiset().count(x) by {
                named_as_often(a, x, entry.1);
                named_as_often(b, x, entry.1);
            }
        }
        vstd::seq_lib::to_multiset_len(in_a);
        vstd::seq_lib::to_multiset_len(in_b);
        if in_a.len() == 1 {
            assert(in_a.contains(in_a[0]));
            assert(in_b.to_multiset().count(in_a[0]) > 0);
            assert(in_b.contains(in_a[0]));
            assert(in_b[0] == in_a[0]);
            assert(in_a =~= in_b);
        }
    }
    ascending_members_decide(one, two);
    mapping_is_a_permutation(a);
    mapping_is_a_permutation(b);
    ids_as_often(a, b);
    let first = mapping_of(a)->Ok_0.0;
    let second = mapping_of(b)->Ok_0.0;
    vstd::seq_lib::lemma_multiset_commutative(first, mapped_ids(one));
    vstd::seq_lib::lemma_multiset_commutative(second, mapped_ids(two));
    assert forall|x: order::Texts| #[trigger]
        first.to_multiset().count(x) == second.to_multiset().count(x) by {
        assert((first + mapped_ids(one)).to_multiset().count(x) == first.to_multiset().count(x)
            + mapped_ids(one).to_multiset().count(x));
        assert((second + mapped_ids(two)).to_multiset().count(x) == second.to_multiset().count(x)
            + mapped_ids(two).to_multiset().count(x));
    }
    assert(first.to_multiset() =~= second.to_multiset());
}

proof fn named_are_of_the_name(
    tables: Seq<NamedTableModel>,
    local: (Seq<char>, Seq<char>),
    id: order::Texts,
)
    ensures
        tables_named(tables, local_key(local)).len() == 0 <==> forall|i: int|
            0 <= i < tables.len() ==> (#[trigger] tables[i]).local != Ok::<
                (Seq<char>, Seq<char>),
                Seq<char>,
            >(local),
        tables_named(tables, local_key(local)) == seq![id] <==> exists|i: int|
            {
                &&& 0 <= i < tables.len()
                &&& (#[trigger] tables[i]) == (NamedTableModel { table_id: id, local: Ok(local) })
                &&& forall|j: int|
                    0 <= j < tables.len() && j != i ==> (#[trigger] tables[j]).local != Ok::<
                        (Seq<char>, Seq<char>),
                        Seq<char>,
                    >(local)
            },
    decreases tables.len(),
{
    let key = local_key(local);
    let all = tables_named(tables, key);
    let wanted = Ok::<(Seq<char>, Seq<char>), Seq<char>>(local);
    if tables.len() > 0 {
        let front = tables.drop_last();
        let n = tables.len() - 1;
        let last = tables[n];
        named_are_of_the_name(front, local, id);
        assert(forall|i: int| 0 <= i < front.len() ==> #[trigger] front[i] == tables[i]);
        let before = tables_named(front, key);
        if last.local is Ok {
            let found = last.local->Ok_0;
            assert(local_key(found)[0] == found.0 && local_key(found)[1] == found.1);
            assert(key[0] == local.0 && key[1] == local.1);
        }
        if last.local == wanted {
            assert(all == before.push(last.table_id));
            assert(tables[n].local == wanted);
            if all == seq![id] {
                assert(before.len() == 0);
                assert(all[0] == last.table_id);
                assert(tables[n] == (NamedTableModel { table_id: id, local: Ok(local) }));
                assert forall|j: int| 0 <= j < tables.len() && j != n implies (
                #[trigger] tables[j]).local != wanted by {
                    assert(front[j].local != wanted);
                }
            }
            if exists|i: int|
                {
                    &&& 0 <= i < tables.len()
                    &&& (#[trigger] tables[i]) == (NamedTableModel {
                        table_id: id,
                        local: Ok(local),
                    })
                    &&& forall|j: int|
                        0 <= j < tables.len() && j != i ==> (#[trigger] tables[j]).local != wanted
                } {
                let i = choose|i: int|
                    {
                        &&& 0 <= i < tables.len()
                        &&& (#[trigger] tables[i]) == (NamedTableModel {
                            table_id: id,
                            local: Ok(local),
                        })
                        &&& forall|j: int|
                            0 <= j < tables.len() && j != i ==> (#[trigger] tables[j]).local
                                != wanted
                    };
                assert(i == n);
                assert forall|j: int| 0 <= j < front.len() implies (
                #[trigger] front[j]).local != wanted by {
                    assert(tables[j].local != wanted);
                }
                assert(before =~= seq![]);
                assert(all =~= seq![id]);
            }
        } else {
            assert(all == before);
            if all == seq![id] {
                let i = choose|i: int|
                    {
                        &&& 0 <= i < front.len()
                        &&& (#[trigger] front[i]) == (NamedTableModel {
                            table_id: id,
                            local: Ok(local),
                        })
                        &&& forall|j: int|
                            0 <= j < front.len() && j != i ==> (#[trigger] front[j]).local
                                != wanted
                    };
                assert(tables[i] == front[i]);
                assert forall|j: int| 0 <= j < tables.len() && j != i implies (
                #[trigger] tables[j]).local != wanted by {
                    if j < n {
                        assert(front[j].local != wanted);
                    }
                }
            }
            if exists|i: int|
                {
                    &&& 0 <= i < tables.len()
                    &&& (#[trigger] tables[i]) == (NamedTableModel {
                        table_id: id,
                        local: Ok(local),
                    })
                    &&& forall|j: int|
                        0 <= j < tables.len() && j != i ==> (#[trigger] tables[j]).local != wanted
                } {
                let i = choose|i: int|
                    {
                        &&& 0 <= i < tables.len()
                        &&& (#[trigger] tables[i]) == (NamedTableModel {
                            table_id: id,
                            local: Ok(local),
                        })
                        &&& forall|j: int|
                            0 <= j < tables.len() && j != i ==> (#[trigger] tables[j]).local
                                != wanted
                    };
                assert(front[i] == tables[i]);
            }
            if all.len() == 0 {
                assert forall|i: int| 0 <= i < tables.len() implies (
                #[trigger] tables[i]).local != wanted by {
                    if i < n {
                        assert(front[i].local != wanted);
                    }
                }
            } else {
                let i = choose|i: int| 0 <= i < front.len() && (#[trigger] front[i]).local == wanted;
                assert(tables[i].local == wanted);
            }
        }
    }
}

/// A table is mapped to a local name exactly where the naming rule gives it that name and gives it to
/// no other table: under its own name, and never one that two tables share.
pub proof fn mapped_tables_have_names_of_their_own(
    tables: Seq<NamedTableModel>,
    id: order::Texts,
    local: (Seq<char>, Seq<char>),
)
    requires
        mapping_of(tables) is Ok,
    ensures
        mapping_of(tables)->Ok_0.1.contains((id, local)) <==> exists|i: int|
            {
                &&& 0 <= i < tables.len()
                &&& (#[trigger] tables[i]) == (NamedTableModel { table_id: id, local: Ok(local) })
                &&& forall|j: int|
                    0 <= j < tables.len() && j != i ==> (#[trigger] tables[j]).local != Ok::<
                        (Seq<char>, Seq<char>),
                        Seq<char>,
                    >(local)
            },
{
    mapped_means_alone(tables, id, local);
    named_are_of_the_name(tables, local, id);
}

/// A mapping that fails tells the first error of the naming rule.
pub proof fn first_naming_error_is_told(tables: Seq<NamedTableModel>, i: int, e: Seq<char>)
    requires
        0 <= i < tables.len(),
        tables[i].local == Err::<(Seq<char>, Seq<char>), Seq<char>>(e),
        forall|j: int| 0 <= j < i ==> (#[trigger] tables[j]).local is Ok,
    ensures
        mapping_of(tables) is Err && mapping_of(tables)->Err_0 == e,
{
    let front = tables.take(i);
    mapping_needs_every_name(front);
    assert forall|j: int| 0 <= j < front.len() implies (#[trigger] front[j]).local is Ok by {
        assert(front[j] == tables[j]);
    }
    let upto = tables.take(i + 1);
    assert(upto.drop_last() =~= front);
    assert(groups_of(upto) is Err);
    first_error_decides(tables, i + 1);
}

/// Two tables to which the naming rule gives one local name are both conflicts, and neither is mapped
/// to that name.
pub proof fn conflicts_share_their_name(tables: Seq<NamedTableModel>, i: int, j: int)
    requires
        mapping_of(tables) is Ok,
        0 <= i < j < tables.len(),
        tables[i].local == tables[j].local,
    ensures
        mapping_of(tables)->Ok_0.0.contains(tables[i].table_id),
        mapping_of(tables)->Ok_0.0.contains(tables[j].table_id),
        !mapping_of(tables)->Ok_0.1.contains((tables[i].table_id, tables[i].local->Ok_0)),
        !mapping_of(tables)->Ok_0.1.contains((tables[j].table_id, tables[j].local->Ok_0)),
{
    mapping_needs_every_name(tables);
    assert(tables[i].local is Ok);
    let local = tables[i].local->Ok_0;
    let key = local_key(local);
    both_are_named(tables, local, i, j);
    conflict_means_shared(tables, tables[i].table_id);
    conflict_means_shared(tables, tables[j].table_id);
    mapped_means_alone(tables, tables[i].table_id, local);
    mapped_means_alone(tables, tables[j].table_id, local);
    assert(tables_named(tables, key).len() > 1);
}

proof fn both_are_named(
    tables: Seq<NamedTableModel>,
    local: (Seq<char>, Seq<char>),
    i: int,
    j: int,
)
    requires
        0 <= i < tables.len(),
        0 <= j < tables.len(),
        tables[i].local == Ok::<(Seq<char>, Seq<char>), Seq<char>>(local),
        tables[j].local == Ok::<(Seq<char>, Seq<char>), Seq<char>>(local),
    ensures
        tables_named(tables, local_key(local)).contains(tables[i].table_id),
        tables_named(tables, local_key(local)).contains(tables[j].table_id),
        i != j ==> tables_named(tables, local_key(local)).len() > 1,
    decreases tables.len(),
{
    let front = tables.drop_last();
    let n = tables.len() - 1;
    let key = local_key(local);
    let all = tables_named(tables, key);
    let before = tables_named(front, key);
    if i < n && j < n {
        assert(front[i] == tables[i] && front[j] == tables[j]);
        both_are_named(front, local, i, j);
    } else if i < n {
        assert(front[i] == tables[i]);
        both_are_named(front, local, i, i);
    } else if j < n {
        assert(front[j] == tables[j]);
        both_are_named(front, local, j, j);
    }
    if tables[n].local is Ok && local_key(tables[n].local->Ok_0) == key {
        assert(all == before.push(tables[n].table_id));
        assert(all[before.len() as int] == tables[n].table_id);
    }
    if i < n {
        let m = choose|m: int| 0 <= m < before.len() && before[m] == tables[i].table_id;
        assert(all[m] == tables[i].table_id);
    }
    if j < n {
        let m = choose|m: int| 0 <= m < before.len() && before[m] == tables[j].table_id;
        assert(all[m] == tables[j].table_id);
    }
}

} // verus!
