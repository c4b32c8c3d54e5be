use vstd::prelude::*;
use itertools::Itertools;
use crate::schema::TableDefinition;

verus! {

/// The rows of a stream split into runs of consecutive rows with the same
/// table name, each run paired with that name, in the order they arrive.
pub open spec fn adjacent_groups(rows: Seq<TableDefinition>) -> Seq<(Seq<char>, Seq<TableDefinition>)>
    decreases rows.len(),
{
    if rows.len() == 0 {
        Seq::empty()
    } else {
        let rest = adjacent_groups(rows.drop_first());
        let key = rows[0].table_name@;
        if rest.len() > 0 && rest[0].0 == key {
            rest.update(0, (key, seq![rows[0]] + rest[0].1))
        } else {
            seq![(key, seq![rows[0]])] + rest
        }
    }
}

/// The rows of each group, in group order.
pub open spec fn group_rows_of(gs: Seq<(Seq<char>, Seq<TableDefinition>)>) -> Seq<Seq<TableDefinition>> {
    gs.map_values(|g: (Seq<char>, Seq<TableDefinition>)| g.1)
}

/// Relies on itertools' `group_by`: consecutive elements with the same key
/// form one group, and groups come out in the order of the input.
#[verifier::external_body]
fn group_by_table(rows: Vec<TableDefinition>) -> (r: Vec<(String, Vec<TableDefinition>)>)
    ensures
        r@.len() == adjacent_groups(rows@).len(),
        forall|i: int|
            0 <= i < r@.len() ==> (#[trigger] r@[i]).0@ == adjacent_groups(rows@)[i].0
                && r@[i].1@ == adjacent_groups(rows@)[i].1,
{
    let grouped = rows.into_iter().group_by(|t| t.table_name.clone());
    let r = grouped.into_iter().map(|(k, g)| (k, g.collect())).collect();
    r
}

/// Groups an ordered stream of column rows by table, keeping arrival order.
pub fn group_columns(rows: Vec<TableDefinition>) -> (r: Vec<(String, Vec<TableDefinition>)>)
    ensures
        r@.len() == adjacent_groups(rows@).len(),
        forall|i: int|
            0 <= i < r@.len() ==> (#[trigger] r@[i]).0@ == adjacent_groups(rows@)[i].0
                && r@[i].1@ == adjacent_groups(rows@)[i].1,
{
    group_by_table(rows)
}

/// Grouping loses and reorders nothing: the groups, concatenated, are the
/// input; every group is non-empty and holds only rows of its table; and
/// neighbouring groups belong to different tables.
pub proof fn lemma_groups_partition(rows: Seq<TableDefinition>)
    ensures
        group_rows_of(adjacent_groups(rows)).flatten() == rows,
        forall|i: int|
            0 <= i < adjacent_groups(rows).len() ==> (#[trigger] adjacent_groups(rows)[i]).1.len() > 0,
        forall|i: int, j: int|
            0 <= i < adjacent_groups(rows).len() && 0 <= j < adjacent_groups(rows)[i].1.len()
                ==> (#[trigger] adjacent_groups(rows)[i].1[j]).table_name@ == adjacent_groups(rows)[i].0,
        forall|i: int|
            0 <= i < adjacent_groups(rows).len() - 1 ==> (#[trigger] adjacent_groups(rows)[i]).0
                != adjacent_groups(rows)[i + 1].0,
    decreases rows.len(),
{
    if rows.len() > 0 {
        let tail = rows.drop_first();
        lemma_groups_partition(tail);
        let rest = adjacent_groups(tail);
        let gs = adjacent_groups(rows);
        let key = rows[0].table_name@;
        if rest.len() > 0 && rest[0].0 == key {
            let g0 = (key, seq![rows[0]] + rest[0].1);
            assert(gs == rest.update(0, g0));
            assert(group_rows_of(gs).drop_first() =~= group_rows_of(rest).drop_first());
            assert(group_rows_of(rest).flatten() == rest[0].1 + group_rows_of(rest).drop_first().flatten());
            assert(group_rows_of(gs).flatten() == g0.1 + group_rows_of(gs).drop_first().flatten());
            assert(rows =~= seq![rows[0]] + tail);
            assert forall|i: int, j: int|
                0 <= i < gs.len() && 0 <= j < gs[i].1.len()
                    implies (#[trigger] gs[i].1[j]).table_name@ == gs[i].0 by {
                if i == 0 && j > 0 {
                    assert(gs[0].1[j] == rest[0].1[j - 1]);
                }
            }
        } else {
            assert(gs == seq![(key, seq![rows[0]])] + rest);
            assert(group_rows_of(gs).drop_first() =~= group_rows_of(rest));
            assert(rows =~= seq![rows[0]] + tail);
        }
    } else {
        assert(group_rows_of(adjacent_groups(rows)) =~= Seq::<Seq<TableDefinition>>::empty());
    }
}

/// The rows of one table, in arrival order.
pub open spec fn rows_of_table(rows: Seq<TableDefinition>, t: Seq<char>) -> Seq<TableDefinition> {
    rows.filter(|r: TableDefinition| r.table_name@ == t)
}

/// No two groups share a table.
pub open spec fn distinct_keys(gs: Seq<(Seq<char>, Seq<TableDefinition>)>) -> bool {
    forall|i: int, j: int| 0 <= i < j < gs.len() ==> (#[trigger] gs[i]).0 != (#[trigger] gs[j]).0
}

proof fn lemma_rows_of_table_add(a: Seq<TableDefinition>, b: Seq<TableDefinition>, t: Seq<char>)
    ensures
        rows_of_table(a + b, t) == rows_of_table(a, t) + rows_of_table(b, t),
{
    broadcast use Seq::filter_distributes_over_add;
}

proof fn lemma_rows_of_table_one(r: TableDefinition, t: Seq<char>)
    ensures
        r.table_name@ == t ==> rows_of_table(seq![r], t) == seq![r],
        r.table_name@ != t ==> rows_of_table(seq![r], t) == Seq::<TableDefinition>::empty(),
{
    reveal(Seq::filter);
    assert(seq![r].drop_last() =~= Seq::<TableDefinition>::empty());
    assert(Seq::<TableDefinition>::empty().push(r) =~= seq![r]);
    if r.table_name@ != t {
        lemma_rows_of_table_none(seq![r], t);
    }
}

proof fn lemma_rows_of_table_none(s: Seq<TableDefinition>, t: Seq<char>)
    requires
        forall|p: int| 0 <= p < s.len() ==> (#[trigger] s[p]).table_name@ != t,
    ensures
        rows_of_table(s, t) == Seq::<TableDefinition>::empty(),
    decreases s.len(),
{
    reveal(Seq::filter);
    if s.len() > 0 {
        lemma_rows_of_table_none(s.drop_last(), t);
    }
}

/// When no table has two groups, each group holds exactly that table's rows
/// in arrival order, and every row's table has a group.
pub proof fn lemma_groups_are_tables(rows: Seq<TableDefinition>)
    requires
        distinct_keys(adjacent_groups(rows)),
    ensures
        forall|k: int|
            0 <= k < adjacent_groups(rows).len() ==> (#[trigger] adjacent_groups(rows)[k]).1
                == rows_of_table(rows, adjacent_groups(rows)[k].0),
        forall|p: int|
            0 <= p < rows.len() ==> exists|k: int|
                0 <= k < adjacent_groups(rows).len() && adjacent_groups(rows)[k].0
                    == (#[trigger] rows[p]).table_name@,
    decreases rows.len(),
{
    if rows.len() > 0 {
        let r0 = rows[0];
        let tail = rows.drop_first();
        let rest = adjacent_groups(tail);
        let gs = adjacent_groups(rows);
        let key = r0.table_name@;
        assert(rows =~= seq![r0] + tail);
        if rest.len() > 0 && rest[0].0 == key {
            assert(gs == rest.update(0, (key, seq![r0] + rest[0].1)));
            assert(distinct_keys(rest)) by {
                assert forall|i: int, j: int| 0 <= i < j < rest.len() implies (#[trigger] rest[i]).0
                    != (#[trigger] rest[j]).0 by {
                    assert(rest[i].0 == gs[i].0 && rest[j].0 == gs[j].0);
                }
            }
            lemma_groups_are_tables(tail);
            assert forall|k: int| 0 <= k < gs.len() implies (#[trigger] gs[k]).1 == rows_of_table(
                rows,
                gs[k].0,
            ) by {
                lemma_rows_of_table_add(seq![r0], tail, gs[k].0);
                lemma_rows_of_table_one(r0, gs[k].0);
                if k > 0 {
                    assert(gs[0].0 != gs[k].0);
                    assert(Seq::<TableDefinition>::empty() + rows_of_table(tail, gs[k].0)
                        =~= rows_of_table(tail, gs[k].0));
                }
            }
            assert forall|p: int| 0 <= p < rows.len() implies exists|k: int|
                0 <= k < gs.len() && gs[k].0 == (#[trigger] rows[p]).table_name@ by {
                if p == 0 {
                    assert(gs[0].0 == rows[0].table_name@);
                } else {
                    assert(rows[p] == tail[p - 1]);
                    let k = choose|k: int| 0 <= k < rest.len() && rest[k].0 == (#[trigger] tail[p - 1]).table_name@;
                    assert(gs[k].0 == rest[k].0);
                }
            }
        } else {
            assert(gs == seq![(key, seq![r0])] + rest);
            assert(distinct_keys(rest)) by {
                assert forall|i: int, j: int| 0 <= i < j < rest.len() implies (#[trigger] rest[i]).0
                    != (#[trigger] rest[j]).0 by {
                    assert(rest[i] == gs[i + 1] && rest[j] == gs[j + 1]);
                }
            }
            lemma_groups_are_tables(tail);
            assert forall|k: int| 0 <= k < gs.len() implies (#[trigger] gs[k]).1 == rows_of_table(
                rows,
                gs[k].0,
            ) by {
                lemma_rows_of_table_add(seq![r0], tail, gs[k].0);
                lemma_rows_of_table_one(r0, gs[k].0);
                if k == 0 {
                    assert forall|p: int| 0 <= p < tail.len() implies (#[trigger] tail[p]).table_name@
                        != key by {
                        let k2 = choose|k2: int| 0 <= k2 < rest.len() && rest[k2].0 == (#[trigger] tail[p]).table_name@;
                        assert(gs[k2 + 1] == rest[k2]);
                        assert(gs[0].0 != gs[k2 + 1].0);
                    }
                    lemma_rows_of_table_none(tail, key);
                    assert(seq![r0] + Seq::<TableDefinition>::empty() =~= seq![r0]);
                } else {
                    assert(gs[k] == rest[k - 1]);
                    assert(gs[0].0 != gs[k].0);
                    assert(Seq::<TableDefinition>::empty() + rows_of_table(tail, gs[k].0)
                        =~= rows_of_table(tail, gs[k].0));
                }
            }
            assert forall|p: int| 0 <= p < rows.len() implies exists|k: int|
                0 <= k < gs.len() && gs[k].0 == (#[trigger] rows[p]).table_name@ by {
                if p == 0 {
                    assert(gs[0].0 == rows[0].table_name@);
                } else {
                    assert(rows[p] == tail[p - 1]);
                    let k = choose|k: int| 0 <= k < rest.len() && rest[k].0 == (#[trigger] tail[p - 1]).table_name@;
                    assert(gs[k + 1] == rest[k]);
                }
            }
        }
    }
}

/// Groups come in first-seen order: when no table has two groups, every row
/// of an earlier group arrives before every row of a later group's table.
pub proof fn lemma_groups_first_seen_order(rows: Seq<TableDefinition>)
    requires
        distinct_keys(adjacent_groups(rows)),
    ensures
        forall|k1: int, k2: int, p: int, q: int|
            0 <= k1 < k2 < adjacent_groups(rows).len() && 0 <= p < rows.len() && 0 <= q < rows.len()
                && (#[trigger] rows[p]).table_name@ == (#[trigger] adjacent_groups(rows)[k1]).0
                && (#[trigger] rows[q]).table_name@ == (#[trigger] adjacent_groups(rows)[k2]).0
                ==> p < q,
    decreases rows.len(),
{
    if rows.len() > 0 {
        let r0 = rows[0];
        let tail = rows.drop_first();
        let rest = adjacent_groups(tail);
        let gs = adjacent_groups(rows);
        let key = r0.table_name@;
        if rest.len() > 0 && rest[0].0 == key {
            assert(gs == rest.update(0, (key, seq![r0] + rest[0].1)));
            assert(distinct_keys(rest)) by {
                assert forall|i: int, j: int| 0 <= i < j < rest.len() implies (#[trigger] rest[i]).0
                    != (#[trigger] rest[j]).0 by {
                    assert(rest[i].0 == gs[i].0 && rest[j].0 == gs[j].0);
                }
            }
            lemma_groups_first_seen_order(tail);
            assert forall|k1: int, k2: int, p: int, q: int|
                0 <= k1 < k2 < gs.len() && 0 <= p < rows.len() && 0 <= q < rows.len()
                    && (#[trigger] rows[p]).table_name@ == (#[trigger] gs[k1]).0
                    && (#[trigger] rows[q]).table_name@ == (#[trigger] gs[k2]).0 implies p < q by {
                assert(gs[k1].0 == rest[k1].0 && gs[k2].0 == rest[k2].0);
                if q == 0 {
                    assert(gs[0].0 == key);
                    assert(gs[0].0 != gs[k2].0);
                } else if p > 0 {
                    assert(rows[p] == tail[p - 1] && rows[q] == tail[q - 1]);
                    assert(tail[p - 1].table_name@ == rest[k1].0);
                    assert(tail[q - 1].table_name@ == rest[k2].0);
                }
            }
        } else {
            assert(gs == seq![(key, seq![r0])] + rest);
            assert(distinct_keys(rest)) by {
                assert forall|i: int, j: int| 0 <= i < j < rest.len() implies (#[trigger] rest[i]).0
                    != (#[trigger] rest[j]).0 by {
                    assert(rest[i] == gs[i + 1] && rest[j] == gs[j + 1]);
                }
            }
            lemma_groups_first_seen_order(tail);
            lemma_groups_are_tables(tail);
            assert forall|k1: int, k2: int, p: int, q: int|
                0 <= k1 < k2 < gs.len() && 0 <= p < rows.len() && 0 <= q < rows.len()
                    && (#[trigger] rows[p]).table_name@ == (#[trigger] gs[k1]).0
                    && (#[trigger] rows[q]).table_name@ == (#[trigger] gs[k2]).0 implies p < q by {
                if q == 0 {
                    assert(gs[0].0 == key);
                    assert(gs[0].0 != gs[k2].0);
                } else if p > 0 {
                    assert(rows[p] == tail[p - 1] && rows[q] == tail[q - 1]);
                    if k1 == 0 {
                        let k = choose|k: int| 0 <= k < rest.len() && rest[k].0 == (#[trigger] tail[p - 1]).table_name@;
                        assert(gs[k + 1] == rest[k]);
                        assert(gs[0].0 != gs[k + 1].0);
                    } else {
                        assert(gs[k1] == rest[k1 - 1] && gs[k2] == rest[k2 - 1]);
                        assert(tail[p - 1].table_name@ == rest[k1 - 1].0);
                        assert(tail[q - 1].table_name@ == rest[k2 - 1].0);
                    }
                }
            }
        }
    }
}

} // verus!
