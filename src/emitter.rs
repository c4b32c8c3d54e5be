use vstd::prelude::*;
use crate::grouping::{
    adjacent_groups, distinct_keys, group_columns, lemma_groups_are_tables,
    lemma_groups_first_seen_order, rows_of_table,
};
use crate::naming::{row_name_of, row_struct_name};
use crate::schema::{
    FieldDefinition, FieldType, GenerationError, GenerationErrorView, RecordTypeDefinition,
    RecordView, TableDefinition,
};
use crate::table_filter::{emits, should_emit};
use crate::type_mapper::{map_native_type, native_base};

verus! {

/// The field type a column gets: its mapped base type, optional when the column is nullable.
pub open spec fn column_type(c: TableDefinition) -> FieldType {
    FieldType { base: native_base(c.udt_name@)->Some_0, optional: c.is_nullable }
}

/// Every column's native type is in the vocabulary.
pub open spec fn all_known(cols: Seq<TableDefinition>) -> bool {
    forall|j: int| 0 <= j < cols.len() ==> (#[trigger] native_base(cols[j].udt_name@)) is Some
}

/// Column `j` is the first whose native type is outside the vocabulary.
pub open spec fn first_unknown_at(cols: Seq<TableDefinition>, j: int) -> bool {
    &&& 0 <= j < cols.len()
    &&& native_base(cols[j].udt_name@) is None
    &&& forall|k: int| 0 <= k < j ==> (#[trigger] native_base(cols[k].udt_name@)) is Some
}

/// The record generated for a table: its class-cased name, and one field per
/// column in column order, named after the column.
pub open spec fn expected_record(table: Seq<char>, cols: Seq<TableDefinition>) -> RecordView {
    RecordView {
        name: row_name_of(table),
        fields: cols.map_values(|c: TableDefinition| (c.column_name@, column_type(c))),
    }
}

/// Builds the record type for one table's columns. An empty column list is
/// malformed; otherwise it fails on the first column whose native type is unknown.
pub fn record_for_table(table_name: &str, columns: &Vec<TableDefinition>) -> (r: Result<
    RecordTypeDefinition,
    GenerationError,
>)
    ensures
        r is Ok <==> columns@.len() > 0 && all_known(columns@),
        r is Ok ==> r->Ok_0@ == expected_record(table_name@, columns@),
        columns@.len() == 0 ==> r is Err && r->Err_0@ == GenerationErrorView::MalformedInput(table_name@),
        r is Err && columns@.len() > 0 ==> exists|j: int|
            first_unknown_at(columns@, j) && r->Err_0@ == GenerationErrorView::UnknownType(
                (#[trigger] columns@[j]).udt_name@,
            ),
{
    if columns.len() == 0 {
        return Err(GenerationError::MalformedInput(String::from_str(table_name)));
    }
    let mut fields: Vec<FieldDefinition> = Vec::new();
    let mut i: usize = 0;
    while i < columns.len()
        invariant
            i <= columns@.len(),
            fields@.len() == i,
            forall|k: int| 0 <= k < i ==> (#[trigger] native_base(columns@[k].udt_name@)) is Some,
            forall|k: int|
                0 <= k < i ==> (#[trigger] fields@[k]).name@ == columns@[k].column_name@
                    && fields@[k].ty == column_type(columns@[k]),
        decreases columns@.len() - i,
    {
        let c = &columns[i];
        match map_native_type(c.udt_name.as_str()) {
            Ok(base) => {
                fields.push(FieldDefinition {
                    name: c.column_name.clone(),
                    ty: FieldType { base, optional: c.is_nullable },
                });
            },
            Err(e) => {
                assert(first_unknown_at(columns@, i as int));
                return Err(e);
            },
        }
        i += 1;
    }
    let r = RecordTypeDefinition { name: row_struct_name(table_name), fields };
    assert(r@.fields =~= expected_record(table_name@, columns@).fields);
    Ok(r)
}

/// Column `j` (counting from zero) has ordinal position `j + 1`: the
/// ordinals are exactly 1, 2, ..., n in order, so unique and without gaps.
pub open spec fn ordinals_are_positions(cols: Seq<TableDefinition>) -> bool {
    forall|j: int| 0 <= j < cols.len() ==> (#[trigger] cols[j]).ordinal_position == j + 1
}

/// Group `i` is malformed: it is empty, its ordinals are not 1..n, or its
/// table already had an earlier group (its rows were not contiguous).
pub open spec fn malformed_at(gs: Seq<(Seq<char>, Seq<TableDefinition>)>, i: int) -> bool {
    ||| gs[i].1.len() == 0
    ||| !ordinals_are_positions(gs[i].1)
    ||| exists|k: int| 0 <= k < i && (#[trigger] gs[k]).0 == gs[i].0
}

/// No group is malformed.
pub open spec fn well_formed(gs: Seq<(Seq<char>, Seq<TableDefinition>)>) -> bool {
    forall|i: int| 0 <= i < gs.len() ==> !(#[trigger] malformed_at(gs, i))
}

/// The groups whose table passes the filter, in order.
pub open spec fn emitted(gs: Seq<(Seq<char>, Seq<TableDefinition>)>) -> Seq<(Seq<char>, Seq<TableDefinition>)>
    decreases gs.len(),
{
    if gs.len() == 0 {
        Seq::empty()
    } else if emits(gs.last().0) {
        emitted(gs.drop_last()).push(gs.last())
    } else {
        emitted(gs.drop_last())
    }
}

/// Every emitted group has only known column types.
pub open spec fn all_groups_known(es: Seq<(Seq<char>, Seq<TableDefinition>)>) -> bool {
    forall|i: int| 0 <= i < es.len() ==> all_known((#[trigger] es[i]).1)
}

/// Filtering distributes over concatenation.
pub proof fn lemma_emitted_add(
    a: Seq<(Seq<char>, Seq<TableDefinition>)>,
    b: Seq<(Seq<char>, Seq<TableDefinition>)>,
)
    ensures
        emitted(a + b) == emitted(a) + emitted(b),
    decreases b.len(),
{
    if b.len() == 0 {
        assert(a + b =~= a);
        assert(emitted(a) + emitted(b) =~= emitted(a));
    } else {
        lemma_emitted_add(a, b.drop_last());
        assert((a + b).drop_last() =~= a + b.drop_last());
        assert((a + b).last() == b.last());
        if emits(b.last().0) {
            assert(emitted(a) + emitted(b) =~= (emitted(a) + emitted(b.drop_last())).push(b.last()));
        }
    }
}

/// A run over these rows succeeds: no group is malformed and every emitted
/// group's column types are known.
pub open spec fn generation_succeeds(rows: Seq<TableDefinition>) -> bool {
    well_formed(adjacent_groups(rows)) && all_groups_known(emitted(adjacent_groups(rows)))
}

/// The records are exactly one per emitted group, in group order.
pub open spec fn records_match(records: Seq<RecordTypeDefinition>, rows: Seq<TableDefinition>) -> bool {
    let es = emitted(adjacent_groups(rows));
    &&& records.len() == es.len()
    &&& forall|i: int| 0 <= i < es.len() ==> (#[trigger] records[i])@ == expected_record(es[i].0, es[i].1)
}

/// The error a failing run reports: the first malformed group's table if
/// there is one; otherwise the native type of the first unknown column of
/// the first emitted group that has one.
pub open spec fn reported_error(rows: Seq<TableDefinition>, e: GenerationErrorView) -> bool {
    let gs = adjacent_groups(rows);
    let es = emitted(gs);
    if !well_formed(gs) {
        exists|i: int|
            0 <= i < gs.len() && (#[trigger] malformed_at(gs, i)) && (forall|k: int|
                0 <= k < i ==> !#[trigger] malformed_at(gs, k)) && e == GenerationErrorView::MalformedInput(
                gs[i].0,
            )
    } else {
        exists|i: int, j: int|
            0 <= i < es.len() && (forall|k: int| 0 <= k < i ==> all_known(#[trigger] es[k].1))
                && #[trigger] first_unknown_at(es[i].1, j) && e == GenerationErrorView::UnknownType(
                es[i].1[j].udt_name@,
            )
    }
}

/// Generates the record types for a whole schema.
///
/// The rows are grouped by table in arrival order. A malformed group stops
/// the run first; otherwise each group whose table passes the filter yields
/// one record, in order, and the first unknown column type stops the run.
pub fn generate(rows: Vec<TableDefinition>) -> (r: Result<Vec<RecordTypeDefinition>, GenerationError>)
    ensures
        r is Ok <==> generation_succeeds(rows@),
        r is Ok ==> records_match(r->Ok_0@, rows@),
        r is Err ==> reported_error(rows@, r->Err_0@),
{
    let ghost gs = adjacent_groups(rows@);
    let groups = group_columns(rows);
    let mut i: usize = 0;
    while i < groups.len()
        invariant
            i <= groups@.len(),
            gs == adjacent_groups(rows@),
            groups@.len() == gs.len(),
            forall|m: int|
                0 <= m < groups@.len() ==> (#[trigger] groups@[m]).0@ == gs[m].0 && groups@[m].1@
                    == gs[m].1,
            forall|k: int| 0 <= k < i ==> !#[trigger] malformed_at(gs, k),
        decreases groups@.len() - i,
    {
        let name = &groups[i].0;
        let cols = &groups[i].1;
        if cols.len() == 0 || !ordinals_in_order(cols) {
            assert(malformed_at(gs, i as int));
            assert(!well_formed(gs));
            return Err(GenerationError::MalformedInput(name.clone()));
        }
        let mut k: usize = 0;
        while k < i
            invariant
                i < groups@.len(),
                gs == adjacent_groups(rows@),
                groups@.len() == gs.len(),
                forall|m: int| 0 <= m < i ==> !#[trigger] malformed_at(gs, m),
                forall|m: int|
                    0 <= m < groups@.len() ==> (#[trigger] groups@[m]).0@ == gs[m].0 && groups@[m].1@
                        == gs[m].1,
                name == groups@[i as int].0,
                k <= i,
                forall|m: int| 0 <= m < k ==> (#[trigger] gs[m]).0 != gs[i as int].0,
            decreases i - k,
        {
            if groups[k].0 == *name {
                assert(gs[k as int].0 == gs[i as int].0);
                assert(malformed_at(gs, i as int));
                assert(!well_formed(gs));
                return Err(GenerationError::MalformedInput(name.clone()));
            }
            k += 1;
        }
        assert(!malformed_at(gs, i as int));
        i += 1;
    }
    let mut out: Vec<RecordTypeDefinition> = Vec::new();
    let mut i: usize = 0;
    while i < groups.len()
        invariant
            i <= groups@.len(),
            gs == adjacent_groups(rows@),
            groups@.len() == gs.len(),
            forall|m: int|
                0 <= m < groups@.len() ==> (#[trigger] groups@[m]).0@ == gs[m].0 && groups@[m].1@
                    == gs[m].1,
            well_formed(gs),
            out@.len() == emitted(gs.take(i as int)).len(),
            all_groups_known(emitted(gs.take(i as int))),
            forall|m: int|
                0 <= m < out@.len() ==> (#[trigger] out@[m])@ == expected_record(
                    emitted(gs.take(i as int))[m].0,
                    emitted(gs.take(i as int))[m].1,
                ),
        decreases groups@.len() - i,
    {
        let ghost before = emitted(gs.take(i as int));
        assert(gs.take(i as int + 1).drop_last() =~= gs.take(i as int));
        assert(gs.take(i as int + 1).last() == gs[i as int]);
        if should_emit(groups[i].0.as_str()) {
            assert(emitted(gs.take(i as int + 1)) == before.push(gs[i as int]));
            match record_for_table(groups[i].0.as_str(), &groups[i].1) {
                Ok(rec) => {
                    out.push(rec);
                },
                Err(e) => {
                    proof {
                        lemma_emitted_add(gs.take(i as int + 1), gs.skip(i as int + 1));
                        assert(gs.take(i as int + 1) + gs.skip(i as int + 1) =~= gs);
                        assert(!malformed_at(gs, i as int));
                        assert(gs[i as int].1.len() > 0);
                        let es = emitted(gs);
                        let n = before.len() as int;
                        assert(es[n] == gs[i as int]);
                        assert forall|k: int| 0 <= k < n implies all_known(#[trigger] es[k].1) by {
                            assert(es[k] == before[k]);
                        }
                        let j = choose|j: int|
                            first_unknown_at(gs[i as int].1, j) && e@ == GenerationErrorView::UnknownType(
                                (#[trigger] gs[i as int].1[j]).udt_name@,
                            );
                        assert(first_unknown_at(es[n].1, j));
                        assert(!all_known(es[n].1));
                        assert(!all_groups_known(es));
                    }
                    return Err(e);
                },
            }
        } else {
            assert(emitted(gs.take(i as int + 1)) == before);
        }
        i += 1;
    }
    assert(gs.take(groups@.len() as int) =~= gs);
    Ok(out)
}

/// Whether a table's columns carry ordinal positions 1, 2, ..., n in order.
pub fn ordinals_in_order(columns: &Vec<TableDefinition>) -> (r: bool)
    ensures
        r == ordinals_are_positions(columns@),
{
    let mut j: usize = 0;
    while j < columns.len()
        invariant
            j <= columns@.len(),
            forall|m: int| 0 <= m < j ==> (#[trigger] columns@[m]).ordinal_position == m + 1,
        decreases columns@.len() - j,
    {
        let p = columns[j].ordinal_position;
        if p < 1 || (p - 1) as usize != j {
            return false;
        }
        j += 1;
    }
    true
}

/// Every emitted group is one of the groups.
pub proof fn lemma_emitted_members(gs: Seq<(Seq<char>, Seq<TableDefinition>)>)
    ensures
        forall|i: int|
            0 <= i < emitted(gs).len() ==> exists|k: int|
                0 <= k < gs.len() && #[trigger] emitted(gs)[i] == gs[k],
    decreases gs.len(),
{
    if gs.len() > 0 {
        lemma_emitted_members(gs.drop_last());
        assert forall|i: int| 0 <= i < emitted(gs).len() implies exists|k: int|
            0 <= k < gs.len() && #[trigger] emitted(gs)[i] == gs[k] by {
            if i < emitted(gs.drop_last()).len() {
                let k = choose|k: int|
                    0 <= k < gs.drop_last().len() && #[trigger] emitted(gs.drop_last())[i]
                        == gs.drop_last()[k];
                assert(emitted(gs)[i] == gs[k]);
            } else {
                assert(emitted(gs)[i] == gs[gs.len() - 1]);
            }
        }
    }
}

/// In a well-formed run no two groups share a table.
pub proof fn lemma_well_formed_distinct(gs: Seq<(Seq<char>, Seq<TableDefinition>)>)
    requires
        well_formed(gs),
    ensures
        distinct_keys(gs),
{
    assert forall|i: int, j: int| 0 <= i < j < gs.len() implies (#[trigger] gs[i]).0
        != (#[trigger] gs[j]).0 by {
        assert(!malformed_at(gs, j));
    }
}

/// Field order follows column order: in a successful run, record `i` is
/// built from exactly the input rows of the `i`-th emitted table, kept in
/// arrival order; it has one field per such row, named after its column;
/// and field `j` comes from the column at ordinal position `j + 1`.
pub proof fn lemma_field_order(rows: Seq<TableDefinition>, records: Seq<RecordTypeDefinition>)
    requires
        generation_succeeds(rows),
        records_match(records, rows),
    ensures
        forall|i: int|
            0 <= i < records.len() ==> {
                let t = (#[trigger] emitted(adjacent_groups(rows))[i]).0;
                let cols = emitted(adjacent_groups(rows))[i].1;
                &&& cols == rows_of_table(rows, t)
                &&& records[i]@.fields.len() == cols.len()
                &&& forall|j: int|
                    0 <= j < cols.len() ==> (#[trigger] records[i]@.fields[j]).0 == cols[j].column_name@
                        && cols[j].ordinal_position == j + 1
            },
{
    let gs = adjacent_groups(rows);
    lemma_emitted_members(gs);
    lemma_well_formed_distinct(gs);
    lemma_groups_are_tables(rows);
    assert forall|i: int| 0 <= i < records.len() implies {
        let cols = (#[trigger] emitted(gs)[i]).1;
        &&& cols == rows_of_table(rows, emitted(gs)[i].0)
        &&& ordinals_are_positions(cols)
    } by {
        let k = choose|k: int| 0 <= k < gs.len() && #[trigger] emitted(gs)[i] == gs[k];
        assert(!malformed_at(gs, k));
    }
}

/// Nullability decides the wrapping: in a successful run, each field of
/// record `i` is optional exactly when its column is nullable, around the
/// base type the column's native type maps to.
pub proof fn lemma_nullable_fields_optional(rows: Seq<TableDefinition>, records: Seq<RecordTypeDefinition>)
    requires
        generation_succeeds(rows),
        records_match(records, rows),
    ensures
        forall|i: int, j: int|
            0 <= i < records.len() && 0 <= j < records[i]@.fields.len() ==> {
                let c = emitted(adjacent_groups(rows))[i].1[j];
                &&& (#[trigger] records[i]@.fields[j]).1.optional == c.is_nullable
                &&& native_base(c.udt_name@) == Some(records[i]@.fields[j].1.base)
            },
{
    let es = emitted(adjacent_groups(rows));
    assert forall|i: int, j: int|
        0 <= i < records.len() && 0 <= j < records[i]@.fields.len() implies {
            let c = es[i].1[j];
            &&& (#[trigger] records[i]@.fields[j]).1.optional == c.is_nullable
            &&& native_base(c.udt_name@) == Some(records[i]@.fields[j].1.base)
        } by {
        assert(all_known(es[i].1));
        assert(native_base(es[i].1[j].udt_name@) is Some);
    }
}

/// Filtering keeps the groups' order, and keeps every group whose table passes.
pub proof fn lemma_emitted_ordered(gs: Seq<(Seq<char>, Seq<TableDefinition>)>)
    ensures
        forall|i: int, j: int|
            0 <= i < j < emitted(gs).len() ==> exists|ki: int, kj: int|
                0 <= ki < kj < gs.len() && #[trigger] emitted(gs)[i] == gs[ki] && #[trigger] emitted(gs)[j]
                    == gs[kj],
        forall|k: int|
            0 <= k < gs.len() && emits((#[trigger] gs[k]).0) ==> exists|i: int|
                0 <= i < emitted(gs).len() && emitted(gs)[i] == gs[k],
    decreases gs.len(),
{
    if gs.len() > 0 {
        let init = gs.drop_last();
        lemma_emitted_ordered(init);
        lemma_emitted_members(init);
        let es = emitted(gs);
        let ei = emitted(init);
        assert forall|i: int, j: int| 0 <= i < j < es.len() implies exists|ki: int, kj: int|
            0 <= ki < kj < gs.len() && #[trigger] es[i] == gs[ki] && #[trigger] es[j] == gs[kj] by {
            assert(es[i] == ei[i]);
            if j < ei.len() {
                assert(es[j] == ei[j]);
                let (ki, kj) = choose|ki: int, kj: int|
                    0 <= ki < kj < init.len() && #[trigger] ei[i] == init[ki] && #[trigger] ei[j] == init[kj];
                assert(es[i] == gs[ki] && es[j] == gs[kj]);
            } else {
                let ki = choose|ki: int| 0 <= ki < init.len() && #[trigger] ei[i] == init[ki];
                assert(es[j] == gs[gs.len() - 1]);
                assert(es[i] == gs[ki]);
            }
        }
        assert forall|k: int| 0 <= k < gs.len() && emits((#[trigger] gs[k]).0) implies exists|i: int|
            0 <= i < es.len() && es[i] == gs[k] by {
            if k < init.len() {
                assert(init[k] == gs[k]);
                let i = choose|i: int| 0 <= i < ei.len() && ei[i] == init[k];
                assert(es[i] == ei[i]);
            } else {
                assert(es[ei.len() as int] == gs[k]);
            }
        }
    }
}

/// Records come in first-seen order: in a successful run, record `i` is
/// named after the `i`-th emitted table; every table that passes the filter
/// has a record; and every row of an earlier record's table arrives before
/// every row of a later record's table.
pub proof fn lemma_tables_first_seen_order(rows: Seq<TableDefinition>, records: Seq<RecordTypeDefinition>)
    requires
        generation_succeeds(rows),
        records_match(records, rows),
    ensures
        forall|i: int|
            0 <= i < records.len() ==> (#[trigger] records[i])@.name == row_name_of(
                emitted(adjacent_groups(rows))[i].0,
            ),
        forall|p: int|
            0 <= p < rows.len() && emits((#[trigger] rows[p]).table_name@) ==> exists|i: int|
                0 <= i < records.len() && emitted(adjacent_groups(rows))[i].0 == rows[p].table_name@,
        forall|i: int, j: int, p: int, q: int|
            0 <= i < j < records.len() && 0 <= p < rows.len() && 0 <= q < rows.len()
                && (#[trigger] rows[p]).table_name@ == (#[trigger] emitted(adjacent_groups(rows))[i]).0
                && (#[trigger] rows[q]).table_name@ == (#[trigger] emitted(adjacent_groups(rows))[j]).0
                ==> p < q,
{
    let gs = adjacent_groups(rows);
    let es = emitted(gs);
    lemma_well_formed_distinct(gs);
    lemma_groups_are_tables(rows);
    lemma_groups_first_seen_order(rows);
    lemma_emitted_ordered(gs);
    assert forall|p: int| 0 <= p < rows.len() && emits((#[trigger] rows[p]).table_name@) implies exists|i: int|
        0 <= i < records.len() && es[i].0 == rows[p].table_name@ by {
        let k = choose|k: int| 0 <= k < gs.len() && gs[k].0 == (#[trigger] rows[p]).table_name@;
        assert(emits(gs[k].0));
        let i = choose|i: int| 0 <= i < es.len() && es[i] == gs[k];
    }
    assert forall|i: int, j: int, p: int, q: int|
        0 <= i < j < records.len() && 0 <= p < rows.len() && 0 <= q < rows.len()
            && (#[trigger] rows[p]).table_name@ == (#[trigger] es[i]).0
            && (#[trigger] rows[q]).table_name@ == (#[trigger] es[j]).0 implies p < q by {
        let (ki, kj) = choose|ki: int, kj: int|
            0 <= ki < kj < gs.len() && #[trigger] es[i] == gs[ki] && #[trigger] es[j] == gs[kj];
        assert(rows[p].table_name@ == gs[ki].0 && rows[q].table_name@ == gs[kj].0);
    }
}

} // verus!
