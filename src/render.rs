use vstd::prelude::*;
use codegen::{Scope, Struct};
use crate::emitter::{emitted, expected_record, generate, generation_succeeds, reported_error};
use crate::grouping::adjacent_groups;
use crate::schema::{
    field_type_text, FieldType, GenerationError, RecordTypeDefinition, RecordView, TableDefinition,
};

verus! {

#[verifier::external_type_specification]
#[verifier::external_body]
pub struct ExScope(Scope);

#[verifier::external_type_specification]
#[verifier::external_body]
pub struct ExStruct(Struct);

/// A codegen struct's layout as this library sets it: its visibility, its
/// name, and its (field name, field type text) pairs in order.
pub type StructLayout = (Option<Seq<char>>, Seq<char>, Seq<(Seq<char>, Seq<char>)>);

/// The name a codegen struct definition was created with.
pub uninterp spec fn struct_name_of(s: Struct) -> Seq<char>;

/// The visibility set on a codegen struct, if any.
pub uninterp spec fn struct_vis_of(s: Struct) -> Option<Seq<char>>;

/// The (field name, field type text) pairs of a codegen struct, in order.
pub uninterp spec fn struct_fields_of(s: Struct) -> Seq<(Seq<char>, Seq<char>)>;

/// The struct has only the parts the wrappers below can set: no docs,
/// derives, attributes, generics or bounds, and its fields are named ones
/// (or none yet), never a tuple list.
pub uninterp spec fn struct_is_plain(s: Struct) -> bool;

/// The (path, type) pairs a codegen scope imports, in order.
pub uninterp spec fn scope_imports_of(s: Scope) -> Seq<(Seq<char>, Seq<char>)>;

/// The structs pushed into a codegen scope, in order, each as its layout.
pub uninterp spec fn scope_structs_of(s: Scope) -> Seq<StructLayout>;

/// The scope has no docs, every import is a plain (not `pub`) one, and every
/// item is a plain struct.
pub uninterp spec fn scope_is_plain(s: Scope) -> bool;

/// The Rust source codegen renders for a plain scope with these imports and structs.
pub uninterp spec fn source_text(imports: Seq<(Seq<char>, Seq<char>)>, structs: Seq<StructLayout>) -> Seq<char>;

/// The layout of a codegen struct.
pub open spec fn layout_of(s: Struct) -> StructLayout {
    (struct_vis_of(s), struct_name_of(s), struct_fields_of(s))
}

/// Relies on codegen's `Scope::new`: a scope with no docs, imports or items.
#[verifier::external_body]
fn scope_new() -> (r: Scope)
    ensures
        scope_is_plain(r),
        scope_imports_of(r) == Seq::<(Seq<char>, Seq<char>)>::empty(),
        scope_structs_of(r) == Seq::<StructLayout>::empty(),
{
    Scope::new()
}

/// Relies on codegen's `Scope::import`: it records a `use` line and leaves
/// the items alone; into a scope without imports, a type name without `:`
/// becomes its only import.
#[verifier::external_body]
fn scope_import(scope: &mut Scope, path: &str, ty: &str)
    ensures
        scope_is_plain(*old(scope)) ==> scope_is_plain(*final(scope)),
        scope_structs_of(*final(scope)) == scope_structs_of(*old(scope)),
        scope_imports_of(*old(scope)).len() == 0 && (forall|i: int| 0 <= i < ty@.len() ==> ty@[i] != ':')
            ==> scope_imports_of(*final(scope)) == seq![(path@, ty@)],
{
    scope.import(path, ty);
}

/// Relies on codegen's `Scope::push_struct`: the struct is appended to the items.
#[verifier::external_body]
fn scope_push_struct(scope: &mut Scope, item: Struct)
    ensures
        scope_is_plain(*old(scope)) && struct_is_plain(item) ==> scope_is_plain(*final(scope)),
        scope_imports_of(*final(scope)) == scope_imports_of(*old(scope)),
        scope_structs_of(*final(scope)) == scope_structs_of(*old(scope)).push(layout_of(item)),
{
    scope.push_struct(item);
}

/// Relies on codegen's `Scope::to_string`: the rendered source depends on
/// the imports and struct layouts alone.
#[verifier::external_body]
fn scope_text(scope: &Scope) -> (r: String)
    requires
        scope_is_plain(*scope),
    ensures
        r@ == source_text(scope_imports_of(*scope), scope_structs_of(*scope)),
{
    scope.to_string()
}

/// Relies on codegen's `Struct::new`: a struct of this name with no
/// visibility and no fields.
#[verifier::external_body]
fn struct_new(name: &str) -> (r: Struct)
    ensures
        struct_is_plain(r),
        struct_name_of(r) == name@,
        struct_vis_of(r) == Option::<Seq<char>>::None,
        struct_fields_of(r) == Seq::<(Seq<char>, Seq<char>)>::empty(),
{
    Struct::new(name)
}

/// Relies on codegen's `Struct::vis`: it sets the visibility only.
#[verifier::external_body]
fn struct_vis(item: &mut Struct, vis: &str)
    ensures
        struct_is_plain(*old(item)) ==> struct_is_plain(*final(item)),
        struct_name_of(*final(item)) == struct_name_of(*old(item)),
        struct_vis_of(*final(item)) == Some(vis@),
        struct_fields_of(*final(item)) == struct_fields_of(*old(item)),
{
    item.vis(vis);
}

/// Relies on codegen's `Struct::field`: a named field whose type is the
/// given text is appended (it panics on a tuple field list, which a plain
/// struct never has).
#[verifier::external_body]
fn struct_field(item: &mut Struct, name: &str, ty: &str)
    requires
        struct_is_plain(*old(item)),
    ensures
        struct_is_plain(*final(item)),
        struct_name_of(*final(item)) == struct_name_of(*old(item)),
        struct_vis_of(*final(item)) == struct_vis_of(*old(item)),
        struct_fields_of(*final(item)) == struct_fields_of(*old(item)).push((name@, ty@)),
{
    item.field(name, ty);
}

/// How a record is laid out as a struct: public, under the record's name,
/// and each field declared public with its type's Rust spelling.
pub open spec fn struct_layout(r: RecordView) -> StructLayout {
    (
        Some("pub"@),
        r.name,
        r.fields.map_values(|f: (Seq<char>, FieldType)| ("pub "@ + f.0, field_type_text(f.1))),
    )
}

/// The struct layouts a successful run over these rows renders, one per
/// emitted table in order.
pub open spec fn generated_layouts(rows: Seq<TableDefinition>) -> Seq<StructLayout> {
    emitted(adjacent_groups(rows)).map_values(
        |g: (Seq<char>, Seq<TableDefinition>)| struct_layout(expected_record(g.0, g.1)),
    )
}

/// The imports every generated source starts with.
pub open spec fn generated_imports() -> Seq<(Seq<char>, Seq<char>)> {
    seq![("sqlx"@, "PgConnection"@)]
}

/// Appends a public struct for the record to the scope.
pub fn add_structs_for_table(scope: &mut Scope, record: &RecordTypeDefinition)
    ensures
        scope_is_plain(*old(scope)) ==> scope_is_plain(*final(scope)),
        scope_imports_of(*final(scope)) == scope_imports_of(*old(scope)),
        scope_structs_of(*final(scope)) == scope_structs_of(*old(scope)).push(struct_layout(record@)),
{
    let mut item = struct_new(record.name.as_str());
    struct_vis(&mut item, "pub");
    let mut i: usize = 0;
    while i < record.fields.len()
        invariant
            i <= record.fields@.len(),
            struct_is_plain(item),
            struct_name_of(item) == record.name@,
            struct_vis_of(item) == Some("pub"@),
            struct_fields_of(item) =~= struct_layout(record@).2.take(i as int),
        decreases record.fields@.len() - i,
    {
        let f = &record.fields[i];
        let mut name = String::from_str("pub ");
        name.append(f.name.as_str());
        let ty = f.ty.rust_name();
        struct_field(&mut item, name.as_str(), ty.as_str());
        assert(struct_layout(record@).2.take(i as int + 1) =~= struct_layout(record@).2.take(
            i as int,
        ).push(struct_layout(record@).2[i as int]));
        i += 1;
    }
    assert(struct_layout(record@).2.take(record.fields@.len() as int) =~= struct_layout(record@).2);
    scope_push_struct(scope, item);
}

/// Builds a scope that imports `sqlx::PgConnection` and holds one public
/// struct per record, in order.
pub fn render(records: &Vec<RecordTypeDefinition>) -> (r: Scope)
    ensures
        scope_is_plain(r),
        scope_imports_of(r) == generated_imports(),
        scope_structs_of(r) == records@.map_values(|x: RecordTypeDefinition| struct_layout(x@)),
{
    let mut scope = scope_new();
    proof {
        reveal_strlit("PgConnection");
    }
    assert forall|i: int| 0 <= i < "PgConnection"@.len() implies "PgConnection"@[i] != ':' by {
        assert("PgConnection"@ =~= seq!['P', 'g', 'C', 'o', 'n', 'n', 'e', 'c', 't', 'i', 'o', 'n']);
    }
    scope_import(&mut scope, "sqlx", "PgConnection");
    let mut i: usize = 0;
    while i < records.len()
        invariant
            i <= records@.len(),
            scope_is_plain(scope),
            scope_imports_of(scope) == generated_imports(),
            scope_structs_of(scope) =~= records@.take(i as int).map_values(
                |x: RecordTypeDefinition| struct_layout(x@),
            ),
        decreases records@.len() - i,
    {
        add_structs_for_table(&mut scope, &records[i]);
        assert(records@.take(i as int + 1) =~= records@.take(i as int).push(records@[i as int]));
        i += 1;
    }
    assert(records@.take(records@.len() as int) =~= records@);
    scope
}

/// Generates the source text of the record types for a schema, or the error
/// that stops the run; nothing is rendered when the run fails.
pub fn generate_source(rows: Vec<TableDefinition>) -> (r: Result<String, GenerationError>)
    ensures
        r is Ok <==> generation_succeeds(rows@),
        r is Ok ==> r->Ok_0@ == source_text(generated_imports(), generated_layouts(rows@)),
        r is Err ==> reported_error(rows@, r->Err_0@),
{
    let ghost input = rows@;
    match generate(rows) {
        Ok(records) => {
            let scope = render(&records);
            assert(scope_structs_of(scope) =~= generated_layouts(input));
            Ok(scope_text(&scope))
        },
        Err(e) => Err(e),
    }
}

} // verus!
