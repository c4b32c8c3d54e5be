use pg_typegen::emitter::{generate, ordinals_in_order, record_for_table};
use pg_typegen::grouping::group_columns;
use pg_typegen::naming::{input_row_struct_name, row_struct_name};
use pg_typegen::render::{add_structs_for_table, generate_source, render};
use pg_typegen::schema::{BaseType, FieldType, GenerationError, RecordTypeDefinition, TableDefinition};
use pg_typegen::table_filter::should_emit;
use pg_typegen::type_mapper::{map_native_type, pg_type_to_rs_type};

fn row(table: &str, column: &str, udt: &str, nullable: bool, ordinal: i32) -> TableDefinition {
    TableDefinition::new(
        table.to_string(),
        column.to_string(),
        udt.to_string(),
        nullable,
        ordinal,
    )
}

fn field_pairs(r: &RecordTypeDefinition) -> Vec<(String, FieldType)> {
    r.fields.iter().map(|f| (f.name.clone(), f.ty)).collect()
}

#[test]
fn maps_every_known_native_type() {
    let cases = [
        ("int8", "i64"),
        ("int4", "i32"),
        ("int2", "i16"),
        ("text", "String"),
        ("varchar", "String"),
        ("jsonb", "sqlx::Json"),
        ("timestamptz", "chrono::DateTime<chrono::Utc>"),
        ("date", "chrono::NaiveDate"),
        ("float4", "f32"),
        ("float8", "f64"),
        ("uuid", "uuid::Uuid"),
        ("boolean", "bool"),
        ("bytea", "Vec<u8>"),
    ];
    for (native, rust) in cases {
        assert_eq!(pg_type_to_rs_type(native).unwrap(), rust);
    }
}

#[test]
fn maps_native_type_to_base() {
    assert_eq!(map_native_type("int4").unwrap(), BaseType::I32);
    assert_eq!(map_native_type("varchar").unwrap(), BaseType::Text);
    assert_eq!(map_native_type("bytea").unwrap(), BaseType::Bytes);
}

#[test]
fn unknown_native_type_is_an_error() {
    for native in ["money", "", "INT4", "int4 ", "numeric"] {
        match pg_type_to_rs_type(native) {
            Err(GenerationError::UnknownType(t)) => assert_eq!(t, native),
            other => panic!("unexpected result {:?}", other),
        }
    }
}

#[test]
fn filter_excludes_only_the_migrations_table() {
    assert!(!should_emit("_sqlx_migrations"));
    assert!(should_emit("orders"));
    assert!(should_emit("_SQLX_MIGRATIONS"));
    assert!(should_emit("Users"));
    assert!(should_emit(""));
}

#[test]
fn names_are_class_cased() {
    assert_eq!(row_struct_name("customer_orders"), "CustomerOrders");
    assert_eq!(input_row_struct_name("customer_orders"), "CustomerOrdersInput");
    assert_eq!(row_struct_name("users"), "Users");
}

#[test]
fn naming_is_idempotent_and_deterministic() {
    let once = row_struct_name("customer_orders");
    assert_eq!(row_struct_name(&once), once);
    assert_eq!(row_struct_name("CustomerOrders"), "CustomerOrders");
    assert_eq!(row_struct_name("customer_orders"), row_struct_name("customer_orders"));
}

#[test]
fn groups_follow_arrival_order() {
    let rows = vec![
        row("b", "x", "int4", false, 1),
        row("b", "y", "int4", false, 2),
        row("a", "z", "text", true, 1),
    ];
    let groups = group_columns(rows);
    assert_eq!(groups.len(), 2);
    assert_eq!(groups[0].0, "b");
    assert_eq!(groups[0].1.len(), 2);
    assert_eq!(groups[0].1[1].column_name, "y");
    assert_eq!(groups[1].0, "a");
    assert_eq!(groups[1].1.len(), 1);
}

#[test]
fn ordinals_must_be_positions_one_to_n() {
    assert!(ordinals_in_order(&vec![]));
    assert!(ordinals_in_order(&vec![row("t", "a", "int4", false, 1), row("t", "b", "int4", false, 2)]));
    assert!(!ordinals_in_order(&vec![row("t", "a", "int4", false, 1), row("t", "b", "int4", false, 3)]));
    assert!(!ordinals_in_order(&vec![row("t", "a", "int4", false, 2), row("t", "b", "int4", false, 2)]));
    assert!(!ordinals_in_order(&vec![row("t", "a", "int4", false, 2), row("t", "b", "int4", false, 1)]));
    assert!(!ordinals_in_order(&vec![row("t", "a", "int4", false, 0)]));
    assert!(!ordinals_in_order(&vec![row("t", "a", "int4", false, -1)]));
}

#[test]
fn empty_column_list_is_malformed() {
    match record_for_table("ghosts", &vec![]) {
        Err(GenerationError::MalformedInput(t)) => assert_eq!(t, "ghosts"),
        other => panic!("unexpected result {:?}", other),
    }
}

#[test]
fn ordinal_gap_is_malformed() {
    let rows = vec![row("a", "x", "int4", false, 1), row("a", "y", "int4", false, 3)];
    match generate(rows) {
        Err(GenerationError::MalformedInput(t)) => assert_eq!(t, "a"),
        other => panic!("unexpected result {:?}", other),
    }
}

#[test]
fn record_fields_follow_column_order_and_nullability() {
    let cols = vec![
        row("users", "id", "int4", false, 1),
        row("users", "email", "text", true, 2),
        row("users", "created", "timestamptz", false, 3),
    ];
    let rec = record_for_table("users", &cols).unwrap();
    assert_eq!(rec.name, "Users");
    assert_eq!(
        field_pairs(&rec),
        vec![
            ("id".to_string(), FieldType { base: BaseType::I32, optional: false }),
            ("email".to_string(), FieldType { base: BaseType::Text, optional: true }),
            ("created".to_string(), FieldType { base: BaseType::TimestampTz, optional: false }),
        ]
    );
}

#[test]
fn scenario_single_table() {
    let rows = vec![row("users", "id", "int4", false, 1), row("users", "email", "text", true, 2)];
    let recs = generate(rows).unwrap();
    assert_eq!(recs.len(), 1);
    assert_eq!(recs[0].name, "Users");
    assert_eq!(
        field_pairs(&recs[0]),
        vec![
            ("id".to_string(), FieldType { base: BaseType::I32, optional: false }),
            ("email".to_string(), FieldType { base: BaseType::Text, optional: true }),
        ]
    );
}

#[test]
fn scenario_unknown_type_aborts() {
    let rows = vec![
        row("accounts", "id", "int8", false, 1),
        row("accounts", "balance", "money", false, 2),
        row("zebras", "id", "int4", false, 1),
    ];
    match generate(rows) {
        Err(GenerationError::UnknownType(t)) => assert_eq!(t, "money"),
        other => panic!("unexpected result {:?}", other),
    }
}

#[test]
fn scenario_unknown_type_yields_no_source() {
    let rows = vec![row("a", "id", "int4", false, 1), row("b", "amount", "money", true, 1)];
    match generate_source(rows) {
        Err(GenerationError::UnknownType(t)) => assert_eq!(t, "money"),
        other => panic!("unexpected result {:?}", other),
    }
}

#[test]
fn first_unknown_column_is_reported() {
    let rows = vec![
        row("t", "a", "int4", false, 1),
        row("t", "b", "money", false, 2),
        row("t", "c", "numeric", false, 3),
    ];
    match generate(rows) {
        Err(GenerationError::UnknownType(t)) => assert_eq!(t, "money"),
        other => panic!("unexpected result {:?}", other),
    }
}

#[test]
fn scenario_migrations_table_is_skipped() {
    let rows = vec![
        row("_sqlx_migrations", "version", "int8", false, 1),
        row("_sqlx_migrations", "checksum", "bytea", false, 2),
        row("orders", "id", "uuid", false, 1),
    ];
    let recs = generate(rows).unwrap();
    assert_eq!(recs.len(), 1);
    assert_eq!(recs[0].name, "Orders");
}

#[test]
fn unknown_type_in_skipped_table_is_ignored() {
    let rows = vec![
        row("_sqlx_migrations", "weird", "money", false, 1),
        row("orders", "id", "uuid", false, 1),
    ];
    let recs = generate(rows).unwrap();
    assert_eq!(recs.len(), 1);
    assert_eq!(recs[0].name, "Orders");
}

#[test]
fn scenario_tables_keep_first_seen_order() {
    let rows = vec![row("a", "x", "int4", false, 1), row("b", "y", "int4", false, 1)];
    let recs = generate(rows).unwrap();
    assert_eq!(recs.len(), 2);
    assert_eq!(recs[0].name, "A");
    assert_eq!(recs[1].name, "B");

    let rows = vec![row("b", "y", "int4", false, 1), row("a", "x", "int4", false, 1)];
    let recs = generate(rows).unwrap();
    assert_eq!(recs[0].name, "B");
    assert_eq!(recs[1].name, "A");
}

#[test]
fn empty_input_generates_nothing() {
    assert_eq!(generate(vec![]).unwrap().len(), 0);
}

#[test]
fn non_contiguous_table_is_malformed() {
    let rows = vec![
        row("a", "x", "int4", false, 1),
        row("b", "y", "int4", false, 1),
        row("a", "z", "int4", false, 2),
    ];
    match generate(rows) {
        Err(GenerationError::MalformedInput(t)) => assert_eq!(t, "a"),
        other => panic!("unexpected result {:?}", other),
    }
}

#[test]
fn repeated_ordinal_is_malformed() {
    let rows = vec![
        row("a", "x", "money", false, 1),
        row("b", "y", "int4", false, 1),
        row("b", "z", "int4", false, 1),
    ];
    match generate(rows) {
        Err(GenerationError::MalformedInput(t)) => assert_eq!(t, "b"),
        other => panic!("unexpected result {:?}", other),
    }
}

#[test]
fn rendered_source_holds_the_structs() {
    let rows = vec![
        row("users", "id", "int4", false, 1),
        row("users", "email", "text", true, 2),
        row("customer_orders", "id", "int8", false, 1),
    ];
    let src = generate_source(rows).unwrap();
    assert!(src.starts_with("use sqlx::PgConnection;"));
    assert!(src.contains("pub struct Users {"));
    assert!(src.contains("pub id: i32,"));
    assert!(src.contains("pub email: Option<String>,"));
    assert!(src.contains("pub struct CustomerOrders {"));
    assert!(src.contains("pub id: i64,"));
    assert!(src.find("pub struct Users").unwrap() < src.find("pub struct CustomerOrders").unwrap());
}

#[test]
fn rendering_a_scope_directly() {
    let rec = record_for_table("line_items", &vec![row("line_items", "qty", "int2", true, 1)]).unwrap();
    let scope = render(&vec![rec.clone()]);
    let text = scope.to_string();
    assert!(text.contains("pub struct LineItems {"));
    assert!(text.contains("pub qty: Option<i16>,"));

    let mut scope = codegen::Scope::new();
    add_structs_for_table(&mut scope, &rec);
    assert!(scope.to_string().contains("pub struct LineItems {"));
}
