use vstd::prelude::*;

verus! {

/// One row of column metadata: a single column of a single table.
#[derive(Clone, Debug)]
pub struct TableDefinition {
    pub table_name: String,
    pub column_name: String,
    pub udt_name: String,
    pub is_nullable: bool,
    pub ordinal_position: i32,
}

impl TableDefinition {
    pub fn new(
        table_name: String,
        column_name: String,
        udt_name: String,
        is_nullable: bool,
        ordinal_position: i32,
    ) -> (r: TableDefinition)
        ensures
            r.table_name == table_name,
            r.column_name == column_name,
            r.udt_name == udt_name,
            r.is_nullable == is_nullable,
            r.ordinal_position == ordinal_position,
    {
        TableDefinition { table_name, column_name, udt_name, is_nullable, ordinal_position }
    }
}

/// The closed vocabulary of Rust base types a column can map to.
#[derive(Clone, Copy, Debug, PartialEq, Eq, Structural)]
pub enum BaseType {
    I64,
    I32,
    I16,
    Text,
    Json,
    TimestampTz,
    Date,
    F32,
    F64,
    Uuid,
    Bool,
    Bytes,
}

/// The Rust spelling of a base type.
pub open spec fn base_type_text(b: BaseType) -> Seq<char> {
    match b {
        BaseType::I64 => "i64"@,
        BaseType::I32 => "i32"@,
        BaseType::I16 => "i16"@,
        BaseType::Text => "String"@,
        BaseType::Json => "sqlx::Json"@,
        BaseType::TimestampTz => "chrono::DateTime<chrono::Utc>"@,
        BaseType::Date => "chrono::NaiveDate"@,
        BaseType::F32 => "f32"@,
        BaseType::F64 => "f64"@,
        BaseType::Uuid => "uuid::Uuid"@,
        BaseType::Bool => "bool"@,
        BaseType::Bytes => "Vec<u8>"@,
    }
}

impl BaseType {
    pub fn rust_name(&self) -> (r: String)
        ensures
            r@ == base_type_text(*self),
    {
        match self {
            BaseType::I64 => String::from_str("i64"),
            BaseType::I32 => String::from_str("i32"),
            BaseType::I16 => String::from_str("i16"),
            BaseType::Text => String::from_str("String"),
            BaseType::Json => String::from_str("sqlx::Json"),
            BaseType::TimestampTz => String::from_str("chrono::DateTime<chrono::Utc>"),
            BaseType::Date => String::from_str("chrono::NaiveDate"),
            BaseType::F32 => String::from_str("f32"),
            BaseType::F64 => String::from_str("f64"),
            BaseType::Uuid => String::from_str("uuid::Uuid"),
            BaseType::Bool => String::from_str("bool"),
            BaseType::Bytes => String::from_str("Vec<u8>"),
        }
    }
}

/// The type of one generated field: a base type, optionally wrapped.
#[derive(Clone, Copy, Debug, PartialEq, Eq, Structural)]
pub struct FieldType {
    pub base: BaseType,
    pub optional: bool,
}

/// The Rust spelling of a field type: `Option<..>` around the base when optional.
pub open spec fn field_type_text(t: FieldType) -> Seq<char> {
    if t.optional {
        "Option<"@ + base_type_text(t.base) + ">"@
    } else {
        base_type_text(t.base)
    }
}

impl FieldType {
    pub fn rust_name(&self) -> (r: String)
        ensures
            r@ == field_type_text(*self),
    {
        let base = self.base.rust_name();
        if self.optional {
            let mut s = String::from_str("Option<");
            s.append(base.as_str());
            s.append(">");
            s
        } else {
            base
        }
    }
}

/// One field of a generated record: its name and its type.
#[derive(Clone, Debug)]
pub struct FieldDefinition {
    pub name: String,
    pub ty: FieldType,
}

/// A generated record type: a name and an ordered list of fields.
#[derive(Clone, Debug)]
pub struct RecordTypeDefinition {
    pub name: String,
    pub fields: Vec<FieldDefinition>,
}

/// What a record is, mathematically: its name and its (field name, type) pairs.
pub struct RecordView {
    pub name: Seq<char>,
    pub fields: Seq<(Seq<char>, FieldType)>,
}

impl View for RecordTypeDefinition {
    type V = RecordView;

    open spec fn view(&self) -> RecordView {
        RecordView {
            name: self.name@,
            fields: self.fields@.map_values(|f: FieldDefinition| (f.name@, f.ty)),
        }
    }
}

/// Why a generation run stopped.
#[derive(Clone, Debug)]
pub enum GenerationError {
    /// A column's native type is outside the mapped vocabulary; holds that type name.
    UnknownType(String),
    /// A table's rows are not contiguous, or its ordinal positions are not
    /// strictly increasing; holds the table name.
    MalformedInput(String),
}

pub enum GenerationErrorView {
    UnknownType(Seq<char>),
    MalformedInput(Seq<char>),
}

impl View for GenerationError {
    type V = GenerationErrorView;

    open spec fn view(&self) -> GenerationErrorView {
        match self {
            GenerationError::UnknownType(s) => GenerationErrorView::UnknownType(s@),
            GenerationError::MalformedInput(s) => GenerationErrorView::MalformedInput(s@),
        }
    }
}

/// Equality of two strings, character by character.
pub fn text_eq(a: &str, b: &str) -> (r: bool)
    ensures
        r == (a@ == b@),
{
    let x = String::from_str(a);
    let y = String::from_str(b);
    x == y
}

} // verus!
