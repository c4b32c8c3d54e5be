use vstd::prelude::*;
use crate::schema::{text_eq, BaseType, GenerationError, GenerationErrorView};

verus! {

/// The base type a native database type maps to, or `None` outside the vocabulary.
pub open spec fn native_base(t: Seq<char>) -> Option<BaseType> {
    if t == "int8"@ {
        Some(BaseType::I64)
    } else if t == "int4"@ {
        Some(BaseType::I32)
    } else if t == "int2"@ {
        Some(BaseType::I16)
    } else if t == "text"@ || t == "varchar"@ {
        Some(BaseType::Text)
    } else if t == "jsonb"@ {
        Some(BaseType::Json)
    } else if t == "timestamptz"@ {
        Some(BaseType::TimestampTz)
    } else if t == "date"@ {
        Some(BaseType::Date)
    } else if t == "float4"@ {
        Some(BaseType::F32)
    } else if t == "float8"@ {
        Some(BaseType::F64)
    } else if t == "uuid"@ {
        Some(BaseType::Uuid)
    } else if t == "boolean"@ {
        Some(BaseType::Bool)
    } else if t == "bytea"@ {
        Some(BaseType::Bytes)
    } else {
        None
    }
}

/// Maps a native type name to its base type; unknown names are an error naming them.
pub fn map_native_type(pg_type: &str) -> (r: Result<BaseType, GenerationError>)
    ensures
        match native_base(pg_type@) {
            Some(b) => r == Ok::<BaseType, GenerationError>(b),
            None => r is Err && r->Err_0@ == GenerationErrorView::UnknownType(pg_type@),
        },
{
    if text_eq(pg_type, "int8") {
        Ok(BaseType::I64)
    } else if text_eq(pg_type, "int4") {
        Ok(BaseType::I32)
    } else if text_eq(pg_type, "int2") {
        Ok(BaseType::I16)
    } else if text_eq(pg_type, "text") || text_eq(pg_type, "varchar") {
        Ok(BaseType::Text)
    } else if text_eq(pg_type, "jsonb") {
        Ok(BaseType::Json)
    } else if text_eq(pg_type, "timestamptz") {
        Ok(BaseType::TimestampTz)
    } else if text_eq(pg_type, "date") {
        Ok(BaseType::Date)
    } else if text_eq(pg_type, "float4") {
        Ok(BaseType::F32)
    } else if text_eq(pg_type, "float8") {
        Ok(BaseType::F64)
    } else if text_eq(pg_type, "uuid") {
        Ok(BaseType::Uuid)
    } else if text_eq(pg_type, "boolean") {
        Ok(BaseType::Bool)
    } else if text_eq(pg_type, "bytea") {
        Ok(BaseType::Bytes)
    } else {
        Err(GenerationError::UnknownType(String::from_str(pg_type)))
    }
}

/// The Rust spelling of the type a native type maps to.
pub fn pg_type_to_rs_type(pg_type: &str) -> (r: Result<String, GenerationError>)
    ensures
        match native_base(pg_type@) {
            Some(b) => r is Ok && r->Ok_0@ == crate::schema::base_type_text(b),
            None => r is Err && r->Err_0@ == GenerationErrorView::UnknownType(pg_type@),
        },
{
    match map_native_type(pg_type) {
        Ok(b) => Ok(b.rust_name()),
        Err(e) => Err(e),
    }
}

} // verus!
