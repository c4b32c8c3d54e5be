use vstd::prelude::*;

verus! {

/// The class-cased (PascalCase) form of an identifier, as the casing library computes it.
pub uninterp spec fn pascal_of(s: Seq<char>) -> Seq<char>;

/// Relies on inflector's `to_pascal_case`: its result depends on the characters alone.
#[verifier::external_body]
fn pascal_case(s: &str) -> (r: String)
    ensures
        r@ == pascal_of(s@),
{
    inflector::cases::pascalcase::to_pascal_case(s)
}

/// A name is already class-cased when class-casing leaves it as it is (the
/// casing library's own test for PascalCase); these are exactly the fixed
/// points of the casing function.
pub open spec fn is_class_cased(s: Seq<char>) -> bool {
    pascal_of(s) == s
}

/// The record type name for a table.
pub open spec fn row_name_of(table: Seq<char>) -> Seq<char> {
    pascal_of(table)
}

/// The companion "input" record type name for a table.
pub open spec fn input_row_name_of(table: Seq<char>) -> Seq<char> {
    pascal_of(table) + "Input"@
}

/// The record type name for a table, e.g. `customer_orders` gives `CustomerOrders`.
pub fn row_struct_name(table_name: &str) -> (r: String)
    ensures
        r@ == row_name_of(table_name@),
{
    pascal_case(table_name)
}

/// The input variant's type name, e.g. `customer_orders` gives `CustomerOrdersInput`.
pub fn input_row_struct_name(table_name: &str) -> (r: String)
    ensures
        r@ == input_row_name_of(table_name@),
{
    let mut s = pascal_case(table_name);
    s.append("Input");
    s
}

/// Naming is a function of the table name alone: equal table names give equal
/// type names. A name that is a fixed point of the casing function is kept as
/// the record name, and gets the suffix for the input name. Nothing is claimed
/// of names outside those fixed points.
pub proof fn lemma_naming_deterministic_and_idempotent(a: Seq<char>, b: Seq<char>)
    ensures
        a == b ==> row_name_of(a) == row_name_of(b) && input_row_name_of(a) == input_row_name_of(b),
        is_class_cased(a) ==> row_name_of(a) == a,
        is_class_cased(a) ==> input_row_name_of(a) == a + "Input"@,
{
}

} // verus!
