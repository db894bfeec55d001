//! The generic columnar schema that this crate wraps, and what is taken on
//! trust about it.
//!
//! A generic schema is an ordered list of fields (name, physical type,
//! nullability) and a string-keyed metadata map. It is an opaque value here:
//! the contracts below say what each operation on it gives, and nothing in
//! this file is proved.
use crate::physical::PhysicalType;
use crate::physical::TypeModel;
use arrow::datatypes::DataType as ArrowDataType;
use arrow::datatypes::Field as ArrowField;
use arrow::datatypes::Schema as ArrowSchema;
use arrow::error::ArrowError;
use std::sync::Arc;
use vstd::prelude::*;

verus! {

/// `arrow::datatypes::Schema`, the generic schema: an opaque value.
#[verifier::external_type_specification]
#[verifier::external_body]
pub struct ExArrowSchema(ArrowSchema);

/// `arrow::datatypes::Field`, one field of a generic schema: an opaque
/// value.
#[verifier::external_type_specification]
#[verifier::external_body]
pub struct ExArrowField(ArrowField);

/// `arrow::error::ArrowError`, the failure of an operation on generic
/// schemas: an opaque value.
#[verifier::external_type_specification]
#[verifier::external_body]
pub struct ExArrowError(ArrowError);

/// What this layer reads of one column.
pub struct ColumnModel {
    pub name: Seq<char>,
    pub data_type: TypeModel,
    pub nullable: bool,
}

/// What a generic schema holds as fields (`Schema::fields`), in positional
/// order.
pub uninterp spec fn schema_fields(s: ArrowSchema) -> Seq<ArrowField>;

/// What a generic schema holds as metadata (`Schema::metadata`): the value
/// under each key.
pub uninterp spec fn schema_metadata(s: ArrowSchema) -> Map<Seq<char>, Seq<char>>;

/// What `Field::name` returns: the name of a field.
pub uninterp spec fn name_in(f: ArrowField) -> Seq<char>;

/// What `Field::data_type` returns, as this layer knows it: one of the five
/// scalar types is its own variant; any other type is `Other` with its
/// `Debug` rendering.
pub uninterp spec fn type_in(f: ArrowField) -> TypeModel;

/// What `Field::is_nullable` returns: whether a field admits nulls.
pub uninterp spec fn nullable_in(f: ArrowField) -> bool;

/// Name, physical type and nullability of a field.
pub open spec fn field_model(f: ArrowField) -> ColumnModel {
    ColumnModel { name: name_in(f), data_type: type_in(f), nullable: nullable_in(f) }
}

/// What `Schema::try_merge` returns for the two schemas, in this order.
pub uninterp spec fn arrow_merge(a: ArrowSchema, b: ArrowSchema) -> Result<ArrowSchema, ArrowError>;

/// The `Display` rendering of an `ArrowError`.
pub uninterp spec fn error_text(e: ArrowError) -> Seq<char>;

/// The columns of a generic schema, in positional order.
pub open spec fn schema_columns(s: ArrowSchema) -> Seq<ColumnModel> {
    Seq::new(schema_fields(s).len(), |i: int| field_model(schema_fields(s)[i]))
}

/// The names of a sequence of columns.
pub open spec fn names_of(columns: Seq<ColumnModel>) -> Seq<Seq<char>> {
    Seq::new(columns.len(), |i: int| columns[i].name)
}

/// The map that a list of key-value pairs with distinct keys stands for.
pub open spec fn pairs_map(pairs: Seq<(String, String)>) -> Map<Seq<char>, Seq<char>> {
    Map::new(
        |k: Seq<char>| exists|i: int| 0 <= i < pairs.len() && (#[trigger] pairs[i]).0@ == k,
        |k: Seq<char>|
            {
                let i = choose|i: int| 0 <= i < pairs.len() && (#[trigger] pairs[i]).0@ == k;
                pairs[i].1@
            },
    )
}

/// No two pairs of the list have the same key.
pub open spec fn distinct_keys(pairs: Seq<(String, String)>) -> bool {
    forall|i: int, j: int|
        0 <= i < j < pairs.len() ==> (#[trigger] pairs[i]).0@ != (#[trigger] pairs[j]).0@
}

/// Whether a column of the given name is among the columns.
pub open spec fn has_name(columns: Seq<ColumnModel>, name: Seq<char>) -> bool {
    exists|i: int| 0 <= i < columns.len() && (#[trigger] columns[i]).name == name
}

/// What a successful structural merge of `a` and `b` into `m` has done.
///
/// The metadata maps are united and agree where both have a key. The fields
/// of `a` keep their places and names; one whose name `b` lacks is unchanged,
/// and one of a scalar type that `b` has under the same type keeps that type
/// and admits nulls where either side does. The fields of `b` whose names `a`
/// lacks follow unchanged, in their order.
pub open spec fn merge_facts(a: ArrowSchema, b: ArrowSchema, m: ArrowSchema) -> bool {
    let ca = schema_columns(a);
    let cb = schema_columns(b);
    let cm = schema_columns(m);
    &&& schema_metadata(m) == schema_metadata(a).union_prefer_right(schema_metadata(b))
    &&& forall|k: Seq<char>|
        schema_metadata(a).dom().contains(k) && schema_metadata(b).dom().contains(k)
            ==> schema_metadata(a)[k] == schema_metadata(b)[k]
    &&& cm.len() >= ca.len()
    &&& forall|i: int| 0 <= i < ca.len() ==> (#[trigger] cm[i]).name == ca[i].name
    &&& forall|i: int|
        0 <= i < ca.len() && !has_name(cb, ca[i].name) ==> (#[trigger] schema_fields(m)[i])
            == schema_fields(a)[i]
    &&& forall|i: int, j: int|
        0 <= i < ca.len() && 0 <= j < cb.len() && (#[trigger] cb[j]).name == ca[i].name
            && cb[j].data_type == ca[i].data_type && !(ca[i].data_type is Other) ==> (
        #[trigger] cm[i]) == (ColumnModel {
            name: ca[i].name,
            data_type: ca[i].data_type,
            nullable: ca[i].nullable || cb[j].nullable,
        })
    &&& schema_fields(m).subrange(ca.len() as int, cm.len() as int) == schema_fields(b).filter(
        |f: ArrowField| !has_name(ca, field_model(f).name),
    )
}

/// `Schema::fields` and the length of what it returns: the number of fields.
#[verifier::external_body]
pub(crate) fn schema_len(s: &ArrowSchema) -> (n: usize)
    ensures
        n == schema_fields(*s).len(),
{
    s.fields().len()
}

/// `Schema::field`: the field at a position. It panics past the end, so the
/// position must be in range.
#[verifier::external_body]
pub(crate) fn schema_field(s: &ArrowSchema, i: usize) -> (f: &ArrowField)
    requires
        i < schema_fields(*s).len(),
    ensures
        *f == schema_fields(*s)[i as int],
{
    s.field(i)
}

/// `Field::name`: the name of a field.
#[verifier::external_body]
pub(crate) fn field_name(f: &ArrowField) -> (n: &String)
    ensures
        n@ == name_in(*f),
{
    f.name()
}

/// `Field::data_type`: the physical type of a field. The five scalar types
/// are told apart by variant; any other type is carried as its `Debug`
/// rendering.
#[verifier::external_body]
pub(crate) fn field_type(f: &ArrowField) -> (t: PhysicalType)
    ensures
        t@ == type_in(*f),
{
    match f.data_type() {
        ArrowDataType::Float64 => PhysicalType::Float64,
        ArrowDataType::Int64 => PhysicalType::Int64,
        ArrowDataType::UInt64 => PhysicalType::UInt64,
        ArrowDataType::Utf8 => PhysicalType::Utf8,
        ArrowDataType::Boolean => PhysicalType::Boolean,
        other => PhysicalType::Other(format!("{:?}", other)),
    }
}

/// `Field::is_nullable`: whether a field admits nulls.
#[verifier::external_body]
pub(crate) fn field_nullable(f: &ArrowField) -> (b: bool)
    ensures
        b == nullable_in(*f),
{
    f.is_nullable()
}

/// `Field::clone`: a copy of a field.
#[verifier::external_body]
pub(crate) fn field_clone(f: &ArrowField) -> (r: ArrowField)
    ensures
        r == *f,
{
    f.clone()
}

/// `Schema::metadata` and `Metadata::get`: the value stored under a key, if
/// there is one.
#[verifier::external_body]
pub(crate) fn metadata_get<'a>(s: &'a ArrowSchema, key: &str) -> (v: Option<&'a String>)
    ensures
        v.is_some() == schema_metadata(*s).dom().contains(key@),
        v matches Some(value) ==> value@ == schema_metadata(*s)[key@],
{
    s.metadata().get(key)
}

/// `Schema::index_of`: the position of the first field with the given name,
/// or none where no field has it.
#[verifier::external_body]
pub(crate) fn index_of(s: &ArrowSchema, name: &str) -> (r: Option<usize>)
    ensures
        match r {
            Some(i) => {
                &&& i < schema_fields(*s).len()
                &&& schema_columns(*s)[i as int].name == name@
                &&& forall|j: int| 0 <= j < i ==> (#[trigger] schema_columns(*s)[j]).name != name@
            },
            None => forall|j: int|
                0 <= j < schema_fields(*s).len() ==> (#[trigger] schema_columns(*s)[j]).name
                    != name@,
        },
{
    s.index_of(name).ok()
}

/// `Schema::new_with_metadata`: a schema of the given fields, in their order,
/// whose metadata map holds the given pairs.
#[verifier::external_body]
pub(crate) fn new_schema(fields: Vec<ArrowField>, metadata: Vec<(String, String)>) -> (r:
    ArrowSchema)
    requires
        distinct_keys(metadata@),
    ensures
        schema_fields(r) == fields@,
        schema_metadata(r) == pairs_map(metadata@),
{
    ArrowSchema::new_with_metadata(fields, metadata.into_iter().collect::<std::collections::HashMap<_, _>>())
}

/// `Schema::new_with_metadata` on a copy of the metadata of `s`: a schema of
/// the given fields with the metadata map of `s`.
#[verifier::external_body]
pub(crate) fn with_fields(s: &ArrowSchema, fields: Vec<ArrowField>) -> (r: ArrowSchema)
    ensures
        schema_fields(r) == fields@,
        schema_metadata(r) == schema_metadata(*s),
{
    ArrowSchema::new_with_metadata(fields, s.metadata().clone())
}

/// `Schema::try_merge` on the two schemas, in this order. Where it succeeds,
/// the merged schema is as `merge_facts` says; neither input may name a
/// field twice.
#[verifier::external_body]
pub(crate) fn merge_two(a: ArrowSchema, b: ArrowSchema) -> (r: Result<ArrowSchema, ArrowError>)
    requires
        names_of(schema_columns(a)).no_duplicates(),
        names_of(schema_columns(b)).no_duplicates(),
    ensures
        r == arrow_merge(a, b),
        r matches Ok(m) ==> merge_facts(a, b, m),
{
    ArrowSchema::try_merge([a, b])
}

/// `Arc::unwrap_or_clone`: the value behind a shared handle.
#[verifier::external_body]
pub(crate) fn owned_schema(s: Arc<ArrowSchema>) -> (r: ArrowSchema)
    ensures
        r == *s,
{
    Arc::unwrap_or_clone(s)
}

/// `Arc::clone`: one more handle to the same value.
#[verifier::external_body]
pub(crate) fn share(s: &Arc<ArrowSchema>) -> (r: Arc<ArrowSchema>)
    ensures
        r == *s,
{
    Arc::clone(s)
}

/// The `Display` rendering of a structural merge failure.
#[verifier::external_body]
pub(crate) fn error_message(e: &ArrowError) -> (r: String)
    ensures
        r@ == error_text(*e),
{
    format!("{}", e)
}

} // verus!
