//! Laws of validation and merging.
use crate::column_type::InfluxColumnType;
use crate::error::Error;
use crate::error::ErrorModel;
use crate::generic::ColumnModel;
use crate::generic::field_model;
use crate::generic::has_name;
use crate::generic::merge_facts;
use crate::generic::names_of;
use crate::merge::conflict_at;
use crate::merge::conflict_positions;
use crate::merge::lemma_filter_keeps_order;
use crate::merge::merge_conflict;
use crate::merge::name_positions;
use crate::merge::needs_merge;
use crate::merge::position_of;
use crate::parts::assigned_role;
use crate::parts::parts_metadata;
use crate::schema::MEASUREMENT_METADATA_KEY;
use crate::schema::Schema;
use crate::schema::measurement_in;
use crate::schema::mismatch_positions;
use crate::schema::mismatched;
use crate::schema::repeat_positions;
use crate::schema::repeats;
use crate::schema::role_in;
use crate::schema::validation_error;
use crate::search::is_first;
use crate::search::lemma_first_where;
use crate::search::lemma_first_where_none;
use crate::search::lemma_first_where_some;
use arrow::datatypes::Field as ArrowField;
use vstd::prelude::*;

verus! {

/// A schema that validation has accepted is accepted again: validating the
/// generic schema behind a schema with distinct column names and fitting
/// roles finds no error.
pub proof fn law_validation_round_trip(s: Schema)
    requires
        s.unique_names(),
        s.well_typed(),
    ensures
        validation_error(s.columns(), s.metadata()).is_none(),
{
    let columns = s.columns();
    let names = names_of(columns);
    assert forall|i: int| 0 <= i < columns.len() implies !#[trigger] repeat_positions(names)(i) by {
        if repeats(names, i) {
            let j = choose|j: int| 0 <= j < i && #[trigger] names[j] == names[i];
            assert(names[j] != names[i]);
        }
    }
    lemma_first_where_none(columns.len() as int, repeat_positions(names));
    assert forall|i: int| 0 <= i < columns.len() implies !#[trigger] mismatch_positions(
        columns,
        s.metadata(),
    )(i) by {
        assert(s.role_at(i) == role_in(s.metadata(), columns[i].name));
    }
    lemma_first_where_none(columns.len() as int, mismatch_positions(columns, s.metadata()));
}

/// The metadata that the parts of a schema stand for gives back what went
/// in: the measurement name, and for every name but the measurement key the
/// role that the parts give it.
pub proof fn law_parts_round_trip(
    measurement: Option<String>,
    tags: Seq<String>,
    fields: Seq<(String, InfluxColumnType)>,
    time: Option<String>,
    name: Seq<char>,
)
    ensures
        measurement_in(parts_metadata(measurement, tags, fields, time)) == match measurement {
            Some(m) => Some(m@),
            None => if assigned_role(tags, fields, time, MEASUREMENT_METADATA_KEY@).is_some() {
                Some(assigned_role(tags, fields, time, MEASUREMENT_METADATA_KEY@).unwrap().token())
            } else {
                None
            },
        },
        name != MEASUREMENT_METADATA_KEY@ || measurement.is_none() ==> role_in(
            parts_metadata(measurement, tags, fields, time),
            name,
        ) == assigned_role(tags, fields, time, name),
{
    if assigned_role(tags, fields, time, name).is_some() {
        InfluxColumnType::lemma_decode_token(assigned_role(tags, fields, time, name).unwrap());
    }
}

/// Columns of which two have the same name are no valid schema: validation
/// reports the name at the first position that repeats an earlier one.
pub proof fn law_repeated_name_fails(
    columns: Seq<ColumnModel>,
    metadata: Map<Seq<char>, Seq<char>>,
)
    requires
        !names_of(columns).no_duplicates(),
    ensures
        exists|i: int|
            is_first(columns.len() as int, repeat_positions(names_of(columns)), i)
                && validation_error(columns, metadata) == Some(
                ErrorModel::DuplicateColumnName { column_name: columns[i].name },
            ),
{
    let names = names_of(columns);
    let p = repeat_positions(names);
    lemma_first_where(columns.len() as int, p);
    if crate::search::first_where(columns.len() as int, p).is_none() {
        assert forall|a: int, b: int| 0 <= a < names.len() && 0 <= b < names.len() && a != b
            implies names[a] != names[b] by {
            if a < b {
                assert(!p(b));
            } else {
                assert(!p(a));
            }
        }
    }
    let i = crate::search::first_where(columns.len() as int, p).unwrap();
    assert(is_first(columns.len() as int, p, i));
}

/// Columns with distinct names of which one has a role that does not fit its
/// physical type are no valid schema: validation reports the first such
/// column, its role and its physical type.
pub proof fn law_mismatched_role_fails(
    columns: Seq<ColumnModel>,
    metadata: Map<Seq<char>, Seq<char>>,
    k: int,
)
    requires
        names_of(columns).no_duplicates(),
        0 <= k < columns.len(),
        mismatched(columns, metadata, k),
    ensures
        exists|i: int|
            is_first(columns.len() as int, mismatch_positions(columns, metadata), i)
                && validation_error(columns, metadata) == Some(
                ErrorModel::IncompatibleMetadata {
                    column_name: columns[i].name,
                    influxdb_column_type: role_in(metadata, columns[i].name).unwrap(),
                    actual_type: columns[i].data_type,
                },
            ),
{
    let names = names_of(columns);
    assert forall|i: int| 0 <= i < columns.len() implies !#[trigger] repeat_positions(names)(i) by {
        if repeats(names, i) {
            let j = choose|j: int| 0 <= j < i && #[trigger] names[j] == names[i];
            assert(names[j] != names[i]);
        }
    }
    lemma_first_where_none(columns.len() as int, repeat_positions(names));
    let p = mismatch_positions(columns, metadata);
    lemma_first_where(columns.len() as int, p);
    assert(p(k));
    let i = crate::search::first_where(columns.len() as int, p).unwrap();
    assert(is_first(columns.len() as int, p, i));
}

/// Among columns with distinct names, the position of a column's name is the
/// position of the column.
pub proof fn lemma_position_of_own(columns: Seq<ColumnModel>, i: int)
    requires
        names_of(columns).no_duplicates(),
        0 <= i < columns.len(),
    ensures
        position_of(columns, columns[i].name) == Some(i),
{
    let names = names_of(columns);
    let p = name_positions(columns, columns[i].name);
    assert forall|k: int| 0 <= k < i implies !#[trigger] p(k) by {
        assert(names[k] != names[i]);
    }
    lemma_first_where_some(columns.len() as int, p, i);
}

/// Merging a schema with itself gives the schema itself.
pub proof fn law_merge_identity(s: Schema, r: Result<Schema, Error>)
    requires
        s.unique_names(),
        s.merge_outcome(s, r),
    ensures
        r == Ok::<Schema, Error>(s),
{
    let c = s.columns();
    let m = s.metadata();
    assert forall|j: int| 0 <= j < c.len() implies !#[trigger] conflict_positions(c, m, c, m)(j) by {
        lemma_position_of_own(c, j);
    }
    lemma_first_where_none(c.len() as int, conflict_positions(c, m, c, m));
    assert(merge_conflict(c, m, c, m).is_none());
    assert forall|j: int| 0 <= j < c.len() implies has_name(c, #[trigger] c[j].name) by {
        assert(c[j].name == c[j].name);
    }
    assert(!needs_merge(c, m, c, m));
}

/// A structural merge that has succeeded gives the columns of both schemas
/// and no others: a name is the name of a column of the merged schema
/// exactly when it is the name of a column of one of the two.
pub proof fn law_merge_names(a: Schema, b: Schema, m: Schema, name: Seq<char>)
    requires
        merge_facts(a.generic(), b.generic(), m.generic()),
    ensures
        has_name(m.columns(), name) <==> has_name(a.columns(), name) || has_name(
            b.columns(),
            name,
        ),
{
    let ca = a.columns();
    let cb = b.columns();
    let cm = m.columns();
    let keep = |f: ArrowField| !has_name(ca, field_model(f).name);
    let added = b.fields().filter(keep);
    let tail = m.fields().subrange(ca.len() as int, cm.len() as int);
    assert(tail == added);
    lemma_filter_keeps_order(b.fields(), keep);
    if has_name(cm, name) {
        let k = choose|k: int| 0 <= k < cm.len() && (#[trigger] cm[k]).name == name;
        if k < ca.len() {
            assert(ca[k].name == name);
        } else {
            assert(tail[k - ca.len()] == m.fields()[k]);
            let i = choose|i: int|
                0 <= i < b.fields().len() && #[trigger] b.fields()[i] == added[k - ca.len()];
            assert(cb[i].name == name);
        }
    }
    if has_name(ca, name) {
        let i = choose|i: int| 0 <= i < ca.len() && (#[trigger] ca[i]).name == name;
        assert(cm[i].name == name);
    } else if has_name(cb, name) {
        let j = choose|j: int| 0 <= j < cb.len() && (#[trigger] cb[j]).name == name;
        assert(keep(b.fields()[j]));
        b.fields().lemma_filter_contains(keep, j);
        let k = choose|k: int| 0 <= k < added.len() && added[k] == b.fields()[j];
        assert(tail[k] == m.fields()[ca.len() + k]);
        assert(cm[ca.len() + k].name == name);
    }
}

/// Merging in either order gives the same column names.
pub proof fn law_merge_order(a: Schema, b: Schema, ab: Schema, ba: Schema, name: Seq<char>)
    requires
        merge_facts(a.generic(), b.generic(), ab.generic()),
        merge_facts(b.generic(), a.generic(), ba.generic()),
    ensures
        has_name(ab.columns(), name) <==> has_name(ba.columns(), name),
        ab.metadata() == ba.metadata(),
{
    law_merge_names(a, b, ab, name);
    law_merge_names(b, a, ba, name);
    assert(ab.metadata() =~= ba.metadata());
}

/// A merge keeps the definitions of the first schema: where the two schemas
/// are not in conflict and their structural merge has succeeded, each column
/// of the first schema stands at its place in the merged schema, under its
/// name; with its physical type and nullability too where its physical type
/// is one of the scalar types; and as the same generic field where the second
/// schema has no column of that name.
pub proof fn law_merge_keeps_definitions(a: Schema, b: Schema, m: Schema, i: int)
    requires
        a.unique_names(),
        merge_conflict(a.columns(), a.metadata(), b.columns(), b.metadata()).is_none(),
        merge_facts(a.generic(), b.generic(), m.generic()),
        0 <= i < a.columns().len(),
    ensures
        i < m.columns().len(),
        m.columns()[i].name == a.columns()[i].name,
        !(a.columns()[i].data_type is Other) ==> m.columns()[i] == a.columns()[i],
        !has_name(b.columns(), a.columns()[i].name) ==> m.fields()[i] == a.fields()[i],
{
    let ca = a.columns();
    let cb = b.columns();
    let cm = m.columns();
    assert(cm[i].name == ca[i].name);
    if has_name(cb, ca[i].name) {
        let j = choose|j: int| 0 <= j < cb.len() && (#[trigger] cb[j]).name == ca[i].name;
        lemma_first_where(
            cb.len() as int,
            conflict_positions(ca, a.metadata(), cb, b.metadata()),
        );
        assert(!conflict_positions(ca, a.metadata(), cb, b.metadata())(j));
        lemma_position_of_own(ca, i);
        assert(conflict_at(ca, a.metadata(), cb, b.metadata(), j).is_none());
        if !(ca[i].data_type is Other) {
            assert(cm[i] == (ColumnModel {
                name: ca[i].name,
                data_type: ca[i].data_type,
                nullable: ca[i].nullable || cb[j].nullable,
            }));
        }
    } else {
        assert(m.fields()[i] == a.fields()[i]);
    }
}

/// The metadata of the second schema gives no role to a column that only
/// the first schema has.
pub open spec fn roles_stay_home(
    ca: Seq<ColumnModel>,
    cb: Seq<ColumnModel>,
    mb: Map<Seq<char>, Seq<char>>,
) -> bool {
    forall|i: int|
        0 <= i < ca.len() && role_in(mb, (#[trigger] ca[i]).name).is_some() ==> has_name(
            cb,
            ca[i].name,
        )
}

/// A merge keeps roles and physical types fitting: where in both schemas
/// every column with a role is stored as the physical type of the role,
/// neither gives a role to a column that only the other has, the two are not
/// in conflict and their structural merge has succeeded, every column of the
/// merged schema that has a role is stored as the physical type of the role.
pub proof fn law_merge_well_typed(a: Schema, b: Schema, m: Schema)
    requires
        a.unique_names(),
        b.unique_names(),
        a.well_typed(),
        b.well_typed(),
        roles_stay_home(a.columns(), b.columns(), b.metadata()),
        roles_stay_home(b.columns(), a.columns(), a.metadata()),
        merge_conflict(a.columns(), a.metadata(), b.columns(), b.metadata()).is_none(),
        merge_facts(a.generic(), b.generic(), m.generic()),
    ensures
        m.well_typed(),
{
    let ca = a.columns();
    let cb = b.columns();
    let cm = m.columns();
    let ma = a.metadata();
    let mb = b.metadata();
    let mm = m.metadata();
    let keep = |f: ArrowField| !has_name(ca, field_model(f).name);
    let added = b.fields().filter(keep);
    let tail = m.fields().subrange(ca.len() as int, cm.len() as int);
    assert(tail == added);
    lemma_filter_keeps_order(b.fields(), keep);
    lemma_first_where(cb.len() as int, conflict_positions(ca, ma, cb, mb));
    assert forall|x: int| 0 <= x < cm.len() implies match #[trigger] m.role_at(x) {
        Some(role) => cm[x].data_type == role.physical(),
        None => true,
    } by {
        let n = cm[x].name;
        if x < ca.len() {
            assert(ca[x].name == n);
            assert(a.role_at(x) == role_in(ma, n));
            if has_name(cb, n) {
                let j = choose|j: int| 0 <= j < cb.len() && (#[trigger] cb[j]).name == n;
                assert(!conflict_positions(ca, ma, cb, mb)(j));
                lemma_position_of_own(ca, x);
                assert(conflict_at(ca, ma, cb, mb, j).is_none());
                assert(role_in(ma, n) == role_in(mb, n));
                assert(m.role_at(x) == a.role_at(x));
                if a.role_at(x).is_some() {
                    assert(!(ca[x].data_type is Other));
                    assert(cm[x] == (ColumnModel {
                        name: ca[x].name,
                        data_type: ca[x].data_type,
                        nullable: ca[x].nullable || cb[j].nullable,
                    }));
                }
            } else {
                assert(m.fields()[x] == a.fields()[x]);
                assert(role_in(mb, ca[x].name).is_none());
            }
        } else {
            assert(tail[x - ca.len()] == m.fields()[x]);
            let j = choose|j: int|
                0 <= j < b.fields().len() && #[trigger] b.fields()[j] == added[x - ca.len()];
            assert(cb[j].name == n && cm[x] == cb[j]);
            assert(keep(added[x - ca.len()]));
            assert(!has_name(ca, n));
            assert(b.role_at(j) == role_in(mb, n));
            assert(role_in(ma, cb[j].name).is_none());
        }
    }
}

} // verus!
