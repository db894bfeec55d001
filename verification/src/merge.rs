//! What merging two schemas means, before and after the structural merge of
//! the generic schemas.
use crate::error::ErrorModel;
use crate::generic::ColumnModel;
use crate::generic::field_model;
use crate::generic::has_name;
use crate::generic::merge_facts;
use crate::generic::names_of;
use crate::generic::schema_columns;
use crate::generic::schema_fields;
use crate::schema::measurement_in;
use crate::schema::role_in;
use crate::search::first_where;
use arrow::datatypes::Field as ArrowField;
use arrow::datatypes::Schema as ArrowSchema;
use vstd::prelude::*;

verus! {

/// The positions at which a column has the given name.
pub open spec fn name_positions(columns: Seq<ColumnModel>, name: Seq<char>) -> spec_fn(int) -> bool {
    |i: int| columns[i].name == name
}

/// The position of the first column with the given name, if there is one.
pub open spec fn position_of(columns: Seq<ColumnModel>, name: Seq<char>) -> Option<int> {
    first_where(columns.len() as int, name_positions(columns, name))
}

/// What stands in the way of merging the column at position `j` of the
/// second schema into the first: nothing where the first has no column of
/// that name; else the first of role, physical type and nullability in which
/// the two columns differ.
pub open spec fn conflict_at(
    ca: Seq<ColumnModel>,
    ma: Map<Seq<char>, Seq<char>>,
    cb: Seq<ColumnModel>,
    mb: Map<Seq<char>, Seq<char>>,
    j: int,
) -> Option<ErrorModel> {
    let new = cb[j];
    match position_of(ca, new.name) {
        None => None,
        Some(i) => {
            let existing = ca[i];
            let existing_role = role_in(ma, existing.name);
            let new_role = role_in(mb, new.name);
            if existing_role != new_role {
                Some(
                    ErrorModel::TryMergeBadColumnType {
                        field_name: new.name,
                        existing_influx_column_type: existing_role,
                        influx_column_type: new_role,
                    },
                )
            } else if new.data_type != existing.data_type {
                Some(
                    ErrorModel::TryMergeBadArrowType {
                        field_name: new.name,
                        existing_data_type: existing.data_type,
                        new_data_type: new.data_type,
                    },
                )
            } else if new.nullable != existing.nullable {
                Some(
                    ErrorModel::TryMergeBadNullability {
                        field_name: new.name,
                        existing_nullability: existing.nullable,
                        new_nullability: new.nullable,
                    },
                )
            } else {
                None
            }
        },
    }
}

/// The positions of the second schema at which a column is in conflict with
/// the first schema.
pub open spec fn conflict_positions(
    ca: Seq<ColumnModel>,
    ma: Map<Seq<char>, Seq<char>>,
    cb: Seq<ColumnModel>,
    mb: Map<Seq<char>, Seq<char>>,
) -> spec_fn(int) -> bool {
    |j: int| conflict_at(ca, ma, cb, mb, j).is_some()
}

/// Why two schemas cannot be merged, as far as this layer decides it: both
/// name a measurement and the names differ; or else the first column of the
/// second schema, in positional order, that is in conflict with the first
/// schema.
pub open spec fn merge_conflict(
    ca: Seq<ColumnModel>,
    ma: Map<Seq<char>, Seq<char>>,
    cb: Seq<ColumnModel>,
    mb: Map<Seq<char>, Seq<char>>,
) -> Option<ErrorModel> {
    if measurement_in(ma).is_some() && measurement_in(mb).is_some() && measurement_in(ma)
        != measurement_in(mb) {
        Some(
            ErrorModel::TryMergeDifferentMeasurementNames {
                existing_measurement: measurement_in(ma).unwrap(),
                new_measurement: measurement_in(mb).unwrap(),
            },
        )
    } else {
        match first_where(cb.len() as int, conflict_positions(ca, ma, cb, mb)) {
            Some(j) => conflict_at(ca, ma, cb, mb, j),
            None => None,
        }
    }
}

/// Whether merging the second schema into the first changes the first: the
/// measurement names differ, or the second has a column that the first
/// lacks.
pub open spec fn needs_merge(
    ca: Seq<ColumnModel>,
    ma: Map<Seq<char>, Seq<char>>,
    cb: Seq<ColumnModel>,
    mb: Map<Seq<char>, Seq<char>>,
) -> bool {
    measurement_in(ma) != measurement_in(mb) || exists|j: int|
        0 <= j < cb.len() && !has_name(ca, #[trigger] cb[j].name)
}

/// What is kept of a filtered sequence keeps its order: any two elements of
/// the result stand in the same order in the sequence itself.
pub proof fn lemma_filter_keeps_order<A>(s: Seq<A>, p: spec_fn(A) -> bool)
    ensures
        forall|k1: int, k2: int|
            #![trigger s.filter(p)[k1], s.filter(p)[k2]]
            0 <= k1 < k2 < s.filter(p).len() ==> exists|i1: int, i2: int|
                0 <= i1 < i2 < s.len() && #[trigger] s[i1] == s.filter(p)[k1] && #[trigger] s[i2]
                    == s.filter(p)[k2],
        forall|k: int|
            0 <= k < s.filter(p).len() ==> p(#[trigger] s.filter(p)[k]) && exists|i: int|
                0 <= i < s.len() && #[trigger] s[i] == s.filter(p)[k],
    decreases s.len(),
{
    reveal(Seq::filter);
    let f = s.filter(p);
    if s.len() > 0 {
        let init = s.drop_last();
        let sub = init.filter(p);
        lemma_filter_keeps_order(init, p);
        assert forall|k: int| 0 <= k < f.len() implies p(#[trigger] f[k]) && exists|i: int|
            0 <= i < s.len() && #[trigger] s[i] == f[k] by {
            if k < sub.len() {
                assert(f[k] == sub[k]);
                let i = choose|i: int| 0 <= i < init.len() && #[trigger] init[i] == sub[k];
                assert(s[i] == f[k]);
            } else {
                assert(s[s.len() - 1] == f[k]);
            }
        }
        assert forall|k1: int, k2: int|
            #![trigger f[k1], f[k2]]
            0 <= k1 < k2 < f.len() implies exists|i1: int, i2: int|
            0 <= i1 < i2 < s.len() && #[trigger] s[i1] == f[k1] && #[trigger] s[i2] == f[k2] by {
            if k2 < sub.len() {
                assert(f[k1] == sub[k1] && f[k2] == sub[k2]);
                let (i1, i2) = choose|i1: int, i2: int|
                    0 <= i1 < i2 < init.len() && #[trigger] init[i1] == sub[k1] && #[trigger] init[i2]
                        == sub[k2];
                assert(s[i1] == f[k1] && s[i2] == f[k2]);
            } else {
                assert(f[k1] == sub[k1]);
                let i1 = choose|i: int| 0 <= i < init.len() && #[trigger] init[i] == sub[k1];
                let i2 = s.len() - 1;
                assert(s[i1] == f[k1] && s[i2] == f[k2]);
            }
        }
    }
}

/// A successful structural merge of two schemas without repeated names
/// gives a schema without repeated names.
pub proof fn lemma_merged_names_unique(a: ArrowSchema, b: ArrowSchema, m: ArrowSchema)
    requires
        names_of(schema_columns(a)).no_duplicates(),
        names_of(schema_columns(b)).no_duplicates(),
        merge_facts(a, b, m),
    ensures
        names_of(schema_columns(m)).no_duplicates(),
{
    let ca = schema_columns(a);
    let cb = schema_columns(b);
    let cm = schema_columns(m);
    let keep = |f: ArrowField| !has_name(ca, field_model(f).name);
    let added = schema_fields(b).filter(keep);
    let tail = schema_fields(m).subrange(ca.len() as int, cm.len() as int);
    assert(tail == added);
    lemma_filter_keeps_order(schema_fields(b), keep);
    let nm = names_of(cm);
    assert forall|x: int, y: int| 0 <= x < y < nm.len() implies nm[x] != nm[y] by {
        if y < ca.len() {
            assert(cm[x].name == ca[x].name && cm[y].name == ca[y].name);
            assert(names_of(ca)[x] != names_of(ca)[y]);
        } else if x < ca.len() {
            assert(cm[x].name == ca[x].name);
            assert(tail[y - ca.len()] == schema_fields(m)[y]);
            assert(keep(added[y - ca.len()]));
            assert(!has_name(ca, cm[y].name));
        } else {
            let k1 = x - ca.len();
            let k2 = y - ca.len();
            assert(tail[k1] == schema_fields(m)[x] && tail[k2] == schema_fields(m)[y]);
            let (i1, i2) = choose|i1: int, i2: int|
                0 <= i1 < i2 < schema_fields(b).len() && #[trigger] schema_fields(b)[i1]
                    == added[k1] && #[trigger] schema_fields(b)[i2] == added[k2];
            assert(cb[i1].name == cm[x].name && cb[i2].name == cm[y].name);
            assert(names_of(cb)[i1] != names_of(cb)[i2]);
        }
    }
}

} // verus!
