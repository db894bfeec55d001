//! The validated schema of a table.
use crate::column_type::InfluxColumnType;
use crate::error::Error;
use crate::error::ErrorModel;
use crate::generic::ColumnModel;
use crate::generic::arrow_merge;
use crate::generic::field_clone;
use crate::generic::field_name;
use crate::generic::field_nullable;
use crate::generic::field_type;
use crate::generic::has_name;
use crate::generic::index_of;
use crate::generic::merge_facts;
use crate::generic::merge_two;
use crate::generic::metadata_get;
use crate::generic::names_of;
use crate::generic::owned_schema;
use crate::generic::schema_columns;
use crate::generic::schema_field;
use crate::generic::schema_fields;
use crate::generic::schema_len;
use crate::generic::schema_metadata;
use crate::generic::share;
use crate::generic::with_fields;
use crate::merge::conflict_at;
use crate::merge::conflict_positions;
use crate::merge::lemma_merged_names_unique;
use crate::merge::merge_conflict;
use crate::merge::name_positions;
use crate::merge::needs_merge;
use crate::merge::position_of;
use crate::order::ascending;
use crate::order::before;
use crate::order::holds;
use crate::order::is_arrangement;
use crate::order::lemma_ascending_stays;
use crate::order::lemma_before_le;
use crate::order::sorted_order;
use crate::order::views_of;
use crate::search::first_where;
use crate::search::lemma_first_where;
use crate::search::lemma_first_where_none;
use crate::search::lemma_first_where_some;
use crate::text::name_le;
use arrow::datatypes::Field as ArrowField;
use arrow::datatypes::Schema as ArrowSchema;
use arrow::error::ArrowError;
use std::sync::Arc;
use vstd::prelude::*;

verus! {

/// The name of the column that holds the timestamp.
pub const TIME_COLUMN_NAME: &'static str = "time";

/// The metadata key under which the measurement name is stored.
pub const MEASUREMENT_METADATA_KEY: &'static str = "iox::measurement::name";

/// The role that a metadata map gives the column of a given name: the role
/// that the value stored under the name stands for, if there is such a value
/// and it stands for a role.
pub open spec fn role_in(metadata: Map<Seq<char>, Seq<char>>, name: Seq<char>) -> Option<
    InfluxColumnType,
> {
    if metadata.dom().contains(name) {
        InfluxColumnType::decode(metadata[name])
    } else {
        None
    }
}

/// The measurement name that a metadata map holds, if it holds one.
pub open spec fn measurement_in(metadata: Map<Seq<char>, Seq<char>>) -> Option<Seq<char>> {
    if metadata.dom().contains(MEASUREMENT_METADATA_KEY@) {
        Some(metadata[MEASUREMENT_METADATA_KEY@])
    } else {
        None
    }
}

/// The name at position `i` also stands at an earlier position.
pub open spec fn repeats(names: Seq<Seq<char>>, i: int) -> bool {
    exists|j: int| 0 <= j < i && #[trigger] names[j] == names[i]
}

/// The positions at which a name repeats.
pub open spec fn repeat_positions(names: Seq<Seq<char>>) -> spec_fn(int) -> bool {
    |i: int| repeats(names, i)
}

/// The metadata gives the column at position `i` a role whose physical type
/// is not the type of the column.
pub open spec fn mismatched(
    columns: Seq<ColumnModel>,
    metadata: Map<Seq<char>, Seq<char>>,
    i: int,
) -> bool {
    match role_in(metadata, columns[i].name) {
        Some(role) => columns[i].data_type != role.physical(),
        None => false,
    }
}

/// The positions at which role and physical type do not fit.
pub open spec fn mismatch_positions(
    columns: Seq<ColumnModel>,
    metadata: Map<Seq<char>, Seq<char>>,
) -> spec_fn(int) -> bool {
    |i: int| mismatched(columns, metadata, i)
}

/// Why columns and metadata make no valid schema, if they make none: the
/// first repeated column name in positional order, or else the first column
/// whose role does not fit its physical type.
pub open spec fn validation_error(
    columns: Seq<ColumnModel>,
    metadata: Map<Seq<char>, Seq<char>>,
) -> Option<ErrorModel> {
    match first_where(columns.len() as int, repeat_positions(names_of(columns))) {
        Some(i) => Some(ErrorModel::DuplicateColumnName { column_name: columns[i].name }),
        None => match first_where(columns.len() as int, mismatch_positions(columns, metadata)) {
            Some(i) => Some(
                ErrorModel::IncompatibleMetadata {
                    column_name: columns[i].name,
                    influxdb_column_type: role_in(metadata, columns[i].name).unwrap(),
                    actual_type: columns[i].data_type,
                },
            ),
            None => None,
        },
    }
}

/// The columns of the generic schema behind a handle.
pub open spec fn columns_behind(inner: &Arc<ArrowSchema>) -> Seq<ColumnModel> {
    schema_columns(**inner)
}

/// `new` holds the fields of `old`, each once, in some order.
pub open spec fn rearranged(old: Seq<ArrowField>, new: Seq<ArrowField>) -> bool {
    &&& new.len() == old.len()
    &&& forall|k: int| 0 <= k < new.len() ==> old.contains(#[trigger] new[k])
    &&& forall|i: int| 0 <= i < old.len() ==> new.contains(#[trigger] old[i])
}

/// Schema of a table: a shared handle to a generic schema whose metadata
/// says which role each column plays.
///
/// No two columns of a `Schema` have the same name.
#[derive(Debug, PartialEq)]
pub struct Schema {
    inner: Arc<ArrowSchema>,
}

impl Schema {
    /// The generic schema behind this schema.
    pub closed spec fn generic(&self) -> ArrowSchema {
        *self.inner
    }

    /// The fields of the generic schema, in positional order.
    pub open spec fn fields(&self) -> Seq<ArrowField> {
        schema_fields(self.generic())
    }

    /// The columns, in positional order.
    pub open spec fn columns(&self) -> Seq<ColumnModel> {
        schema_columns(self.generic())
    }

    /// The metadata map.
    pub open spec fn metadata(&self) -> Map<Seq<char>, Seq<char>> {
        schema_metadata(self.generic())
    }

    /// The role of the column at a position.
    pub open spec fn role_at(&self, i: int) -> Option<InfluxColumnType> {
        role_in(self.metadata(), self.columns()[i].name)
    }

    /// The measurement name, if there is one.
    pub open spec fn measurement_name(&self) -> Option<Seq<char>> {
        measurement_in(self.metadata())
    }

    /// No two columns have the same name.
    pub open spec fn unique_names(&self) -> bool {
        names_of(self.columns()).no_duplicates()
    }

    /// Every column that has a role is stored as the physical type of that
    /// role.
    pub open spec fn well_typed(&self) -> bool {
        forall|i: int|
            0 <= i < self.columns().len() ==> match #[trigger] self.role_at(i) {
                Some(role) => self.columns()[i].data_type == role.physical(),
                None => true,
            }
    }

    #[verifier::type_invariant]
    spec fn inv(&self) -> bool {
        self.unique_names()
    }

    /// Wraps a generic schema, after validating it.
    ///
    /// Fails on the first column name that repeats an earlier one, and else
    /// on the first column whose role in the metadata does not fit its
    /// physical type. Metadata that stands for no role is ignored.
    pub fn try_from_arrow(inner: Arc<ArrowSchema>) -> (r: Result<Self, Error>)
        ensures
            match r {
                Ok(schema) => {
                    &&& validation_error(schema_columns(*inner), schema_metadata(*inner)).is_none()
                    &&& schema.generic() == *inner
                    &&& schema.unique_names()
                    &&& schema.well_typed()
                },
                Err(e) => validation_error(schema_columns(*inner), schema_metadata(*inner)) == Some(
                    e@,
                ),
            },
    {
        let ghost columns = columns_behind(&inner);
        let ghost names = names_of(columns);
        let n = schema_len(&inner);
        let mut i: usize = 0;
        while i < n
            invariant
                i <= n,
                n == columns.len(),
                columns == columns_behind(&inner),
                names == names_of(columns),
                forall|k: int| 0 <= k < i ==> !repeats(names, k),
            decreases n - i,
        {
            let name = field_name(schema_field(&inner, i));
            let first = index_of(&inner, name.as_str());
            proof {
                assert(columns[i as int].name == names[i as int]);
            }
            if let Some(j) = first {
                if j < i {
                    proof {
                        assert(names[j as int] == names[i as int]);
                        lemma_first_where_some(n as int, repeat_positions(names), i as int);
                    }
                    return Err(Error::DuplicateColumnName { column_name: name.clone() });
                }
            }
            proof {
                assert forall|k: int| 0 <= k < i implies names[k] != names[i as int] by {
                    assert(columns[k].name == names[k]);
                }
            }
            i += 1;
        }
        proof {
            lemma_first_where_none(n as int, repeat_positions(names));
            assert forall|a: int, b: int| 0 <= a < names.len() && 0 <= b < names.len() && a != b
                implies names[a] != names[b] by {
                if a < b {
                    assert(!repeats(names, b));
                } else {
                    assert(!repeats(names, a));
                }
            }
        }
        let schema = Schema { inner };
        let mut i: usize = 0;
        while i < n
            invariant
                i <= n,
                n == columns.len(),
                columns == schema.columns(),
                schema.generic() == *inner,
                first_where(n as int, repeat_positions(names_of(columns))).is_none(),
                forall|k: int| 0 <= k < i ==> !mismatched(columns, schema.metadata(), k),
            decreases n - i,
        {
            let (influxdb_column_type, field) = schema.field(i);
            if let Some(influxdb_column_type) = influxdb_column_type {
                let actual_type = field_type(field);
                if !influxdb_column_type.valid_arrow_type(&actual_type) {
                    proof {
                        assert(mismatched(columns, schema.metadata(), i as int));
                        lemma_first_where_some(
                            n as int,
                            mismatch_positions(columns, schema.metadata()),
                            i as int,
                        );
                    }
                    return Err(
                        Error::IncompatibleMetadata {
                            column_name: field_name(field).clone(),
                            influxdb_column_type,
                            actual_type,
                        },
                    );
                }
            }
            i += 1;
        }
        proof {
            lemma_first_where_none(n as int, mismatch_positions(columns, schema.metadata()));
            assert forall|k: int| 0 <= k < schema.columns().len() implies match #[trigger] schema.role_at(
                k,
            ) {
                Some(role) => schema.columns()[k].data_type == role.physical(),
                None => true,
            } by {
                assert(!mismatched(columns, schema.metadata(), k));
            }
        }
        Ok(schema)
    }

    /// Does nothing when run; lets a caller's proof know that the column
    /// names of this schema are distinct.
    pub fn names_are_distinct(&self)
        ensures
            self.unique_names(),
    {
        proof {
            use_type_invariant(self);
        }
    }

    /// The generic schema behind this schema.
    pub fn inner(&self) -> (r: &Arc<ArrowSchema>)
        ensures
            **r == self.generic(),
    {
        &self.inner
    }

    /// The role, if any, and the generic field of the column at position
    /// `idx`.
    ///
    /// The role is none where the metadata holds nothing for the column, or a
    /// value that stands for no role.
    pub fn field(&self, idx: usize) -> (r: (Option<InfluxColumnType>, &ArrowField))
        requires
            idx < self.columns().len(),
        ensures
            r.0 == self.role_at(idx as int),
            *r.1 == self.fields()[idx as int],
    {
        let field = schema_field(&self.inner, idx);
        let influxdb_column_type = match metadata_get(&self.inner, field_name(field).as_str()) {
            Some(token) => match InfluxColumnType::try_from(token.as_str()) {
                Ok(t) => Some(t),
                Err(_) => None,
            },
            None => None,
        };
        (influxdb_column_type, field)
    }

    /// The position of the column with the given name, if there is one.
    pub fn find_index_of(&self, name: &str) -> (r: Option<usize>)
        ensures
            match r {
                Some(i) => position_of(self.columns(), name@) == Some(i as int),
                None => position_of(self.columns(), name@).is_none(),
            },
    {
        let r = index_of(&self.inner, name);
        proof {
            let p = name_positions(self.columns(), name@);
            match r {
                Some(i) => {
                    lemma_first_where_some(self.columns().len() as int, p, i as int);
                },
                None => {
                    lemma_first_where_none(self.columns().len() as int, p);
                },
            }
        }
        r
    }

    /// The measurement name of this schema, if it has one.
    pub fn measurement(&self) -> (r: Option<&String>)
        ensures
            match r {
                Some(name) => self.measurement_name() == Some(name@),
                None => self.measurement_name().is_none(),
            },
    {
        metadata_get(&self.inner, MEASUREMENT_METADATA_KEY)
    }

    /// The number of columns.
    pub fn len(&self) -> (n: usize)
        ensures
            n == self.columns().len(),
    {
        schema_len(&self.inner)
    }

    /// Whether the schema has no column.
    pub fn is_empty(&self) -> (r: bool)
        ensures
            r == (self.columns().len() == 0),
    {
        schema_len(&self.inner) == 0
    }
}

impl Schema {
    /// The schema that a structural merge has produced, or the error that
    /// reports its failure.
    pub fn from_merge_result(merged: Result<ArrowSchema, ArrowError>) -> (r: Result<Self, Error>)
        requires
            merged matches Ok(m) ==> names_of(schema_columns(m)).no_duplicates(),
        ensures
            match merged {
                Ok(m) => r matches Ok(schema) && schema.generic() == m,
                Err(e) => r matches Err(x) && x@ == (ErrorModel::MergingSchemas { source: e }),
            },
    {
        match merged {
            Ok(new_schema) => Ok(Schema { inner: Arc::new(new_schema) }),
            Err(source) => Err(Error::MergingSchemas { source }),
        }
    }

    /// What merging `other` into this schema gives: the error of
    /// `merge_conflict` where there is one; this schema itself where nothing
    /// needs merging; and else what the structural merge of the two generic
    /// schemas gives.
    pub open spec fn merge_outcome(self, other: Schema, r: Result<Schema, Error>) -> bool {
        match merge_conflict(self.columns(), self.metadata(), other.columns(), other.metadata()) {
            Some(e) => r matches Err(x) && x@ == e,
            None => if !needs_merge(
                self.columns(),
                self.metadata(),
                other.columns(),
                other.metadata(),
            ) {
                r == Ok::<Schema, Error>(self)
            } else {
                match arrow_merge(self.generic(), other.generic()) {
                    Ok(m) => r matches Ok(schema) && schema.generic() == m && merge_facts(
                        self.generic(),
                        other.generic(),
                        m,
                    ),
                    Err(e) => r matches Err(x) && x@ == (ErrorModel::MergingSchemas { source: e }),
                }
            },
        }
    }

    /// Merges the columns of `other` into this schema.
    ///
    /// A column that both have must have the same role, physical type and
    /// nullability in both. Where `other` has no column that this schema
    /// lacks and the measurement names are the same, the result is this
    /// schema, unchanged.
    pub fn try_merge(self, other: Self) -> (r: Result<Self, Error>)
        ensures
            self.merge_outcome(other, r),
            r matches Ok(schema) ==> schema.unique_names(),
    {
        proof {
            use_type_invariant(&self);
            use_type_invariant(&other);
        }
        let ghost ga = self.generic();
        let ghost gb = other.generic();
        let ghost ca = self.columns();
        let ghost ma = self.metadata();
        let ghost cb = other.columns();
        let ghost mb = other.metadata();
        let mut need_merge = false;
        match (self.measurement(), other.measurement()) {
            (Some(existing_measurement), Some(new_measurement)) => {
                if *existing_measurement != *new_measurement {
                    return Err(
                        Error::TryMergeDifferentMeasurementNames {
                            existing_measurement: existing_measurement.clone(),
                            new_measurement: new_measurement.clone(),
                        },
                    );
                }
            },
            (None, None) => {},
            _ => {
                need_merge = true;
            },
        }
        let n = other.len();
        let mut j: usize = 0;
        while j < n
            invariant
                j <= n,
                n == cb.len(),
                ca == self.columns(),
                ma == self.metadata(),
                cb == other.columns(),
                mb == other.metadata(),
                !(measurement_in(ma).is_some() && measurement_in(mb).is_some() && measurement_in(ma)
                    != measurement_in(mb)),
                forall|k: int| 0 <= k < j ==> conflict_at(ca, ma, cb, mb, k).is_none(),
                need_merge == (measurement_in(ma) != measurement_in(mb) || exists|k: int|
                    0 <= k < j && !has_name(ca, #[trigger] cb[k].name)),
            decreases n - j,
        {
            let (influx_column_type, field) = other.field(j);
            let name = field_name(field);
            match self.find_index_of(name.as_str()) {
                Some(idx) => {
                    proof {
                        lemma_first_where(ca.len() as int, name_positions(ca, cb[j as int].name));
                    }
                    let (existing_influx_column_type, existing_field) = self.field(idx);
                    let new_data_type = field_type(field);
                    let existing_data_type = field_type(existing_field);
                    let new_nullability = field_nullable(field);
                    let existing_nullability = field_nullable(existing_field);
                    let ghost e = conflict_at(ca, ma, cb, mb, j as int);
                    if existing_influx_column_type != influx_column_type {
                        proof {
                            lemma_first_where_some(
                                n as int,
                                conflict_positions(ca, ma, cb, mb),
                                j as int,
                            );
                        }
                        return Err(
                            Error::TryMergeBadColumnType {
                                field_name: name.clone(),
                                existing_influx_column_type,
                                influx_column_type,
                            },
                        );
                    } else if new_data_type != existing_data_type {
                        proof {
                            lemma_first_where_some(
                                n as int,
                                conflict_positions(ca, ma, cb, mb),
                                j as int,
                            );
                        }
                        return Err(
                            Error::TryMergeBadArrowType {
                                field_name: name.clone(),
                                existing_data_type,
                                new_data_type,
                            },
                        );
                    } else if new_nullability != existing_nullability {
                        proof {
                            lemma_first_where_some(
                                n as int,
                                conflict_positions(ca, ma, cb, mb),
                                j as int,
                            );
                        }
                        return Err(
                            Error::TryMergeBadNullability {
                                field_name: name.clone(),
                                existing_nullability,
                                new_nullability,
                            },
                        );
                    }
                    proof {
                        assert(has_name(ca, cb[j as int].name));
                    }
                },
                None => {
                    proof {
                        lemma_first_where(ca.len() as int, name_positions(ca, cb[j as int].name));
                        assert(!has_name(ca, cb[j as int].name)) by {
                            if has_name(ca, cb[j as int].name) {
                                let i = choose|i: int|
                                    0 <= i < ca.len() && (#[trigger] ca[i]).name == cb[j as int].name;
                                assert(name_positions(ca, cb[j as int].name)(i));
                            }
                        }
                    }
                    need_merge = true;
                },
            }
            j += 1;
        }
        proof {
            lemma_first_where_none(n as int, conflict_positions(ca, ma, cb, mb));
        }
        if need_merge {
            let merged = merge_two(owned_schema(self.inner), owned_schema(other.inner));
            proof {
                if merged is Ok {
                    lemma_merged_names_unique(ga, gb, merged->Ok_0);
                }
            }
            Self::from_merge_result(merged)
        } else {
            Ok(self)
        }
    }
}

impl Schema {
    /// Orders the columns by name, ascending; roles and measurement name stay
    /// as they are.
    ///
    /// A schema whose columns are in that order already is returned
    /// unchanged.
    pub fn sort_fields_by_name(self) -> (r: Self)
        ensures
            r.metadata() == self.metadata(),
            rearranged(self.fields(), r.fields()),
            ascending(names_of(r.columns())),
            r.unique_names(),
            ascending(names_of(self.columns())) ==> r == self,
    {
        proof {
            use_type_invariant(&self);
        }
        let ghost columns = self.columns();
        let ghost ns = names_of(columns);
        let n = self.len();
        let mut names: Vec<String> = Vec::new();
        let mut i: usize = 0;
        while i < n
            invariant
                i <= n,
                n == columns.len(),
                columns == self.columns(),
                names.len() == i,
                forall|k: int| 0 <= k < i ==> (#[trigger] names[k])@ == columns[k].name,
            decreases n - i,
        {
            names.push(field_name(schema_field(&self.inner, i)).clone());
            i += 1;
        }
        assert(views_of(names@) =~= ns);
        let order = sorted_order(&names);
        let mut is_sorted = true;
        let mut k: usize = 0;
        while k < n
            invariant
                k <= n,
                n == order.len(),
                is_sorted == (forall|x: int| 0 <= x < k ==> #[trigger] order[x] == x),
            decreases n - k,
        {
            if order[k] != k {
                is_sorted = false;
            }
            k += 1;
        }
        proof {
            if ascending(ns) {
                lemma_ascending_stays(ns, order@);
            }
        }
        if is_sorted {
            proof {
                assert forall|a: int, b: int| 0 <= a < b < ns.len() implies name_le(
                    #[trigger] ns[a],
                    #[trigger] ns[b],
                ) by {
                    assert(before(ns, order[a] as int, order[b] as int));
                    lemma_before_le(ns, a, b);
                }
            }
            self
        } else {
            let mut new_fields: Vec<ArrowField> = Vec::new();
            let mut k: usize = 0;
            while k < n
                invariant
                    k <= n,
                    n == columns.len(),
                    columns == self.columns(),
                    is_arrangement(order@, n as int),
                    new_fields.len() == k,
                    forall|x: int|
                        0 <= x < k ==> #[trigger] new_fields[x] == self.fields()[order[x] as int],
                decreases n - k,
            {
                new_fields.push(field_clone(schema_field(&self.inner, order[k])));
                k += 1;
            }
            let new_schema = with_fields(&self.inner, new_fields);
            proof {
                let old = self.fields();
                let new = schema_fields(new_schema);
                let cn = schema_columns(new_schema);
                assert forall|x: int| 0 <= x < n implies (#[trigger] cn[x]).name == ns[order[x] as int] by {
                    assert(new[x] == old[order[x] as int]);
                }
                assert forall|x: int| 0 <= x < new.len() implies old.contains(#[trigger] new[x]) by {
                    assert(old[order[x] as int] == new[x]);
                }
                assert forall|y: int| 0 <= y < old.len() implies new.contains(#[trigger] old[y]) by {
                    assert(holds(order@, y));
                    let x = choose|x: int| 0 <= x < order.len() && #[trigger] order[x] == y;
                    assert(new[x] == old[y]);
                }
                let nn = names_of(cn);
                assert forall|a: int, b: int| 0 <= a < b < nn.len() implies name_le(
                    #[trigger] nn[a],
                    #[trigger] nn[b],
                ) by {
                    assert(cn[a].name == ns[order[a] as int] && cn[b].name == ns[order[b] as int]);
                    assert(before(ns, order[a] as int, order[b] as int));
                    lemma_before_le(ns, order[a] as int, order[b] as int);
                }
                assert forall|a: int, b: int|
                    0 <= a < nn.len() && 0 <= b < nn.len() && a != b implies nn[a] != nn[b] by {
                    assert(cn[a].name == ns[order[a] as int] && cn[b].name == ns[order[b] as int]);
                    assert(order[a] != order[b]);
                }
            }
            Schema { inner: Arc::new(new_schema) }
        }
    }
}

impl From<Schema> for Arc<ArrowSchema> {
    /// The handle to the generic schema behind a schema.
    fn from(s: Schema) -> (r: Self)
        ensures
            *r == s.generic(),
    {
        s.inner
    }
}

impl vstd::std_specs::convert::FromSpecImpl<Schema> for Arc<ArrowSchema> {
    open spec fn obeys_from_spec() -> bool {
        true
    }

    closed spec fn from_spec(s: Schema) -> Self {
        s.inner
    }
}

impl From<&Schema> for Arc<ArrowSchema> {
    /// One more handle to the generic schema behind a schema.
    fn from(s: &Schema) -> (r: Self)
        ensures
            *r == s.generic(),
    {
        share(&s.inner)
    }
}

impl vstd::std_specs::convert::FromSpecImpl<&Schema> for Arc<ArrowSchema> {
    open spec fn obeys_from_spec() -> bool {
        true
    }

    closed spec fn from_spec(s: &Schema) -> Self {
        s.inner
    }
}

impl TryFrom<Arc<ArrowSchema>> for Schema {
    type Error = Error;

    /// Wraps a generic schema, after validating it.
    fn try_from(value: Arc<ArrowSchema>) -> (r: Result<Self, Self::Error>)
        ensures
            match r {
                Ok(schema) => {
                    &&& validation_error(schema_columns(*value), schema_metadata(*value)).is_none()
                    &&& schema.generic() == *value
                    &&& schema.unique_names()
                    &&& schema.well_typed()
                },
                Err(e) => validation_error(schema_columns(*value), schema_metadata(*value)) == Some(
                    e@,
                ),
            },
    {
        Self::try_from_arrow(value)
    }
}

// An `Error` holds strings, which no spec function can build: the contract
// stands on `try_from` itself.
impl vstd::std_specs::convert::TryFromSpecImpl<Arc<ArrowSchema>> for Schema {
    open spec fn obeys_try_from_spec() -> bool {
        false
    }

    open spec fn try_from_spec(value: Arc<ArrowSchema>) -> Result<Self, Self::Error> {
        arbitrary()
    }
}

/// A pass over the columns of a schema, in positional order.
#[derive(Debug)]
pub struct SchemaIter<'a> {
    schema: &'a Schema,
    idx: usize,
}

impl<'a> SchemaIter<'a> {
    /// The schema whose columns this pass yields.
    pub closed spec fn schema(&self) -> Schema {
        *self.schema
    }

    /// The position of the column that comes next.
    pub closed spec fn position(&self) -> nat {
        self.idx as nat
    }

    /// The role and the generic field of the next column, or none after the
    /// last column.
    pub fn next(&mut self) -> (r: Option<(Option<InfluxColumnType>, &'a ArrowField)>)
        ensures
            final(self).schema() == old(self).schema(),
            match r {
                Some(item) => {
                    &&& old(self).position() < old(self).schema().columns().len()
                    &&& item.0 == old(self).schema().role_at(old(self).position() as int)
                    &&& *item.1 == old(self).schema().fields()[old(self).position() as int]
                    &&& final(self).position() == old(self).position() + 1
                },
                None => {
                    &&& old(self).position() >= old(self).schema().columns().len()
                    &&& final(self).position() == old(self).position()
                },
            },
    {
        if self.idx < self.schema.len() {
            let ret = self.schema.field(self.idx);
            self.idx += 1;
            Some(ret)
        } else {
            None
        }
    }

    /// Bounds on the number of columns still to come: none from below, the
    /// number of columns of the schema from above.
    pub fn size_hint(&self) -> (r: (usize, Option<usize>))
        ensures
            r.0 == 0,
            r.1 == Some(self.schema().columns().len() as usize),
    {
        (0, Some(self.schema.len()))
    }
}

impl Schema {
    /// A pass over all columns of this schema, in positional order.
    pub fn iter(&self) -> (it: SchemaIter<'_>)
        ensures
            it.schema() == *self,
            it.position() == 0,
    {
        SchemaIter { schema: self, idx: 0 }
    }
}

impl Clone for Schema {
    /// One more handle to the same generic schema.
    fn clone(&self) -> (r: Self)
        ensures
            r == *self,
    {
        proof {
            use_type_invariant(self);
        }
        Schema { inner: share(&self.inner) }
    }
}

} // verus!
