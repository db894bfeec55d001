//! Building a schema from its parts: the roles that tag names, field names
//! and the timestamp name give the columns, and their encoding as metadata.
use crate::column_type::InfluxColumnType;
use crate::error::Error;
use crate::error::ErrorModel;
use crate::generic::ColumnModel;
use crate::generic::distinct_keys;
use crate::generic::field_model;
use crate::generic::new_schema;
use crate::generic::pairs_map;
use crate::schema::MEASUREMENT_METADATA_KEY;
use crate::schema::Schema;
use crate::schema::validation_error;
use crate::search::first_where;
use crate::search::lemma_first_where_none;
use crate::search::lemma_first_where_some;
use crate::text::str_eq;
use arrow::datatypes::Field as ArrowField;
use std::sync::Arc;
use vstd::prelude::*;

verus! {

/// Some entry of the list has the given name.
pub open spec fn has_entry(entries: Seq<(String, InfluxColumnType)>, name: Seq<char>) -> bool {
    exists|i: int| 0 <= i < entries.len() && (#[trigger] entries[i]).0@ == name
}

/// The positions at which an entry has the given name.
pub open spec fn entry_positions(entries: Seq<(String, InfluxColumnType)>, name: Seq<char>) -> spec_fn(
    int,
) -> bool {
    |i: int| entries[i].0@ == name
}

/// The role that the first entry of the given name has, if there is one.
pub open spec fn entry_role(entries: Seq<(String, InfluxColumnType)>, name: Seq<char>) -> Option<
    InfluxColumnType,
> {
    match first_where(entries.len() as int, entry_positions(entries, name)) {
        Some(i) => Some(entries[i].1),
        None => None,
    }
}

/// No two entries of the list have the same name.
pub open spec fn distinct_names(entries: Seq<(String, InfluxColumnType)>) -> bool {
    forall|i: int, j: int|
        0 <= i < j < entries.len() ==> (#[trigger] entries[i]).0@ != (#[trigger] entries[j]).0@
}

/// The given name is among the tag names.
pub open spec fn is_tag(tags: Seq<String>, name: Seq<char>) -> bool {
    exists|i: int| 0 <= i < tags.len() && (#[trigger] tags[i])@ == name
}

/// The role that the parts give the column of a name: a tag name is a tag;
/// else a field name has the role given with it; else the timestamp name is
/// the timestamp.
pub open spec fn assigned_role(
    tags: Seq<String>,
    fields: Seq<(String, InfluxColumnType)>,
    time: Option<String>,
    name: Seq<char>,
) -> Option<InfluxColumnType> {
    if is_tag(tags, name) {
        Some(InfluxColumnType::Tag)
    } else if entry_role(fields, name).is_some() {
        entry_role(fields, name)
    } else if time.is_some() && time.unwrap()@ == name {
        Some(InfluxColumnType::Timestamp)
    } else {
        None
    }
}

/// The field names that are tag names too.
pub open spec fn tag_positions(tags: Seq<String>, fields: Seq<(String, InfluxColumnType)>) -> spec_fn(
    int,
) -> bool {
    |i: int| is_tag(tags, fields[i].0@)
}

/// Why the parts assign no roles, if they assign none: the first field name,
/// in the order of the list, that is a tag name too; or else the timestamp
/// name, where it is a tag name or a field name.
pub open spec fn parts_error(
    tags: Seq<String>,
    fields: Seq<(String, InfluxColumnType)>,
    time: Option<String>,
) -> Option<ErrorModel> {
    match first_where(fields.len() as int, tag_positions(tags, fields)) {
        Some(i) => Some(ErrorModel::BothFieldAndTag { column_name: fields[i].0@ }),
        None => if time.is_some() && assigned_role(tags, fields, None, time.unwrap()@).is_some() {
            Some(
                ErrorModel::InvalidTimestamp {
                    column_name: time.unwrap()@,
                    existing_type: assigned_role(tags, fields, None, time.unwrap()@).unwrap(),
                },
            )
        } else {
            None
        },
    }
}

/// In a list without repeated names, the role of a name is that of the entry
/// that has it.
pub proof fn lemma_entry_role(entries: Seq<(String, InfluxColumnType)>, i: int)
    requires
        distinct_names(entries),
        0 <= i < entries.len(),
    ensures
        entry_role(entries, entries[i].0@) == Some(entries[i].1),
{
    let name = entries[i].0@;
    let p = entry_positions(entries, name);
    assert forall|k: int| 0 <= k < i implies !#[trigger] p(k) by {
        assert(entries[k].0@ != entries[i].0@);
    }
    lemma_first_where_some(entries.len() as int, p, i);
}

/// A name that no entry has, has no role.
pub proof fn lemma_entry_role_none(entries: Seq<(String, InfluxColumnType)>, name: Seq<char>)
    requires
        !has_entry(entries, name),
    ensures
        entry_role(entries, name).is_none(),
{
    let p = entry_positions(entries, name);
    assert forall|k: int| 0 <= k < entries.len() implies !#[trigger] p(k) by {
        assert(entries[k].0@ != name);
    }
    lemma_first_where_none(entries.len() as int, p);
}

/// The position of the entry with the given name, if there is one.
pub fn find_entry(entries: &Vec<(String, InfluxColumnType)>, name: &String) -> (r: Option<usize>)
    ensures
        match r {
            Some(i) => i < entries.len() && entries[i as int].0@ == name@,
            None => !has_entry(entries@, name@),
        },
{
    let mut i: usize = 0;
    while i < entries.len()
        invariant
            i <= entries.len(),
            forall|k: int| 0 <= k < i ==> (#[trigger] entries[k]).0@ != name@,
        decreases entries.len() - i,
    {
        if entries[i].0 == *name {
            return Some(i);
        }
        i += 1;
    }
    None
}

/// Where an entry of the roles being assigned comes from: a tag name, or one
/// of the first `j` fields.
pub open spec fn from_parts(
    tags: Seq<String>,
    fields: Seq<(String, InfluxColumnType)>,
    j: int,
    entry: (String, InfluxColumnType),
) -> bool {
    if is_tag(tags, entry.0@) {
        entry.1 == InfluxColumnType::Tag
    } else {
        exists|k: int| 0 <= k < j && (#[trigger] fields[k]).0@ == entry.0@ && fields[k].1 == entry.1
    }
}

/// The roles that tag names, fields and timestamp name give, as a list
/// without repeated names.
///
/// Fails on the first field, in the order of the list, whose name is a tag
/// name too, and else on a timestamp name that is a tag name or a field
/// name.
pub fn assign_roles(
    tag_cols: &Vec<String>,
    field_cols: &Vec<(String, InfluxColumnType)>,
    time_col: &Option<String>,
) -> (r: Result<Vec<(String, InfluxColumnType)>, Error>)
    requires
        distinct_names(field_cols@),
    ensures
        match parts_error(tag_cols@, field_cols@, *time_col) {
            Some(e) => r matches Err(x) && x@ == e,
            None => r matches Ok(assigned) && distinct_names(assigned@) && forall|name: Seq<char>|
                #[trigger] entry_role(assigned@, name) == assigned_role(
                    tag_cols@,
                    field_cols@,
                    *time_col,
                    name,
                ),
        },
{
    let ghost tags = tag_cols@;
    let ghost fields = field_cols@;
    let mut assigned: Vec<(String, InfluxColumnType)> = Vec::new();
    let mut i: usize = 0;
    while i < tag_cols.len()
        invariant
            i <= tag_cols.len(),
            tags == tag_cols@,
            distinct_names(assigned@),
            forall|x: int|
                0 <= x < assigned.len() ==> (#[trigger] assigned[x]).1 == InfluxColumnType::Tag
                    && is_tag(tags, assigned[x].0@),
            forall|k: int| 0 <= k < i ==> has_entry(assigned@, (#[trigger] tags[k])@),
        decreases tag_cols.len() - i,
    {
        let ghost before = assigned@;
        match find_entry(&assigned, &tag_cols[i]) {
            Some(_) => {},
            None => {
                assigned.push((tag_cols[i].clone(), InfluxColumnType::Tag));
                proof {
                    assert(assigned[before.len() as int].0@ == tags[i as int]@);
                    assert forall|k: int| 0 <= k < i implies has_entry(
                        assigned@,
                        (#[trigger] tags[k])@,
                    ) by {
                        assert(has_entry(before, tags[k]@));
                        let x = choose|x: int|
                            0 <= x < before.len() && (#[trigger] before[x]).0@ == tags[k]@;
                        assert(assigned[x].0@ == tags[k]@);
                    }
                    assert forall|a: int, b: int| 0 <= a < b < assigned.len() implies (
                    #[trigger] assigned[a]).0@ != (#[trigger] assigned[b]).0@ by {
                        if b == before.len() {
                            assert(before[a].0@ != tags[i as int]@);
                        } else {
                            assert(before[a].0@ != before[b].0@);
                        }
                    }
                }
            },
        }
        i += 1;
    }
    let mut j: usize = 0;
    while j < field_cols.len()
        invariant
            j <= field_cols.len(),
            tags == tag_cols@,
            fields == field_cols@,
            distinct_names(fields),
            distinct_names(assigned@),
            forall|x: int|
                0 <= x < assigned.len() ==> from_parts(tags, fields, j as int, #[trigger] assigned[x]),
            forall|k: int| 0 <= k < tags.len() ==> has_entry(assigned@, (#[trigger] tags[k])@),
            forall|k: int|
                0 <= k < j ==> !is_tag(tags, (#[trigger] fields[k]).0@) && has_entry(
                    assigned@,
                    fields[k].0@,
                ),
        decreases field_cols.len() - j,
    {
        let ghost before = assigned@;
        let ghost name = fields[j as int].0@;
        match find_entry(&assigned, &field_cols[j].0) {
            Some(x) => {
                proof {
                    assert(from_parts(tags, fields, j as int, assigned[x as int]));
                    if !is_tag(tags, name) {
                        let k = choose|k: int|
                            0 <= k < j && (#[trigger] fields[k]).0@ == assigned[x as int].0@
                                && fields[k].1 == assigned[x as int].1;
                        assert(fields[k].0@ != fields[j as int].0@);
                    }
                    assert(tag_positions(tags, fields)(j as int));
                    lemma_first_where_some(
                        fields.len() as int,
                        tag_positions(tags, fields),
                        j as int,
                    );
                }
                return Err(Error::BothFieldAndTag { column_name: field_cols[j].0.clone() });
            },
            None => {
                proof {
                    if is_tag(tags, name) {
                        let k = choose|k: int| 0 <= k < tags.len() && (#[trigger] tags[k])@ == name;
                        assert(has_entry(assigned@, tags[k]@));
                    }
                }
                assigned.push((field_cols[j].0.clone(), field_cols[j].1));
                proof {
                    let last = before.len() as int;
                    assert(assigned[last].0@ == name && assigned[last].1 == fields[j as int].1);
                    assert forall|x: int| 0 <= x < assigned.len() implies from_parts(
                        tags,
                        fields,
                        j + 1,
                        #[trigger] assigned[x],
                    ) by {
                        if x < last {
                            assert(from_parts(tags, fields, j as int, before[x]));
                            if !is_tag(tags, before[x].0@) {
                                let k = choose|k: int|
                                    0 <= k < j && (#[trigger] fields[k]).0@ == before[x].0@
                                        && fields[k].1 == before[x].1;
                                assert(fields[k].0@ == assigned[x].0@);
                            }
                        } else {
                            assert(fields[j as int].0@ == assigned[x].0@);
                        }
                    }
                    assert forall|k: int| 0 <= k < tags.len() implies has_entry(
                        assigned@,
                        (#[trigger] tags[k])@,
                    ) by {
                        assert(has_entry(before, tags[k]@));
                        let x = choose|x: int|
                            0 <= x < before.len() && (#[trigger] before[x]).0@ == tags[k]@;
                        assert(assigned[x].0@ == tags[k]@);
                    }
                    assert forall|k: int| 0 <= k < j + 1 implies !is_tag(
                        tags,
                        (#[trigger] fields[k]).0@,
                    ) && has_entry(assigned@, fields[k].0@) by {
                        if k < j {
                            assert(has_entry(before, fields[k].0@));
                            let x = choose|x: int|
                                0 <= x < before.len() && (#[trigger] before[x]).0@ == fields[k].0@;
                            assert(assigned[x].0@ == fields[k].0@);
                        }
                    }
                    assert forall|a: int, b: int| 0 <= a < b < assigned.len() implies (
                    #[trigger] assigned[a]).0@ != (#[trigger] assigned[b]).0@ by {
                        if b == last {
                            assert(before[a].0@ != name);
                        } else {
                            assert(before[a].0@ != before[b].0@);
                        }
                    }
                }
            },
        }
        j += 1;
    }
    proof {
        lemma_first_where_none(fields.len() as int, tag_positions(tags, fields));
    }
    let ghost roles = assigned@;
    proof {
        assert forall|name: Seq<char>| #[trigger]
            entry_role(roles, name) == assigned_role(tags, fields, None, name) by {
            lemma_roles_of_parts(tags, fields, roles, name);
        }
    }
    match time_col {
        Some(column_name) => {
            match find_entry(&assigned, column_name) {
                Some(x) => {
                    proof {
                        lemma_entry_role(roles, x as int);
                    }
                    return Err(
                        Error::InvalidTimestamp {
                            column_name: column_name.clone(),
                            existing_type: assigned[x].1,
                        },
                    );
                },
                None => {
                    proof {
                        lemma_entry_role_none(roles, column_name@);
                    }
                    assigned.push((column_name.clone(), InfluxColumnType::Timestamp));
                    proof {
                        let last = roles.len() as int;
                        assert(assigned[last].0@ == column_name@);
                        assert forall|a: int, b: int| 0 <= a < b < assigned.len() implies (
                        #[trigger] assigned[a]).0@ != (#[trigger] assigned[b]).0@ by {
                            if b == last {
                                assert(roles[a].0@ != column_name@);
                            } else {
                                assert(roles[a].0@ != roles[b].0@);
                            }
                        }
                        assert forall|name: Seq<char>| #[trigger]
                            entry_role(assigned@, name) == assigned_role(
                                tags,
                                fields,
                                *time_col,
                                name,
                            ) by {
                            if name == column_name@ {
                                lemma_entry_role(assigned@, last);
                            } else if has_entry(roles, name) {
                                let x = choose|x: int|
                                    0 <= x < roles.len() && (#[trigger] roles[x]).0@ == name;
                                lemma_entry_role(roles, x);
                                assert(assigned[x] == roles[x]);
                                lemma_entry_role(assigned@, x);
                            } else {
                                lemma_entry_role_none(roles, name);
                                assert(!has_entry(assigned@, name)) by {
                                    if has_entry(assigned@, name) {
                                        let x = choose|x: int|
                                            0 <= x < assigned.len() && (
                                            #[trigger] assigned[x]).0@ == name;
                                        assert(roles[x].0@ == name);
                                    }
                                }
                                lemma_entry_role_none(assigned@, name);
                            }
                        }
                    }
                },
            }
        },
        None => {},
    }
    Ok(assigned)
}

/// The metadata map that stands for a measurement name and a list of roles:
/// under the measurement key the measurement name, if there is one, and
/// under every other name that has a role, the metadata value of the role.
pub open spec fn encoded(measurement: Option<String>, roles: Seq<(String, InfluxColumnType)>) -> Map<
    Seq<char>,
    Seq<char>,
> {
    Map::new(
        |k: Seq<char>|
            (measurement.is_some() && k == MEASUREMENT_METADATA_KEY@) || entry_role(
                roles,
                k,
            ).is_some(),
        |k: Seq<char>|
            if measurement.is_some() && k == MEASUREMENT_METADATA_KEY@ {
                measurement.unwrap()@
            } else {
                entry_role(roles, k).unwrap().token()
            },
    )
}

/// In a list of pairs without repeated keys, the map holds under each key
/// the value that stands beside it.
pub proof fn lemma_pairs_map(pairs: Seq<(String, String)>, i: int)
    requires
        distinct_keys(pairs),
        0 <= i < pairs.len(),
    ensures
        pairs_map(pairs).dom().contains(pairs[i].0@),
        pairs_map(pairs)[pairs[i].0@] == pairs[i].1@,
{
    let k = pairs[i].0@;
    let c = choose|c: int| 0 <= c < pairs.len() && (#[trigger] pairs[c]).0@ == k;
    if c < i {
        assert(pairs[c].0@ != pairs[i].0@);
    }
    if i < c {
        assert(pairs[i].0@ != pairs[c].0@);
    }
}

/// The metadata pairs that encode a measurement name and a list of roles.
pub fn encode_metadata(measurement: Option<String>, roles: &Vec<(String, InfluxColumnType)>) -> (pairs:
    Vec<(String, String)>)
    requires
        distinct_names(roles@),
    ensures
        distinct_keys(pairs@),
        pairs_map(pairs@) == encoded(measurement, roles@),
{
    let mut pairs: Vec<(String, String)> = Vec::new();
    let named = measurement.is_some();
    let mut x: usize = 0;
    while x < roles.len()
        invariant
            x <= roles.len(),
            named == measurement.is_some(),
            distinct_names(roles@),
            distinct_keys(pairs@),
            forall|y: int|
                0 <= y < pairs.len() ==> exists|k: int|
                    0 <= k < x && (#[trigger] roles[k]).0@ == (#[trigger] pairs[y]).0@ && pairs[y].1@
                        == roles[k].1.token() && !(named && pairs[y].0@
                        == MEASUREMENT_METADATA_KEY@),
            forall|k: int|
                0 <= k < x ==> (named && (#[trigger] roles[k]).0@ == MEASUREMENT_METADATA_KEY@)
                    || exists|y: int| 0 <= y < pairs.len() && (#[trigger] pairs[y]).0@ == roles[k].0@,
        decreases roles.len() - x,
    {
        let ghost before = pairs@;
        if !(named && str_eq(roles[x].0.as_str(), MEASUREMENT_METADATA_KEY)) {
            pairs.push((roles[x].0.clone(), roles[x].1.to_string()));
            proof {
                let last = before.len() as int;
                assert(pairs[last].0@ == roles[x as int].0@);
                assert forall|a: int, b: int| 0 <= a < b < pairs.len() implies (
                #[trigger] pairs[a]).0@ != (#[trigger] pairs[b]).0@ by {
                    if b == last {
                        let k = choose|k: int|
                            0 <= k < x && (#[trigger] roles[k]).0@ == before[a].0@;
                        assert(roles[k].0@ != roles[x as int].0@);
                    } else {
                        assert(before[a].0@ != before[b].0@);
                    }
                }
                assert forall|y: int| 0 <= y < pairs.len() implies exists|k: int|
                    0 <= k < x + 1 && (#[trigger] roles[k]).0@ == (#[trigger] pairs[y]).0@
                        && pairs[y].1@ == roles[k].1.token() && !(named && pairs[y].0@
                        == MEASUREMENT_METADATA_KEY@) by {
                    if y < last {
                        let k = choose|k: int|
                            0 <= k < x && (#[trigger] roles[k]).0@ == before[y].0@ && before[y].1@
                                == roles[k].1.token() && !(named && before[y].0@
                                == MEASUREMENT_METADATA_KEY@);
                        assert(roles[k].0@ == pairs[y].0@);
                    } else {
                        assert(roles[x as int].0@ == pairs[y].0@);
                    }
                }
                assert forall|k: int| 0 <= k < x + 1 implies (named && (#[trigger] roles[k]).0@
                    == MEASUREMENT_METADATA_KEY@) || exists|y: int|
                    0 <= y < pairs.len() && (#[trigger] pairs[y]).0@ == roles[k].0@ by {
                    if k < x {
                        if !(named && roles[k].0@ == MEASUREMENT_METADATA_KEY@) {
                            let y = choose|y: int|
                                0 <= y < before.len() && (#[trigger] before[y]).0@ == roles[k].0@;
                            assert(pairs[y].0@ == roles[k].0@);
                        }
                    } else {
                        assert(pairs[last].0@ == roles[k].0@);
                    }
                }
            }
        }
        x += 1;
    }
    let ghost coded = pairs@;
    match measurement {
        Some(name) => {
            pairs.push((String::from_str(MEASUREMENT_METADATA_KEY), name));
            proof {
                assert forall|a: int, b: int| 0 <= a < b < pairs.len() implies (
                #[trigger] pairs[a]).0@ != (#[trigger] pairs[b]).0@ by {
                    if b < coded.len() {
                        assert(coded[a].0@ != coded[b].0@);
                    }
                }
            }
        },
        None => {},
    }
    proof {
        let m = pairs_map(pairs@);
        let e = encoded(measurement, roles@);
        assert forall|k: Seq<char>| m.dom().contains(k) <==> e.dom().contains(k) by {
            if m.dom().contains(k) {
                let y = choose|y: int| 0 <= y < pairs.len() && (#[trigger] pairs[y]).0@ == k;
                if y < coded.len() {
                    let r = choose|r: int|
                        0 <= r < roles.len() && (#[trigger] roles[r]).0@ == coded[y].0@;
                    lemma_entry_role(roles@, r);
                }
            }
            if e.dom().contains(k) {
                if named && k == MEASUREMENT_METADATA_KEY@ {
                    assert(pairs[coded.len() as int].0@ == k);
                } else {
                    if !has_entry(roles@, k) {
                        lemma_entry_role_none(roles@, k);
                    }
                    let r = choose|r: int| 0 <= r < roles.len() && (#[trigger] roles[r]).0@ == k;
                    let y = choose|y: int|
                        0 <= y < coded.len() && (#[trigger] coded[y]).0@ == roles[r].0@;
                    assert(pairs[y].0@ == k);
                }
            }
        }
        assert forall|k: Seq<char>| m.dom().contains(k) implies m[k] == e[k] by {
            let y = choose|y: int| 0 <= y < pairs.len() && (#[trigger] pairs[y]).0@ == k;
            lemma_pairs_map(pairs@, y);
            if y < coded.len() {
                let r = choose|r: int|
                    0 <= r < roles.len() && (#[trigger] roles[r]).0@ == coded[y].0@ && coded[y].1@
                        == roles[r].1.token() && !(named && coded[y].0@
                        == MEASUREMENT_METADATA_KEY@);
                lemma_entry_role(roles@, r);
            }
        }
        assert(m =~= e);
    }
    pairs
}

/// The metadata map that the parts of a schema stand for: under the
/// measurement key the measurement name, if there is one, and under every
/// other name to which the parts give a role, the metadata value of the role.
pub open spec fn parts_metadata(
    measurement: Option<String>,
    tags: Seq<String>,
    fields: Seq<(String, InfluxColumnType)>,
    time: Option<String>,
) -> Map<Seq<char>, Seq<char>> {
    Map::new(
        |k: Seq<char>|
            (measurement.is_some() && k == MEASUREMENT_METADATA_KEY@) || assigned_role(
                tags,
                fields,
                time,
                k,
            ).is_some(),
        |k: Seq<char>|
            if measurement.is_some() && k == MEASUREMENT_METADATA_KEY@ {
                measurement.unwrap()@
            } else {
                assigned_role(tags, fields, time, k).unwrap().token()
            },
    )
}

/// The columns that a list of generic fields stands for.
pub open spec fn columns_of(fields: Seq<ArrowField>) -> Seq<ColumnModel> {
    Seq::new(fields.len(), |i: int| field_model(fields[i]))
}

impl Schema {
    /// Builds and validates a schema from its parts.
    ///
    /// `fields` are the columns, in order; `tag_cols` names the columns that
    /// are tags; `field_cols` gives the roles of further columns, each name
    /// once; `time_col` names the timestamp column.
    ///
    /// Fails where a name of `field_cols` is a tag name too, or the
    /// timestamp name has a role already; and else where the columns with
    /// the metadata that the parts stand for are no valid schema.
    pub fn new_from_parts(
        measurement: Option<String>,
        fields: Vec<ArrowField>,
        tag_cols: Vec<String>,
        field_cols: Vec<(String, InfluxColumnType)>,
        time_col: Option<String>,
    ) -> (r: Result<Self, Error>)
        requires
            distinct_names(field_cols@),
        ensures
            match parts_error(tag_cols@, field_cols@, time_col) {
                Some(e) => r matches Err(x) && x@ == e,
                None => match validation_error(
                    columns_of(fields@),
                    parts_metadata(measurement, tag_cols@, field_cols@, time_col),
                ) {
                    Some(e) => r matches Err(x) && x@ == e,
                    None => {
                        &&& r matches Ok(schema)
                        &&& schema.fields() == fields@
                        &&& schema.metadata() == parts_metadata(
                            measurement,
                            tag_cols@,
                            field_cols@,
                            time_col,
                        )
                        &&& schema.unique_names()
                        &&& schema.well_typed()
                    },
                },
            },
    {
        let ghost named = measurement;
        let assigned = match assign_roles(&tag_cols, &field_cols, &time_col) {
            Ok(assigned) => assigned,
            Err(e) => {
                return Err(e);
            },
        };
        let metadata = encode_metadata(measurement, &assigned);
        proof {
            assert(encoded(named, assigned@) =~= parts_metadata(
                named,
                tag_cols@,
                field_cols@,
                time_col,
            ));
        }
        let inner = new_schema(fields, metadata);
        proof {
            assert(crate::generic::schema_columns(inner) =~= columns_of(fields@));
        }
        Schema::try_from_arrow(Arc::new(inner))
    }
}

/// The roles assigned from tags and fields are those that the parts give.
proof fn lemma_roles_of_parts(
    tags: Seq<String>,
    fields: Seq<(String, InfluxColumnType)>,
    roles: Seq<(String, InfluxColumnType)>,
    name: Seq<char>,
)
    requires
        distinct_names(fields),
        distinct_names(roles),
        forall|x: int|
            0 <= x < roles.len() ==> from_parts(tags, fields, fields.len() as int, #[trigger] roles[x]),
        forall|k: int| 0 <= k < tags.len() ==> has_entry(roles, (#[trigger] tags[k])@),
        forall|k: int|
            0 <= k < fields.len() ==> !is_tag(tags, (#[trigger] fields[k]).0@) && has_entry(
                roles,
                fields[k].0@,
            ),
    ensures
        entry_role(roles, name) == assigned_role(tags, fields, None, name),
{
    if has_entry(roles, name) {
        let x = choose|x: int| 0 <= x < roles.len() && (#[trigger] roles[x]).0@ == name;
        lemma_entry_role(roles, x);
        assert(from_parts(tags, fields, fields.len() as int, roles[x]));
        if !is_tag(tags, name) {
            let k = choose|k: int|
                0 <= k < fields.len() && (#[trigger] fields[k]).0@ == roles[x].0@ && fields[k].1
                    == roles[x].1;
            lemma_entry_role(fields, k);
        }
    } else {
        lemma_entry_role_none(roles, name);
        if is_tag(tags, name) {
            let k = choose|k: int| 0 <= k < tags.len() && (#[trigger] tags[k])@ == name;
            assert(has_entry(roles, tags[k]@));
        }
        if has_entry(fields, name) {
            let k = choose|k: int| 0 <= k < fields.len() && (#[trigger] fields[k]).0@ == name;
            assert(has_entry(roles, fields[k].0@));
        }
        lemma_entry_role_none(fields, name);
    }
}

} // verus!
