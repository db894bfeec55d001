use arrow::datatypes::{
    DataType as ArrowDataType, Field as ArrowField, Schema as ArrowSchema,
    SchemaRef as ArrowSchemaRef,
};
use data_types::column_type::InfluxColumnType::{self, Field, Tag, Timestamp};
use data_types::column_type::InfluxFieldType::{self, Boolean, Float, Integer, String, UInteger};
use data_types::error::Error;
use data_types::physical::PhysicalType;
use data_types::schema::{Schema, TIME_COLUMN_NAME};
use std::collections::HashMap;

/// Assembles the parts of a schema column by column.
struct SchemaBuilder {
    measurement: Option<std::string::String>,
    fields: Vec<ArrowField>,
    tag_cols: Vec<std::string::String>,
    field_cols: Vec<(std::string::String, InfluxColumnType)>,
    time_col: Option<std::string::String>,
}

impl SchemaBuilder {
    fn new() -> Self {
        Self {
            measurement: None,
            fields: vec![],
            tag_cols: vec![],
            field_cols: vec![],
            time_col: None,
        }
    }

    fn add_column(mut self, name: &str, nullable: bool, arrow_type: ArrowDataType) -> Self {
        self.fields.push(ArrowField::new(name, arrow_type, nullable));
        self
    }

    fn set_field_col(&mut self, name: &str, column_type: InfluxColumnType) {
        self.field_cols.retain(|(n, _)| n != name);
        self.field_cols.push((name.to_string(), column_type));
    }

    fn tag(mut self, name: &str) -> Self {
        if !self.tag_cols.iter().any(|t| t == name) {
            self.tag_cols.push(name.to_string());
        }
        self.add_column(name, true, ArrowDataType::Utf8)
    }

    fn influx_field(mut self, name: &str, field_type: InfluxFieldType) -> Self {
        self.set_field_col(name, Field(field_type));
        let physical: PhysicalType = field_type.into();
        let arrow_type = match physical {
            PhysicalType::Float64 => ArrowDataType::Float64,
            PhysicalType::Int64 => ArrowDataType::Int64,
            PhysicalType::UInt64 => ArrowDataType::UInt64,
            PhysicalType::Utf8 => ArrowDataType::Utf8,
            PhysicalType::Boolean => ArrowDataType::Boolean,
            PhysicalType::Other(name) => panic!("no scalar type: {}", name),
        };
        self.add_column(name, true, arrow_type)
    }

    fn typed_field(mut self, name: &str, nullable: bool, arrow_type: ArrowDataType) -> Self {
        let physical = match arrow_type {
            ArrowDataType::Float64 => PhysicalType::Float64,
            ArrowDataType::Int64 => PhysicalType::Int64,
            ArrowDataType::UInt64 => PhysicalType::UInt64,
            ArrowDataType::Utf8 => PhysicalType::Utf8,
            ArrowDataType::Boolean => PhysicalType::Boolean,
            ref other => PhysicalType::Other(format!("{:?}", other)),
        };
        if let Ok(field_type) = InfluxFieldType::try_from(physical) {
            self.set_field_col(name, Field(field_type));
        }
        self.add_column(name, nullable, arrow_type)
    }

    fn field(self, name: &str, arrow_type: ArrowDataType) -> Self {
        self.typed_field(name, true, arrow_type)
    }

    fn non_null_field(self, name: &str, arrow_type: ArrowDataType) -> Self {
        self.typed_field(name, false, arrow_type)
    }

    fn timestamp(mut self) -> Self {
        self.time_col = Some(TIME_COLUMN_NAME.to_string());
        self.add_column(TIME_COLUMN_NAME, false, ArrowDataType::Int64)
    }

    fn measurement(mut self, name: &str) -> Self {
        self.measurement = Some(name.to_string());
        self
    }

    fn build(self) -> Result<Schema, Error> {
        Schema::new_from_parts(
            self.measurement,
            self.fields,
            self.tag_cols,
            self.field_cols,
            self.time_col,
        )
    }
}

fn metadata_of(pairs: Vec<(&str, &str)>) -> HashMap<std::string::String, std::string::String> {
    pairs
        .into_iter()
        .map(|i| (i.0.to_string(), i.1.to_string()))
        .collect()
}

fn assert_column_eq(schema: &Schema, i: usize, expected: InfluxColumnType, expected_name: &str) {
    let (influxdb_column_type, arrow_field) = schema.field(i);
    assert_eq!(influxdb_column_type, Some(expected));
    assert_eq!(arrow_field.name(), expected_name);
}

#[test]
fn new_from_arrow_no_metadata() {
    let arrow_schema = ArrowSchemaRef::new(ArrowSchema::new(vec![
        ArrowField::new("col1", ArrowDataType::Int64, false),
        ArrowField::new("col2", ArrowDataType::Utf8, false),
    ]));

    // Given a schema created from arrow record batch with no metadata
    let schema: Schema = arrow_schema.clone().try_into().unwrap();
    assert_eq!(schema.len(), 2);

    // It still works, but has no lp column types
    let (influxdb_column_type, field) = schema.field(0);
    assert_eq!(field.name(), "col1");
    assert_eq!(field, arrow_schema.field(0));
    assert_eq!(influxdb_column_type, None);

    let (influxdb_column_type, field) = schema.field(1);
    assert_eq!(field.name(), "col2");
    assert_eq!(field, arrow_schema.field(1));
    assert_eq!(influxdb_column_type, None);
}

#[test]
fn new_from_arrow_metadata_good() {
    let fields = vec![
        ArrowField::new("tag_col", ArrowDataType::Utf8, false),
        ArrowField::new("int_col", ArrowDataType::Int64, false),
        ArrowField::new("uint_col", ArrowDataType::UInt64, false),
        ArrowField::new("float_col", ArrowDataType::Float64, false),
        ArrowField::new("str_col", ArrowDataType::Utf8, false),
        ArrowField::new("bool_col", ArrowDataType::Boolean, false),
        ArrowField::new("time_col", ArrowDataType::Int64, false),
    ];

    let metadata = metadata_of(vec![
        ("tag_col", "iox::column_type::tag"),
        ("int_col", "iox::column_type::field::integer"),
        ("uint_col", "iox::column_type::field::uinteger"),
        ("float_col", "iox::column_type::field::float"),
        ("str_col", "iox::column_type::field::string"),
        ("bool_col", "iox::column_type::field::boolean"),
        ("time_col", "iox::column_type::timestamp"),
        ("iox::measurement::name", "the_measurement"),
    ]);

    let arrow_schema = ArrowSchemaRef::new(ArrowSchema::new_with_metadata(fields, metadata));

    let schema: Schema = arrow_schema.try_into().unwrap();
    assert_column_eq(&schema, 0, Tag, "tag_col");
    assert_column_eq(&schema, 1, Field(Integer), "int_col");
    assert_column_eq(&schema, 2, Field(UInteger), "uint_col");
    assert_column_eq(&schema, 3, Field(Float), "float_col");
    assert_column_eq(&schema, 4, Field(String), "str_col");
    assert_column_eq(&schema, 5, Field(Boolean), "bool_col");
    assert_column_eq(&schema, 6, Timestamp, "time_col");
    assert_eq!(schema.len(), 7);

    assert_eq!(schema.measurement().unwrap(), "the_measurement");
}

#[test]
fn new_from_arrow_metadata_extra() {
    let fields = vec![
        ArrowField::new("tag_col", ArrowDataType::Utf8, false),
        ArrowField::new("int_col", ArrowDataType::Int64, false),
    ];

    // This metadata models metadata that was not created by this
    // rust module itself
    let metadata = metadata_of(vec![
        ("tag_col", "something_other_than_iox"),
        ("int_col", "iox::column_type::field::some_new_exotic_type"),
        ("non_existent_col", "iox::column_type::field::float"),
        ("iox::some::new::key", "foo"),
    ]);

    let arrow_schema = ArrowSchemaRef::new(ArrowSchema::new_with_metadata(fields, metadata));

    // Having this succeed is the primary test
    let schema: Schema = arrow_schema.try_into().unwrap();

    let (influxdb_column_type, field) = schema.field(0);
    assert_eq!(field.name(), "tag_col");
    assert_eq!(influxdb_column_type, None);

    let (influxdb_column_type, field) = schema.field(1);
    assert_eq!(field.name(), "int_col");
    assert_eq!(influxdb_column_type, None);
}

// mismatched metadata / arrow types
#[test]
fn new_from_arrow_metadata_mismatched_tag() {
    let fields = vec![
        ArrowField::new("tag_col", ArrowDataType::Int64, false), // not a valid tag type
    ];

    // claims that tag_col is a tag, but it is an integer
    let metadata = metadata_of(vec![("tag_col", "iox::column_type::tag")]);

    let arrow_schema = ArrowSchemaRef::new(ArrowSchema::new_with_metadata(fields, metadata));

    let res = Schema::try_from_arrow(arrow_schema);
    assert_eq!(res.unwrap_err().to_string(), "Error: Incompatible metadata type found in schema for column 'tag_col'. Metadata specified Tag which is incompatible with actual type Int64");
}

// mismatched metadata / arrow types
#[test]
fn new_from_arrow_metadata_mismatched_field() {
    let fields = vec![ArrowField::new("int_col", ArrowDataType::Int64, false)];

    // metadata claims it is a float
    let metadata = metadata_of(vec![("int_col", "iox::column_type::field::float")]);

    let arrow_schema = ArrowSchemaRef::new(ArrowSchema::new_with_metadata(fields, metadata));

    let res = Schema::try_from_arrow(arrow_schema);
    assert_eq!(res.unwrap_err().to_string(), "Error: Incompatible metadata type found in schema for column 'int_col'. Metadata specified Field(Float) which is incompatible with actual type Int64");
}

// mismatched metadata / arrow types
#[test]
fn new_from_arrow_metadata_mismatched_timestamp() {
    let fields = vec![
        ArrowField::new("time", ArrowDataType::Utf8, false), // timestamp can't be strings
    ];

    // metadata claims it is a timestamp
    let metadata = metadata_of(vec![("time", "iox::column_type::timestamp")]);

    let arrow_schema = ArrowSchemaRef::new(ArrowSchema::new_with_metadata(fields, metadata));

    let res = Schema::try_from_arrow(arrow_schema);
    assert_eq!(res.unwrap_err().to_string(), "Error: Incompatible metadata type found in schema for column 'time'. Metadata specified Timestamp which is incompatible with actual type Utf8");
}

#[test]
fn new_from_arrow_replicated_columns() {
    // arrow allows duplicated colum names
    let fields = vec![
        ArrowField::new("the_column", ArrowDataType::Utf8, false),
        ArrowField::new("another_column", ArrowDataType::Utf8, false),
        ArrowField::new("the_column", ArrowDataType::Utf8, false),
    ];

    let arrow_schema = ArrowSchemaRef::new(ArrowSchema::new(fields));

    let res = Schema::try_from_arrow(arrow_schema);
    assert_eq!(
        res.unwrap_err().to_string(),
        "Error: Duplicate column name found in schema: 'the_column'"
    );
}

#[test]
fn test_round_trip() {
    let schema1 = SchemaBuilder::new()
        .influx_field("the_field", String)
        .tag("the_tag")
        .timestamp()
        .measurement("the_measurement")
        .build()
        .unwrap();

    // Make a new schema via ArrowSchema (serialized metadata) to ensure that
    // the metadata makes it through a round trip

    let arrow_schema_1: ArrowSchemaRef = schema1.clone().into();
    let schema2 = Schema::try_from_arrow(arrow_schema_1).unwrap();

    for s in &[schema1, schema2] {
        assert_eq!(s.measurement().unwrap(), "the_measurement");
        assert_column_eq(s, 0, Field(String), "the_field");
        assert_column_eq(s, 1, Tag, "the_tag");
        assert_column_eq(s, 2, Timestamp, "time");
        assert_eq!(3, s.len());
    }
}

#[test]
fn test_iter() {
    let schema = SchemaBuilder::new()
        .influx_field("the_field", String)
        .tag("the_tag")
        .timestamp()
        .measurement("the_measurement")
        .build()
        .unwrap();

    // test schema iterator and field accessor match up
    let mut iter = schema.iter();
    let mut i = 0;
    while let Some((iter_col_type, iter_field)) = iter.next() {
        let (col_type, field) = schema.field(i);
        assert_eq!(iter_col_type, col_type);
        assert_eq!(iter_field, field);
        i += 1;
    }
    assert_eq!(i, 3);
}

#[test]
fn test_merge_compatible_schema() {
    let schema1 = SchemaBuilder::new()
        .tag("the_tag")
        .influx_field("int_field", Integer)
        .build()
        .unwrap();

    // has some of the same and some new, different fields
    let schema2 = SchemaBuilder::new()
        .measurement("my_measurement")
        .tag("the_other_tag")
        .influx_field("int_field", Integer)
        .influx_field("another_field", Integer)
        .build()
        .unwrap();

    let merged_schema = schema1.try_merge(schema2).unwrap();

    let expected_schema = SchemaBuilder::new()
        .measurement("my_measurement")
        .tag("the_tag")
        .influx_field("int_field", Integer)
        .tag("the_other_tag")
        .influx_field("another_field", Integer)
        .build()
        .unwrap();

    assert_eq!(
        expected_schema, merged_schema,
        "\nExpected:\n{:#?}\nActual:\n{:#?}",
        expected_schema, merged_schema
    );
}

#[test]
fn test_merge_compatible_schema_no_names() {
    let schema1 = SchemaBuilder::new().tag("the_tag").build().unwrap();

    // has some of the same and some new, different fields
    let schema2 = SchemaBuilder::new().tag("the_other_tag").build().unwrap();

    // ensure the merge is not optimized away
    let merged_schema = schema1.try_merge(schema2).unwrap();

    let expected_schema = SchemaBuilder::new()
        .tag("the_tag")
        .tag("the_other_tag")
        .build()
        .unwrap();

    assert_eq!(
        expected_schema, merged_schema,
        "\nExpected:\n{:#?}\nActual:\n{:#?}",
        expected_schema, merged_schema
    );
}

#[test]
fn test_merge_compatible_schema_only_measurement() {
    let schema1 = SchemaBuilder::new()
        .tag("the_tag")
        .measurement("the_measurement")
        .build()
        .unwrap();

    // schema has same fields but not measurement name
    let schema2 = SchemaBuilder::new().tag("the_tag").build().unwrap();

    // ensure the merge is not optimized away
    let merged_schema = schema1.try_merge(schema2).unwrap();

    let expected_schema = SchemaBuilder::new()
        .tag("the_tag")
        .measurement("the_measurement")
        .build()
        .unwrap();

    assert_eq!(
        expected_schema, merged_schema,
        "\nExpected:\n{:#?}\nActual:\n{:#?}",
        expected_schema, merged_schema
    );
}

#[test]
fn test_merge_measurement_names() {
    let schema1 = SchemaBuilder::new().tag("the_tag").build().unwrap();

    // has some of the same and some different fields
    let schema2 = SchemaBuilder::new()
        .measurement("my_measurement")
        .build()
        .unwrap();

    let merged_schema = schema1.try_merge(schema2).unwrap();

    let expected_schema = SchemaBuilder::new()
        .measurement("my_measurement")
        .tag("the_tag")
        .build()
        .unwrap();

    assert_eq!(
        expected_schema, merged_schema,
        "\nExpected:\n{:#?}\nActual:\n{:#?}",
        expected_schema, merged_schema
    );
}

#[test]
fn test_merge_incompatible_schema_measurement_names() {
    let schema1 = SchemaBuilder::new()
        .tag("the_tag")
        .measurement("measurement1")
        .build()
        .unwrap();

    // different measurement name, same otherwise
    let schema2 = SchemaBuilder::new()
        .tag("the_tag")
        .measurement("measurement2")
        .build()
        .unwrap();

    let merged_schema_error = schema1.try_merge(schema2).unwrap_err();

    assert_eq!(
        merged_schema_error.to_string(),
        "Schema Merge Error: Incompatible measurement names. Existing measurement name 'measurement1', new measurement name 'measurement2'"
    );
}

#[test]
fn test_merge_incompatible_data_types() {
    // same field name with different type
    let schema1 = SchemaBuilder::new()
        .field("the_field", ArrowDataType::Int16)
        .build()
        .unwrap();

    // same field name with different type
    let schema2 = SchemaBuilder::new()
        .field("the_field", ArrowDataType::Int8)
        .build()
        .unwrap();

    let merged_schema_error = schema1.try_merge(schema2).unwrap_err();

    assert_eq!(merged_schema_error.to_string(), "Schema Merge Error: Incompatible data type for 'the_field'. Existing type Int16, new type Int8");
}

#[test]
fn test_merge_incompatible_column_types() {
    let schema1 = SchemaBuilder::new().tag("the_tag").build().unwrap();

    // same field name with different type
    let schema2 = SchemaBuilder::new()
        .influx_field("the_tag", Integer)
        .build()
        .unwrap();

    let merged_schema_error = schema1.try_merge(schema2).unwrap_err();

    assert_eq!(merged_schema_error.to_string(), "Schema Merge Error: Incompatible column type for 'the_tag'. Existing type Some(Field(Integer)), new type Some(Tag)");
}

#[test]
fn test_merge_incompatible_schema_nullability() {
    let schema1 = SchemaBuilder::new()
        .non_null_field("int_field", ArrowDataType::Int64)
        .build()
        .unwrap();

    // same field name with different nullability
    let schema2 = SchemaBuilder::new()
        .field("int_field", ArrowDataType::Int64)
        .build()
        .unwrap();

    let merged_schema_error = schema1.try_merge(schema2).unwrap_err();

    assert_eq!(merged_schema_error.to_string(), "Schema Merge Error: Incompatible nullability for 'int_field'. Existing field can not be null, new field can be null");
}

#[test]
fn test_sort_fields_by_name_already_sorted() {
    let schema = SchemaBuilder::new()
        .field("field_a", ArrowDataType::Int64)
        .field("field_b", ArrowDataType::Int64)
        .field("field_c", ArrowDataType::Int64)
        .build()
        .unwrap();

    let sorted_schema = schema.clone().sort_fields_by_name();

    assert_eq!(
        schema, sorted_schema,
        "\nExpected:\n{:#?}\nActual:\n{:#?}",
        schema, sorted_schema
    );
}

#[test]
fn test_sort_fields_by_name() {
    let schema = SchemaBuilder::new()
        .field("field_b", ArrowDataType::Int64)
        .field("field_a", ArrowDataType::Int64)
        .field("field_c", ArrowDataType::Int64)
        .build()
        .unwrap();

    let sorted_schema = schema.sort_fields_by_name();

    let expected_schema = SchemaBuilder::new()
        .field("field_a", ArrowDataType::Int64)
        .field("field_b", ArrowDataType::Int64)
        .field("field_c", ArrowDataType::Int64)
        .build()
        .unwrap();

    assert_eq!(
        expected_schema, sorted_schema,
        "\nExpected:\n{:#?}\nActual:\n{:#?}",
        expected_schema, sorted_schema
    );
}
