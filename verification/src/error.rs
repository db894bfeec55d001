//! Schema creation, validation and merge errors.
use crate::column_type::InfluxColumnType;
use crate::generic::error_message;
use crate::generic::error_text;
use crate::physical::PhysicalType;
use crate::physical::TypeModel;
use arrow::error::ArrowError;
use vstd::prelude::*;

verus! {

/// Schema creation, validation and merge errors.
#[derive(Debug)]
pub enum Error {
    /// A column was declared both a field and a tag.
    BothFieldAndTag { column_name: String },
    /// Two columns have the same name.
    DuplicateColumnName { column_name: String },
    /// The role that the metadata gives a column does not fit its physical type.
    IncompatibleMetadata {
        column_name: String,
        influxdb_column_type: InfluxColumnType,
        actual_type: PhysicalType,
    },
    /// The timestamp column already has another role.
    InvalidTimestamp { column_name: String, existing_type: InfluxColumnType },
    /// Both schemas name a measurement, and the names differ.
    TryMergeDifferentMeasurementNames { existing_measurement: String, new_measurement: String },
    /// A column that both schemas have differs in role.
    TryMergeBadColumnType {
        field_name: String,
        existing_influx_column_type: Option<InfluxColumnType>,
        influx_column_type: Option<InfluxColumnType>,
    },
    /// A column that both schemas have differs in physical type.
    TryMergeBadArrowType {
        field_name: String,
        existing_data_type: PhysicalType,
        new_data_type: PhysicalType,
    },
    /// A column that both schemas have differs in nullability.
    TryMergeBadNullability {
        field_name: String,
        existing_nullability: bool,
        new_nullability: bool,
    },
    /// The structural merge of the generic schemas failed.
    MergingSchemas { source: ArrowError },
}

/// Mathematical model of an [`Error`].
pub enum ErrorModel {
    BothFieldAndTag { column_name: Seq<char> },
    DuplicateColumnName { column_name: Seq<char> },
    IncompatibleMetadata {
        column_name: Seq<char>,
        influxdb_column_type: InfluxColumnType,
        actual_type: TypeModel,
    },
    InvalidTimestamp { column_name: Seq<char>, existing_type: InfluxColumnType },
    TryMergeDifferentMeasurementNames {
        existing_measurement: Seq<char>,
        new_measurement: Seq<char>,
    },
    TryMergeBadColumnType {
        field_name: Seq<char>,
        existing_influx_column_type: Option<InfluxColumnType>,
        influx_column_type: Option<InfluxColumnType>,
    },
    TryMergeBadArrowType {
        field_name: Seq<char>,
        existing_data_type: TypeModel,
        new_data_type: TypeModel,
    },
    TryMergeBadNullability {
        field_name: Seq<char>,
        existing_nullability: bool,
        new_nullability: bool,
    },
    MergingSchemas { source: ArrowError },
}

impl View for Error {
    type V = ErrorModel;

    open spec fn view(&self) -> ErrorModel {
        match self {
            Error::BothFieldAndTag { column_name } => ErrorModel::BothFieldAndTag {
                column_name: column_name@,
            },
            Error::DuplicateColumnName { column_name } => ErrorModel::DuplicateColumnName {
                column_name: column_name@,
            },
            Error::IncompatibleMetadata {
                column_name,
                influxdb_column_type,
                actual_type,
            } => ErrorModel::IncompatibleMetadata {
                column_name: column_name@,
                influxdb_column_type: *influxdb_column_type,
                actual_type: actual_type@,
            },
            Error::InvalidTimestamp { column_name, existing_type } => ErrorModel::InvalidTimestamp {
                column_name: column_name@,
                existing_type: *existing_type,
            },
            Error::TryMergeDifferentMeasurementNames {
                existing_measurement,
                new_measurement,
            } => ErrorModel::TryMergeDifferentMeasurementNames {
                existing_measurement: existing_measurement@,
                new_measurement: new_measurement@,
            },
            Error::TryMergeBadColumnType {
                field_name,
                existing_influx_column_type,
                influx_column_type,
            } => ErrorModel::TryMergeBadColumnType {
                field_name: field_name@,
                existing_influx_column_type: *existing_influx_column_type,
                influx_column_type: *influx_column_type,
            },
            Error::TryMergeBadArrowType {
                field_name,
                existing_data_type,
                new_data_type,
            } => ErrorModel::TryMergeBadArrowType {
                field_name: field_name@,
                existing_data_type: existing_data_type@,
                new_data_type: new_data_type@,
            },
            Error::TryMergeBadNullability {
                field_name,
                existing_nullability,
                new_nullability,
            } => ErrorModel::TryMergeBadNullability {
                field_name: field_name@,
                existing_nullability: *existing_nullability,
                new_nullability: *new_nullability,
            },
            Error::MergingSchemas { source } => ErrorModel::MergingSchemas { source: *source },
        }
    }
}

/// How a diagnostic words whether a column admits nulls.
pub fn nullable_to_str(nullability: bool) -> (r: &'static str)
    ensures
        r@ == nullable_text(nullability),
{
    if nullability {
        "can be null"
    } else {
        "can not be null"
    }
}


/// How a diagnostic words whether a column admits nulls.
pub open spec fn nullable_text(nullability: bool) -> Seq<char> {
    if nullability {
        "can be null"@
    } else {
        "can not be null"@
    }
}

impl ErrorModel {
    /// The diagnostic that reports this error.
    pub open spec fn message(self) -> Seq<char> {
        match self {
            ErrorModel::BothFieldAndTag { column_name } => "Error validating schema: '"@
                + column_name + "' is both a field and a tag"@,
            ErrorModel::DuplicateColumnName {
                column_name,
            } => "Error: Duplicate column name found in schema: '"@ + column_name + "'"@,
            ErrorModel::IncompatibleMetadata {
                column_name,
                influxdb_column_type,
                actual_type,
            } => "Error: Incompatible metadata type found in schema for column '"@ + column_name
                + "'. Metadata specified "@ + influxdb_column_type.rendering()
                + " which is incompatible with actual type "@ + actual_type.rendering(),
            ErrorModel::InvalidTimestamp {
                column_name,
                existing_type,
            } => "Duplicate column name: '"@ + column_name + "' was specified to be "@
                + existing_type.rendering() + " as well as timestamp"@,
            ErrorModel::TryMergeDifferentMeasurementNames {
                existing_measurement,
                new_measurement,
            } => "Schema Merge Error: Incompatible measurement names. Existing measurement name '"@
                + existing_measurement + "', new measurement name '"@ + new_measurement + "'"@,
            ErrorModel::TryMergeBadColumnType {
                field_name,
                existing_influx_column_type,
                influx_column_type,
            } => "Schema Merge Error: Incompatible column type for '"@ + field_name
                + "'. Existing type "@ + InfluxColumnType::optional_rendering(influx_column_type)
                + ", new type "@ + InfluxColumnType::optional_rendering(
                existing_influx_column_type,
            ),
            ErrorModel::TryMergeBadArrowType {
                field_name,
                existing_data_type,
                new_data_type,
            } => "Schema Merge Error: Incompatible data type for '"@ + field_name
                + "'. Existing type "@ + existing_data_type.rendering() + ", new type "@
                + new_data_type.rendering(),
            ErrorModel::TryMergeBadNullability {
                field_name,
                existing_nullability,
                new_nullability,
            } => "Schema Merge Error: Incompatible nullability for '"@ + field_name
                + "'. Existing field "@ + nullable_text(existing_nullability) + ", new field "@
                + nullable_text(new_nullability),
            ErrorModel::MergingSchemas {
                source,
            } => "Schema Merge: Error merging underlying schema: "@ + error_text(source),
        }
    }
}

impl Error {
    /// The diagnostic that reports this error.
    pub fn to_string(&self) -> (r: String)
        ensures
            r@ == self@.message(),
    {
        match self {
            Error::BothFieldAndTag { column_name } => String::from_str(
                "Error validating schema: '",
            ).concat(column_name.as_str()).concat("' is both a field and a tag"),
            Error::DuplicateColumnName { column_name } => String::from_str(
                "Error: Duplicate column name found in schema: '",
            ).concat(column_name.as_str()).concat("'"),
            Error::IncompatibleMetadata {
                column_name,
                influxdb_column_type,
                actual_type,
            } => String::from_str(
                "Error: Incompatible metadata type found in schema for column '",
            ).concat(column_name.as_str()).concat("'. Metadata specified ").concat(
                influxdb_column_type.render().as_str(),
            ).concat(" which is incompatible with actual type ").concat(
                actual_type.rendering().as_str(),
            ),
            Error::InvalidTimestamp { column_name, existing_type } => String::from_str(
                "Duplicate column name: '",
            ).concat(column_name.as_str()).concat("' was specified to be ").concat(
                existing_type.render().as_str(),
            ).concat(" as well as timestamp"),
            Error::TryMergeDifferentMeasurementNames {
                existing_measurement,
                new_measurement,
            } => String::from_str(
                "Schema Merge Error: Incompatible measurement names. Existing measurement name '",
            ).concat(existing_measurement.as_str()).concat("', new measurement name '").concat(
                new_measurement.as_str(),
            ).concat("'"),
            Error::TryMergeBadColumnType {
                field_name,
                existing_influx_column_type,
                influx_column_type,
            } => String::from_str("Schema Merge Error: Incompatible column type for '").concat(
                field_name.as_str(),
            ).concat("'. Existing type ").concat(
                InfluxColumnType::render_optional(influx_column_type).as_str(),
            ).concat(", new type ").concat(
                InfluxColumnType::render_optional(existing_influx_column_type).as_str(),
            ),
            Error::TryMergeBadArrowType {
                field_name,
                existing_data_type,
                new_data_type,
            } => String::from_str("Schema Merge Error: Incompatible data type for '").concat(
                field_name.as_str(),
            ).concat("'. Existing type ").concat(existing_data_type.rendering().as_str()).concat(
                ", new type ",
            ).concat(new_data_type.rendering().as_str()),
            Error::TryMergeBadNullability {
                field_name,
                existing_nullability,
                new_nullability,
            } => String::from_str("Schema Merge Error: Incompatible nullability for '").concat(
                field_name.as_str(),
            ).concat("'. Existing field ").concat(nullable_to_str(*existing_nullability)).concat(
                ", new field ",
            ).concat(nullable_to_str(*new_nullability)),
            Error::MergingSchemas { source } => String::from_str(
                "Schema Merge: Error merging underlying schema: ",
            ).concat(error_message(source).as_str()),
        }
    }
}

} // verus!
