//! Column roles of the time-series data model and their encodings.
use crate::physical::PhysicalType;
use crate::physical::TypeModel;
use crate::text::quoted;
use crate::text::quoted_text;
use crate::text::str_eq;
use vstd::prelude::*;

verus! {

/// The kinds of scalar values that a field column can hold.
#[derive(Debug, PartialEq, Eq, Clone, Copy, Structural)]
pub enum InfluxFieldType {
    /// 64-bit floating point number
    Float,
    /// 64-bit signed integer
    Integer,
    /// 64-bit unsigned integer
    UInteger,
    /// UTF-8 encoded string
    String,
    /// true or false
    Boolean,
}

/// The role of a column in the time-series data model.
#[derive(Debug, PartialEq, Eq, Clone, Copy, Structural)]
pub enum InfluxColumnType {
    /// A string-valued dimension; always stored as UTF-8.
    Tag,
    /// A measured value of the given kind.
    Field(InfluxFieldType),
    /// Nanoseconds since the epoch, stored as a signed 64-bit integer.
    Timestamp,
}

impl InfluxFieldType {
    /// The one physical type that stores values of this kind.
    pub open spec fn physical(self) -> TypeModel {
        match self {
            InfluxFieldType::Float => TypeModel::Float64,
            InfluxFieldType::Integer => TypeModel::Int64,
            InfluxFieldType::UInteger => TypeModel::UInt64,
            InfluxFieldType::String => TypeModel::Utf8,
            InfluxFieldType::Boolean => TypeModel::Boolean,
        }
    }

    /// The physical type of this kind, as a value.
    pub open spec fn stored_as(self) -> PhysicalType {
        match self {
            InfluxFieldType::Float => PhysicalType::Float64,
            InfluxFieldType::Integer => PhysicalType::Int64,
            InfluxFieldType::UInteger => PhysicalType::UInt64,
            InfluxFieldType::String => PhysicalType::Utf8,
            InfluxFieldType::Boolean => PhysicalType::Boolean,
        }
    }

    /// The field kind that a physical type stores, if it stores one.
    pub open spec fn of_physical(t: TypeModel) -> Option<InfluxFieldType> {
        match t {
            TypeModel::Float64 => Some(InfluxFieldType::Float),
            TypeModel::Int64 => Some(InfluxFieldType::Integer),
            TypeModel::UInt64 => Some(InfluxFieldType::UInteger),
            TypeModel::Utf8 => Some(InfluxFieldType::String),
            TypeModel::Boolean => Some(InfluxFieldType::Boolean),
            TypeModel::Other(_) => None,
        }
    }
}

impl From<InfluxFieldType> for PhysicalType {
    fn from(t: InfluxFieldType) -> (r: PhysicalType) {
        match t {
            InfluxFieldType::Float => PhysicalType::Float64,
            InfluxFieldType::Integer => PhysicalType::Int64,
            InfluxFieldType::UInteger => PhysicalType::UInt64,
            InfluxFieldType::String => PhysicalType::Utf8,
            InfluxFieldType::Boolean => PhysicalType::Boolean,
        }
    }
}

impl vstd::std_specs::convert::FromSpecImpl<InfluxFieldType> for PhysicalType {
    open spec fn obeys_from_spec() -> bool {
        true
    }

    open spec fn from_spec(t: InfluxFieldType) -> PhysicalType {
        t.stored_as()
    }
}

impl TryFrom<PhysicalType> for InfluxFieldType {
    type Error = &'static str;

    fn try_from(value: PhysicalType) -> (r: Result<Self, Self::Error>) {
        match value {
            PhysicalType::Float64 => Ok(InfluxFieldType::Float),
            PhysicalType::Int64 => Ok(InfluxFieldType::Integer),
            PhysicalType::UInt64 => Ok(InfluxFieldType::UInteger),
            PhysicalType::Utf8 => Ok(InfluxFieldType::String),
            PhysicalType::Boolean => Ok(InfluxFieldType::Boolean),
            PhysicalType::Other(_) => Err("No corresponding type in the InfluxDB data model"),
        }
    }
}

impl vstd::std_specs::convert::TryFromSpecImpl<PhysicalType> for InfluxFieldType {
    open spec fn obeys_try_from_spec() -> bool {
        true
    }

    open spec fn try_from_spec(value: PhysicalType) -> Result<Self, Self::Error> {
        match InfluxFieldType::of_physical(value@) {
            Some(t) => Ok(t),
            None => Err("No corresponding type in the InfluxDB data model"),
        }
    }
}

impl InfluxColumnType {
    /// The one physical type that stores a column of this role.
    pub open spec fn physical(self) -> TypeModel {
        match self {
            InfluxColumnType::Tag => TypeModel::Utf8,
            InfluxColumnType::Field(kind) => kind.physical(),
            InfluxColumnType::Timestamp => TypeModel::Int64,
        }
    }

    /// The metadata value that stands for this role.
    pub open spec fn token(self) -> Seq<char> {
        match self {
            InfluxColumnType::Tag => "iox::column_type::tag"@,
            InfluxColumnType::Field(InfluxFieldType::Float) => "iox::column_type::field::float"@,
            InfluxColumnType::Field(InfluxFieldType::Integer) => "iox::column_type::field::integer"@,
            InfluxColumnType::Field(InfluxFieldType::UInteger) => "iox::column_type::field::uinteger"@,
            InfluxColumnType::Field(InfluxFieldType::String) => "iox::column_type::field::string"@,
            InfluxColumnType::Field(InfluxFieldType::Boolean) => "iox::column_type::field::boolean"@,
            InfluxColumnType::Timestamp => "iox::column_type::timestamp"@,
        }
    }

    /// The role that a metadata value stands for, if it stands for one.
    pub open spec fn decode(s: Seq<char>) -> Option<InfluxColumnType> {
        if exists|t: InfluxColumnType| t.token() == s {
            Some(choose|t: InfluxColumnType| t.token() == s)
        } else {
            None
        }
    }

    /// Distinct roles have distinct metadata values.
    pub proof fn lemma_token_injective(a: InfluxColumnType, b: InfluxColumnType)
        requires
            a.token() == b.token(),
        ensures
            a == b,
    {
        reveal_strlit("iox::column_type::tag");
        reveal_strlit("iox::column_type::field::float");
        reveal_strlit("iox::column_type::field::integer");
        reveal_strlit("iox::column_type::field::uinteger");
        reveal_strlit("iox::column_type::field::string");
        reveal_strlit("iox::column_type::field::boolean");
        reveal_strlit("iox::column_type::timestamp");
        if a != b {
            let x = a.token();
            let y = b.token();
            assert(x.len() == y.len());
            assert(x[25] == y[25]);
        }
    }

    /// Decoding the metadata value of a role gives the role back.
    pub proof fn lemma_decode_token(t: InfluxColumnType)
        ensures
            InfluxColumnType::decode(t.token()) == Some(t),
    {
        let u = choose|u: InfluxColumnType| u.token() == t.token();
        Self::lemma_token_injective(u, t);
    }

    /// A value decodes to a role exactly when it is that role's metadata value.
    pub proof fn lemma_decode_is_token(s: Seq<char>, t: InfluxColumnType)
        ensures
            InfluxColumnType::decode(s) == Some(t) <==> t.token() == s,
    {
        if t.token() == s {
            Self::lemma_decode_token(t);
        }
    }

    /// Whether a column of this role can be stored as `data_type`: only as
    /// the role's own physical type.
    pub fn valid_arrow_type(&self, data_type: &PhysicalType) -> (r: bool)
        ensures
            r == (data_type@ == self.physical()),
    {
        let default_type: PhysicalType = self.into();
        *data_type == default_type
    }

    /// The metadata value that stands for this role, as an owned string.
    pub fn to_string(&self) -> (r: String)
        ensures
            r@ == self.token(),
    {
        let s: &str = self.into();
        String::from_str(s)
    }
}

impl From<&InfluxColumnType> for &'static str {
    fn from(t: &InfluxColumnType) -> (r: Self) {
        match t {
            InfluxColumnType::Tag => "iox::column_type::tag",
            InfluxColumnType::Field(InfluxFieldType::Float) => "iox::column_type::field::float",
            InfluxColumnType::Field(InfluxFieldType::Integer) => "iox::column_type::field::integer",
            InfluxColumnType::Field(InfluxFieldType::UInteger) => {
                "iox::column_type::field::uinteger"
            },
            InfluxColumnType::Field(InfluxFieldType::String) => "iox::column_type::field::string",
            InfluxColumnType::Field(InfluxFieldType::Boolean) => "iox::column_type::field::boolean",
            InfluxColumnType::Timestamp => "iox::column_type::timestamp",
        }
    }
}

impl vstd::std_specs::convert::FromSpecImpl<&InfluxColumnType> for &'static str {
    open spec fn obeys_from_spec() -> bool {
        true
    }

    open spec fn from_spec(t: &InfluxColumnType) -> Self {
        match t {
            InfluxColumnType::Tag => "iox::column_type::tag",
            InfluxColumnType::Field(InfluxFieldType::Float) => "iox::column_type::field::float",
            InfluxColumnType::Field(InfluxFieldType::Integer) => "iox::column_type::field::integer",
            InfluxColumnType::Field(InfluxFieldType::UInteger) => {
                "iox::column_type::field::uinteger"
            },
            InfluxColumnType::Field(InfluxFieldType::String) => "iox::column_type::field::string",
            InfluxColumnType::Field(InfluxFieldType::Boolean) => "iox::column_type::field::boolean",
            InfluxColumnType::Timestamp => "iox::column_type::timestamp",
        }
    }
}

impl From<&InfluxColumnType> for PhysicalType {
    fn from(t: &InfluxColumnType) -> (r: PhysicalType) {
        match t {
            InfluxColumnType::Tag => PhysicalType::Utf8,
            InfluxColumnType::Field(kind) => (*kind).into(),
            InfluxColumnType::Timestamp => PhysicalType::Int64,
        }
    }
}

impl vstd::std_specs::convert::FromSpecImpl<&InfluxColumnType> for PhysicalType {
    open spec fn obeys_from_spec() -> bool {
        true
    }

    open spec fn from_spec(t: &InfluxColumnType) -> PhysicalType {
        match t {
            InfluxColumnType::Tag => PhysicalType::Utf8,
            InfluxColumnType::Field(kind) => kind.stored_as(),
            InfluxColumnType::Timestamp => PhysicalType::Int64,
        }
    }
}

impl InfluxColumnType {
    /// What decoding an unknown metadata value reports.
    pub open spec fn unknown_message(s: Seq<char>) -> Seq<char> {
        "Unknown column type in metadata: "@ + quoted_text(s)
    }
}

impl TryFrom<&str> for InfluxColumnType {
    type Error = String;

    /// The inverse of the conversion to a metadata value.
    fn try_from(s: &str) -> (r: Result<Self, Self::Error>)
        ensures
            match r {
                Ok(t) => InfluxColumnType::decode(s@) == Some(t),
                Err(e) => InfluxColumnType::decode(s@).is_none() && e@
                    == InfluxColumnType::unknown_message(s@),
            },
    {
        let found = if str_eq(s, "iox::column_type::tag") {
            Some(InfluxColumnType::Tag)
        } else if str_eq(s, "iox::column_type::field::float") {
            Some(InfluxColumnType::Field(InfluxFieldType::Float))
        } else if str_eq(s, "iox::column_type::field::integer") {
            Some(InfluxColumnType::Field(InfluxFieldType::Integer))
        } else if str_eq(s, "iox::column_type::field::uinteger") {
            Some(InfluxColumnType::Field(InfluxFieldType::UInteger))
        } else if str_eq(s, "iox::column_type::field::string") {
            Some(InfluxColumnType::Field(InfluxFieldType::String))
        } else if str_eq(s, "iox::column_type::field::boolean") {
            Some(InfluxColumnType::Field(InfluxFieldType::Boolean))
        } else if str_eq(s, "iox::column_type::timestamp") {
            Some(InfluxColumnType::Timestamp)
        } else {
            None
        };
        match found {
            Some(t) => {
                proof {
                    InfluxColumnType::lemma_decode_token(t);
                }
                Ok(t)
            },
            None => {
                proof {
                    assert forall|t: InfluxColumnType| t.token() != s@ by {
                        match t {
                            InfluxColumnType::Tag => {},
                            InfluxColumnType::Field(InfluxFieldType::Float) => {},
                            InfluxColumnType::Field(InfluxFieldType::Integer) => {},
                            InfluxColumnType::Field(InfluxFieldType::UInteger) => {},
                            InfluxColumnType::Field(InfluxFieldType::String) => {},
                            InfluxColumnType::Field(InfluxFieldType::Boolean) => {},
                            InfluxColumnType::Timestamp => {},
                        }
                    }
                }
                Err(String::from_str("Unknown column type in metadata: ").concat(quoted(s).as_str()))
            },
        }
    }
}

// The error is a `String`, which no spec function can build: the contract
// stands on `try_from` itself.
impl vstd::std_specs::convert::TryFromSpecImpl<&str> for InfluxColumnType {
    open spec fn obeys_try_from_spec() -> bool {
        false
    }

    open spec fn try_from_spec(s: &str) -> Result<Self, Self::Error> {
        arbitrary()
    }
}

impl InfluxFieldType {
    /// The name of this kind, as diagnostics show it.
    pub open spec fn rendering(self) -> Seq<char> {
        match self {
            InfluxFieldType::Float => "Float"@,
            InfluxFieldType::Integer => "Integer"@,
            InfluxFieldType::UInteger => "UInteger"@,
            InfluxFieldType::String => "String"@,
            InfluxFieldType::Boolean => "Boolean"@,
        }
    }

    /// The name of this kind, as diagnostics show it.
    pub fn render(&self) -> (r: &'static str)
        ensures
            r@ == self.rendering(),
    {
        match self {
            InfluxFieldType::Float => "Float",
            InfluxFieldType::Integer => "Integer",
            InfluxFieldType::UInteger => "UInteger",
            InfluxFieldType::String => "String",
            InfluxFieldType::Boolean => "Boolean",
        }
    }
}

impl InfluxColumnType {
    /// This role, as diagnostics show it.
    pub open spec fn rendering(self) -> Seq<char> {
        match self {
            InfluxColumnType::Tag => "Tag"@,
            InfluxColumnType::Field(kind) => "Field("@ + kind.rendering() + ")"@,
            InfluxColumnType::Timestamp => "Timestamp"@,
        }
    }

    /// This role, as diagnostics show it.
    pub fn render(&self) -> (r: String)
        ensures
            r@ == self.rendering(),
    {
        match self {
            InfluxColumnType::Tag => String::from_str("Tag"),
            InfluxColumnType::Field(kind) => String::from_str("Field(").concat(kind.render()).concat(
                ")",
            ),
            InfluxColumnType::Timestamp => String::from_str("Timestamp"),
        }
    }

    /// A role or none, as diagnostics show it.
    pub open spec fn optional_rendering(role: Option<InfluxColumnType>) -> Seq<char> {
        match role {
            Some(t) => "Some("@ + t.rendering() + ")"@,
            None => "None"@,
        }
    }

    /// A role or none, as diagnostics show it.
    pub fn render_optional(role: &Option<InfluxColumnType>) -> (r: String)
        ensures
            r@ == InfluxColumnType::optional_rendering(*role),
    {
        match role {
            Some(t) => String::from_str("Some(").concat(t.render().as_str()).concat(")"),
            None => String::from_str("None"),
        }
    }
}

} // verus!
