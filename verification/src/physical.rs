//! Physical column types, as far as this layer tells them apart.
use vstd::prelude::*;

verus! {

/// Mathematical model of a physical column type.
///
/// The five scalar types that a field column can have are told apart by
/// variant; every other type is known by its rendering.
pub enum TypeModel {
    Float64,
    Int64,
    UInt64,
    Utf8,
    Boolean,
    Other(Seq<char>),
}

/// The physical type of a column.
///
/// `Other` carries the rendering of a type that no column role maps to.
#[derive(Debug)]
pub enum PhysicalType {
    Float64,
    Int64,
    UInt64,
    Utf8,
    Boolean,
    Other(String),
}

impl View for PhysicalType {
    type V = TypeModel;

    open spec fn view(&self) -> TypeModel {
        match self {
            PhysicalType::Float64 => TypeModel::Float64,
            PhysicalType::Int64 => TypeModel::Int64,
            PhysicalType::UInt64 => TypeModel::UInt64,
            PhysicalType::Utf8 => TypeModel::Utf8,
            PhysicalType::Boolean => TypeModel::Boolean,
            PhysicalType::Other(s) => TypeModel::Other(s@),
        }
    }
}

impl TypeModel {
    /// The rendering of a type, as diagnostics show it.
    pub open spec fn rendering(self) -> Seq<char> {
        match self {
            TypeModel::Float64 => "Float64"@,
            TypeModel::Int64 => "Int64"@,
            TypeModel::UInt64 => "UInt64"@,
            TypeModel::Utf8 => "Utf8"@,
            TypeModel::Boolean => "Boolean"@,
            TypeModel::Other(s) => s,
        }
    }
}

impl PhysicalType {
    /// The rendering of this type, as diagnostics show it.
    pub fn rendering(&self) -> (r: String)
        ensures
            r@ == self@.rendering(),
    {
        match self {
            PhysicalType::Float64 => String::from_str("Float64"),
            PhysicalType::Int64 => String::from_str("Int64"),
            PhysicalType::UInt64 => String::from_str("UInt64"),
            PhysicalType::Utf8 => String::from_str("Utf8"),
            PhysicalType::Boolean => String::from_str("Boolean"),
            PhysicalType::Other(s) => s.clone(),
        }
    }
}

impl Clone for PhysicalType {
    fn clone(&self) -> (r: Self)
        ensures
            r@ == self@,
    {
        match self {
            PhysicalType::Float64 => PhysicalType::Float64,
            PhysicalType::Int64 => PhysicalType::Int64,
            PhysicalType::UInt64 => PhysicalType::UInt64,
            PhysicalType::Utf8 => PhysicalType::Utf8,
            PhysicalType::Boolean => PhysicalType::Boolean,
            PhysicalType::Other(s) => PhysicalType::Other(s.clone()),
        }
    }
}

impl PartialEq for PhysicalType {
    fn eq(&self, other: &Self) -> (r: bool) {
        match (self, other) {
            (PhysicalType::Float64, PhysicalType::Float64) => true,
            (PhysicalType::Int64, PhysicalType::Int64) => true,
            (PhysicalType::UInt64, PhysicalType::UInt64) => true,
            (PhysicalType::Utf8, PhysicalType::Utf8) => true,
            (PhysicalType::Boolean, PhysicalType::Boolean) => true,
            (PhysicalType::Other(a), PhysicalType::Other(b)) => *a == *b,
            _ => false,
        }
    }
}

impl vstd::std_specs::cmp::PartialEqSpecImpl for PhysicalType {
    open spec fn obeys_eq_spec() -> bool {
        true
    }

    open spec fn eq_spec(&self, other: &Self) -> bool {
        self@ == other@
    }
}

impl Eq for PhysicalType {}

} // verus!
