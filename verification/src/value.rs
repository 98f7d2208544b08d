//! The abstract value tree that the style encoders consume.
use vstd::prelude::*;

verus! {

/// A structured value to be rendered as wire text.
///
/// The tree is built once by the caller (typically by an adapter over the
/// host language's reflection facility) and read once, top-down, by an
/// encoder.
#[derive(Debug)]
pub enum Value {
    /// A boolean, rendered as `true` or `false`.
    Bool(bool),
    /// A signed integer, normalized to 128 bits.
    Integer(i128),
    /// An unsigned integer, normalized to 128 bits.
    Unsigned(u128),
    /// A floating-point number, carried as the decimal text that the
    /// caller's numeral formatter produced (shortest round-tripping form).
    Float(String),
    /// A single character.
    Char(char),
    /// A text string.
    Str(String),
    /// An ordered sequence of bytes, rendered as their decimal values.
    Bytes(Vec<u8>),
    /// A missing optional value.
    Absent,
    /// A present optional value.
    Present(Box<Value>),
    /// The unit value.
    Unit,
    /// A struct with no fields and no data.
    UnitStruct,
    /// A dataless enum variant, carrying the variant's name.
    UnitVariant(String),
    /// A struct wrapping a single unnamed value.
    NewtypeStruct(Box<Value>),
    /// An enum variant wrapping a single unnamed value.
    NewtypeVariant(Box<Value>),
    /// An ordered, homogeneous sequence of values.
    Sequence(Vec<Value>),
    /// An ordered, possibly heterogeneous tuple of values.
    Tuple(Vec<Value>),
    /// An ordered list of key/value pairs.
    Mapping(Vec<(Value, Value)>),
    /// A struct: ordered (field name, value) pairs.
    Struct(Vec<(String, Value)>),
    /// An enum variant with named fields: the variant's name and its
    /// ordered (field name, value) pairs.
    StructVariant(String, Vec<(String, Value)>),
}

} // verus!
