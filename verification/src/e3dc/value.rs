//! Tagged values as the device sends them, and the four coercions that read
//! a value as text, as a number, as an unsigned integer or as a truth value.

use crate::errors::{agrees, E3dcError, Failure};
use crate::arith::lemma_of_int_exact;
use crate::float::{lemma_widened_exact, Float32, Float64, INFINITY_BITS_32};
use crate::text::{decimal, push_signed_decimal, signed_decimal, signed_text, unsigned_text};
use vstd::arithmetic::power2::pow2;
use vstd::prelude::*;
use vstd::string::*;

verus! {

/// One value of the device protocol.
#[derive(Debug, PartialEq)]
pub enum DynamicValue {
    Bool(bool),
    Int8(i8),
    UInt8(u8),
    Int16(i16),
    UInt16(u16),
    Int32(i32),
    UInt32(u32),
    Int64(i64),
    UInt64(u64),
    Float32(Float32),
    Float64(Float64),
    Text(String),
    Container(Vec<TaggedItem>),
    /// A representation the bridge does not read (bit fields, byte arrays,
    /// wire timestamps, device error codes).
    Unrecognized,
}

/// A tag with its optional value. Within one list of siblings a tag occurs once.
#[derive(Debug, PartialEq)]
pub struct TaggedItem {
    pub tag: u32,
    pub value: Option<DynamicValue>,
}

impl View for Float64 {
    type V = Float64;

    open spec fn view(&self) -> Float64 {
        *self
    }
}

/// The failure of a coercion that the kind of value rules out.
pub open spec fn cannot_convert(kind: Seq<char>, target: Seq<char>) -> Failure {
    Failure::Type("Cannot convert "@ + kind + " to "@ + target)
}

/// The failure of reading a negative integer as unsigned.
pub open spec fn negative_value(width: Seq<char>, v: int) -> Failure {
    Failure::Type("Negative "@ + width + " "@ + signed_decimal(v) + " cannot convert to u64"@)
}

/// The failure of reading as unsigned a number that is NaN, below zero,
/// or `2^64` or more.
pub open spec fn invalid_float(width: Seq<char>, text: Seq<char>) -> Failure {
    Failure::Type("Invalid "@ + width + " "@ + text + " for u64"@)
}

impl DynamicValue {
    /// The value of an integer of any width.
    pub open spec fn integer(&self) -> Option<int> {
        match self {
            DynamicValue::Int8(v) => Some(*v as int),
            DynamicValue::UInt8(v) => Some(*v as int),
            DynamicValue::Int16(v) => Some(*v as int),
            DynamicValue::UInt16(v) => Some(*v as int),
            DynamicValue::Int32(v) => Some(*v as int),
            DynamicValue::UInt32(v) => Some(*v as int),
            DynamicValue::Int64(v) => Some(*v as int),
            DynamicValue::UInt64(v) => Some(*v as int),
            _ => None,
        }
    }

    /// How messages name the kind of value.
    pub open spec fn kind_name(&self) -> Seq<char> {
        match self {
            DynamicValue::Bool(_) => "bool"@,
            DynamicValue::Int8(_) => "i8"@,
            DynamicValue::UInt8(_) => "u8"@,
            DynamicValue::Int16(_) => "i16"@,
            DynamicValue::UInt16(_) => "u16"@,
            DynamicValue::Int32(_) => "i32"@,
            DynamicValue::UInt32(_) => "u32"@,
            DynamicValue::Int64(_) => "i64"@,
            DynamicValue::UInt64(_) => "u64"@,
            DynamicValue::Float32(_) => "f32"@,
            DynamicValue::Float64(_) => "f64"@,
            DynamicValue::Text(_) => "text"@,
            DynamicValue::Container(_) => "container"@,
            DynamicValue::Unrecognized => "unrecognized value"@,
        }
    }

    /// The value as text: integers in decimal, truth values as `true` and
    /// `false`, numbers by their shortest numeral, text as it is. A
    /// container and an unrecognized value have no text.
    pub open spec fn as_text(&self) -> Result<Seq<char>, Failure> {
        match self {
            DynamicValue::Bool(b) => Ok(
                if *b {
                    "true"@
                } else {
                    "false"@
                },
            ),
            DynamicValue::Float32(value) => Ok(value.numeral()),
            DynamicValue::Float64(value) => Ok(value.numeral()),
            DynamicValue::Text(s) => Ok(s@),
            DynamicValue::Container(_) => Err(cannot_convert(self.kind_name(), "string"@)),
            DynamicValue::Unrecognized => Err(cannot_convert(self.kind_name(), "string"@)),
            _ => Ok(signed_decimal(self.integer().unwrap())),
        }
    }

    /// The value as a binary64: 1.0 and 0.0 for truth values, the nearest
    /// binary64 for an integer (exact below `2^53`), the same value for a
    /// binary32. Text, containers and unrecognized values are no numbers.
    pub open spec fn as_number(&self) -> Result<Float64, Failure> {
        match self {
            DynamicValue::Bool(b) => Ok(Float64::of_bool(*b)),
            DynamicValue::Float32(value) => Ok(value.widened()),
            DynamicValue::Float64(value) => Ok(*value),
            DynamicValue::Text(_) => Err(cannot_convert(self.kind_name(), "f64"@)),
            DynamicValue::Container(_) => Err(cannot_convert(self.kind_name(), "f64"@)),
            DynamicValue::Unrecognized => Err(cannot_convert(self.kind_name(), "f64"@)),
            _ => Ok(Float64::of_int(self.integer().unwrap())),
        }
    }

    /// The value as an unsigned 64-bit integer: 1 and 0 for truth values, an
    /// integer that is not negative, the integer part of a number that is
    /// not below zero and below `2^64`. Nothing is clamped: a negative
    /// integer and any other number fail.
    pub open spec fn as_unsigned(&self) -> Result<u64, Failure> {
        match self {
            DynamicValue::Bool(b) => Ok(
                if *b {
                    1u64
                } else {
                    0u64
                },
            ),
            DynamicValue::Float32(value) => if value.widened().fits_unsigned() {
                Ok(value.widened().truncated() as u64)
            } else {
                Err(invalid_float(self.kind_name(), value.numeral()))
            },
            DynamicValue::Float64(value) => if value.fits_unsigned() {
                Ok(value.truncated() as u64)
            } else {
                Err(invalid_float(self.kind_name(), value.numeral()))
            },
            DynamicValue::Text(_) => Err(cannot_convert(self.kind_name(), "u64"@)),
            DynamicValue::Container(_) => Err(cannot_convert(self.kind_name(), "u64"@)),
            DynamicValue::Unrecognized => Err(cannot_convert(self.kind_name(), "u64"@)),
            _ => {
                let v = self.integer().unwrap();
                if v < 0 {
                    Err(negative_value(self.kind_name(), v))
                } else {
                    Ok(v as u64)
                }
            },
        }
    }

    /// The value as a truth value: an integer that is not zero, a number
    /// whose magnitude is at least 1e-10. Text, containers and unrecognized
    /// values are neither true nor false.
    pub open spec fn as_truth(&self) -> Result<bool, Failure> {
        match self {
            DynamicValue::Bool(b) => Ok(*b),
            DynamicValue::Float32(value) => Ok(value.truthy()),
            DynamicValue::Float64(value) => Ok(value.truthy()),
            DynamicValue::Text(_) => Err(cannot_convert(self.kind_name(), "bool"@)),
            DynamicValue::Container(_) => Err(cannot_convert(self.kind_name(), "bool"@)),
            DynamicValue::Unrecognized => Err(cannot_convert(self.kind_name(), "bool"@)),
            _ => Ok(self.integer().unwrap() != 0),
        }
    }

    /// The items of a container; any other value has none.
    pub open spec fn children(&self) -> Seq<TaggedItem> {
        match self {
            DynamicValue::Container(items) => items@,
            _ => Seq::empty(),
        }
    }

    fn kind(&self) -> (name: &'static str)
        ensures
            name@ == self.kind_name(),
    {
        match self {
            DynamicValue::Bool(_) => "bool",
            DynamicValue::Int8(_) => "i8",
            DynamicValue::UInt8(_) => "u8",
            DynamicValue::Int16(_) => "i16",
            DynamicValue::UInt16(_) => "u16",
            DynamicValue::Int32(_) => "i32",
            DynamicValue::UInt32(_) => "u32",
            DynamicValue::Int64(_) => "i64",
            DynamicValue::UInt64(_) => "u64",
            DynamicValue::Float32(_) => "f32",
            DynamicValue::Float64(_) => "f64",
            DynamicValue::Text(_) => "text",
            DynamicValue::Container(_) => "container",
            DynamicValue::Unrecognized => "unrecognized value",
        }
    }

    pub(crate) fn no_conversion(&self, target: &str) -> (e: E3dcError)
        ensures
            e@ == cannot_convert(self.kind_name(), target@),
    {
        let mut message = String::from_str("Cannot convert ");
        message.append(self.kind());
        message.append(" to ");
        message.append(target);
        E3dcError::Type(message)
    }

    fn negative(&self, v: i64) -> (e: E3dcError)
        ensures
            e@ == negative_value(self.kind_name(), v as int),
    {
        let mut message = String::from_str("Negative ");
        message.append(self.kind());
        message.append(" ");
        push_signed_decimal(&mut message, v);
        message.append(" cannot convert to u64");
        E3dcError::Type(message)
    }

    fn invalid(&self, text: &str) -> (e: E3dcError)
        ensures
            e@ == invalid_float(self.kind_name(), text@),
    {
        let mut message = String::from_str("Invalid ");
        message.append(self.kind());
        message.append(" ");
        message.append(text);
        message.append(" for u64");
        E3dcError::Type(message)
    }

    fn signed_to_unsigned(&self, v: i64) -> (r: Result<u64, E3dcError>)
        requires
            self.integer() == Some(v as int),
        ensures
            agrees(r, self.as_unsigned()),
    {
        if v < 0 {
            Err(self.negative(v))
        } else {
            Ok(v as u64)
        }
    }
}

/// Reads a value as text.
pub fn any_to_string(value: &DynamicValue) -> (r: Result<String, E3dcError>)
    ensures
        agrees(r, value.as_text()),
{
    match value {
        DynamicValue::Bool(b) => Ok(
            if *b {
                String::from_str("true")
            } else {
                String::from_str("false")
            },
        ),
        DynamicValue::Int8(v) => Ok(signed_text(*v as i64)),
        DynamicValue::UInt8(v) => Ok(signed_text(*v as i64)),
        DynamicValue::Int16(v) => Ok(signed_text(*v as i64)),
        DynamicValue::UInt16(v) => Ok(signed_text(*v as i64)),
        DynamicValue::Int32(v) => Ok(signed_text(*v as i64)),
        DynamicValue::UInt32(v) => Ok(signed_text(*v as i64)),
        DynamicValue::Int64(v) => Ok(signed_text(*v)),
        DynamicValue::UInt64(v) => Ok(unsigned_text(*v)),
        DynamicValue::Float32(number) => Ok(number.to_text()),
        DynamicValue::Float64(number) => Ok(number.to_text()),
        DynamicValue::Text(s) => Ok(s.clone()),
        DynamicValue::Container(_) => Err(value.no_conversion("string")),
        DynamicValue::Unrecognized => Err(value.no_conversion("string")),
    }
}

/// Reads a value as a binary64.
pub fn any_to_f64(value: &DynamicValue) -> (r: Result<Float64, E3dcError>)
    ensures
        agrees(r, value.as_number()),
{
    match value {
        DynamicValue::Bool(b) => Ok(Float64::from_bool(*b)),
        DynamicValue::Int8(v) => Ok(Float64::from_signed(*v as i64)),
        DynamicValue::UInt8(v) => Ok(Float64::from_signed(*v as i64)),
        DynamicValue::Int16(v) => Ok(Float64::from_signed(*v as i64)),
        DynamicValue::UInt16(v) => Ok(Float64::from_signed(*v as i64)),
        DynamicValue::Int32(v) => Ok(Float64::from_signed(*v as i64)),
        DynamicValue::UInt32(v) => Ok(Float64::from_signed(*v as i64)),
        DynamicValue::Int64(v) => Ok(Float64::from_signed(*v)),
        DynamicValue::UInt64(v) => Ok(Float64::from_unsigned(*v)),
        DynamicValue::Float32(number) => Ok(number.widen()),
        DynamicValue::Float64(number) => Ok(*number),
        DynamicValue::Text(_) => Err(value.no_conversion("f64")),
        DynamicValue::Container(_) => Err(value.no_conversion("f64")),
        DynamicValue::Unrecognized => Err(value.no_conversion("f64")),
    }
}

/// Reads a value as an unsigned 64-bit integer.
pub fn any_to_u64(value: &DynamicValue) -> (r: Result<u64, E3dcError>)
    ensures
        agrees(r, value.as_unsigned()),
{
    match value {
        DynamicValue::Bool(b) => Ok(
            if *b {
                1
            } else {
                0
            },
        ),
        DynamicValue::Int8(v) => value.signed_to_unsigned(*v as i64),
        DynamicValue::UInt8(v) => Ok(*v as u64),
        DynamicValue::Int16(v) => value.signed_to_unsigned(*v as i64),
        DynamicValue::UInt16(v) => Ok(*v as u64),
        DynamicValue::Int32(v) => value.signed_to_unsigned(*v as i64),
        DynamicValue::UInt32(v) => Ok(*v as u64),
        DynamicValue::Int64(v) => value.signed_to_unsigned(*v),
        DynamicValue::UInt64(v) => Ok(*v),
        DynamicValue::Float32(number) => match number.widen().to_unsigned() {
            Some(v) => Ok(v),
            None => Err(value.invalid(number.to_text().as_str())),
        },
        DynamicValue::Float64(number) => match number.to_unsigned() {
            Some(v) => Ok(v),
            None => Err(value.invalid(number.to_text().as_str())),
        },
        DynamicValue::Text(_) => Err(value.no_conversion("u64")),
        DynamicValue::Container(_) => Err(value.no_conversion("u64")),
        DynamicValue::Unrecognized => Err(value.no_conversion("u64")),
    }
}

/// Reads a value as a truth value.
pub fn any_to_bool(value: &DynamicValue) -> (r: Result<bool, E3dcError>)
    ensures
        agrees(r, value.as_truth()),
{
    match value {
        DynamicValue::Bool(b) => Ok(*b),
        DynamicValue::Int8(v) => Ok(*v != 0),
        DynamicValue::UInt8(v) => Ok(*v != 0),
        DynamicValue::Int16(v) => Ok(*v != 0),
        DynamicValue::UInt16(v) => Ok(*v != 0),
        DynamicValue::Int32(v) => Ok(*v != 0),
        DynamicValue::UInt32(v) => Ok(*v != 0),
        DynamicValue::Int64(v) => Ok(*v != 0),
        DynamicValue::UInt64(v) => Ok(*v != 0),
        DynamicValue::Float32(number) => Ok(number.is_truthy()),
        DynamicValue::Float64(number) => Ok(number.is_truthy()),
        DynamicValue::Text(_) => Err(value.no_conversion("bool")),
        DynamicValue::Container(_) => Err(value.no_conversion("bool")),
        DynamicValue::Unrecognized => Err(value.no_conversion("bool")),
    }
}

/// An integer whose magnitude is below `2^53` reads as the number with
/// its very value. That holds for every integer of up to 32 bits, whatever
/// the width it was sent in.
pub proof fn lemma_integers_read_without_loss(value: DynamicValue)
    requires
        value.integer() is Some,
        -0x20_0000_0000_0000 < value.integer()->Some_0 < 0x20_0000_0000_0000,
    ensures
        value.as_number() is Ok,
        value.as_number()->Ok_0.finite(),
        value.as_number()->Ok_0.scaled() == value.integer()->Some_0 * pow2(1074),
{
    lemma_of_int_exact(value.integer()->Some_0);
}

/// A finite binary32 reads as the binary64 with its very value.
pub proof fn lemma_singles_read_without_loss(value: Float32)
    requires
        value.magnitude() < INFINITY_BITS_32,
    ensures
        DynamicValue::Float32(value).as_number() is Ok,
        DynamicValue::Float32(value).as_number()->Ok_0.finite(),
        DynamicValue::Float32(value).as_number()->Ok_0.scaled() == value.scaled() * pow2(925),
{
    lemma_widened_exact(value);
}

} // verus!
