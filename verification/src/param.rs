//! Runtime parameter value types.

use vstd::prelude::*;

use crate::float_bits::{
    bits_as_i32, bits_as_u32, bits_to_i32, bits_to_u32, i32_as_bits, i32_to_bits, u32_as_bits,
    u32_to_bits,
};
use crate::schema::FloatBits;

verus! {

/// A concrete parameter value for get/set operations at runtime.
/// Float values are held by their IEEE-754 bit pattern.
#[non_exhaustive]
#[derive(Clone, Debug, PartialEq)]
pub enum ParamValue {
    /// Explicitly absent (an optional parameter left unset).
    Unset,
    /// 32-bit float.
    F32(FloatBits),
    /// Signed 32-bit integer.
    I32(i32),
    /// Unsigned 32-bit integer.
    U32(u32),
    /// Boolean.
    Bool(bool),
    /// Free-form string.
    Str(String),
    /// Enum variant name (snake_case).
    Enum(String),
    /// Fixed-size float array.
    F32Array(Vec<FloatBits>),
    /// RGBA color.
    Color([FloatBits; 4]),
    /// Opaque JSON text.
    Json(String),
}

/// What [`ParamValue::as_f32`] yields: floats as they are, integers
/// rounded to the nearest float (as the `as` cast does).
pub open spec fn f32_of(v: ParamValue) -> Option<FloatBits> {
    match v {
        ParamValue::F32(x) => Some(x),
        ParamValue::I32(x) => Some(FloatBits(i32_to_bits(x))),
        ParamValue::U32(x) => Some(FloatBits(u32_to_bits(x))),
        _ => None,
    }
}

/// What [`ParamValue::as_i32`] yields.
pub open spec fn i32_of(v: ParamValue) -> Option<i32> {
    match v {
        ParamValue::I32(x) => Some(x),
        ParamValue::F32(x) => Some(bits_to_i32(x.0)),
        ParamValue::U32(x) => if x <= i32::MAX {
            Some(x as i32)
        } else {
            None
        },
        _ => None,
    }
}

/// What [`ParamValue::as_u32`] yields.
pub open spec fn u32_of(v: ParamValue) -> Option<u32> {
    match v {
        ParamValue::U32(x) => Some(x),
        ParamValue::I32(x) => if x >= 0 {
            Some(x as u32)
        } else {
            None
        },
        ParamValue::F32(x) => Some(bits_to_u32(x.0)),
        _ => None,
    }
}

/// What [`ParamValue::as_bool`] yields.
pub open spec fn bool_of(v: ParamValue) -> Option<bool> {
    match v {
        ParamValue::Bool(b) => Some(b),
        _ => None,
    }
}

/// The text of a string or enum value, which [`ParamValue::as_str`] yields.
pub open spec fn str_of(v: ParamValue) -> Option<Seq<char>> {
    match v {
        ParamValue::Str(s) => Some(s@),
        ParamValue::Enum(s) => Some(s@),
        _ => None,
    }
}

impl ParamValue {
    /// Whether this is the explicitly absent value.
    pub fn is_none(&self) -> (r: bool)
        ensures
            r == (*self is Unset),
    {
        match self {
            ParamValue::Unset => true,
            _ => false,
        }
    }

    /// Try to extract as a float: floats as they are, integers rounded to
    /// the nearest float (as the `as` cast does).
    pub fn as_f32(&self) -> (r: Option<FloatBits>)
        ensures
            r == f32_of(*self),
    {
        match self {
            ParamValue::F32(v) => Some(*v),
            ParamValue::I32(v) => Some(FloatBits(i32_as_bits(*v))),
            ParamValue::U32(v) => Some(FloatBits(u32_as_bits(*v))),
            _ => None,
        }
    }

    /// Try to extract as `i32`: integers that fit, and floats truncated
    /// toward zero with saturation (as the `as` cast does).
    pub fn as_i32(&self) -> (r: Option<i32>)
        ensures
            r == i32_of(*self),
    {
        match self {
            ParamValue::I32(v) => Some(*v),
            ParamValue::F32(v) => Some(bits_as_i32(v.0)),
            ParamValue::U32(v) => if *v <= 0x7fff_ffff {
                Some(*v as i32)
            } else {
                None
            },
            _ => None,
        }
    }

    /// Try to extract as `u32`: integers that fit, and floats truncated
    /// toward zero with saturation (as the `as` cast does).
    pub fn as_u32(&self) -> (r: Option<u32>)
        ensures
            r == u32_of(*self),
    {
        match self {
            ParamValue::U32(v) => Some(*v),
            ParamValue::I32(v) => if *v >= 0 {
                Some(*v as u32)
            } else {
                None
            },
            ParamValue::F32(v) => Some(bits_as_u32(v.0)),
            _ => None,
        }
    }

    /// Try to extract as `bool`.
    pub fn as_bool(&self) -> (r: Option<bool>)
        ensures
            r == bool_of(*self),
    {
        match self {
            ParamValue::Bool(v) => Some(*v),
            _ => None,
        }
    }

    /// Try to extract as a string reference (free-form or enum name).
    pub fn as_str(&self) -> (r: Option<&str>)
        ensures
            match r {
                Some(t) => str_of(*self) == Some(t@),
                None => str_of(*self) is None,
            },
    {
        match self {
            ParamValue::Str(v) => Some(v.as_str()),
            ParamValue::Enum(v) => Some(v.as_str()),
            _ => None,
        }
    }

    /// Try to extract as a float array reference.
    pub fn as_f32_array(&self) -> (r: Option<&[FloatBits]>)
        ensures
            match *self {
                ParamValue::F32Array(v) => r is Some && r->0@ == v@,
                _ => r is None,
            },
    {
        match self {
            ParamValue::F32Array(v) => Some(v.as_slice()),
            _ => None,
        }
    }

    /// Try to extract as an RGBA color.
    pub fn as_color(&self) -> (r: Option<[FloatBits; 4]>)
        ensures
            r == match *self {
                ParamValue::Color(c) => Some(c),
                _ => None::<[FloatBits; 4]>,
            },
    {
        match self {
            ParamValue::Color(v) => Some(*v),
            _ => None,
        }
    }
}

/// Ordered map of parameter name to value (deterministic iteration order).
pub type ParamMap = std::collections::BTreeMap<String, ParamValue>;

/// The value that `params` holds under the name `name`, if any.
pub open spec fn entry_for(params: Map<String, ParamValue>, name: Seq<char>) -> Option<ParamValue> {
    if exists|k: String| #[trigger] params.contains_key(k) && k@ == name {
        Some(params[choose|k: String| #[trigger] params.contains_key(k) && k@ == name])
    } else {
        None
    }
}

/// `BTreeMap::get` on a parameter map, looked up by a name's characters.
/// As its documentation says, it returns the value of the entry whose key
/// equals the borrowed key; `String` keys compare with `&str` by their
/// characters. (vstd's own contract for `get` speaks of a borrowed key only
/// when it is the key type itself or a `Box` of it, so it says nothing here.)
#[verifier::external_body]
pub(crate) fn param_entry<'a>(params: &'a ParamMap, name: &str) -> (r: Option<&'a ParamValue>)
    ensures
        match r {
            Some(v) => entry_for(params@, name@) == Some(*v),
            None => entry_for(params@, name@) is None,
        },
{
    params.get(name)
}

/// An `i32` parameter as `create` sets it from `entry`: the converted value
/// where there is one, else `default`.
pub open spec fn given_i32(entry: Option<ParamValue>, default: i32) -> i32 {
    match entry {
        Some(v) => match i32_of(v) {
            Some(x) => x,
            None => default,
        },
        None => default,
    }
}

/// A `u32` parameter as `create` sets it from `entry`.
pub open spec fn given_u32(entry: Option<ParamValue>, default: u32) -> u32 {
    match entry {
        Some(v) => match u32_of(v) {
            Some(x) => x,
            None => default,
        },
        None => default,
    }
}

/// A text parameter as `create` sets it from `entry`.
pub open spec fn given_text(entry: Option<ParamValue>, default: Seq<char>) -> Seq<char> {
    match entry {
        Some(v) => match str_of(v) {
            Some(x) => x,
            None => default,
        },
        None => default,
    }
}

/// A boolean parameter as `create` sets it from `entry`.
pub open spec fn given_bool(entry: Option<ParamValue>, default: bool) -> bool {
    match entry {
        Some(v) => match bool_of(v) {
            Some(x) => x,
            None => default,
        },
        None => default,
    }
}

/// A float parameter as `create` sets it from `entry`.
pub open spec fn given_f32(entry: Option<ParamValue>, default: FloatBits) -> FloatBits {
    match entry {
        Some(v) => match f32_of(v) {
            Some(x) => x,
            None => default,
        },
        None => default,
    }
}

/// The text parameter `name` as `create` sets it from `params`, or `default`.
pub(crate) fn text_param(params: &ParamMap, name: &str, default: &str) -> (r: String)
    ensures
        r@ == given_text(entry_for(params@, name@), default@),
{
    if let Some(v) = param_entry(params, name) {
        if let Some(x) = v.as_str() {
            return x.to_owned();
        }
    }
    default.to_owned()
}

/// The boolean parameter `name` as `create` sets it from `params`, or
/// `default`.
pub(crate) fn bool_param(params: &ParamMap, name: &str, default: bool) -> (r: bool)
    ensures
        r == given_bool(entry_for(params@, name@), default),
{
    if let Some(v) = param_entry(params, name) {
        if let Some(x) = v.as_bool() {
            return x;
        }
    }
    default
}

/// The float parameter `name` as `create` sets it from `params`, or
/// `default`.
pub(crate) fn f32_param(params: &ParamMap, name: &str, default: FloatBits) -> (r: FloatBits)
    ensures
        r == given_f32(entry_for(params@, name@), default),
{
    if let Some(v) = param_entry(params, name) {
        if let Some(x) = v.as_f32() {
            return x;
        }
    }
    default
}

} // verus!
