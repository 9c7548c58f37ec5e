//! Evaluated JavaScript values, as far as route configuration reads them.

use vstd::prelude::*;

use crate::text::compare::same_text;

verus! {

/// A constant.
#[derive(Debug)]
pub enum ConstantValue {
    Str(String),
    True,
    False,
    /// Any other constant: a number, `null`, `undefined` and so on.
    Other,
}

/// A value.
#[derive(Debug)]
pub enum JsValue {
    Constant(ConstantValue),
    Array(Vec<JsValue>),
    Object(Vec<ObjectPart>),
    /// Anything that is none of these: a value that is not known until the
    /// program runs.
    Unknown,
}

/// A part of an object literal.
#[derive(Debug)]
pub enum ObjectPart {
    KeyValue(JsValue, JsValue),
    Spread(JsValue),
}

impl JsValue {
    /// The text of a constant string; no other value has one.
    pub open spec fn text(&self) -> Option<Seq<char>> {
        match self {
            JsValue::Constant(ConstantValue::Str(s)) => Some(s@),
            _ => None,
        }
    }

    /// The truth value of `true` and `false`; no other value has one.
    pub open spec fn truth(&self) -> Option<bool> {
        match self {
            JsValue::Constant(ConstantValue::True) => Some(true),
            JsValue::Constant(ConstantValue::False) => Some(false),
            _ => None,
        }
    }

    /// The value as a string, if it is a constant string.
    pub fn as_str(&self) -> (s: Option<&str>)
        ensures
            match s {
                Some(s) => self.text() == Some(s@),
                None => self.text() is None,
            },
    {
        match self {
            JsValue::Constant(ConstantValue::Str(s)) => Some(s.as_str()),
            _ => None,
        }
    }

    /// The value as a truth value, if it is `true` or `false`.
    pub fn as_bool(&self) -> (b: Option<bool>)
        ensures
            b == self.truth(),
    {
        match self {
            JsValue::Constant(ConstantValue::True) => Some(true),
            JsValue::Constant(ConstantValue::False) => Some(false),
            _ => None,
        }
    }

    /// Whether the value is the constant string `text`.
    pub fn is_text(&self, text: &str) -> (b: bool)
        ensures
            b == (self.text() == Some(text@)),
    {
        match self.as_str() {
            Some(s) => same_text(s, text),
            None => false,
        }
    }
}

impl ObjectPart {
    /// Whether the part gives a value to the key `key`.
    pub open spec fn has_key(&self, key: Seq<char>) -> bool {
        self matches ObjectPart::KeyValue(k, _) && k.text() == Some(key)
    }
}

/// The value that the last part with the key `key` gives to it.
pub open spec fn last_value(parts: Seq<ObjectPart>, key: Seq<char>) -> Option<JsValue>
    decreases parts.len(),
{
    if parts.len() == 0 {
        None
    } else if parts.last().has_key(key) {
        Some(parts.last()->KeyValue_1)
    } else {
        last_value(parts.drop_last(), key)
    }
}

/// The text that the last part with the key `key` gives to it, if that is
/// a constant string.
pub open spec fn last_text(parts: Seq<ObjectPart>, key: Seq<char>) -> Option<Seq<char>> {
    match last_value(parts, key) {
        Some(value) => value.text(),
        None => None,
    }
}

} // verus!
