//! The scalar payload type carried for a parameter.

use vstd::prelude::*;

verus! {

/// Value types stored in the parameter cache.
///
/// A value is immutable once constructed, compared and cloned by value,
/// and never coerced between variants.  The float variant carries the
/// IEEE-754 bit pattern of a 32-bit float: the hub only stores and
/// forwards it, never computes with it, so the bits are the value.
#[derive(Debug, PartialEq)]
pub enum Value {
    Int(i32),
    Float(u32),
    Str(String),
    Blob(Vec<u8>),
}

/// The mathematical shape of a [`Value`]: strings and blobs become
/// sequences, so that two values are equal exactly when their contents
/// are.
pub enum ValueModel {
    Int(i32),
    Float(u32),
    Str(Seq<char>),
    Blob(Seq<u8>),
}

impl View for Value {
    type V = ValueModel;

    open spec fn view(&self) -> ValueModel {
        match self {
            Value::Int(i) => ValueModel::Int(*i),
            Value::Float(bits) => ValueModel::Float(*bits),
            Value::Str(s) => ValueModel::Str(s@),
            Value::Blob(b) => ValueModel::Blob(b@),
        }
    }
}

impl DeepView for Value {
    type V = ValueModel;

    open spec fn deep_view(&self) -> ValueModel {
        self.view()
    }
}

impl Clone for Value {
    fn clone(&self) -> (r: Self)
        ensures
            r@ == self@,
    {
        match self {
            Value::Int(i) => Value::Int(*i),
            Value::Float(bits) => Value::Float(*bits),
            Value::Str(s) => Value::Str(s.clone()),
            Value::Blob(b) => Value::Blob(clone_bytes(b)),
        }
    }
}

/// The value carried by a console node report that offers several
/// representations: a float wins over an integer, an integer over a
/// string, and a report with none of the three carries nothing.
pub fn select_node_value(
    float_bits: Option<u32>,
    int_val: Option<i32>,
    str_val: Option<String>,
) -> (r: Option<Value>)
    ensures
        ({
            match (float_bits, int_val, str_val) {
                (Some(bits), _, _) => r matches Some(v) && v@ == ValueModel::Float(bits),
                (None, Some(i), _) => r matches Some(v) && v@ == ValueModel::Int(i),
                (None, None, Some(s)) => r matches Some(v) && v@ == ValueModel::Str(s@),
                (None, None, None) => r is None,
            }
        }),
{
    if let Some(bits) = float_bits {
        Some(Value::Float(bits))
    } else if let Some(i) = int_val {
        Some(Value::Int(i))
    } else if let Some(s) = str_val {
        Some(Value::Str(s))
    } else {
        None
    }
}

/// Byte-for-byte copy of a blob payload.
fn clone_bytes(b: &Vec<u8>) -> (r: Vec<u8>)
    ensures
        r@ == b@,
{
    let mut r: Vec<u8> = Vec::new();
    let mut i: usize = 0;
    while i < b.len()
        invariant
            i <= b.len(),
            r@ == b@.subrange(0, i as int),
        decreases b.len() - i,
    {
        r.push(b[i]);
        i = i + 1;
    }
    assert(r@ == b@);
    r
}

} // verus!
