//! Loosely typed values read from a settings form.

use vstd::prelude::*;

verus! {

/// A value of one of the kinds a form field can hold.
#[derive(Debug)]
pub enum InsertTypes {
    Int(i64),
    UInt(u64),
    Str(String),
    Bool(bool),
}

impl InsertTypes {
    /// The signed integer held, or 0 for another kind.
    pub fn get_int(&self) -> (r: i64)
        ensures
            self matches InsertTypes::Int(v) ==> r == v,
            !(self is Int) ==> r == 0,
    {
        match self {
            InsertTypes::Int(data) => *data,
            _ => 0,
        }
    }

    /// The unsigned integer held, or 0 for another kind.
    pub fn get_uint(&self) -> (r: u64)
        ensures
            self matches InsertTypes::UInt(v) ==> r == v,
            !(self is UInt) ==> r == 0,
    {
        match self {
            InsertTypes::UInt(data) => *data,
            _ => 0,
        }
    }

    /// A copy of the text held, or the empty string for another kind.
    pub fn get_string(&self) -> (r: String)
        ensures
            self matches InsertTypes::Str(s) ==> r@ == s@,
            !(self is Str) ==> r@ == Seq::<char>::empty(),
    {
        match self {
            InsertTypes::Str(data) => data.clone(),
            _ => String::new(),
        }
    }
}

} // verus!
