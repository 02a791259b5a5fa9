//! Items shared by every stage of the compiler.
pub mod condition;
pub mod function;
pub mod mc;
pub mod op;
pub mod range;
pub mod ty;
pub mod val;

use vstd::prelude::*;

use self::ty::DataType;
use self::val::{MutableValue, Value};

verus! {

/// A register of a block: its name and its type
#[derive(Debug)]
pub struct Register {
    pub id: String,
    pub ty: DataType,
}

/// What a declared register is set to: nothing, a value, or a value cast
/// to another type
#[derive(Debug)]
pub enum DeclareBinding {
    Null,
    Value(Value),
    Cast(DataType, MutableValue),
}

} // verus!
