//! Function interfaces: names, signatures and annotations.
use vstd::prelude::*;

use super::ty::DataType;
use super::val::{MutableValue, Value};

verus! {

/// A function's name, signature and annotations
#[derive(Debug)]
pub struct FunctionInterface {
    pub id: String,
    pub sig: FunctionSignature,
    pub annotations: FunctionAnnotations,
}

impl FunctionInterface {
    /// A function with no parameters, no return value and no annotations
    pub fn new(id: String) -> (r: Self)
        ensures
            r.id == id,
            r.sig.params@.len() == 0,
            r.sig.ret is Void,
            r.annotations == FunctionAnnotations::spec_new(),
    {
        Self::with_signature(id, FunctionSignature::new())
    }

    /// A function with a signature and no annotations
    pub fn with_signature(id: String, sig: FunctionSignature) -> (r: Self)
        ensures
            r.id == id,
            r.sig == sig,
            r.annotations == FunctionAnnotations::spec_new(),
    {
        Self::with_all(id, sig, FunctionAnnotations::new())
    }

    pub fn with_all(id: String, sig: FunctionSignature, annotations: FunctionAnnotations) -> (r: Self)
        ensures
            r.id == id,
            r.sig == sig,
            r.annotations == annotations,
    {
        FunctionInterface { id, sig, annotations }
    }
}

/// The parameter types and return type of a function
#[derive(Debug)]
pub struct FunctionSignature {
    pub params: Vec<DataType>,
    pub ret: ReturnType,
}

impl FunctionSignature {
    /// No parameters and no return value
    pub fn new() -> (r: Self)
        ensures
            r.params@.len() == 0,
            r.ret is Void,
    {
        Self::with_all(Vec::new(), ReturnType::Void)
    }

    /// Parameters and no return value
    pub fn with_params(params: Vec<DataType>) -> (r: Self)
        ensures
            r.params == params,
            r.ret is Void,
    {
        Self::with_all(params, ReturnType::Void)
    }

    /// A return type and no parameters
    pub fn with_ret(ret: ReturnType) -> (r: Self)
        ensures
            r.params@.len() == 0,
            r.ret == ret,
    {
        Self::with_all(Vec::new(), ret)
    }

    pub fn with_all(params: Vec<DataType>, ret: ReturnType) -> (r: Self)
        ensures
            r.params == params,
            r.ret == ret,
    {
        FunctionSignature { params, ret }
    }
}

/// What a function returns
#[derive(Debug)]
pub enum ReturnType {
    Void,
    Standard(Vec<DataType>),
}

/// Annotations that change how a function is compiled
#[derive(Debug, Clone, Copy, PartialEq, Eq, Structural)]
pub struct FunctionAnnotations {
    pub preserve: bool,
    pub no_inline: bool,
    pub no_strip: bool,
}

impl FunctionAnnotations {
    /// No annotation set
    pub open spec fn spec_new() -> FunctionAnnotations {
        FunctionAnnotations { preserve: false, no_inline: false, no_strip: false }
    }

    /// No annotation set
    pub fn new() -> (r: Self)
        ensures
            r == Self::spec_new(),
    {
        FunctionAnnotations { preserve: false, no_inline: false, no_strip: false }
    }
}

/// A call of a function: the function, the values passed as its arguments,
/// and where its return values go
#[derive(Debug)]
pub struct CallInterface {
    pub function: String,
    pub args: Vec<Value>,
    pub ret: Vec<MutableValue>,
}

} // verus!
