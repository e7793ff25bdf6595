use vstd::prelude::*;

verus! {

/// A semantic type, compared structurally.
#[derive(Debug)]
pub enum Type {
    Unit,
    Int,
    Bool,
    Str,
    Char,
    Array(Box<Type>),
    Option(Box<Type>),
    /// Marks a failure of type checking.
    Invalid,
}

/// The shape of the native type that represents a semantic type in the
/// code-generation backend.
#[derive(Debug)]
pub enum NativeType {
    I8,
    I64,
    Bool,
    Ptr(Box<NativeType>),
}

/// The type one level inside `t`: the element of a string, array or option.
pub open spec fn inner_of(t: Type) -> Option<Type> {
    match t {
        Type::Str => Some(Type::Char),
        Type::Array(x) => Some(*x),
        Type::Option(x) => Some(*x),
        _ => None,
    }
}

/// The native representation of `t`; nothing for `Invalid`, or for a type
/// that contains it.
pub open spec fn native_of(t: Type) -> Option<NativeType>
    decreases t,
{
    match t {
        Type::Unit => Some(NativeType::I8),
        Type::Int => Some(NativeType::I64),
        Type::Bool => Some(NativeType::Bool),
        Type::Str => Some(NativeType::Ptr(Box::new(NativeType::I8))),
        Type::Char => Some(NativeType::I8),
        Type::Array(x) => match native_of(*x) {
            Some(n) => Some(NativeType::Ptr(Box::new(n))),
            None => None,
        },
        Type::Option(x) => match native_of(*x) {
            Some(n) => Some(NativeType::Ptr(Box::new(n))),
            None => None,
        },
        Type::Invalid => None,
    }
}

fn same_type(a: &Type, b: &Type) -> (r: bool)
    ensures
        r == (*a == *b),
    decreases *a,
{
    match (a, b) {
        (Type::Unit, Type::Unit) => true,
        (Type::Int, Type::Int) => true,
        (Type::Bool, Type::Bool) => true,
        (Type::Str, Type::Str) => true,
        (Type::Char, Type::Char) => true,
        (Type::Invalid, Type::Invalid) => true,
        (Type::Array(x), Type::Array(y)) => same_type(x, y),
        (Type::Option(x), Type::Option(y)) => same_type(x, y),
        _ => false,
    }
}

impl PartialEq for Type {
    fn eq(&self, other: &Type) -> (r: bool) {
        same_type(self, other)
    }
}

impl vstd::std_specs::cmp::PartialEqSpecImpl for Type {
    open spec fn obeys_eq_spec() -> bool {
        true
    }

    open spec fn eq_spec(&self, other: &Type) -> bool {
        *self == *other
    }
}

impl Clone for Type {
    fn clone(&self) -> (r: Type)
        ensures
            r == *self,
    {
        self.duplicate()
    }
}

impl Type {
    /// A copy of this type.
    pub fn duplicate(&self) -> (r: Type)
        ensures
            r == *self,
        decreases *self,
    {
        match self {
            Type::Unit => Type::Unit,
            Type::Int => Type::Int,
            Type::Bool => Type::Bool,
            Type::Str => Type::Str,
            Type::Char => Type::Char,
            Type::Array(x) => Type::Array(Box::new(x.duplicate())),
            Type::Option(x) => Type::Option(Box::new(x.duplicate())),
            Type::Invalid => Type::Invalid,
        }
    }

    /// The type one level inside: `Char` for `Str`, the element type of an
    /// array or option; nothing for the others.
    pub fn inner_ty(&self) -> (r: Option<Type>)
        ensures
            r == inner_of(*self),
    {
        match self {
            Type::Str => Some(Type::Char),
            Type::Array(x) => Some(x.duplicate()),
            Type::Option(x) => Some(x.duplicate()),
            _ => None,
        }
    }

    /// The shape of the LLVM type that represents this type: bytes for unit
    /// and characters, a 64-bit integer for `Int`, a pointer for strings,
    /// arrays and options; nothing where `Invalid` occurs.
    pub fn llvm_ty(&self) -> (r: Option<NativeType>)
        ensures
            r == native_of(*self),
        decreases *self,
    {
        match self {
            Type::Unit => Some(NativeType::I8),
            Type::Int => Some(NativeType::I64),
            Type::Bool => Some(NativeType::Bool),
            Type::Str => Some(NativeType::Ptr(Box::new(NativeType::I8))),
            Type::Char => Some(NativeType::I8),
            Type::Array(x) => match x.llvm_ty() {
                Some(n) => Some(NativeType::Ptr(Box::new(n))),
                None => None,
            },
            Type::Option(x) => match x.llvm_ty() {
                Some(n) => Some(NativeType::Ptr(Box::new(n))),
                None => None,
            },
            Type::Invalid => None,
        }
    }
}

} // verus!
