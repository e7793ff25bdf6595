use midend::ty::{NativeType, Type};

#[test]
fn inner_type_unwraps_one_level() {
    assert_eq!(Type::Str.inner_ty(), Some(Type::Char));
    assert_eq!(Type::Array(Box::new(Type::Int)).inner_ty(), Some(Type::Int));
    assert_eq!(Type::Option(Box::new(Type::Bool)).inner_ty(), Some(Type::Bool));
    assert_eq!(Type::Int.inner_ty(), None);
    assert_eq!(Type::Invalid.inner_ty(), None);
    let nested = Type::Array(Box::new(Type::Array(Box::new(Type::Char))));
    assert_eq!(nested.inner_ty(), Some(Type::Array(Box::new(Type::Char))));
}

#[test]
fn types_compare_structurally() {
    assert_eq!(Type::Array(Box::new(Type::Int)), Type::Array(Box::new(Type::Int)));
    assert_ne!(Type::Array(Box::new(Type::Int)), Type::Option(Box::new(Type::Int)));
    assert_ne!(Type::Array(Box::new(Type::Int)), Type::Array(Box::new(Type::Bool)));
    let t = Type::Option(Box::new(Type::Str));
    assert_eq!(t.clone(), t);
}

#[test]
fn native_type_shapes() {
    assert!(matches!(Type::Unit.llvm_ty(), Some(NativeType::I8)));
    assert!(matches!(Type::Int.llvm_ty(), Some(NativeType::I64)));
    assert!(matches!(Type::Bool.llvm_ty(), Some(NativeType::Bool)));
    assert!(matches!(Type::Char.llvm_ty(), Some(NativeType::I8)));
    match Type::Str.llvm_ty() {
        Some(NativeType::Ptr(inner)) => assert!(matches!(*inner, NativeType::I8)),
        other => panic!("unexpected {:?}", other),
    }
    match Type::Array(Box::new(Type::Int)).llvm_ty() {
        Some(NativeType::Ptr(inner)) => assert!(matches!(*inner, NativeType::I64)),
        other => panic!("unexpected {:?}", other),
    }
    assert!(Type::Invalid.llvm_ty().is_none());
    assert!(Type::Option(Box::new(Type::Invalid)).llvm_ty().is_none());
}
