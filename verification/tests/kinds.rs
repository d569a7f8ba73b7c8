use jit::flags::CallFlags;
use jit::kind::TypeKind;
use jit::types::TypeKind as Named;

#[test]
fn kinds_contain_their_bits() {
    assert!(TypeKind::Struct().contains(TypeKind::Void()));
    assert!(TypeKind::Pointer().contains(TypeKind::SByte()));
    assert!(!TypeKind::SByte().contains(TypeKind::UByte()));
    assert!(TypeKind::all().contains(TypeKind::SysBool()));
    assert!(TypeKind::empty().is_empty());
    assert!(TypeKind::all().is_all());
    assert_eq!(TypeKind::all().bits(), 10015);
    assert_eq!(TypeKind::from_bits(20000), None);
    assert_eq!(TypeKind::from_bits(5).map(|k| k.bits()), Some(5));
    assert_eq!(TypeKind::from_bits_truncate(0x7fff_ffff).bits(), 10015);
}

#[test]
fn kinds_insert_remove_toggle() {
    let mut k = TypeKind::Int();
    k.insert(TypeKind::Long());
    assert_eq!(k.bits(), 5 | 9);
    assert!(k.contains(TypeKind::Int()) && k.contains(TypeKind::Long()));
    k.remove(TypeKind::Int());
    assert_eq!(k.bits(), 9 & !5);
    k.toggle(TypeKind::UByte());
    k.toggle(TypeKind::UByte());
    assert_eq!(k.bits(), 9 & !5);
    assert!(TypeKind::Int().intersects(TypeKind::SByte()));
    assert!(!TypeKind::UByte().intersects(TypeKind::SByte()));
}

#[test]
fn call_flags_combine() {
    let mut f = CallFlags::empty();
    f.insert(CallFlags::NO_THROW());
    f.insert(CallFlags::TAIL());
    assert_eq!(f.bits(), 5);
    assert!(f.contains(CallFlags::TAIL()));
    assert!(!f.contains(CallFlags::NO_RETURN()));
    f.remove(CallFlags::NO_THROW());
    assert_eq!(f.bits(), 4);
    assert_eq!(CallFlags::all().bits(), 7);
    assert!(CallFlags::from_bits(8).is_none());
    assert_eq!(CallFlags::from_bits(3).map(|f| f.bits()), Some(3));
}

#[test]
fn named_kinds_have_their_codes() {
    assert_eq!(Named::Void.bits(), 0);
    assert_eq!(Named::Pointer.bits(), 17);
    assert_eq!(Named::FirstTagged.bits(), 32);
    assert_eq!(Named::SysBool.bits(), 10009);
    assert_eq!(Named::SysChar.flags().bits(), 10010);
    assert_eq!(Named::from_code(14), Some(Named::Struct));
    assert_eq!(Named::from_code(18), None);
    assert!(TypeKind::all().contains(Named::NFloat.flags()));
}
