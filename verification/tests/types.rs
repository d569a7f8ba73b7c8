use jit::compile::get;
use jit::derive::derive_struct_type;
use jit::typecs::type_of_name;
use jit::kind::TypeKind;
use jit::typecs;
use jit::types::{Abi, TaggedType, Type, INVALID_NAME};

fn pair_of_f64(names: &[&str]) -> Type {
    let f = typecs::get_float64();
    let mut t = Type::new_struct(&mut [&f, &f]);
    t.set_names(names);
    t
}

#[test]
fn struct_test_struct() {
    let pos_t = pair_of_f64(&["x", "y"]);
    let mut fields = pos_t.fields();
    let mut i = 0;
    while let Some(field) = fields.next() {
        assert_eq!(
            field.get_name().unwrap(),
            match i {
                0 => "x",
                1 => "y",
                _ => unreachable!(),
            }
        );
        i += 1;
    }
    assert_eq!(i, 2);
}

#[test]
fn tests_test_struct() {
    let double_float_t = pair_of_f64(&["first", "second"]);
    assert_eq!(double_float_t.get_field("first").index, 0);
    assert_eq!(double_float_t.get_field("second").index, 1);
    let mut names: Vec<String> = Vec::new();
    let mut fields = double_float_t.fields();
    while let Some(field) = fields.next() {
        assert!(field.get_type() == &typecs::get_float64());
        names.push(field.get_name().unwrap().to_string());
    }
    assert_eq!(names, vec!["first".to_string(), "second".to_string()]);
    let mut iter = double_float_t.fields();
    let (size, _) = iter.size_hint();
    assert_eq!(size, 2);
    iter.next();
    assert_eq!(iter.next().unwrap().get_name().unwrap(), "second");
    assert!(iter.next().is_none());
    assert_eq!(iter.size_hint().0, 0);
}

#[test]
fn test_tags() {
    let pos_t = pair_of_f64(&["x", "y"]);
    let kind = pos_t.get_kind();
    let new_pos_t = TaggedType::new(&pos_t.clone(), kind, Box::new(42usize));
    assert!(new_pos_t.get_tagged_data() == Some(&42usize));
    assert!(*new_pos_t.get_tagged_type() == pos_t);
}

#[test]
fn tagged_kind_is_offset_by_the_first_tag() {
    let pos_t = pair_of_f64(&["x", "y"]);
    let mut tagged = TaggedType::new(&pos_t, TypeKind::Struct(), Box::new(1u8));
    assert_eq!(tagged.as_ty().get_kind().bits(), 32 + 14);
    assert!(tagged.as_ty().is_tagged());
    tagged.set_tagged_data(Box::new(7u8));
    assert_eq!(tagged.get_tagged_data(), Some(&7u8));
    assert!(*tagged.get_tagged_type() == pos_t);
}

#[test]
fn missing_names_are_not_found() {
    let t = pair_of_f64(&["a", "b"]);
    assert_eq!(t.get_field("c").index, INVALID_NAME);
    assert_eq!(t.get_field("c").get_name(), None);
    let p = get::<i32>();
    assert_eq!(p.get_field("a").index, INVALID_NAME);
}

#[test]
fn the_first_of_two_equal_names_is_found() {
    let t = pair_of_f64(&["a", "a"]);
    assert_eq!(t.get_field("a").index, 0);
}

#[test]
fn only_the_first_components_are_named() {
    let t = pair_of_f64(&["a"]);
    let mut fields = t.fields();
    assert_eq!(fields.next().unwrap().get_name(), Some("a"));
    assert_eq!(fields.next().unwrap().get_name(), None);
    let mut p = get::<i32>();
    p.set_names(&["a"]);
    assert!(p == get::<i32>());
}

#[test]
fn signatures_show_parameters_and_return_type() {
    let i = get::<i32>();
    let u = get::<u8>();
    let sig = Type::new_signature(Abi::CDecl, &u, &mut [&i, &i]);
    assert!(sig.is_signature());
    assert!(sig.get_return().unwrap() == &u);
    assert!(sig.get_ref().is_none());
    assert_eq!(sig.fields().size_hint().0, 0);
    let mut params = sig.params();
    assert_eq!(params.size_hint().0, 2);
    assert!(params.next().unwrap() == &i);
    assert!(params.next().unwrap() == &i);
    assert!(params.next().is_none());
    assert_eq!(sig.describe(), "fn(i32, i32)");
    let void = get::<()>();
    let proc_sig = Type::new_signature(Abi::CDecl, &void, &mut []);
    assert_eq!(proc_sig.describe(), "fn()");
}

#[test]
fn pointers_and_compounds_describe_their_parts() {
    let i = get::<i64>();
    let ptr = Type::new_pointer(&i);
    assert!(ptr.is_pointer());
    assert!(ptr.get_ref().unwrap() == &i);
    assert!(ptr.get_return().is_none());
    assert_eq!(ptr.describe(), "&mut&mut i64");
    let s = Type::new_struct(&mut [&i, &ptr]);
    assert!(s.is_struct());
    assert_eq!(s.describe(), "(i64, &mut&mut i64)");
    let u = Type::new_union(&mut [&i]);
    assert!(u.is_union());
    assert_eq!(u.describe(), "(i64)");
    assert_eq!(typecs::get_void_ptr().describe(), "&mut&mut ()");
}

#[test]
fn kinds_classify_types() {
    assert!(get::<i32>().is_primitive());
    assert!(typecs::get_nfloat().is_primitive());
    assert!(!typecs::get_void_ptr().is_primitive());
    assert_eq!(typecs::get_sys_int().get_kind().bits(), 32 + 10015);
    assert_eq!(get::<u64>().get_kind().bits(), 10);
    assert_eq!(typecs::get_void().get_kind().bits(), 0);
}

#[test]
fn abi_defaults_to_cdecl() {
    assert_eq!(Abi::default(), Abi::CDecl);
}

struct NoteDrop(std::rc::Rc<std::cell::Cell<bool>>);

impl Drop for NoteDrop {
    fn drop(&mut self) {
        self.0.set(true)
    }
}

#[test]
fn test_panic_tags() {
    let pos_t = pair_of_f64(&["x", "y"]);
    let kind = pos_t.get_kind();
    let dropped = std::rc::Rc::new(std::cell::Cell::new(false));
    let tagged = TaggedType::new(&pos_t, kind, Box::new(NoteDrop(dropped.clone())));
    assert!(tagged.get_tagged_data().is_some());
    assert!(!dropped.get());
    drop(tagged);
    assert!(dropped.get());
}

#[test]
fn signature_params_come_back_in_order() {
    let a = get::<i8>();
    let b = get::<u64>();
    let c = get::<bool>();
    let ret = get::<i32>();
    let sig = Type::new_signature(Abi::CDecl, &ret, &mut [&a, &b, &c]);
    let mut params = sig.params();
    assert!(params.next().unwrap() == &a);
    assert!(params.next().unwrap() == &b);
    assert!(params.next().unwrap() == &c);
    assert!(params.next().is_none());
    assert!(sig.get_return().unwrap() == &ret);
    assert!(sig.is_signature());
}

#[test]
fn type_names_give_descriptors() {
    assert!(type_of_name("i32").unwrap() == get::<i32>());
    assert!(type_of_name("usize").unwrap() == get::<usize>());
    assert!(type_of_name("bool").unwrap() == get::<bool>());
    assert!(type_of_name("char").unwrap() == get::<char>());
    assert!(type_of_name("f64").unwrap() == typecs::get_float64());
    assert!(type_of_name("&u8").unwrap() == typecs::get_void_ptr());
    assert!(type_of_name("*const Foo").unwrap() == typecs::get_void_ptr());
    assert!(type_of_name("Position").is_none());
    assert!(type_of_name("").is_none());
}

#[test]
fn derived_structs_are_named_structures() {
    let t = derive_struct_type(&[typecs::get_float64(), get::<i32>()], &["x", "y"]);
    assert!(t.is_struct());
    assert_eq!(t.describe(), "(f64, i32)");
    assert_eq!(t.get_field("y").index, 1);
    let u = derive_struct_type(&[get::<u8>()], &[]);
    assert_eq!(u.fields().next().unwrap().get_name(), None);
}
