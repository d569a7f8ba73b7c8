use jit::context::Context;

#[test]
fn tagged_data_reads_back() {
    let mut ctx = Context::<usize>::new();
    ctx.set_meta(0, 42);
    ctx.set_meta(1, 21);
    assert_eq!(ctx.get_meta(0), Some(&42));
    assert_eq!(ctx.get_meta(1), Some(&21));
    assert_eq!(ctx.get_meta(2), None);
    ctx.set_meta(0, 7);
    assert_eq!(ctx.get_meta(0), Some(&7));
    assert_eq!(ctx.get_meta(1), Some(&21));
    assert_eq!(*ctx.index(0), 7);
    assert_eq!(*ctx.index(1), 21);
}

#[test]
fn a_new_context_has_no_functions() {
    let ctx = Context::<()>::new();
    let mut fs = ctx.functions();
    assert_eq!(fs.size_hint(), (0, Some(0)));
    assert_eq!(fs.next(), None);
}

#[test]
fn functions_are_counted_down() {
    use_functions();
}

fn use_functions() {
    let mut ctx = Context::<()>::new();
    let sig = jit::types::Type::new_signature(
        jit::types::Abi::CDecl,
        &jit::compile::get::<()>(),
        &mut [],
    );
    let _a = jit::function::UncompiledFunction::new(&mut ctx, &sig);
    let _b = jit::function::UncompiledFunction::new(&mut ctx, &sig);
    let mut fs = ctx.functions();
    assert_eq!(fs.size_hint(), (2, Some(2)));
    assert_eq!(fs.next(), Some(0));
    assert_eq!(fs.size_hint(), (1, Some(1)));
    assert_eq!(fs.next(), Some(1));
    assert_eq!(fs.next(), None);
}
