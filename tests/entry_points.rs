use derive_ocaml::attrs::{AttrError, MetaItem};
use derive_ocaml::entry::{
    args_names, args_to_rust_vars, complete_call, on_panic, plan_entry, CallResult, Completion, EntryError, FnArg,
    FnDecl, PanicAction, ParamPattern,
};
use derive_ocaml::guest::GuestValue;

fn named(name: &str, ty: &str) -> FnArg {
    FnArg::Typed {
        pat: ParamPattern::Ident { name: name.to_string(), by_ref: false, has_subpattern: false },
        ty: Some(ty.to_string()),
    }
}

fn wild(ty: &str) -> FnArg {
    FnArg::Typed { pat: ParamPattern::Wild, ty: Some(ty.to_string()) }
}

fn decl(inputs: Vec<FnArg>) -> FnDecl {
    FnDecl {
        name: "sum".to_string(),
        is_public: true,
        n_generics: 0,
        variadic: false,
        inputs,
        output: Some("Triple".to_string()),
    }
}

fn exn(name: &str) -> Vec<MetaItem> {
    vec![MetaItem::NameStr("ffi_exn".to_string(), name.to_string())]
}

#[test]
fn sum_entry_plan() {
    let plan = plan_entry(&vec![], &decl(vec![named("a", "Triple"), named("b", "Triple")])).ok().unwrap();
    assert_eq!(plan.name, "sum");
    assert_eq!(plan.output, Some("Triple".to_string()));
    assert_eq!(plan.ffi_exn, None);
    assert_eq!(plan.params.len(), 2);
    assert_eq!(args_names(&plan.params), vec!["a".to_string(), "b".to_string()]);
    assert_eq!(
        args_to_rust_vars(&plan.params),
        vec![("a".to_string(), "Triple".to_string()), ("b".to_string(), "Triple".to_string())]
    );
}

#[test]
fn wildcard_takes_a_slot_only() {
    let plan = plan_entry(&exn("E"), &decl(vec![named("a", "u8"), wild("Triple"), named("c", "i64")])).ok().unwrap();
    assert_eq!(plan.params.len(), 3);
    assert_eq!(plan.params[1].ident, None);
    assert_eq!(plan.params[1].ty, "Triple");
    assert_eq!(args_names(&plan.params), vec!["a".to_string(), "c".to_string()]);
    assert_eq!(
        args_to_rust_vars(&plan.params),
        vec![("a".to_string(), "u8".to_string()), ("c".to_string(), "i64".to_string())]
    );
    assert_eq!(plan.ffi_exn, Some("E".to_string()));
}

#[test]
fn entry_shape_errors() {
    let mut d = decl(vec![]);
    d.is_public = false;
    assert!(matches!(plan_entry(&vec![], &d), Err(EntryError::NotPublic)));
    let mut d = decl(vec![]);
    d.n_generics = 1;
    assert!(matches!(plan_entry(&vec![], &d), Err(EntryError::Generic)));
    let mut d = decl(vec![]);
    d.variadic = true;
    assert!(matches!(plan_entry(&vec![], &d), Err(EntryError::Variadic)));
    let d = decl(vec![named("a", "u8"), FnArg::Receiver]);
    assert!(matches!(plan_entry(&vec![], &d), Err(EntryError::Method { index: 1 })));
    let d = decl(vec![FnArg::Typed { pat: ParamPattern::Wild, ty: None }]);
    assert!(matches!(plan_entry(&vec![], &d), Err(EntryError::InferredType { index: 0 })));
    let d = decl(vec![FnArg::Typed { pat: ParamPattern::Other, ty: Some("u8".to_string()) }]);
    assert!(matches!(plan_entry(&vec![], &d), Err(EntryError::Pattern { index: 0 })));
    let by_ref = FnArg::Typed {
        pat: ParamPattern::Ident { name: "x".to_string(), by_ref: true, has_subpattern: false },
        ty: Some("u8".to_string()),
    };
    assert!(matches!(plan_entry(&vec![], &decl(vec![by_ref])), Err(EntryError::Pattern { index: 0 })));
}

#[test]
fn entry_option_errors_come_first() {
    let mut d = decl(vec![]);
    d.is_public = false;
    let r = plan_entry(&vec![MetaItem::Other], &d);
    assert!(matches!(r, Err(EntryError::Attr(AttrError::UnknownParameter { index: 0 }))));
}

#[test]
fn panic_raises_named_exception() {
    match on_panic(&Some("MyErr".to_string()), true) {
        PanicAction::RaiseNamed { name, payload } => {
            assert_eq!(name, "MyErr");
            assert_eq!(payload, "host ffi panic");
        }
        PanicAction::InvalidArgument { .. } => panic!("expected the named exception"),
    }
}

#[test]
fn panic_without_ffi_exn_is_invalid_argument() {
    for action in [on_panic(&None, true), on_panic(&None, false), on_panic(&Some("Gone".to_string()), false)] {
        match action {
            PanicAction::InvalidArgument { payload } => assert_eq!(payload, "no host ffi exception is registered"),
            PanicAction::RaiseNamed { .. } => panic!("expected invalid argument"),
        }
    }
}

#[test]
fn call_completion() {
    assert!(matches!(
        complete_call(CallResult::Returned(GuestValue::Immediate(3)), &None, false),
        Completion::Return(GuestValue::Immediate(3))
    ));
    assert!(matches!(complete_call(CallResult::Finished, &None, false), Completion::ReturnNothing));
    match complete_call(CallResult::Panicked, &Some("MyErr".to_string()), true) {
        Completion::Raise(PanicAction::RaiseNamed { name, payload }) => {
            assert_eq!(name, "MyErr");
            assert_eq!(payload, "host ffi panic");
        }
        _ => panic!("expected a raise"),
    }
}
