use derive_ocaml::attrs::{AttrError, Attribute, MetaItem};
use derive_ocaml::derive::{plan_aggregate, DeriveError, Shape, VariantDecl};
use derive_ocaml::example::{usize_to_guest, Bound, Unrolled};
use derive_ocaml::guest::{unit, GuestValue, DOUBLE_ARRAY_TAG};
use derive_ocaml::marshal::{build_block, from_guest, to_guest, Fields, Instance, UnmarshalError};

fn variant(types: &[&str], attrs: &[&str]) -> VariantDecl {
    let attrs = if attrs.is_empty() {
        vec![]
    } else {
        vec![Attribute {
            path: vec!["ocaml".to_string()],
            args: Some(attrs.iter().map(|w| MetaItem::Word(w.to_string())).collect()),
        }]
    };
    VariantDecl { field_types: types.iter().map(|t| t.to_string()).collect(), attrs }
}

fn triple_decl() -> Vec<VariantDecl> {
    vec![variant(&["f32", "f32", "f32"], &["floats_array"])]
}

fn imm(v: &GuestValue) -> Option<i64> {
    match v {
        GuestValue::Immediate(n) => Some(*n),
        _ => None,
    }
}

fn values(inst: &Instance) -> &Vec<GuestValue> {
    match &inst.fields {
        Fields::Values(vs) => vs,
        Fields::Floats(_) => panic!("expected values"),
    }
}

#[test]
fn unrolled_plan_numbers_two_counters() {
    let shapes = plan_aggregate(&Unrolled::<u8>::decls()).unwrap();
    assert_eq!(
        shapes,
        vec![Shape::Unit { tag: 0 }, Shape::Boxed { tag: 0, size: 1 }, Shape::Boxed { tag: 1, size: 1 }]
    );
}

#[test]
fn mixed_arity_tags() {
    let decl = vec![
        variant(&[], &[]),
        variant(&["u8"], &[]),
        variant(&[], &[]),
        variant(&["u8", "u8"], &[]),
        variant(&[], &[]),
    ];
    let shapes = plan_aggregate(&decl).unwrap();
    assert_eq!(
        shapes,
        vec![
            Shape::Unit { tag: 0 },
            Shape::Boxed { tag: 0, size: 1 },
            Shape::Unit { tag: 1 },
            Shape::Boxed { tag: 1, size: 2 },
            Shape::Unit { tag: 2 },
        ]
    );
}

#[test]
fn unrolled_to_guest_shapes() {
    let shapes = plan_aggregate(&Unrolled::<u8>::decls()).unwrap();
    let empty = to_guest(&shapes, Instance { variant: 0, fields: Fields::Values(vec![]) });
    assert_eq!(imm(&empty), Some(0));
    let one = to_guest(&shapes, Instance { variant: 1, fields: Fields::Values(vec![GuestValue::Immediate(7)]) });
    match one {
        GuestValue::Block(0, slots) => {
            assert_eq!(slots.len(), 1);
            assert_eq!(imm(&slots[0]), Some(7));
        }
        other => panic!("unexpected {:?}", other),
    }
    let seq = GuestValue::Block(0, vec![GuestValue::Immediate(1), GuestValue::Immediate(2)]);
    let many = to_guest(&shapes, Instance { variant: 2, fields: Fields::Values(vec![seq]) });
    match many {
        GuestValue::Block(1, slots) => {
            assert_eq!(slots.len(), 1);
            assert!(matches!(&slots[0], GuestValue::Block(0, inner) if inner.len() == 2));
        }
        other => panic!("unexpected {:?}", other),
    }
}

#[test]
fn unrolled_round_trip() {
    let shapes = plan_aggregate(&Unrolled::<u8>::decls()).unwrap();
    let v = to_guest(&shapes, Instance { variant: 1, fields: Fields::Values(vec![GuestValue::Immediate(42)]) });
    let back = from_guest(&shapes, v).ok().unwrap();
    assert_eq!(back.variant, 1);
    assert_eq!(values(&back).len(), 1);
    assert_eq!(imm(&values(&back)[0]), Some(42));
    let e = to_guest(&shapes, Instance { variant: 0, fields: Fields::Values(vec![]) });
    let back = from_guest(&shapes, e).ok().unwrap();
    assert_eq!(back.variant, 0);
    assert!(values(&back).is_empty());
}

#[test]
fn unknown_variant_is_rejected() {
    let shapes = plan_aggregate(&Unrolled::<u8>::decls()).unwrap();
    assert!(matches!(from_guest(&shapes, GuestValue::Immediate(1)), Err(UnmarshalError::UnknownVariant)));
    assert!(matches!(from_guest(&shapes, GuestValue::Block(2, vec![unit()])), Err(UnmarshalError::UnknownVariant)));
    assert!(matches!(
        from_guest(&shapes, GuestValue::Block(0, vec![unit(), unit()])),
        Err(UnmarshalError::UnknownVariant)
    ));
    assert!(matches!(from_guest(&shapes, GuestValue::Doubles(vec![0])), Err(UnmarshalError::UnknownVariant)));
}

#[test]
fn triple_float_array() {
    let shapes = plan_aggregate(&triple_decl()).unwrap();
    assert_eq!(shapes, vec![Shape::Floats { size: 3 }]);
    let bits = vec![(1.0f32 as f64).to_bits(), (2.0f32 as f64).to_bits(), (3.0f32 as f64).to_bits()];
    let v = to_guest(&shapes, Instance { variant: 0, fields: Fields::Floats(bits) });
    assert_eq!(v.tag(), Some(DOUBLE_ARRAY_TAG));
    assert_eq!(v.size(), 3);
    match &v {
        GuestValue::Doubles(ds) => {
            let xs: Vec<f64> = ds.iter().map(|b| f64::from_bits(*b)).collect();
            assert_eq!(xs, vec![1.0, 2.0, 3.0]);
        }
        other => panic!("unexpected {:?}", other),
    }
    let back = from_guest(&shapes, v).ok().unwrap();
    match back.fields {
        Fields::Floats(ds) => assert_eq!(f64::from_bits(ds[2]) as f32, 3.0f32),
        Fields::Values(_) => panic!("expected floats"),
    }
}

#[test]
fn float_record_rejects_other_blocks() {
    let shapes = plan_aggregate(&triple_decl()).unwrap();
    assert!(matches!(
        from_guest(&shapes, GuestValue::Block(0, vec![unit(), unit(), unit()])),
        Err(UnmarshalError::ExpectedDoubleArray)
    ));
    assert!(matches!(from_guest(&shapes, GuestValue::Immediate(0)), Err(UnmarshalError::UnknownVariant)));
}

#[test]
fn bound_is_unboxed() {
    assert_eq!(plan_aggregate(&Bound::decls()).unwrap(), vec![Shape::Unboxed]);
    let b = Bound(17).to_guest();
    assert_eq!(imm(&b), Some(17));
    assert_eq!(imm(&b), imm(&usize_to_guest(17)));
}

#[test]
fn unboxed_reads_whole_value() {
    let shapes = plan_aggregate(&Bound::decls()).unwrap();
    let back = from_guest(&shapes, GuestValue::Block(3, vec![unit()])).ok().unwrap();
    assert_eq!(back.variant, 0);
    assert!(matches!(&values(&back)[0], GuestValue::Block(3, s) if s.len() == 1));
}

#[test]
fn build_block_keeps_field_order() {
    let b = build_block(4, vec![GuestValue::Immediate(5), GuestValue::Immediate(6), GuestValue::Immediate(7)]);
    match b {
        GuestValue::Block(4, slots) => {
            let ns: Vec<Option<i64>> = slots.iter().map(imm).collect();
            assert_eq!(ns, vec![Some(5), Some(6), Some(7)]);
        }
        other => panic!("unexpected {:?}", other),
    }
}

#[test]
fn representation_on_enum_is_rejected() {
    let decl = vec![variant(&[], &[]), variant(&["u8"], &["unboxed"])];
    assert_eq!(plan_aggregate(&decl), Err(DeriveError::ReprOnEnum { variant: 1 }));
}

#[test]
fn unboxed_needs_one_field() {
    assert_eq!(
        plan_aggregate(&vec![variant(&["u8", "u8"], &["unboxed"])]),
        Err(DeriveError::UnboxedArity { variant: 0 })
    );
    assert_eq!(plan_aggregate(&vec![variant(&[], &["unboxed"])]), Err(DeriveError::UnboxedArity { variant: 0 }));
}

#[test]
fn float_array_needs_float_fields() {
    assert_eq!(
        plan_aggregate(&vec![variant(&["f64", "u32"], &["floats_array"])]),
        Err(DeriveError::FloatsFieldType { variant: 0 })
    );
}

#[test]
fn attribute_error_names_variant() {
    let decl = vec![variant(&["u8"], &["unboxed", "floats_array"])];
    assert_eq!(
        plan_aggregate(&decl),
        Err(DeriveError::Attr { variant: 0, error: AttrError::Conflicting { index: 1 } })
    );
}

#[test]
fn too_many_block_variants() {
    let decl: Vec<VariantDecl> = (0..247).map(|_| variant(&["u8"], &[])).collect();
    assert_eq!(plan_aggregate(&decl), Err(DeriveError::TooManyVariants { variant: 246 }));
    let ok: Vec<VariantDecl> = (0..246).map(|_| variant(&["u8"], &[])).collect();
    let shapes = plan_aggregate(&ok).unwrap();
    assert_eq!(shapes[245], Shape::Boxed { tag: 245, size: 1 });
}
