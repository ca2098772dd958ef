//! Properties of the derived marshalling, proved over the plan and the
//! conversions' specifications.
use vstd::prelude::*;
use crate::derive::{DeriveError, Shape, VariantDecl, plan_spec, plan_prefix, shape_at, units_before, blocks_before, arity};
use crate::guest::{GuestValue, GuestView, DOUBLE_ARRAY_TAG, unit_spec};
use crate::marshal::{InstanceView, FieldsView, UnmarshalError, valid_instance, encodes, decode_spec, first_match, shape_matches, partial_block};

verus! {

proof fn lemma_plan_prefix(vs: Seq<VariantDecl>, k: int, s: Seq<Shape>)
    requires
        0 <= k,
        plan_prefix(vs, k) == Ok::<Seq<Shape>, DeriveError>(s),
    ensures
        s.len() == k,
        forall|i: int| 0 <= i < k ==> shape_at(vs, i) == Ok::<Shape, DeriveError>(#[trigger] s[i]),
    decreases k,
{
    if k > 0 {
        let prev = plan_prefix(vs, k - 1);
        if let Ok(p) = prev {
            lemma_plan_prefix(vs, k - 1, p);
            assert forall|i: int| 0 <= i < k implies shape_at(vs, i) == Ok::<Shape, DeriveError>(#[trigger] s[i]) by {
                if i < k - 1 {
                    assert(s[i] == p[i]);
                }
            }
        }
    }
}

/// Each shape of a successful plan is the shape of its variant.
proof fn lemma_plan_shapes(vs: Seq<VariantDecl>, shapes: Seq<Shape>)
    requires
        plan_spec(vs) == Ok::<Seq<Shape>, DeriveError>(shapes),
    ensures
        shapes.len() == vs.len(),
        forall|i: int| 0 <= i < vs.len() ==> shape_at(vs, i) == Ok::<Shape, DeriveError>(#[trigger] shapes[i]),
{
    lemma_plan_prefix(vs, vs.len() as int, shapes);
}

/// The counters only grow: a unit (block) variant before `k` leaves the count
/// at `k` above its own.
proof fn lemma_counts_grow(vs: Seq<VariantDecl>, j: int, k: int)
    requires
        0 <= j < k,
    ensures
        units_before(vs, j) + (if arity(vs[j]) == 0 { 1nat } else { 0nat }) <= units_before(vs, k),
        blocks_before(vs, j) + (if arity(vs[j]) > 0 { 1nat } else { 0nat }) <= blocks_before(vs, k),
    decreases k - j,
{
    if k > j + 1 {
        lemma_counts_grow(vs, j, k - 1);
    }
}

proof fn lemma_first_match(shapes: Seq<Shape>, v: GuestView, i: int, k: int)
    requires
        0 <= i <= k < shapes.len(),
        shape_matches(shapes[k], v),
        forall|j: int| 0 <= j < k ==> !shape_matches(#[trigger] shapes[j], v),
    ensures
        first_match(shapes, v, i) == Some(k as usize),
    decreases k - i,
{
    if i < k {
        lemma_first_match(shapes, v, i + 1, k);
    }
}

/// Tag numbering: in a successful plan, a unit variant's immediate payload is
/// the number of unit variants declared before it, and a boxed variant's block
/// tag is the number of variants with fields declared before it. The two
/// counters are independent and each starts at zero.
pub proof fn tag_numbering(vs: Seq<VariantDecl>, shapes: Seq<Shape>)
    requires
        plan_spec(vs) == Ok::<Seq<Shape>, DeriveError>(shapes),
    ensures
        shapes.len() == vs.len(),
        forall|i: int| 0 <= i < vs.len() && arity(vs[i]) == 0 ==>
            #[trigger] shapes[i] == (Shape::Unit { tag: units_before(vs, i) as usize }),
        forall|i: int| 0 <= i < vs.len() && (#[trigger] shapes[i] is Boxed) ==>
            shapes[i] == (Shape::Boxed { tag: blocks_before(vs, i) as u8, size: arity(vs[i]) as usize }),
        forall|i: int, j: int| 0 <= i < j < vs.len() && arity(vs[i]) == 0 && arity(vs[j]) == 0 ==>
            (#[trigger] shapes[i])->Unit_tag < (#[trigger] shapes[j])->Unit_tag,
{
    lemma_plan_shapes(vs, shapes);
    assert forall|i: int, j: int| 0 <= i < j < vs.len() && arity(vs[i]) == 0 && arity(vs[j]) == 0 implies
        (#[trigger] shapes[i])->Unit_tag < (#[trigger] shapes[j])->Unit_tag by {
        lemma_counts_grow(vs, i, j);
        assert(shape_at(vs, i) == Ok::<Shape, DeriveError>(shapes[i]));
        assert(shape_at(vs, j) == Ok::<Shape, DeriveError>(shapes[j]));
    }
}

/// Round trip: whatever guest value the conversion of a valid instance gives,
/// reading it back under the same plan gives that instance.
pub proof fn round_trip(vs: Seq<VariantDecl>, shapes: Seq<Shape>, inst: InstanceView, v: GuestValue)
    requires
        plan_spec(vs) == Ok::<Seq<Shape>, DeriveError>(shapes),
        valid_instance(shapes, inst),
        encodes(shapes, inst, v),
    ensures
        decode_spec(shapes, v) == Ok::<InstanceView, UnmarshalError>(inst),
{
    lemma_plan_shapes(vs, shapes);
    let k = inst.variant as int;
    assert(shape_at(vs, k) == Ok::<Shape, DeriveError>(shapes[k]));
    match shapes[k] {
        Shape::Unboxed => {
            if let FieldsView::Values(fs) = inst.fields {
                assert(seq![v] =~= fs);
            }
        },
        Shape::Floats { size } => {
            assert(shape_matches(shapes[0], v@));
            assert(first_match(shapes, v@, 0) == Some(0usize));
        },
        Shape::Unit { tag } => {
            assert forall|j: int| 0 <= j < k implies !shape_matches(#[trigger] shapes[j], v@) by {
                assert(shape_at(vs, j) == Ok::<Shape, DeriveError>(shapes[j]));
                lemma_counts_grow(vs, j, k);
            }
            lemma_first_match(shapes, v@, 0, k);
            if let FieldsView::Values(fs) = inst.fields {
                assert(fs =~= Seq::<GuestValue>::empty());
            }
        },
        Shape::Boxed { tag, size } => {
            assert forall|j: int| 0 <= j < k implies !shape_matches(#[trigger] shapes[j], v@) by {
                assert(shape_at(vs, j) == Ok::<Shape, DeriveError>(shapes[j]));
                lemma_counts_grow(vs, j, k);
            }
            lemma_first_match(shapes, v@, 0, k);
        },
    }
}

/// Unboxed identity: the guest form of an unboxed record is exactly the guest
/// form of its sole field.
pub proof fn unboxed_identity(shapes: Seq<Shape>, inst: InstanceView, v: GuestValue)
    requires
        valid_instance(shapes, inst),
        shapes[inst.variant as int] is Unboxed,
    ensures
        encodes(shapes, inst, v) <==> (inst.fields is Values && v == inst.fields->Values_0[0]),
{
}

/// Float-array layout: the guest form of a float-array record is a block with
/// the double-array tag and one slot per field, holding the fields in order.
pub proof fn float_array_layout(shapes: Seq<Shape>, inst: InstanceView, v: GuestValue)
    requires
        valid_instance(shapes, inst),
        shapes[inst.variant as int] is Floats,
        encodes(shapes, inst, v),
    ensures
        v.is_block_spec(),
        v.tag_spec() == Some(DOUBLE_ARRAY_TAG),
        v.size_spec() == shapes[inst.variant as int]->Floats_size,
        inst.fields is Floats && v@ == GuestView::Doubles(inst.fields->Floats_0),
{
}

/// Root safety: while a boxed value is built, after the allocation and before
/// each field store, every slot not yet written holds the unit immediate and
/// every slot written holds its field; the block starts all units and ends as
/// the fields.
pub proof fn partial_block_safe(fields: Seq<GuestValue>, i: int)
    requires
        0 <= i <= fields.len(),
    ensures
        partial_block(fields, i).len() == fields.len(),
        forall|j: int| i <= j < fields.len() ==> #[trigger] partial_block(fields, i)[j] == unit_spec(),
        forall|j: int| 0 <= j < i ==> #[trigger] partial_block(fields, i)[j] == fields[j],
        partial_block(fields, fields.len() as int) == fields,
{
    assert(partial_block(fields, fields.len() as int) =~= fields);
}

} // verus!
