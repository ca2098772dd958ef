//! What a plan does at run time: building a guest value from a host instance
//! and reading one back.
use vstd::prelude::*;
use crate::derive::Shape;
use crate::guest::{GuestValue, GuestView, DOUBLE_ARRAY_TAG, unit, unit_spec};

verus! {

/// The fields of a host instance, each already in guest form: guest values
/// for an ordinary variant, double bit patterns for a float-array record.
pub enum Fields {
    Values(Vec<GuestValue>),
    Floats(Vec<u64>),
}

/// A host instance of an aggregate: which variant, and its fields.
pub struct Instance {
    pub variant: usize,
    pub fields: Fields,
}

pub enum FieldsView {
    Values(Seq<GuestValue>),
    Floats(Seq<u64>),
}

pub struct InstanceView {
    pub variant: usize,
    pub fields: FieldsView,
}

impl View for Fields {
    type V = FieldsView;

    open spec fn view(&self) -> FieldsView {
        match self {
            Fields::Values(vs) => FieldsView::Values(vs@),
            Fields::Floats(ds) => FieldsView::Floats(ds@),
        }
    }
}

impl View for Instance {
    type V = InstanceView;

    open spec fn view(&self) -> InstanceView {
        InstanceView { variant: self.variant, fields: self.fields@ }
    }
}

/// Whether an instance fits the plan: a known variant, with the fields its
/// shape asks for.
pub open spec fn valid_instance(shapes: Seq<Shape>, inst: InstanceView) -> bool {
    inst.variant < shapes.len() && match (shapes[inst.variant as int], inst.fields) {
        (Shape::Unit { .. }, FieldsView::Values(fs)) => fs.len() == 0,
        (Shape::Boxed { size, .. }, FieldsView::Values(fs)) => fs.len() == size,
        (Shape::Floats { size }, FieldsView::Floats(ds)) => ds.len() == size,
        (Shape::Unboxed, FieldsView::Values(fs)) => fs.len() == 1,
        _ => false,
    }
}

/// Whether `v` is the guest form of the instance under the plan.
pub open spec fn encodes(shapes: Seq<Shape>, inst: InstanceView, v: GuestValue) -> bool {
    match (shapes[inst.variant as int], inst.fields) {
        (Shape::Unit { tag }, _) => v@ == GuestView::Immediate(tag as i64),
        (Shape::Boxed { tag, .. }, FieldsView::Values(fs)) => v@ == GuestView::Block(tag, fs),
        (Shape::Floats { .. }, FieldsView::Floats(ds)) => v@ == GuestView::Doubles(ds),
        (Shape::Unboxed, FieldsView::Values(fs)) => v == fs[0],
        _ => false,
    }
}

/// A block under construction after `i` field stores: the stored fields, then
/// unit immediates in every slot not yet written.
pub open spec fn partial_block(fields: Seq<GuestValue>, i: int) -> Seq<GuestValue> {
    fields.subrange(0, i) + Seq::new((fields.len() - i) as nat, |_j: int| unit_spec())
}

/// Builds a block: allocates it, fills every slot with the unit immediate, and
/// then stores the fields in order.
pub fn build_block(tag: u8, fields: Vec<GuestValue>) -> (r: GuestValue)
    ensures
        r@ == GuestView::Block(tag, fields@),
{
    let n = fields.len();
    let mut slots: Vec<GuestValue> = Vec::new();
    let mut k: usize = 0;
    while k < n
        invariant
            k <= n,
            slots@ =~= Seq::new(k as nat, |_j: int| unit_spec()),
        decreases n - k,
    {
        slots.push(unit());
        k = k + 1;
    }
    assert(slots@ =~= partial_block(fields@, 0));
    let mut rest = fields;
    let mut i: usize = 0;
    while i < n
        invariant
            n == fields@.len(),
            i <= n,
            slots@ == partial_block(fields@, i as int),
            rest@ == fields@.subrange(i as int, n as int),
        decreases n - i,
    {
        let f = rest.remove(0);
        slots.set(i, f);
        assert(slots@ =~= partial_block(fields@, i + 1));
        assert(rest@ =~= fields@.subrange(i + 1, n as int));
        i = i + 1;
    }
    assert(slots@ =~= fields@);
    GuestValue::Block(tag, slots)
}

/// Converts a host instance to its guest value.
pub fn to_guest(shapes: &Vec<Shape>, inst: Instance) -> (r: GuestValue)
    requires
        valid_instance(shapes@, inst@),
    ensures
        encodes(shapes@, inst@, r),
{
    let shape = shapes[inst.variant];
    match (shape, inst.fields) {
        (Shape::Unit { tag }, _) => GuestValue::Immediate(tag as i64),
        (Shape::Boxed { tag, .. }, Fields::Values(fs)) => build_block(tag, fs),
        (Shape::Floats { .. }, Fields::Floats(ds)) => GuestValue::Doubles(ds),
        (Shape::Unboxed, Fields::Values(fs)) => {
            let mut fs = fs;
            let v = fs.pop();
            match v {
                Some(v) => v,
                None => {
                    proof {
                        assert(false);
                    }
                    unit()
                },
            }
        },
        _ => {
            proof {
                assert(false);
            }
            unit()
        },
    }
}

/// Why a guest value could not be read back.
#[derive(Clone, Copy, Debug, PartialEq, Eq, Structural)]
pub enum UnmarshalError {
    /// No variant has this block/immediate kind, tag and size.
    UnknownVariant,
    /// A float-array record received a block of another kind.
    ExpectedDoubleArray,
}

/// Whether a guest value has the kind, tag and size of a variant's shape.
pub open spec fn shape_matches(shape: Shape, v: GuestView) -> bool {
    match (shape, v) {
        (Shape::Unit { tag }, GuestView::Immediate(p)) => p as int == tag as int,
        (Shape::Boxed { tag, size }, GuestView::Block(t, slots)) => t == tag && slots.len() == size,
        (Shape::Floats { size }, GuestView::Doubles(ds)) => ds.len() == size,
        _ => false,
    }
}

/// The first variant at or after `i` whose shape the value has.
pub open spec fn first_match(shapes: Seq<Shape>, v: GuestView, i: int) -> Option<usize>
    decreases shapes.len() - i,
{
    if i < 0 || i >= shapes.len() {
        None
    } else if shape_matches(shapes[i], v) {
        Some(i as usize)
    } else {
        first_match(shapes, v, i + 1)
    }
}

pub open spec fn fields_of(v: GuestView) -> FieldsView {
    match v {
        GuestView::Immediate(_) => FieldsView::Values(Seq::empty()),
        GuestView::Block(_, slots) => FieldsView::Values(slots),
        GuestView::Doubles(ds) => FieldsView::Floats(ds),
    }
}

pub open spec fn is_unboxed_record(shapes: Seq<Shape>) -> bool {
    shapes.len() == 1 && shapes[0] is Unboxed
}

pub open spec fn is_floats_record(shapes: Seq<Shape>) -> bool {
    shapes.len() == 1 && shapes[0] is Floats
}

/// The host instance that a guest value stands for under the plan.
pub open spec fn decode_spec(shapes: Seq<Shape>, v: GuestValue) -> Result<InstanceView, UnmarshalError> {
    if is_unboxed_record(shapes) {
        Ok(InstanceView { variant: 0, fields: FieldsView::Values(seq![v]) })
    } else if is_floats_record(shapes) && v.is_block_spec() && v.tag_spec() != Some(DOUBLE_ARRAY_TAG) {
        Err(UnmarshalError::ExpectedDoubleArray)
    } else {
        match first_match(shapes, v@, 0) {
            Some(i) => Ok(InstanceView { variant: i, fields: fields_of(v@) }),
            None => Err(UnmarshalError::UnknownVariant),
        }
    }
}

fn shape_matches_exec(shape: Shape, v: &GuestValue) -> (r: bool)
    ensures
        r == shape_matches(shape, v@),
{
    match (shape, v) {
        (Shape::Unit { tag }, GuestValue::Immediate(p)) => *p >= 0 && (*p as u64) == (tag as u64),
        (Shape::Boxed { tag, size }, GuestValue::Block(t, slots)) => *t == tag && slots.len() == size,
        (Shape::Floats { size }, GuestValue::Doubles(ds)) => ds.len() == size,
        _ => false,
    }
}

/// Converts a guest value back to a host instance: an unboxed record takes
/// the whole value as its field; otherwise the value's kind, tag and size pick
/// the variant.
pub fn from_guest(shapes: &Vec<Shape>, v: GuestValue) -> (r: Result<Instance, UnmarshalError>)
    ensures
        match r {
            Ok(inst) => decode_spec(shapes@, v) == Ok::<InstanceView, UnmarshalError>(inst@),
            Err(e) => decode_spec(shapes@, v) == Err::<InstanceView, UnmarshalError>(e),
        },
{
    let ghost v0 = v;
    if shapes.len() == 1 {
        if let Shape::Unboxed = shapes[0] {
            let mut fs: Vec<GuestValue> = Vec::new();
            fs.push(v);
            assert(fs@ =~= seq![v0]);
            return Ok(Instance { variant: 0, fields: Fields::Values(fs) });
        }
        if let Shape::Floats { .. } = shapes[0] {
            if v.is_block() && v.tag() != Some(DOUBLE_ARRAY_TAG) {
                return Err(UnmarshalError::ExpectedDoubleArray);
            }
        }
    }
    let mut i: usize = 0;
    while i < shapes.len()
        invariant
            i <= shapes@.len(),
            v == v0,
            first_match(shapes@, v@, 0) == first_match(shapes@, v@, i as int),
        decreases shapes@.len() - i,
    {
        if shape_matches_exec(shapes[i], &v) {
            let fields = match v {
                GuestValue::Immediate(_) => {
                    let empty: Vec<GuestValue> = Vec::new();
                    assert(empty@ =~= Seq::<GuestValue>::empty());
                    let fs = Fields::Values(empty);
                    assert(fs@ == fields_of(v0@));
                    fs
                },
                GuestValue::Block(_, slots) => Fields::Values(slots),
                GuestValue::Doubles(ds) => Fields::Floats(ds),
            };
            assert(fields@ == fields_of(v0@));
            return Ok(Instance { variant: i, fields });
        }
        i = i + 1;
    }
    Err(UnmarshalError::UnknownVariant)
}

} // verus!
