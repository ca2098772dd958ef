//! The marshalling deriver: from a declaration to a plan of one shape per
//! variant, and the conversions that the plan stands for.
use vstd::prelude::*;
use crate::attrs::{Attribute, AttrError, variant_attrs, variant_attrs_spec};
use crate::guest::MAX_BLOCK_TAG;

verus! {

/// Largest payload given to a unit variant, so that it fits an immediate on
/// every platform the guest runs on.
pub const MAX_UNIT_TAG: usize = 1073741823;

/// One variant of an aggregate: the types of its fields, as written, and its
/// attributes.
pub struct VariantDecl {
    pub field_types: Vec<String>,
    pub attrs: Vec<Attribute>,
}

/// How one variant is represented on the guest side.
#[derive(Clone, Copy, Debug, PartialEq, Eq, Structural)]
pub enum Shape {
    /// An immediate with this payload.
    Unit { tag: usize },
    /// A block with this tag and one slot per field.
    Boxed { tag: u8, size: usize },
    /// A block of doubles, one per field.
    Floats { size: usize },
    /// The guest value of the sole field.
    Unboxed,
}

/// Why a declaration cannot be derived.
#[derive(Clone, Copy, Debug, PartialEq, Eq, Structural)]
pub enum DeriveError {
    Attr { variant: usize, error: AttrError },
    /// `unboxed` or `floats_array` on a declaration with several variants.
    ReprOnEnum { variant: usize },
    /// `unboxed` on a variant without exactly one field.
    UnboxedArity { variant: usize },
    /// `floats_array` on a variant with a field that is not a float.
    FloatsFieldType { variant: usize },
    /// More variants of one kind than the guest can number.
    TooManyVariants { variant: usize },
}

pub open spec fn arity(v: VariantDecl) -> nat {
    v.field_types@.len()
}

/// Number of unit variants among the first `i`.
pub open spec fn units_before(vs: Seq<VariantDecl>, i: int) -> nat
    decreases i,
{
    if i <= 0 {
        0
    } else {
        units_before(vs, i - 1) + if arity(vs[i - 1]) == 0 { 1nat } else { 0nat }
    }
}

/// Number of variants with fields among the first `i`.
pub open spec fn blocks_before(vs: Seq<VariantDecl>, i: int) -> nat
    decreases i,
{
    if i <= 0 {
        0
    } else {
        blocks_before(vs, i - 1) + if arity(vs[i - 1]) > 0 { 1nat } else { 0nat }
    }
}

pub open spec fn is_float_type(t: Seq<char>) -> bool {
    t == "f32"@ || t == "f64"@
}

pub open spec fn all_float_types(ts: Seq<String>) -> bool {
    forall|j: int| 0 <= j < ts.len() ==> is_float_type(#[trigger] ts[j]@)
}

/// The shape of variant `i`, given whether the declaration is record-like and
/// how many unit and block variants come before it.
pub open spec fn shape_spec(v: VariantDecl, record_like: bool, units: nat, blocks: nat, i: usize) -> Result<Shape, DeriveError> {
    match variant_attrs_spec(v.attrs@) {
        Err(e) => Err(DeriveError::Attr { variant: i, error: e }),
        Ok(a) => if (a.unboxed || a.floats) && !record_like {
            Err(DeriveError::ReprOnEnum { variant: i })
        } else if a.unboxed && arity(v) != 1 {
            Err(DeriveError::UnboxedArity { variant: i })
        } else if arity(v) == 0 {
            if units > MAX_UNIT_TAG {
                Err(DeriveError::TooManyVariants { variant: i })
            } else {
                Ok(Shape::Unit { tag: units as usize })
            }
        } else if a.floats {
            if all_float_types(v.field_types@) {
                Ok(Shape::Floats { size: arity(v) as usize })
            } else {
                Err(DeriveError::FloatsFieldType { variant: i })
            }
        } else if a.unboxed {
            Ok(Shape::Unboxed)
        } else if blocks > MAX_BLOCK_TAG {
            Err(DeriveError::TooManyVariants { variant: i })
        } else {
            Ok(Shape::Boxed { tag: blocks as u8, size: arity(v) as usize })
        },
    }
}

pub open spec fn shape_at(vs: Seq<VariantDecl>, i: int) -> Result<Shape, DeriveError> {
    shape_spec(vs[i], vs.len() == 1, units_before(vs, i), blocks_before(vs, i), i as usize)
}

/// The shapes of the first `k` variants, or the first error among them.
pub open spec fn plan_prefix(vs: Seq<VariantDecl>, k: int) -> Result<Seq<Shape>, DeriveError>
    decreases k,
{
    if k <= 0 {
        Ok(Seq::empty())
    } else {
        match plan_prefix(vs, k - 1) {
            Err(e) => Err(e),
            Ok(s) => match shape_at(vs, k - 1) {
                Ok(sh) => Ok(s.push(sh)),
                Err(e) => Err(e),
            },
        }
    }
}

/// The plan of a declaration: one shape per variant, or its first error.
pub open spec fn plan_spec(vs: Seq<VariantDecl>) -> Result<Seq<Shape>, DeriveError> {
    plan_prefix(vs, vs.len() as int)
}

proof fn lemma_plan_error_sticks(vs: Seq<VariantDecl>, j: int, k: int)
    requires
        0 <= j <= k,
        plan_prefix(vs, j) is Err,
    ensures
        plan_prefix(vs, k) == plan_prefix(vs, j),
    decreases k - j,
{
    if k > j {
        lemma_plan_error_sticks(vs, j, k - 1);
    }
}

fn all_floats(ts: &Vec<String>) -> (r: bool)
    ensures
        r == all_float_types(ts@),
{
    let f32_kw = "f32".to_owned();
    let f64_kw = "f64".to_owned();
    let mut i: usize = 0;
    while i < ts.len()
        invariant
            i <= ts@.len(),
            f32_kw@ == "f32"@,
            f64_kw@ == "f64"@,
            forall|j: int| 0 <= j < i ==> is_float_type(#[trigger] ts@[j]@),
        decreases ts@.len() - i,
    {
        if !(ts[i] == f32_kw || ts[i] == f64_kw) {
            return false;
        }
        i = i + 1;
    }
    true
}

fn shape_of(v: &VariantDecl, record_like: bool, units: usize, blocks: usize, i: usize) -> (r: Result<Shape, DeriveError>)
    ensures
        r == shape_spec(*v, record_like, units as nat, blocks as nat, i),
{
    let a = match variant_attrs(&v.attrs) {
        Err(e) => {
            return Err(DeriveError::Attr { variant: i, error: e });
        },
        Ok(a) => a,
    };
    let n = v.field_types.len();
    if (a.unboxed || a.floats) && !record_like {
        Err(DeriveError::ReprOnEnum { variant: i })
    } else if a.unboxed && n != 1 {
        Err(DeriveError::UnboxedArity { variant: i })
    } else if n == 0 {
        if units > MAX_UNIT_TAG {
            Err(DeriveError::TooManyVariants { variant: i })
        } else {
            Ok(Shape::Unit { tag: units })
        }
    } else if a.floats {
        if all_floats(&v.field_types) {
            Ok(Shape::Floats { size: n })
        } else {
            Err(DeriveError::FloatsFieldType { variant: i })
        }
    } else if a.unboxed {
        Ok(Shape::Unboxed)
    } else if blocks > MAX_BLOCK_TAG as usize {
        Err(DeriveError::TooManyVariants { variant: i })
    } else {
        Ok(Shape::Boxed { tag: blocks as u8, size: n })
    }
}

/// Plans the representation of each variant of a declaration, numbering unit
/// variants and block variants with two separate counters.
pub fn plan_aggregate(variants: &Vec<VariantDecl>) -> (r: Result<Vec<Shape>, DeriveError>)
    ensures
        match r {
            Ok(s) => plan_spec(variants@) == Ok::<Seq<Shape>, DeriveError>(s@),
            Err(e) => plan_spec(variants@) == Err::<Seq<Shape>, DeriveError>(e),
        },
{
    let record_like = variants.len() == 1;
    let mut shapes: Vec<Shape> = Vec::new();
    let mut units: usize = 0;
    let mut blocks: usize = 0;
    let mut i: usize = 0;
    while i < variants.len()
        invariant
            i <= variants@.len(),
            record_like == (variants@.len() == 1),
            units == units_before(variants@, i as int),
            blocks == blocks_before(variants@, i as int),
            units + blocks == i,
            plan_prefix(variants@, i as int) == Ok::<Seq<Shape>, DeriveError>(shapes@),
        decreases variants@.len() - i,
    {
        match shape_of(&variants[i], record_like, units, blocks, i) {
            Err(e) => {
                proof {
                    lemma_plan_error_sticks(variants@, i + 1, variants@.len() as int);
                }
                return Err(e);
            },
            Ok(sh) => {
                shapes.push(sh);
            },
        }
        if variants[i].field_types.len() == 0 {
            units = units + 1;
        } else {
            blocks = blocks + 1;
        }
        i = i + 1;
    }
    Ok(shapes)
}

} // verus!
