//! Two aggregates described for the deriver: a list that is unrolled for its
//! first sizes, and an unboxed bound.
use vstd::prelude::*;
use crate::attrs::{Attribute, Attrs, AttrError, MetaItem, no_attrs, parse_items};
use crate::derive::{DeriveError, Shape, VariantDecl, plan_aggregate, plan_prefix, plan_spec, shape_at};
use crate::guest::{GuestValue, GuestView};
use crate::marshal::{Fields, Instance, to_guest};

verus! {

/// No item, one item, or many.
pub enum Unrolled<Item> {
    Empty,
    One(Item),
    Many(Vec<Item>),
}

/// A bound, represented on the guest side as the bare integer.
pub struct Bound(pub usize);

/// The guest form of an integer: an immediate.
pub open spec fn usize_guest(n: usize) -> GuestView {
    GuestView::Immediate(n as i64)
}

pub fn usize_to_guest(n: usize) -> (r: GuestValue)
    ensures
        r@ == usize_guest(n),
{
    GuestValue::Immediate(n as i64)
}

fn variant(types: Vec<String>, attrs: Vec<Attribute>) -> (r: VariantDecl)
    ensures
        r.field_types == types,
        r.attrs == attrs,
{
    VariantDecl { field_types: types, attrs }
}

impl<Item> Unrolled<Item> {
    /// The declaration as the deriver sees it: `Empty`, `One(Item)`,
    /// `Many(Vec<Item>)`, no representation attribute.
    pub fn decls() -> (r: Vec<VariantDecl>)
        ensures
            r@.len() == 3,
            r@[0].field_types@.len() == 0,
            r@[1].field_types@.len() == 1,
            r@[2].field_types@.len() == 1,
            r@[0].attrs@.len() == 0,
            r@[1].attrs@.len() == 0,
            r@[2].attrs@.len() == 0,
    {
        let mut r: Vec<VariantDecl> = Vec::new();
        r.push(variant(Vec::new(), Vec::new()));
        let mut one: Vec<String> = Vec::new();
        one.push("Item".to_owned());
        r.push(variant(one, Vec::new()));
        let mut many: Vec<String> = Vec::new();
        many.push("Vec<Item>".to_owned());
        r.push(variant(many, Vec::new()));
        r
    }
}

impl Bound {
    /// The declaration as the deriver sees it: one `usize` field, marked
    /// `ocaml(unboxed)`.
    pub fn decls() -> (r: Vec<VariantDecl>)
        ensures
            r@.len() == 1,
            r@[0].field_types@.len() == 1,
            r@[0].attrs@.len() == 1,
            r@[0].attrs@[0].path@.len() == 1,
            r@[0].attrs@[0].path@[0]@ == "ocaml"@,
            r@[0].attrs@[0].args is Some,
            r@[0].attrs@[0].args->Some_0@.len() == 1,
            r@[0].attrs@[0].args->Some_0@[0] is Word,
            r@[0].attrs@[0].args->Some_0@[0]->Word_0@ == "unboxed"@,
    {
        let mut path: Vec<String> = Vec::new();
        path.push("ocaml".to_owned());
        let mut items: Vec<MetaItem> = Vec::new();
        items.push(MetaItem::Word("unboxed".to_owned()));
        let mut attrs: Vec<Attribute> = Vec::new();
        attrs.push(Attribute { path, args: Some(items) });
        let mut types: Vec<String> = Vec::new();
        types.push("usize".to_owned());
        let mut r: Vec<VariantDecl> = Vec::new();
        r.push(variant(types, attrs));
        r
    }

    /// The guest form of the bound: that of its integer.
    pub fn to_guest(&self) -> (r: GuestValue)
        ensures
            r@ == usize_guest(self.0),
    {
        let field = usize_to_guest(self.0);
        let decls = Self::decls();
        proof {
            let items = decls@[0].attrs@[0].args->Some_0@;
            assert(items.drop_last() =~= Seq::<MetaItem>::empty());
            assert(parse_items(items.drop_last()) == Ok::<Attrs, AttrError>(no_attrs()));
            assert(items.last() == items[0]);
            assert(parse_items(items) == Ok::<Attrs, AttrError>(Attrs { unboxed: true, floats: false }));
            assert(decls@[0].attrs@.drop_first() =~= Seq::<Attribute>::empty());
            assert(shape_at(decls@, 0) == Ok::<Shape, DeriveError>(Shape::Unboxed));
            assert(plan_prefix(decls@, 0) == Ok::<Seq<Shape>, DeriveError>(Seq::empty()));
            assert(Seq::<Shape>::empty().push(Shape::Unboxed) =~= seq![Shape::Unboxed]);
            assert(plan_spec(decls@) == Ok::<Seq<Shape>, DeriveError>(seq![Shape::Unboxed]));
        }
        match plan_aggregate(&decls) {
            Ok(shapes) => {
                if shapes.len() == 1 {
                    if let Shape::Unboxed = shapes[0] {
                        let mut fs: Vec<GuestValue> = Vec::new();
                        fs.push(field);
                        return to_guest(&shapes, Instance { variant: 0, fields: Fields::Values(fs) });
                    }
                }
                proof {
                    assert(false);
                }
                usize_to_guest(self.0)
            },
            Err(_) => {
                proof {
                    assert(false);
                }
                usize_to_guest(self.0)
            },
        }
    }
}

} // verus!
