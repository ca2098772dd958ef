//! The guest runtime's value representation, as the generated code sees it.
use vstd::prelude::*;

verus! {

/// Tag byte of a block that holds raw doubles.
pub const DOUBLE_ARRAY_TAG: u8 = 254;

/// Largest tag available to a block variant.
pub const MAX_BLOCK_TAG: u8 = 245;

/// A guest value: an immediate integer, a tagged block of slots, or a block of
/// doubles (each double held as its IEEE-754 bit pattern).
#[derive(Debug)]
pub enum GuestValue {
    Immediate(i64),
    Block(u8, Vec<GuestValue>),
    Doubles(Vec<u64>),
}

/// The top level of a guest value: the slots of a block are guest values in turn.
pub enum GuestView {
    Immediate(i64),
    Block(u8, Seq<GuestValue>),
    Doubles(Seq<u64>),
}

impl View for GuestValue {
    type V = GuestView;

    open spec fn view(&self) -> GuestView {
        match self {
            GuestValue::Immediate(n) => GuestView::Immediate(*n),
            GuestValue::Block(t, slots) => GuestView::Block(*t, slots@),
            GuestValue::Doubles(ds) => GuestView::Doubles(ds@),
        }
    }
}

/// The canonical unit immediate.
pub open spec fn unit_spec() -> GuestValue {
    GuestValue::Immediate(0)
}

pub fn unit() -> (r: GuestValue)
    ensures
        r == unit_spec(),
{
    GuestValue::Immediate(0)
}

impl GuestValue {
    /// Whether the value is a heap block (as opposed to an immediate).
    pub open spec fn is_block_spec(&self) -> bool {
        !(self is Immediate)
    }

    pub fn is_block(&self) -> (r: bool)
        ensures
            r == self.is_block_spec(),
    {
        match self {
            GuestValue::Immediate(_) => false,
            _ => true,
        }
    }

    /// The runtime tag byte of a block.
    pub open spec fn tag_spec(&self) -> Option<u8> {
        match self {
            GuestValue::Immediate(_) => None,
            GuestValue::Block(t, _) => Some(*t),
            GuestValue::Doubles(_) => Some(DOUBLE_ARRAY_TAG),
        }
    }

    pub fn tag(&self) -> (r: Option<u8>)
        ensures
            r == self.tag_spec(),
    {
        match self {
            GuestValue::Immediate(_) => None,
            GuestValue::Block(t, _) => Some(*t),
            GuestValue::Doubles(_) => Some(DOUBLE_ARRAY_TAG),
        }
    }

    /// Number of slots of a block; zero for an immediate.
    pub open spec fn size_spec(&self) -> nat {
        match self {
            GuestValue::Immediate(_) => 0,
            GuestValue::Block(_, slots) => slots@.len(),
            GuestValue::Doubles(ds) => ds@.len(),
        }
    }

    pub fn size(&self) -> (r: usize)
        ensures
            r == self.size_spec(),
    {
        match self {
            GuestValue::Immediate(_) => 0,
            GuestValue::Block(_, slots) => slots.len(),
            GuestValue::Doubles(ds) => ds.len(),
        }
    }
}

} // verus!
