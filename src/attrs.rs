//! The attribute vocabulary: representation options on aggregate variants and
//! options of an entry point.
use vstd::prelude::*;

verus! {

/// One item inside an attribute's parentheses.
pub enum MetaItem {
    /// A bare word, such as `unboxed`.
    Word(String),
    /// `name = "text"`, with a string literal on the right.
    NameStr(String, String),
    /// Anything else (a nested list, a literal, a non-string value).
    Other,
}

/// An attribute as written on a declaration: its path segments and, when it
/// takes a parenthesised list, the list's items.
pub struct Attribute {
    pub path: Vec<String>,
    pub args: Option<Vec<MetaItem>>,
}

/// The representation options of one variant.
#[derive(Clone, Copy, Debug, PartialEq, Eq, Structural)]
pub struct Attrs {
    pub unboxed: bool,
    pub floats: bool,
}

/// Why an attribute could not be read.
#[derive(Clone, Copy, Debug, PartialEq, Eq, Structural)]
pub enum AttrError {
    /// The representation attribute does not take a parenthesised list.
    NotAList,
    /// `unboxed` and `floats_array` both given.
    Conflicting { index: usize },
    /// The item at this position is not part of the vocabulary.
    UnknownParameter { index: usize },
}

/// The options of an entry point.
pub struct EntryAttrs {
    pub ffi_exn: Option<String>,
}

pub open spec fn no_attrs() -> Attrs {
    Attrs { unboxed: false, floats: false }
}

/// Whether a path names the representation attribute.
pub open spec fn is_host_path(path: Seq<String>) -> bool {
    path.len() == 1 && path[0]@ == "ocaml"@
}

/// Reading the item at `index` on top of the options read so far.
pub open spec fn attr_step(acc: Attrs, item: MetaItem, index: usize) -> Result<Attrs, AttrError> {
    match item {
        MetaItem::Word(w) => if w@ == "unboxed"@ {
            if acc.floats {
                Err(AttrError::Conflicting { index })
            } else {
                Ok(Attrs { unboxed: true, ..acc })
            }
        } else if w@ == "floats_array"@ {
            if acc.unboxed {
                Err(AttrError::Conflicting { index })
            } else {
                Ok(Attrs { floats: true, ..acc })
            }
        } else {
            Err(AttrError::UnknownParameter { index })
        },
        _ => Err(AttrError::UnknownParameter { index }),
    }
}

/// The options given by a list of items, read left to right; the first bad
/// item is the error.
pub open spec fn parse_items(items: Seq<MetaItem>) -> Result<Attrs, AttrError>
    decreases items.len(),
{
    if items.len() == 0 {
        Ok(no_attrs())
    } else {
        match parse_items(items.drop_last()) {
            Ok(acc) => attr_step(acc, items.last(), (items.len() - 1) as usize),
            Err(e) => Err(e),
        }
    }
}

/// The options of a variant: those of its first representation attribute, or
/// none when it has no such attribute.
pub open spec fn variant_attrs_spec(attrs: Seq<Attribute>) -> Result<Attrs, AttrError>
    decreases attrs.len(),
{
    if attrs.len() == 0 {
        Ok(no_attrs())
    } else if is_host_path(attrs[0].path@) {
        match attrs[0].args {
            Some(items) => parse_items(items@),
            None => Err(AttrError::NotAList),
        }
    } else {
        variant_attrs_spec(attrs.drop_first())
    }
}

/// The exception name that a list of entry-point options gives: the last
/// `ffi_exn = "..."`; any other item is an error.
pub open spec fn entry_exn_spec(items: Seq<MetaItem>) -> Result<Option<Seq<char>>, AttrError>
    decreases items.len(),
{
    if items.len() == 0 {
        Ok(None)
    } else {
        match entry_exn_spec(items.drop_last()) {
            Err(e) => Err(e),
            Ok(prev) => match items.last() {
                MetaItem::NameStr(n, v) => if n@ == "ffi_exn"@ {
                    Ok(Some(v@))
                } else {
                    Err(AttrError::UnknownParameter { index: (items.len() - 1) as usize })
                },
                _ => Err(AttrError::UnknownParameter { index: (items.len() - 1) as usize }),
            },
        }
    }
}

/// An error met on a prefix of the items is the error of the whole list.
proof fn lemma_items_error_sticks(items: Seq<MetaItem>, j: int, k: int)
    requires
        0 <= j <= k <= items.len(),
        parse_items(items.subrange(0, j)) is Err,
    ensures
        parse_items(items.subrange(0, k)) == parse_items(items.subrange(0, j)),
    decreases k - j,
{
    if k > j {
        lemma_items_error_sticks(items, j, k - 1);
        assert(items.subrange(0, k).drop_last() =~= items.subrange(0, k - 1));
    }
}

/// An error met on a prefix of the entry options is the error of the whole list.
proof fn lemma_exn_error_sticks(items: Seq<MetaItem>, j: int, k: int)
    requires
        0 <= j <= k <= items.len(),
        entry_exn_spec(items.subrange(0, j)) is Err,
    ensures
        entry_exn_spec(items.subrange(0, k)) == entry_exn_spec(items.subrange(0, j)),
    decreases k - j,
{
    if k > j {
        lemma_exn_error_sticks(items, j, k - 1);
        assert(items.subrange(0, k).drop_last() =~= items.subrange(0, k - 1));
    }
}

fn is_host_attr(a: &Attribute) -> (r: bool)
    ensures
        r == is_host_path(a.path@),
{
    let host = "ocaml".to_owned();
    a.path.len() == 1 && a.path[0] == host
}

/// Reads the options of a list of items.
pub fn parse_attr_items(items: &Vec<MetaItem>) -> (r: Result<Attrs, AttrError>)
    ensures
        r == parse_items(items@),
{
    let unboxed_kw = "unboxed".to_owned();
    let floats_kw = "floats_array".to_owned();
    let mut acc = Attrs { unboxed: false, floats: false };
    let mut i: usize = 0;
    while i < items.len()
        invariant
            i <= items@.len(),
            parse_items(items@.subrange(0, i as int)) == Ok::<Attrs, AttrError>(acc),
            unboxed_kw@ == "unboxed"@,
            floats_kw@ == "floats_array"@,
        decreases items@.len() - i,
    {
        assert(items@.subrange(0, i + 1).drop_last() =~= items@.subrange(0, i as int));
        match &items[i] {
            MetaItem::Word(w) => {
                if *w == unboxed_kw {
                    if acc.floats {
                        proof {
                            lemma_items_error_sticks(items@, i + 1, items@.len() as int);
                            assert(items@.subrange(0, items@.len() as int) =~= items@);
                        }
                        return Err(AttrError::Conflicting { index: i });
                    }
                    acc.unboxed = true;
                } else if *w == floats_kw {
                    if acc.unboxed {
                        proof {
                            lemma_items_error_sticks(items@, i + 1, items@.len() as int);
                            assert(items@.subrange(0, items@.len() as int) =~= items@);
                        }
                        return Err(AttrError::Conflicting { index: i });
                    }
                    acc.floats = true;
                } else {
                    proof {
                        lemma_items_error_sticks(items@, i + 1, items@.len() as int);
                        assert(items@.subrange(0, items@.len() as int) =~= items@);
                    }
                    return Err(AttrError::UnknownParameter { index: i });
                }
            },
            _ => {
                proof {
                    lemma_items_error_sticks(items@, i + 1, items@.len() as int);
                    assert(items@.subrange(0, items@.len() as int) =~= items@);
                }
                return Err(AttrError::UnknownParameter { index: i });
            },
        }
        i = i + 1;
    }
    assert(items@.subrange(0, i as int) =~= items@);
    Ok(acc)
}

/// Reads the representation options of a variant from its attributes.
pub fn variant_attrs(attrs: &Vec<Attribute>) -> (r: Result<Attrs, AttrError>)
    ensures
        r == variant_attrs_spec(attrs@),
{
    let mut i: usize = 0;
    assert(attrs@.subrange(0, attrs@.len() as int) =~= attrs@);
    while i < attrs.len()
        invariant
            i <= attrs@.len(),
            variant_attrs_spec(attrs@) == variant_attrs_spec(attrs@.subrange(i as int, attrs@.len() as int)),
        decreases attrs@.len() - i,
    {
        let ghost rest = attrs@.subrange(i as int, attrs@.len() as int);
        assert(rest.drop_first() =~= attrs@.subrange(i + 1, attrs@.len() as int));
        assert(rest[0] == attrs@[i as int]);
        if is_host_attr(&attrs[i]) {
            return match &attrs[i].args {
                Some(items) => parse_attr_items(items),
                None => Err(AttrError::NotAList),
            };
        }
        i = i + 1;
    }
    Ok(Attrs { unboxed: false, floats: false })
}

/// Reads the options of an entry point.
pub fn parse_attr_args(items: &Vec<MetaItem>) -> (r: Result<EntryAttrs, AttrError>)
    ensures
        match (r, entry_exn_spec(items@)) {
            (Ok(a), Ok(e)) => match (a.ffi_exn, e) {
                (Some(s), Some(t)) => s@ == t,
                (None, None) => true,
                _ => false,
            },
            (Err(x), Err(y)) => x == y,
            _ => false,
        },
{
    let exn_kw = "ffi_exn".to_owned();
    let mut ffi_exn: Option<String> = None;
    let mut i: usize = 0;
    while i < items.len()
        invariant
            i <= items@.len(),
            exn_kw@ == "ffi_exn"@,
            match entry_exn_spec(items@.subrange(0, i as int)) {
                Ok(Some(t)) => ffi_exn is Some && ffi_exn->Some_0@ == t,
                Ok(None) => ffi_exn is None,
                Err(_) => false,
            },
        decreases items@.len() - i,
    {
        assert(items@.subrange(0, i + 1).drop_last() =~= items@.subrange(0, i as int));
        match &items[i] {
            MetaItem::NameStr(n, v) => {
                if *n == exn_kw {
                    ffi_exn = Some(v.clone());
                } else {
                    proof {
                        lemma_exn_error_sticks(items@, i + 1, items@.len() as int);
                        assert(items@.subrange(0, items@.len() as int) =~= items@);
                    }
                    return Err(AttrError::UnknownParameter { index: i });
                }
            },
            _ => {
                proof {
                    lemma_exn_error_sticks(items@, i + 1, items@.len() as int);
                    assert(items@.subrange(0, items@.len() as int) =~= items@);
                }
                return Err(AttrError::UnknownParameter { index: i });
            },
        }
        i = i + 1;
    }
    assert(items@.subrange(0, i as int) =~= items@);
    Ok(EntryAttrs { ffi_exn })
}

} // verus!
