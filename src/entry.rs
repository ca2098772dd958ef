//! The entry-point weaver: checks a function's shape and works out what its
//! exported trampoline registers, unmarshals and raises.
use vstd::prelude::*;
use crate::attrs::{AttrError, MetaItem, entry_exn_spec, parse_attr_args};
use crate::guest::GuestValue;

verus! {

/// The pattern of a parameter.
pub enum ParamPattern {
    /// A name, possibly with `ref` or a `name @ pattern` sub-pattern.
    Ident { name: String, by_ref: bool, has_subpattern: bool },
    /// `_`
    Wild,
    /// Any other pattern.
    Other,
}

/// One parameter of a function as declared.
pub enum FnArg {
    /// `self` in any form.
    Receiver,
    /// `pattern: type`; `ty` is `None` for the inferred type `_`.
    Typed { pat: ParamPattern, ty: Option<String> },
}

/// A function declaration as written.
pub struct FnDecl {
    pub name: String,
    pub is_public: bool,
    pub n_generics: usize,
    pub variadic: bool,
    pub inputs: Vec<FnArg>,
    /// The return type, if any.
    pub output: Option<String>,
}

/// Why a function cannot become an entry point.
#[derive(Clone, Copy, Debug, PartialEq, Eq, Structural)]
pub enum EntryError {
    Attr(AttrError),
    NotPublic,
    Generic,
    Variadic,
    Method { index: usize },
    InferredType { index: usize },
    Pattern { index: usize },
}

/// A parameter of an entry point: its name (none for a wildcard) and type.
pub struct Param {
    pub ident: Option<String>,
    pub ty: String,
}

pub struct ParamView {
    pub ident: Option<Seq<char>>,
    pub ty: Seq<char>,
}

impl View for Param {
    type V = ParamView;

    open spec fn view(&self) -> ParamView {
        ParamView {
            ident: match self.ident {
                Some(s) => Some(s@),
                None => None,
            },
            ty: self.ty@,
        }
    }
}

/// What the trampoline of an entry point is made from.
pub struct EntryPlan {
    pub name: String,
    /// One per slot of the exported signature, in order.
    pub params: Vec<Param>,
    pub output: Option<String>,
    pub ffi_exn: Option<String>,
}

pub open spec fn opt_view(o: Option<String>) -> Option<Seq<char>> {
    match o {
        Some(s) => Some(s@),
        None => None,
    }
}

/// The parameter that a declared argument becomes, or why it cannot.
pub open spec fn param_spec(a: FnArg, i: usize) -> Result<ParamView, EntryError> {
    match a {
        FnArg::Receiver => Err(EntryError::Method { index: i }),
        FnArg::Typed { pat, ty } => match ty {
            None => Err(EntryError::InferredType { index: i }),
            Some(t) => match pat {
                ParamPattern::Wild => Ok(ParamView { ident: None, ty: t@ }),
                ParamPattern::Ident { name, by_ref, has_subpattern } => if !by_ref && !has_subpattern {
                    Ok(ParamView { ident: Some(name@), ty: t@ })
                } else {
                    Err(EntryError::Pattern { index: i })
                },
                ParamPattern::Other => Err(EntryError::Pattern { index: i }),
            },
        },
    }
}

/// The parameters of the first `k` arguments, or the first error among them.
pub open spec fn params_prefix(inputs: Seq<FnArg>, k: int) -> Result<Seq<ParamView>, EntryError>
    decreases k,
{
    if k <= 0 {
        Ok(Seq::empty())
    } else {
        match params_prefix(inputs, k - 1) {
            Err(e) => Err(e),
            Ok(ps) => match param_spec(inputs[k - 1], (k - 1) as usize) {
                Ok(p) => Ok(ps.push(p)),
                Err(e) => Err(e),
            },
        }
    }
}

/// The parameters of an entry point and its exception name, or the first
/// error: options, then visibility, generics, variadic marker, arguments.
pub open spec fn entry_spec(items: Seq<MetaItem>, decl: FnDecl) -> Result<(Option<Seq<char>>, Seq<ParamView>), EntryError> {
    match entry_exn_spec(items) {
        Err(e) => Err(EntryError::Attr(e)),
        Ok(exn) => if !decl.is_public {
            Err(EntryError::NotPublic)
        } else if decl.n_generics > 0 {
            Err(EntryError::Generic)
        } else if decl.variadic {
            Err(EntryError::Variadic)
        } else {
            match params_prefix(decl.inputs@, decl.inputs@.len() as int) {
                Err(e) => Err(e),
                Ok(ps) => Ok((exn, ps)),
            }
        },
    }
}

proof fn lemma_params_error_sticks(inputs: Seq<FnArg>, j: int, k: int)
    requires
        0 <= j <= k,
        params_prefix(inputs, j) is Err,
    ensures
        params_prefix(inputs, k) == params_prefix(inputs, j),
    decreases k - j,
{
    if k > j {
        lemma_params_error_sticks(inputs, j, k - 1);
    }
}

fn param_of(a: &FnArg, i: usize) -> (r: Result<Param, EntryError>)
    ensures
        match r {
            Ok(p) => param_spec(*a, i) == Ok::<ParamView, EntryError>(p@),
            Err(e) => param_spec(*a, i) == Err::<ParamView, EntryError>(e),
        },
{
    match a {
        FnArg::Receiver => Err(EntryError::Method { index: i }),
        FnArg::Typed { pat, ty } => match ty {
            None => Err(EntryError::InferredType { index: i }),
            Some(t) => match pat {
                ParamPattern::Wild => Ok(Param { ident: None, ty: t.clone() }),
                ParamPattern::Ident { name, by_ref, has_subpattern } => if !*by_ref && !*has_subpattern {
                    Ok(Param { ident: Some(name.clone()), ty: t.clone() })
                } else {
                    Err(EntryError::Pattern { index: i })
                },
                ParamPattern::Other => Err(EntryError::Pattern { index: i }),
            },
        },
    }
}

fn clone_opt(o: &Option<String>) -> (r: Option<String>)
    ensures
        opt_view(r) == opt_view(*o),
{
    match o {
        Some(s) => Some(s.clone()),
        None => None,
    }
}

/// Checks a function against the shapes an entry point may take and reads
/// its options.
pub fn plan_entry(items: &Vec<MetaItem>, decl: &FnDecl) -> (r: Result<EntryPlan, EntryError>)
    ensures
        match r {
            Ok(p) => {
                &&& entry_spec(items@, *decl) == Ok::<(Option<Seq<char>>, Seq<ParamView>), EntryError>(
                    (opt_view(p.ffi_exn), p.params@.map_values(|q: Param| q@)))
                &&& p.name@ == decl.name@
                &&& opt_view(p.output) == opt_view(decl.output)
            },
            Err(e) => entry_spec(items@, *decl) == Err::<(Option<Seq<char>>, Seq<ParamView>), EntryError>(e),
        },
{
    let attrs = match parse_attr_args(items) {
        Err(e) => {
            return Err(EntryError::Attr(e));
        },
        Ok(a) => a,
    };
    if !decl.is_public {
        return Err(EntryError::NotPublic);
    }
    if decl.n_generics > 0 {
        return Err(EntryError::Generic);
    }
    if decl.variadic {
        return Err(EntryError::Variadic);
    }
    let mut params: Vec<Param> = Vec::new();
    let mut i: usize = 0;
    assert(params@.map_values(|q: Param| q@) =~= Seq::<ParamView>::empty());
    assert(entry_exn_spec(items@) == Ok::<Option<Seq<char>>, AttrError>(opt_view(attrs.ffi_exn)));
    while i < decl.inputs.len()
        invariant
            i <= decl.inputs@.len(),
            decl.is_public && decl.n_generics == 0 && !decl.variadic,
            entry_exn_spec(items@) == Ok::<Option<Seq<char>>, AttrError>(opt_view(attrs.ffi_exn)),
            params_prefix(decl.inputs@, i as int) == Ok::<Seq<ParamView>, EntryError>(params@.map_values(|q: Param| q@)),
        decreases decl.inputs@.len() - i,
    {
        match param_of(&decl.inputs[i], i) {
            Err(e) => {
                proof {
                    lemma_params_error_sticks(decl.inputs@, i + 1, decl.inputs@.len() as int);
                }
                return Err(e);
            },
            Ok(p) => {
                let ghost before = params@;
                params.push(p);
                assert(params@.map_values(|q: Param| q@) =~= before.map_values(|q: Param| q@).push(p@));
            },
        }
        i = i + 1;
    }
    Ok(EntryPlan { name: decl.name.clone(), params, output: clone_opt(&decl.output), ffi_exn: attrs.ffi_exn })
}

/// Names registered as roots: those of the named parameters, in order.
pub open spec fn root_names_spec(ps: Seq<ParamView>) -> Seq<Seq<char>>
    decreases ps.len(),
{
    if ps.len() == 0 {
        Seq::empty()
    } else {
        let r = root_names_spec(ps.drop_last());
        match ps.last().ident {
            Some(n) => r.push(n),
            None => r,
        }
    }
}

/// Arguments unmarshalled before the call: name and type of each named
/// parameter, in order.
pub open spec fn unmarshal_spec(ps: Seq<ParamView>) -> Seq<(Seq<char>, Seq<char>)>
    decreases ps.len(),
{
    if ps.len() == 0 {
        Seq::empty()
    } else {
        let r = unmarshal_spec(ps.drop_last());
        match ps.last().ident {
            Some(n) => r.push((n, ps.last().ty)),
            None => r,
        }
    }
}

pub open spec fn params_view(ps: Seq<Param>) -> Seq<ParamView> {
    ps.map_values(|q: Param| q@)
}

/// The parameters registered as roots by name.
pub fn args_names(params: &Vec<Param>) -> (r: Vec<String>)
    ensures
        r@.map_values(|s: String| s@) == root_names_spec(params_view(params@)),
{
    let mut r: Vec<String> = Vec::new();
    let mut i: usize = 0;
    while i < params.len()
        invariant
            i <= params@.len(),
            r@.map_values(|s: String| s@) == root_names_spec(params_view(params@.subrange(0, i as int))),
        decreases params@.len() - i,
    {
        let ghost before = r@;
        assert(params_view(params@.subrange(0, i + 1)).drop_last() =~= params_view(params@.subrange(0, i as int)));
        match &params[i].ident {
            Some(n) => {
                r.push(n.clone());
                assert(r@.map_values(|s: String| s@) =~= before.map_values(|s: String| s@).push(n@));
            },
            None => {},
        }
        i = i + 1;
    }
    assert(params@.subrange(0, i as int) =~= params@);
    r
}

/// The named parameters with their types, each to be read from its guest
/// value before the call.
pub fn args_to_rust_vars(params: &Vec<Param>) -> (r: Vec<(String, String)>)
    ensures
        r@.map_values(|a: (String, String)| (a.0@, a.1@)) == unmarshal_spec(params_view(params@)),
{
    let mut r: Vec<(String, String)> = Vec::new();
    let mut i: usize = 0;
    while i < params.len()
        invariant
            i <= params@.len(),
            r@.map_values(|a: (String, String)| (a.0@, a.1@)) == unmarshal_spec(params_view(params@.subrange(0, i as int))),
        decreases params@.len() - i,
    {
        let ghost before = r@;
        assert(params_view(params@.subrange(0, i + 1)).drop_last() =~= params_view(params@.subrange(0, i as int)));
        match &params[i].ident {
            Some(n) => {
                let ty = params[i].ty.clone();
                let ghost pair = (n@, ty@);
                r.push((n.clone(), ty));
                assert(r@.map_values(|a: (String, String)| (a.0@, a.1@)) =~= before.map_values(
                    |a: (String, String)| (a.0@, a.1@),
                ).push(pair));
            },
            None => {},
        }
        i = i + 1;
    }
    assert(params@.subrange(0, i as int) =~= params@);
    r
}

/// Inserting a wildcard parameter anywhere leaves both the root list and the
/// unmarshalled arguments as they were.
proof fn lemma_wildcard_insert(ps: Seq<ParamView>, i: int, w: ParamView)
    requires
        0 <= i <= ps.len(),
        w.ident is None,
    ensures
        root_names_spec(ps.insert(i, w)) == root_names_spec(ps),
        unmarshal_spec(ps.insert(i, w)) == unmarshal_spec(ps),
    decreases ps.len(),
{
    let q = ps.insert(i, w);
    if i == ps.len() {
        assert(q.drop_last() =~= ps);
    } else {
        lemma_wildcard_insert(ps.drop_last(), i, w);
        assert(q.drop_last() =~= ps.drop_last().insert(i, w));
        assert(q.last() == ps.last());
    }
}

/// Wildcard transparency: a wildcard parameter takes a slot of the exported
/// signature but is neither registered as a root by name nor unmarshalled;
/// the lists are those of the function without it.
pub proof fn wildcard_transparency(ps: Seq<ParamView>, i: int, w: ParamView)
    requires
        0 <= i <= ps.len(),
        w.ident is None,
    ensures
        ps.insert(i, w).len() == ps.len() + 1,
        root_names_spec(ps.insert(i, w)) == root_names_spec(ps),
        unmarshal_spec(ps.insert(i, w)) == unmarshal_spec(ps),
{
    lemma_wildcard_insert(ps, i, w);
}

/// The guest exception raised when the host function panics.
pub enum PanicAction {
    /// Raise the registered named exception with a message.
    RaiseNamed { name: String, payload: String },
    /// Raise the runtime's invalid-argument exception with a message.
    InvalidArgument { payload: String },
}

/// How an entry-point call ended on the host side.
pub enum CallResult {
    /// The function returned; its result already converted.
    Returned(GuestValue),
    /// The function, which has no return type, returned.
    Finished,
    /// The function panicked; the panic was caught.
    Panicked,
}

/// What the trampoline hands back to the guest.
pub enum Completion {
    Return(GuestValue),
    ReturnNothing,
    Raise(PanicAction),
}

pub open spec fn panic_spec(ffi_exn: Option<Seq<char>>, registered: bool, a: PanicAction) -> bool {
    match ffi_exn {
        Some(n) if registered => a matches PanicAction::RaiseNamed { name, payload }
            && name@ == n && payload@ == "host ffi panic"@,
        _ => a matches PanicAction::InvalidArgument { payload }
            && payload@ == "no host ffi exception is registered"@,
    }
}

/// The exception for a caught panic: the named exception of the options when
/// there is one and the guest has registered it (`registered` is the outcome
/// of looking the name up), else the invalid-argument exception.
pub fn on_panic(ffi_exn: &Option<String>, registered: bool) -> (r: PanicAction)
    ensures
        panic_spec(opt_view(*ffi_exn), registered, r),
{
    match ffi_exn {
        Some(n) => if registered {
            return PanicAction::RaiseNamed { name: n.clone(), payload: "host ffi panic".to_owned() };
        },
        None => {},
    }
    PanicAction::InvalidArgument { payload: "no host ffi exception is registered".to_owned() }
}

/// Ends an entry-point call: a result goes back as it is, and a panic never
/// goes further than the boundary but becomes a guest exception.
pub fn complete_call(result: CallResult, ffi_exn: &Option<String>, registered: bool) -> (r: Completion)
    ensures
        match result {
            CallResult::Returned(v) => r == Completion::Return(v),
            CallResult::Finished => r is ReturnNothing,
            CallResult::Panicked => r matches Completion::Raise(a) && panic_spec(opt_view(*ffi_exn), registered, a),
        },
{
    match result {
        CallResult::Returned(v) => Completion::Return(v),
        CallResult::Finished => Completion::ReturnNothing,
        CallResult::Panicked => Completion::Raise(on_panic(ffi_exn, registered)),
    }
}

/// Panic containment: for an entry point whose options are `ffi_exn = "E"`,
/// once the guest has registered `E`, a panic in the function raises `E` with
/// the message "host ffi panic"; the trampoline still completes.
pub proof fn panic_containment(items: Seq<MetaItem>, decl: FnDecl, r: Completion)
    requires
        items.len() == 1,
        items[0] matches MetaItem::NameStr(n, _e) && n@ == "ffi_exn"@,
        entry_spec(items, decl) is Ok,
        r matches Completion::Raise(a) && panic_spec(entry_spec(items, decl)->Ok_0.0, true, a),
    ensures
        r matches Completion::Raise(PanicAction::RaiseNamed { name, payload })
            && name@ == items[0]->NameStr_1@ && payload@ == "host ffi panic"@,
{
    assert(items.drop_last() =~= Seq::<MetaItem>::empty());
}

/// Fallback: for an entry point without options, a panic raises the
/// invalid-argument exception with the message "no host ffi exception is
/// registered", whatever the guest has registered.
pub proof fn missing_exn_fallback(decl: FnDecl, registered: bool, r: Completion)
    requires
        entry_spec(Seq::empty(), decl) is Ok,
        r matches Completion::Raise(a) && panic_spec(entry_spec(Seq::empty(), decl)->Ok_0.0, registered, a),
    ensures
        r matches Completion::Raise(PanicAction::InvalidArgument { payload })
            && payload@ == "no host ffi exception is registered"@,
{
}

} // verus!
