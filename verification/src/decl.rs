//! The declaration of a record, as far as generation reads it: its name, its
//! type parameters, its directives and its fields.

use vstd::prelude::*;
use vstd::string::*;
use crate::directive::Directive;
use crate::text::{join, text_is, texts};

verus! {

/// A type as it stands in a declaration.
#[derive(Debug, PartialEq, Eq)]
pub struct Ty {
    /// The type as it is written.
    pub text: String,
    /// The name of the first segment, where the type is a path.
    pub head: Option<String>,
    /// The first type in the angle brackets of that segment.
    pub inner: Option<Box<Ty>>,
}

/// Who can see a generated item.
#[derive(Debug, PartialEq, Eq)]
pub enum Visibility {
    /// Everyone.
    Public,
    /// The crate.
    Crate,
    /// The module at the given path.
    Restricted(String),
    /// The module of the declaration.
    Inherited,
}

/// One field of a record.
#[derive(Debug, PartialEq, Eq)]
pub struct Field {
    /// Its name; a field of a tuple record has none.
    pub ident: Option<String>,
    pub vis: Visibility,
    pub attrs: Vec<Directive>,
    pub ty: Ty,
}

/// A bound by a trait, named by the segments of its path; `global` where the
/// path starts at the root.
#[derive(Debug, PartialEq, Eq)]
pub struct Bound {
    pub global: bool,
    pub segments: Vec<String>,
}

/// A lifetime parameter.
#[derive(Debug, PartialEq, Eq)]
pub struct LifetimeParam {
    /// Its attributes as they are written; empty where it has none.
    pub attrs: String,
    pub name: String,
    /// Its bounds as they are written; empty where it has none.
    pub bounds: String,
}

/// A type parameter.
#[derive(Debug, PartialEq, Eq)]
pub struct TyParam {
    /// Its attributes as they are written; empty where it has none.
    pub attrs: String,
    pub ident: String,
    /// Its bounds as they are written, with ` + ` between them; empty where
    /// it has none.
    pub bounds: String,
    /// The default type, as it is written.
    pub default: Option<String>,
}

/// The parameters of a declaration.
#[derive(Debug, PartialEq, Eq)]
pub struct Generics {
    pub lifetimes: Vec<LifetimeParam>,
    pub ty_params: Vec<TyParam>,
    /// The predicates of the where clause, each as it is written.
    pub predicates: Vec<String>,
}

/// A parameter as a value: its attributes, its name, its bounds and its
/// default. A lifetime has no default.
pub struct ParamView {
    pub attrs: Seq<char>,
    pub name: Seq<char>,
    pub bounds: Seq<char>,
    pub default: Option<Seq<char>>,
}

/// The parameters of a declaration as a value.
pub struct GenericsView {
    pub lifetimes: Seq<ParamView>,
    pub ty_params: Seq<ParamView>,
    pub predicates: Seq<Seq<char>>,
}

impl View for LifetimeParam {
    type V = ParamView;

    open spec fn view(&self) -> ParamView {
        ParamView { attrs: self.attrs@, name: self.name@, bounds: self.bounds@, default: None }
    }
}

impl View for TyParam {
    type V = ParamView;

    open spec fn view(&self) -> ParamView {
        ParamView {
            attrs: self.attrs@,
            name: self.ident@,
            bounds: self.bounds@,
            default: match self.default {
                Some(text) => Some(text@),
                None => None,
            },
        }
    }
}

impl View for Generics {
    type V = GenericsView;

    open spec fn view(&self) -> GenericsView {
        GenericsView {
            lifetimes: Seq::new(self.lifetimes@.len(), |k: int| self.lifetimes@[k]@),
            ty_params: Seq::new(self.ty_params@.len(), |k: int| self.ty_params@[k]@),
            predicates: texts(self.predicates@),
        }
    }
}

/// Where a path starts.
#[derive(Clone, Copy, Debug, PartialEq, Eq, Structural)]
pub enum Globalization {
    /// At the root.
    Global,
    /// At the place of use.
    Local,
}

/// What a declaration declares.
#[derive(Debug, PartialEq, Eq)]
pub enum Body {
    /// A record, with its fields in order.
    Record(Vec<Field>),
    /// Anything else.
    Other,
}

/// A declaration that asks for a builder.
#[derive(Debug, PartialEq, Eq)]
pub struct Declaration {
    pub ident: String,
    pub vis: Visibility,
    pub attrs: Vec<Directive>,
    pub generics: Generics,
    pub body: Body,
}

impl Ty {
    /// Whether the type is optional: a path that starts with `Option`.
    pub open spec fn optional(self) -> bool {
        self.head matches Some(name) && name@ == "Option"@
    }

    /// The type of the value that an optional type may hold.
    pub open spec fn held(self) -> Option<Ty> {
        if self.optional() {
            match self.inner {
                Some(inner) => Some(*inner),
                None => None,
            }
        } else {
            None
        }
    }
}

/// Tells whether a field of this type is optional: whether the type is a path
/// whose first segment is `Option`.
pub fn is_option(ty: &Ty) -> (optional: bool)
    ensures
        optional == ty.optional(),
{
    match &ty.head {
        Some(name) => text_is(name.as_str(), "Option"),
        None => false,
    }
}

/// The type inside an optional type, the one that its setter takes; nothing
/// where the type is not optional or holds no type in angle brackets.
pub fn unwrap_from_option(ty: &Ty) -> (held: Option<&Ty>)
    ensures
        match held {
            Some(inner) => ty.held() == Some(*inner),
            None => ty.held() is None,
        },
{
    if is_option(ty) {
        match &ty.inner {
            Some(inner) => Some(&**inner),
            None => None,
        }
    } else {
        None
    }
}

/// The optional type that holds `ty`: `Option<ty>`.
pub fn wrap_into_option(ty: Ty) -> (wrapped: Ty)
    ensures
        wrapped.text@ == "Option<"@ + ty.text@ + ">"@,
        wrapped.optional(),
        wrapped.held() == Some(ty),
{
    let mut text = join("Option<", ty.text.as_str());
    text.append(">");
    Ty { text, head: Some(String::from_str("Option")), inner: Some(Box::new(ty)) }
}

/// A type parameter that is only a name: no attributes, no bounds, no
/// default.
pub fn plain_ty_param(ident: String) -> (param: TyParam)
    ensures
        param.ident == ident,
        param.attrs@ == Seq::<char>::empty(),
        param.bounds@ == Seq::<char>::empty(),
        param.default is None,
{
    TyParam { attrs: String::new(), ident, bounds: String::new(), default: None }
}

/// A field that only the builder can see, with the given name and type and
/// no directives.
pub fn priv_field(ident: String, ty: Ty) -> (field: Field)
    ensures
        field.ident == Some(ident),
        field.vis == Visibility::Inherited,
        field.attrs@.len() == 0,
        field.ty == ty,
{
    Field { ident: Some(ident), vis: Visibility::Inherited, attrs: Vec::new(), ty }
}

/// Puts type parameters in front of those that `generics` has.
pub fn add_ty_params(generics: &mut Generics, ty_params: Vec<TyParam>)
    ensures
        final(generics).ty_params@ == ty_params@ + old(generics).ty_params@,
        final(generics).lifetimes == old(generics).lifetimes,
        final(generics).predicates == old(generics).predicates,
{
    let mut all = ty_params;
    let mut rest: Vec<TyParam> = Vec::new();
    std::mem::swap(&mut rest, &mut generics.ty_params);
    all.append(&mut rest);
    generics.ty_params = all;
}

/// The bound by the trait at the path of the given segments.
pub fn ty_param_bound(segments: Vec<String>, global: Globalization) -> (bound: Bound)
    ensures
        bound.global == (global == Globalization::Global),
        bound.segments == segments,
{
    Bound { global: global == Globalization::Global, segments }
}

impl Ty {
    /// A copy of the type.
    pub fn duplicate(&self) -> (copy: Ty)
        ensures
            copy == *self,
        decreases self,
    {
        let head = match &self.head {
            Some(name) => Some(name.clone()),
            None => None,
        };
        let inner = match &self.inner {
            Some(inner) => Some(Box::new((&**inner).duplicate())),
            None => None,
        };
        Ty { text: self.text.clone(), head, inner }
    }
}

impl Generics {
    /// A copy of the parameters.
    pub fn duplicate(&self) -> (copy: Generics)
        ensures
            copy@ == self@,
    {
        let mut lifetimes: Vec<LifetimeParam> = Vec::new();
        let mut i: usize = 0;
        while i < self.lifetimes.len()
            invariant
                i <= self.lifetimes.len(),
                lifetimes@.len() == i,
                forall|k: int| 0 <= k < i ==> lifetimes@[k]@ == self.lifetimes@[k]@,
            decreases self.lifetimes.len() - i,
        {
            let param = &self.lifetimes[i];
            lifetimes.push(
                LifetimeParam {
                    attrs: param.attrs.clone(),
                    name: param.name.clone(),
                    bounds: param.bounds.clone(),
                },
            );
            i += 1;
        }
        let mut ty_params: Vec<TyParam> = Vec::new();
        let mut j: usize = 0;
        while j < self.ty_params.len()
            invariant
                j <= self.ty_params.len(),
                ty_params@.len() == j,
                forall|k: int| 0 <= k < j ==> ty_params@[k]@ == self.ty_params@[k]@,
            decreases self.ty_params.len() - j,
        {
            let param = &self.ty_params[j];
            let default = match &param.default {
                Some(text) => Some(text.clone()),
                None => None,
            };
            ty_params.push(
                TyParam {
                    attrs: param.attrs.clone(),
                    ident: param.ident.clone(),
                    bounds: param.bounds.clone(),
                    default,
                },
            );
            j += 1;
        }
        let mut predicates: Vec<String> = Vec::new();
        let mut n: usize = 0;
        while n < self.predicates.len()
            invariant
                n <= self.predicates.len(),
                predicates@.len() == n,
                forall|k: int| 0 <= k < n ==> predicates@[k]@ == self.predicates@[k]@,
            decreases self.predicates.len() - n,
        {
            predicates.push(self.predicates[n].clone());
            n += 1;
        }
        let copy = Generics { lifetimes, ty_params, predicates };
        proof {
            assert(copy@.lifetimes =~= self@.lifetimes);
            assert(copy@.ty_params =~= self@.ty_params);
            assert(copy@.predicates =~= self@.predicates);
        }
        copy
    }
}

} // verus!
